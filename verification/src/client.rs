use vstd::prelude::*;

verus! {

/// Field version of the protocol from which a reply's error information
/// carries the SQL type and the server checksum.
pub const TTC_FIELD_VERSION_20_1: u8 = 14;

/// What the connection agreed with the server about the protocol.
pub struct Client {
    ttc_field_version: u8,
}

impl Client {
    pub fn new(ttc_field_version: u8) -> (c: Self)
        ensures
            c.ttc_field_version_spec() == ttc_field_version,
    {
        Client { ttc_field_version }
    }

    pub closed spec fn ttc_field_version_spec(&self) -> u8 {
        self.ttc_field_version
    }

    /// Whether the agreed field version is at least `version`.
    pub fn supports_ttc_field_version(&self, version: u8) -> (r: bool)
        ensures
            r == (self.ttc_field_version_spec() >= version),
    {
        self.ttc_field_version >= version
    }
}

} // verus!
