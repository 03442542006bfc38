use vstd::prelude::*;

verus! {

/// A value as it comes from the database: a scalar, or an array of
/// possibly-null values (a PL/SQL collection or DML RETURNING container).
#[derive(Debug, PartialEq)]
pub enum DbValue {
    Boolean(bool),
    Integer(i64),
    Text(String),
    Raw(Vec<u8>),
    Array(Vec<Option<DbValue>>),
}

/// The mathematical content of a `DbValue`.
pub enum ValueModel {
    Boolean(bool),
    Integer(i64),
    Text(Seq<char>),
    Raw(Seq<u8>),
    Array(Seq<Option<ValueModel>>),
}

pub open spec fn model(v: DbValue) -> ValueModel
    decreases v,
{
    match v {
        DbValue::Boolean(b) => ValueModel::Boolean(b),
        DbValue::Integer(i) => ValueModel::Integer(i),
        DbValue::Text(s) => ValueModel::Text(s@),
        DbValue::Raw(r) => ValueModel::Raw(r@),
        DbValue::Array(a) => ValueModel::Array(values_model(a@)),
    }
}

pub open spec fn opt_model(v: Option<DbValue>) -> Option<ValueModel>
    decreases v,
{
    match v {
        Some(x) => Some(model(x)),
        None => None,
    }
}

/// The model of a sequence of nullable values (one row, or one column).
pub open spec fn values_model(s: Seq<Option<DbValue>>) -> Seq<Option<ValueModel>>
    decreases s,
{
    Seq::new(s.len(), |i: int| if 0 <= i < s.len() { opt_model(s[i]) } else { None })
}

impl DbValue {
    pub fn duplicate(&self) -> (r: DbValue)
        ensures
            model(r) == model(*self),
        decreases self,
    {
        match self {
            DbValue::Boolean(b) => DbValue::Boolean(*b),
            DbValue::Integer(i) => DbValue::Integer(*i),
            DbValue::Text(s) => DbValue::Text(s.clone()),
            DbValue::Raw(r) => {
                let mut out: Vec<u8> = Vec::new();
                let mut i: usize = 0;
                while i < r.len()
                    invariant
                        i <= r.len(),
                        out@ == r@.take(i as int),
                    decreases r.len() - i,
                {
                    out.push(r[i]);
                    i += 1;
                }
                assert(r@.take(r@.len() as int) == r@);
                DbValue::Raw(out)
            },
            DbValue::Array(a) => {
                let mut out: Vec<Option<DbValue>> = Vec::new();
                let mut i: usize = 0;
                while i < a.len()
                    invariant
                        *self == DbValue::Array(*a),
                        i <= a.len(),
                        out@.len() == i,
                        forall|k: int| 0 <= k < i ==> opt_model(#[trigger] out@[k]) == opt_model(a@[k]),
                    decreases a.len() - i,
                {
                    let item = match &a[i] {
                        Some(x) => {
                            assert(decreases_to!(*self => (*self)->Array_0));
                            assert(decreases_to!(*a => a@));
                            assert(decreases_to!(a@ => a@[i as int]));
                            Some(x.duplicate())
                        },
                        None => None,
                    };
                    out.push(item);
                    i += 1;
                }
                let r = DbValue::Array(out);
                assert(values_model(out@) =~= values_model(a@));
                r
            },
        }
    }
}

} // verus!
