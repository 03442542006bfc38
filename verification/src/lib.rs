//! The part of an Oracle database driver that reads a server's error
//! information from a reply and hands the output of an execution back to the
//! caller: PL/SQL OUT binds as rows, and DML RETURNING containers transposed
//! from columns into rows.

pub mod client;
pub mod error;
pub mod exec_result;
pub mod response;
pub mod row;
pub mod rowid;
pub mod statement;
pub mod transpose;
pub mod value;
