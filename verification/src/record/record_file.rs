//! One JSON document per file. The file system work is done by the caller;
//! this keeps the file's path and names the temporary file that a write
//! goes through before it replaces the record file.

use vstd::prelude::*;

use crate::text::{dec_chars, dec_seq, push_all, push_str_chars, string_from_chars};

verus! {

/// A JSON record file, identified by its path.
#[derive(Debug, Clone)]
pub struct RecordFile {
    path: String,
}

impl RecordFile {
    /// The path of the file, as given to `open`.
    pub closed spec fn path_spec(&self) -> Seq<char> {
        self.path@
    }

    /// The record file at `path`. Nothing is read or created yet.
    pub fn open(path: &str) -> (r: Self)
        ensures
            r.path_spec() == path@,
    {
        RecordFile { path: String::from_str(path) }
    }

    /// The path of the file.
    pub fn path(&self) -> (r: &str)
        ensures
            r@ == self.path_spec(),
    {
        self.path.as_str()
    }
}

/// `.name.pid.nanos.tmp`: the hidden temporary file, next to the record file
/// called `name`, that a write fills before renaming it over the record.
pub open spec fn temp_file_name_spec(file_name: Seq<char>, pid: nat, nanos: nat) -> Seq<char> {
    "."@ + file_name + "."@ + dec_seq(pid) + "."@ + dec_seq(nanos) + ".tmp"@
}

/// The name of the temporary file of a write by process `pid` at `nanos`
/// nanoseconds after the Unix epoch.
pub fn temp_file_name(file_name: &str, pid: u32, nanos: u128) -> (r: String)
    ensures
        r@ == temp_file_name_spec(file_name@, pid as nat, nanos as nat),
{
    let mut out: Vec<char> = Vec::new();
    push_str_chars(&mut out, ".");
    push_str_chars(&mut out, file_name);
    push_str_chars(&mut out, ".");
    let p = dec_chars(pid as u128);
    push_all(&mut out, p.as_slice());
    push_str_chars(&mut out, ".");
    let n = dec_chars(nanos);
    push_all(&mut out, n.as_slice());
    push_str_chars(&mut out, ".tmp");
    string_from_chars(out.as_slice())
}

} // verus!
