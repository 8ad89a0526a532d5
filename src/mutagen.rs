//! File synchronisation between the host and the virtual machine.

use crate::text::lit;
use vstd::prelude::*;

verus! {

pub struct Mutagen {
    pub path: String,
    pub name: String,
}

pub fn new(path: String) -> (r: Mutagen)
    ensures
        r.path == path,
        r.name@ == "hills"@,
{
    Mutagen { path, name: lit("hills") }
}

} // verus!
