//! Whether commands run inside the virtual machine, and its lifecycle.

use crate::text::{chars_of, has_prefix_at};
use vstd::prelude::*;

verus! {

/// `uname -a` of the virtual machine begins with these two fields.
pub open spec fn vm_fields() -> Seq<char> {
    "Linux lima-hills"@
}

/// The first field of `uname -a` is `Linux`.
pub open spec fn linux_field() -> Seq<char> {
    "Linux"@
}

/// `s` begins with the fields `p`: `p`, then the end or a space.
pub open spec fn begins_with_fields(s: Seq<char>, p: Seq<char>) -> bool {
    &&& p.len() <= s.len()
    &&& s.subrange(0, p.len() as int) == p
    &&& (s.len() == p.len() || s[p.len() as int] == ' ')
}

fn begins_with(s: &str, p: &str) -> (r: bool)
    ensures
        r == begins_with_fields(s@, p@),
{
    let x = chars_of(s);
    let y = chars_of(p);
    if !has_prefix_at(&x, 0, &y) {
        proof {
            assert(x@.subrange(0, x@.len() as int) =~= x@);
        }
        return false;
    }
    proof {
        assert(x@.subrange(0, x@.len() as int) =~= x@);
    }
    x.len() == y.len() || x[y.len()] == ' '
}

/// Whether `uname -a` printed `uname` inside the virtual machine.
pub fn on(uname: &str) -> (r: bool)
    ensures
        r == begins_with_fields(uname@, vm_fields()),
{
    begins_with(uname, "Linux lima-hills")
}

/// Whether commands must run in the virtual machine: the host, which printed
/// `uname`, is not Linux.
pub fn should(uname: &str) -> (r: bool)
    ensures
        r == !begins_with_fields(uname@, linux_field()),
{
    !begins_with(uname, "Linux")
}

pub fn login() {
}

pub fn shutdown() {
}

pub fn destroy() {
}

} // verus!
