//! The `limactl` view of one instance.

use crate::text::{chars_of, has_prefix_at, line_end, line_end_at, same, slice, starts_with, string_of, trim, trim_bounds};
use vstd::prelude::*;

verus! {

pub struct Command {
    pub name: String,
}

/// States of an instance as `limactl list` reports them.
#[derive(Clone, Copy, Debug, PartialEq, Eq, Structural)]
pub enum Status {
    NotCreated,
    PowerOff,
    Aborted,
    Running,
}

pub fn new(name: String) -> (r: Command)
    ensures
        r.name == name,
{
    Command { name }
}

/// End of the field of `s` that starts at `a`: the next comma, or the end.
pub open spec fn field_end(s: Seq<char>, a: int) -> int
    decreases s.len() - a,
{
    if a >= s.len() || s[a] == ',' {
        a
    } else {
        field_end(s, a + 1)
    }
}

/// The second comma-separated field of `line`.
pub open spec fn second_field(line: Seq<char>) -> Seq<char> {
    let c = field_end(line, 0);
    line.subrange(c + 1, field_end(line, c + 1))
}

/// The second field of the first line, from the one at `a` on, that begins
/// with `key`.
pub open spec fn find_status(t: Seq<char>, key: Seq<char>, a: int) -> Option<Seq<char>>
    decreases t.len() - a,
{
    if a < 0 || a > t.len() {
        None
    } else {
        let e = line_end(t, a);
        if starts_with(t.subrange(a, e), key) {
            Some(second_field(t.subrange(a, e)))
        } else if e >= t.len() || e < a {
            None
        } else {
            find_status(t, key, e + 1)
        }
    }
}

/// The state that `limactl` writes as `f`.
pub open spec fn status_named(f: Seq<char>) -> Option<Status> {
    if f == "not_created"@ {
        Some(Status::NotCreated)
    } else if f == "poweroff"@ {
        Some(Status::PowerOff)
    } else if f == "aborted"@ {
        Some(Status::Aborted)
    } else if f == "running"@ {
        Some(Status::Running)
    } else {
        None
    }
}

/// State of the instance `name` in a listing of `name,status` lines: not
/// created when no line is for it; `None` for a state that is not known.
pub open spec fn listed_status(listing: Seq<char>, name: Seq<char>) -> Option<Status> {
    match find_status(trim(listing), name + seq![','], 0) {
        None => Some(Status::NotCreated),
        Some(f) => status_named(f),
    }
}

fn field_end_at(s: &Vec<char>, a: usize) -> (r: usize)
    requires
        a <= s@.len(),
    ensures
        r == field_end(s@, a as int),
        a <= r <= s@.len(),
{
    let mut i = a;
    while i < s.len() && s[i] != ','
        invariant
            a <= i <= s@.len(),
            field_end(s@, a as int) == field_end(s@, i as int),
        decreases s@.len() - i,
    {
        i = i + 1;
    }
    i
}

fn status_from_field(f: &str) -> (r: Option<Status>)
    ensures
        r == status_named(f@),
{
    if same(f, "not_created") {
        Some(Status::NotCreated)
    } else if same(f, "poweroff") {
        Some(Status::PowerOff)
    } else if same(f, "aborted") {
        Some(Status::Aborted)
    } else if same(f, "running") {
        Some(Status::Running)
    } else {
        None
    }
}

impl Command {
    /// State of this instance in `listing`, the output of
    /// `limactl list -f '{{.Name}},{{.Status}}'`.
    pub fn status_in(&self, listing: &str) -> (r: Option<Status>)
        ensures
            r == listed_status(listing@, self.name@),
    {
        let all = chars_of(listing);
        let (lo, hi) = trim_bounds(&all);
        let t = slice(&all, lo, hi);
        let mut key = chars_of(self.name.as_str());
        key.push(',');
        let ghost k = key@;
        let mut a: usize = 0;
        loop
            invariant
                a <= t@.len(),
                t@ == trim(listing@),
                key@ == self.name@ + seq![','],
                find_status(t@, key@, 0) == find_status(t@, key@, a as int),
            decreases t@.len() - a,
        {
            let e = line_end_at(&t, a);
            let line = slice(&t, a, e);
            let matches = has_prefix_at(&line, 0, &key);
            proof {
                assert(line@.subrange(0, line@.len() as int) =~= line@);
            }
            if matches {
                let c = field_end_at(&line, 0);
                if c >= line.len() {
                    proof {
                        assert(line@.subrange(0, key@.len() as int)[key@.len() - 1] == ',');
                        lemma_field_end_bound(line@, 0, key@.len() - 1);
                    }
                    return None;
                }
                let f_end = field_end_at(&line, c + 1);
                let f = slice(&line, c + 1, f_end);
                let fs = string_of(&f);
                return status_from_field(fs.as_str());
            }
            if e >= t.len() {
                return Some(Status::NotCreated);
            }
            a = e + 1;
        }
    }
}

/// A comma at `j` bounds the field that starts at or before it.
proof fn lemma_field_end_bound(s: Seq<char>, a: int, j: int)
    requires
        0 <= a <= j < s.len(),
        s[j] == ',',
    ensures
        field_end(s, a) <= j,
    decreases j - a,
{
    if a < j && s[a] != ',' {
        lemma_field_end_bound(s, a + 1, j);
    }
}

} // verus!
