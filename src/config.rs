//! Settings of the virtual machine and of file synchronisation, as the
//! global configuration gives them.

use crate::text::{chars_of, copy, slice, string_of};
use vstd::prelude::*;

verus! {

pub struct LimaValues {
    pub root: Option<String>,
    pub cpus: Option<u32>,
    pub memory: Option<String>,
    pub disk: Option<String>,
    pub ssh_port: Option<u32>,
}

pub struct MutagenValues {
    pub root: Option<String>,
}

pub open spec fn toml_suffix() -> Seq<char> {
    seq!['.', 't', 'o', 'm', 'l']
}

/// The application that the configuration file `file_name` describes: the
/// name without its `.toml` suffix; `None` for any other file.
pub fn application_name(file_name: &str) -> (r: Option<String>)
    ensures
        r is Some <==> file_name@.len() >= 5 && file_name@.subrange(
            file_name@.len() - 5,
            file_name@.len() as int,
        ) == toml_suffix(),
        r is Some ==> r->0@ + toml_suffix() == file_name@,
{
    let v = chars_of(file_name);
    let n = v.len();
    if n < 5 {
        return None;
    }
    if v[n - 5] == '.' && v[n - 4] == 't' && v[n - 3] == 'o' && v[n - 2] == 'm' && v[n - 1] == 'l' {
        let stem = slice(&v, 0, n - 5);
        proof {
            assert(v@.subrange(n - 5, n as int) =~= toml_suffix());
            assert(stem@ + toml_suffix() =~= v@);
        }
        Some(string_of(&stem))
    } else {
        proof {
            let tail = v@.subrange(n - 5, n as int);
            if tail == toml_suffix() {
                assert(tail[0] == '.' && tail[1] == 't' && tail[2] == 'o' && tail[3] == 'm' && tail[4] == 'l');
            }
        }
        None
    }
}

/// Position of the first alias, in the order given, that stands for `original`.
pub open spec fn alias_index(aliases: Seq<(String, String)>, original: Seq<char>) -> Option<int>
    decreases aliases.len(),
{
    if aliases.len() == 0 {
        None
    } else {
        match alias_index(aliases.drop_last(), original) {
            Some(i) => Some(i),
            None => if aliases.last().1@ == original {
                Some(aliases.len() - 1)
            } else {
                None
            },
        }
    }
}

/// Position of the first alias named `name`.
pub open spec fn name_index(aliases: Seq<(String, String)>, name: Seq<char>) -> Option<int>
    decreases aliases.len(),
{
    if aliases.len() == 0 {
        None
    } else {
        match name_index(aliases.drop_last(), name) {
            Some(i) => Some(i),
            None => if aliases.last().0@ == name {
                Some(aliases.len() - 1)
            } else {
                None
            },
        }
    }
}

/// The application a name stands for: the target of the alias `name`, else
/// `name` itself.
pub open spec fn resolved(aliases: Seq<(String, String)>, name: Seq<char>) -> Seq<char> {
    match name_index(aliases, name) {
        Some(i) => aliases[i].1@,
        None => name,
    }
}

/// The alias of the application `original`, from `aliases` (alias, application)
/// in key order.
pub fn get_alias(aliases: &Vec<(String, String)>, original: &String) -> (r: Option<String>)
    ensures
        match alias_index(aliases@, original@) {
            Some(i) => r is Some && r->0@ == aliases@[i].0@,
            None => r is None,
        },
{
    let mut i: usize = 0;
    while i < aliases.len()
        invariant
            i <= aliases@.len(),
            alias_index(aliases@.subrange(0, i as int), original@) is None,
        decreases aliases@.len() - i,
    {
        proof {
            assert(aliases@.subrange(0, i + 1).drop_last() =~= aliases@.subrange(0, i as int));
        }
        if aliases[i].1 == *original {
            proof {
                lemma_first_alias(aliases@, original@, (i + 1) as int);
            }
            return Some(copy(&aliases[i].0));
        }
        i = i + 1;
    }
    proof {
        assert(aliases@.subrange(0, i as int) =~= aliases@);
    }
    None
}

fn find_name(aliases: &Vec<(String, String)>, name: &String) -> (r: Option<usize>)
    ensures
        r is Some <==> name_index(aliases@, name@) is Some,
        r is Some ==> name_index(aliases@, name@) == Some(r->0 as int) && r->0 < aliases@.len(),
{
    let mut i: usize = 0;
    while i < aliases.len()
        invariant
            i <= aliases@.len(),
            name_index(aliases@.subrange(0, i as int), name@) is None,
        decreases aliases@.len() - i,
    {
        proof {
            assert(aliases@.subrange(0, i + 1).drop_last() =~= aliases@.subrange(0, i as int));
        }
        if aliases[i].0 == *name {
            proof {
                lemma_first_name(aliases@, name@, (i + 1) as int);
            }
            return Some(i);
        }
        i = i + 1;
    }
    proof {
        assert(aliases@.subrange(0, i as int) =~= aliases@);
    }
    None
}

/// The application that `name` stands for, if it is one of `applications`.
pub fn resolve(aliases: &Vec<(String, String)>, applications: &Vec<String>, name: &String) -> (r: Option<String>)
    ensures
        r is Some <==> exists|k: int|
            0 <= k < applications@.len() && applications@[k]@ == resolved(aliases@, name@),
        r is Some ==> r->0@ == resolved(aliases@, name@),
{
    let target = match find_name(aliases, name) {
        Some(i) => copy(&aliases[i].1),
        None => copy(name),
    };
    let mut k: usize = 0;
    while k < applications.len()
        invariant
            k <= applications@.len(),
            target@ == resolved(aliases@, name@),
            forall|j: int| 0 <= j < k ==> applications@[j]@ != target@,
        decreases applications@.len() - k,
    {
        if applications[k] == target {
            return Some(target);
        }
        k = k + 1;
    }
    None
}

proof fn lemma_first_alias(aliases: Seq<(String, String)>, original: Seq<char>, k: int)
    requires
        0 < k <= aliases.len(),
        alias_index(aliases.subrange(0, k - 1), original) is None,
        aliases[k - 1].1@ == original,
    ensures
        alias_index(aliases, original) == Some(k - 1),
    decreases aliases.len() - k,
{
    assert(aliases.subrange(0, k).drop_last() =~= aliases.subrange(0, k - 1));
    if k < aliases.len() {
        lemma_alias_keep(aliases, original, k + 1, k - 1);
    } else {
        assert(aliases.subrange(0, k) =~= aliases);
    }
}

proof fn lemma_alias_keep(aliases: Seq<(String, String)>, original: Seq<char>, k: int, at: int)
    requires
        0 < k <= aliases.len(),
        alias_index(aliases.subrange(0, k - 1), original) == Some(at),
    ensures
        alias_index(aliases, original) == Some(at),
    decreases aliases.len() - k,
{
    assert(aliases.subrange(0, k).drop_last() =~= aliases.subrange(0, k - 1));
    if k < aliases.len() {
        lemma_alias_keep(aliases, original, k + 1, at);
    } else {
        assert(aliases.subrange(0, k) =~= aliases);
    }
}

proof fn lemma_first_name(aliases: Seq<(String, String)>, name: Seq<char>, k: int)
    requires
        0 < k <= aliases.len(),
        name_index(aliases.subrange(0, k - 1), name) is None,
        aliases[k - 1].0@ == name,
    ensures
        name_index(aliases, name) == Some(k - 1),
    decreases aliases.len() - k,
{
    assert(aliases.subrange(0, k).drop_last() =~= aliases.subrange(0, k - 1));
    if k < aliases.len() {
        lemma_name_keep(aliases, name, k + 1, k - 1);
    } else {
        assert(aliases.subrange(0, k) =~= aliases);
    }
}

proof fn lemma_name_keep(aliases: Seq<(String, String)>, name: Seq<char>, k: int, at: int)
    requires
        0 < k <= aliases.len(),
        name_index(aliases.subrange(0, k - 1), name) == Some(at),
    ensures
        name_index(aliases, name) == Some(at),
    decreases aliases.len() - k,
{
    assert(aliases.subrange(0, k).drop_last() =~= aliases.subrange(0, k - 1));
    if k < aliases.len() {
        lemma_name_keep(aliases, name, k + 1, at);
    } else {
        assert(aliases.subrange(0, k) =~= aliases);
    }
}

} // verus!
