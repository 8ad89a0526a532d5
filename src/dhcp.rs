//! Addresses of an application's services within its block, and the
//! resolver records that publish them.

use crate::net::{Subnet, address_at, address_for};
use crate::text::{chars_of, dotted, push_all, push_dotted, string_of};
use vstd::prelude::*;

verus! {


/// Offset of the overlay resolver within a block.
pub const RESOLVER_INDEX: u32 = 2;

/// Offset of the first service address within a block.
pub const FIRST_SERVICE_INDEX: u32 = 3;

/// Assignment table: each service name with its address, in order of assignment.
pub type Table = Seq<(Seq<char>, u32)>;

/// Position of the first entry for `name`.
pub open spec fn key_index(t: Table, name: Seq<char>) -> Option<int>
    decreases t.len(),
{
    if t.len() == 0 {
        None
    } else {
        match key_index(t.drop_last(), name) {
            Some(i) => Some(i),
            None => if t.last().0 == name {
                Some(t.len() - 1)
            } else {
                None
            },
        }
    }
}

/// The table after `name` asks for an address, and the address it gets: the
/// one it holds already, else the next one after those handed out.
pub open spec fn assigned(sub: Subnet, t: Table, name: Seq<char>) -> (Table, u32) {
    match key_index(t, name) {
        Some(i) => (t, t[i].1),
        None => {
            let a = address_at(sub, (FIRST_SERVICE_INDEX + t.len()) as nat);
            (t.push((name, a)), a)
        },
    }
}

/// The table `t` after the names ask for addresses, in order.
pub open spec fn assign_all(sub: Subnet, t: Table, names: Seq<Seq<char>>) -> Table
    decreases names.len(),
{
    if names.len() == 0 {
        t
    } else {
        assigned(sub, assign_all(sub, t, names.drop_last()), names.last()).0
    }
}

/// The address that name number `i` receives when the names ask in order,
/// starting from the table `t`.
pub open spec fn address_of(sub: Subnet, t: Table, names: Seq<Seq<char>>, i: int) -> u32 {
    assigned(sub, assign_all(sub, t, names.subrange(0, i)), names[i]).1
}

pub open spec fn record_head() -> Seq<char> {
    seq!['l', 'o', 'c', 'a', 'l', '-', 'd', 'a', 't', 'a', ':', ' ', '"']
}

pub open spec fn record_type() -> Seq<char> {
    seq!['.', ' ', 'A', ' ']
}

/// The resolver record `local-data: "{name}.{domain}. A {address}"`.
pub open spec fn record(name: Seq<char>, domain: Seq<char>, addr: u32) -> Seq<char> {
    record_head() + name + seq!['.'] + domain + record_type() + dotted(addr) + seq!['"', '\n']
}

/// One record per entry of the table, in its order.
pub open spec fn zone(domain: Seq<char>, t: Table) -> Seq<char>
    decreases t.len(),
{
    if t.len() == 0 {
        Seq::empty()
    } else {
        zone(domain, t.drop_last()) + record(t.last().0, domain, t.last().1)
    }
}

/// Address assignment for one application: its domain, its block, and the
/// services that have an address so far.
pub struct Dhcp {
    pub domain: String,
    pub subnet: Subnet,
    pub services: Vec<(String, u32)>,
}

impl Dhcp {
    pub open spec fn table(&self) -> Table {
        self.services@.map_values(|e: (String, u32)| (e.0@, e.1))
    }

    pub open spec fn wf(&self) -> bool {
        self.subnet.wf()
    }

    /// Gives `service` its address: the one it already holds, else the next
    /// free one of the block, counting from `FIRST_SERVICE_INDEX`.
    pub fn assign(&mut self, service: &str) -> (r: u32)
        requires
            old(self).wf(),
            old(self).services@.len() < 0xffff_fff0,
        ensures
            final(self).wf(),
            final(self).domain == old(self).domain,
            final(self).subnet == old(self).subnet,
            (final(self).table(), r) == assigned(old(self).subnet, old(self).table(), service@),
    {
        let name = string_of(&chars_of(service));
        let ghost t = self.table();
        let n = self.services.len();
        let mut j: usize = 0;
        while j < n
            invariant
                n == self.services@.len(),
                t == self.table(),
                t == old(self).table(),
                *self == *old(self),
                name@ == service@,
                self.wf(),
                j <= n,
                key_index(t.subrange(0, j as int), name@) is None,
            decreases n - j,
        {
            proof {
                assert(t.subrange(0, j + 1).drop_last() =~= t.subrange(0, j as int));
            }
            if self.services[j].0 == name {
                proof {
                    assert(t[j as int] == (self.services@[j as int].0@, self.services@[j as int].1));
                    lemma_key_index_extend(t, name@, (j + 1) as int);
                }
                return self.services[j].1;
            }
            j = j + 1;
        }
        proof {
            assert(t.subrange(0, n as int) =~= t);
        }
        let a = address_for(&self.subnet, FIRST_SERVICE_INDEX + n as u32);
        self.services.push((name, a));
        proof {
            assert(self.table() =~= t.push((service@, a)));
        }
        a
    }

    /// Resolver records for every assigned service, in order of assignment.
    pub fn dns_config(&self) -> (r: String)
        ensures
            r@ == zone(self.domain@, self.table()),
    {
        let ghost t = self.table();
        let domain = chars_of(self.domain.as_str());
        let head = vec!['l', 'o', 'c', 'a', 'l', '-', 'd', 'a', 't', 'a', ':', ' ', '"'];
        let kind = vec!['.', ' ', 'A', ' '];
        proof {
            assert(head@ =~= record_head());
            assert(kind@ =~= record_type());
        }
        let mut out: Vec<char> = Vec::new();
        let mut i: usize = 0;
        proof {
            assert(t.subrange(0, 0) =~= Seq::<(Seq<char>, u32)>::empty());
        }
        while i < self.services.len()
            invariant
                t == self.table(),
                domain@ == self.domain@,
                head@ == record_head(),
                kind@ == record_type(),
                i <= self.services@.len(),
                out@ == zone(domain@, t.subrange(0, i as int)),
            decreases self.services@.len() - i,
        {
            let ghost before = out@;
            let name = chars_of(self.services[i].0.as_str());
            push_all(&mut out, &head);
            push_all(&mut out, &name);
            out.push('.');
            push_all(&mut out, &domain);
            push_all(&mut out, &kind);
            push_dotted(&mut out, self.services[i].1);
            out.push('"');
            out.push('\n');
            proof {
                assert(t.subrange(0, i + 1).drop_last() =~= t.subrange(0, i as int));
                assert(out@ =~= before + record(t[i as int].0, domain@, t[i as int].1));
            }
            i = i + 1;
        }
        proof {
            assert(t.subrange(0, i as int) =~= t);
        }
        string_of(&out)
    }
}

/// A fresh assignment for the application `domain` within `subnet`.
pub fn new(domain: String, subnet: Subnet) -> (r: Dhcp)
    requires
        subnet.wf(),
    ensures
        r.wf(),
        r.domain == domain,
        r.subnet == subnet,
        r.table() == Seq::<(Seq<char>, u32)>::empty(),
{
    let r = Dhcp { domain, subnet, services: Vec::new() };
    proof {
        assert(r.table() =~= Seq::<(Seq<char>, u32)>::empty());
    }
    r
}

/// A name that no entry carries has no position.
proof fn lemma_key_index_absent(t: Table, name: Seq<char>)
    requires
        forall|j: int| 0 <= j < t.len() ==> t[j].0 != name,
    ensures
        key_index(t, name) is None,
    decreases t.len(),
{
    if t.len() > 0 {
        lemma_key_index_absent(t.drop_last(), name);
    }
}

/// The table built from distinct names: name number `j` with offset
/// `FIRST_SERVICE_INDEX + j`.
pub open spec fn sequential(sub: Subnet, names: Seq<Seq<char>>) -> Table {
    Seq::new(names.len(), |j: int| (names[j], address_at(sub, (FIRST_SERVICE_INDEX + j) as nat)))
}

/// Services with distinct names receive consecutive addresses in declaration
/// order, the first at offset `FIRST_SERVICE_INDEX`, whatever the names are.
pub proof fn lemma_addresses_follow_declaration_order(sub: Subnet, names: Seq<Seq<char>>)
    requires
        names.no_duplicates(),
    ensures
        assign_all(sub, Seq::empty(), names) == sequential(sub, names),
        forall|i: int|
            0 <= i < names.len() ==> #[trigger] address_of(sub, Seq::empty(), names, i) == address_at(
                sub,
                (FIRST_SERVICE_INDEX + i) as nat,
            ),
    decreases names.len(),
{
    if names.len() > 0 {
        let init = names.drop_last();
        assert(init.no_duplicates());
        lemma_addresses_follow_declaration_order(sub, init);
        let t = assign_all(sub, Seq::empty(), init);
        assert forall|j: int| 0 <= j < t.len() implies t[j].0 != names.last() by {
            assert(t[j].0 == names[j]);
        }
        lemma_key_index_absent(t, names.last());
        assert(assign_all(sub, Seq::empty(), names) =~= sequential(sub, names));
        assert forall|i: int| 0 <= i < names.len() implies #[trigger] address_of(
            sub,
            Seq::empty(),
            names,
            i,
        ) == address_at(sub, (FIRST_SERVICE_INDEX + i) as nat) by {
            let pre = names.subrange(0, i);
            assert(pre.no_duplicates());
            lemma_addresses_follow_declaration_order(sub, pre);
            let tp = assign_all(sub, Seq::empty(), pre);
            assert forall|j: int| 0 <= j < tp.len() implies tp[j].0 != names[i] by {
                assert(tp[j].0 == pre[j]);
            }
            lemma_key_index_absent(tp, names[i]);
        }
    }
}

/// A name found in the first `k` entries is found there in the whole table.
proof fn lemma_key_index_extend(t: Table, name: Seq<char>, k: int)
    requires
        0 < k <= t.len(),
        key_index(t.subrange(0, k - 1), name) is None,
        t[k - 1].0 == name,
    ensures
        key_index(t, name) == Some(k - 1),
    decreases t.len() - k,
{
    assert(t.subrange(0, k).drop_last() =~= t.subrange(0, k - 1));
    if k < t.len() {
        lemma_key_index_prefix(t, name, k);
    } else {
        assert(t.subrange(0, k) =~= t);
    }
}

/// A name found in a prefix keeps its position in the whole table.
proof fn lemma_key_index_prefix(t: Table, name: Seq<char>, k: int)
    requires
        0 <= k <= t.len(),
        key_index(t.subrange(0, k), name) is Some,
    ensures
        key_index(t, name) == key_index(t.subrange(0, k), name),
    decreases t.len() - k,
{
    if k < t.len() {
        assert(t.subrange(0, k + 1).drop_last() =~= t.subrange(0, k));
        lemma_key_index_prefix(t, name, k + 1);
    } else {
        assert(t.subrange(0, k) =~= t);
    }
}

} // verus!
