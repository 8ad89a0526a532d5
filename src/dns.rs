//! The overlay network shared by all applications, and the registry that
//! gives each application its own block of the pool.

use crate::dhcp::{self, Dhcp, RESOLVER_INDEX};
use crate::docker_compose::{Network, Service, ServiceBuild, ServiceNetworkable, Yaml};
use crate::error::SynthesisError;
use crate::net::{Subnet, address_at, address_for, block_size, span};
use crate::text::{chars_of, copy, lit, string_of};
use vstd::arithmetic::div_mod::{lemma_mod_mod, lemma_mod_multiples_vanish};
use vstd::arithmetic::mul::lemma_mul_inequality;
use vstd::arithmetic::power2::{lemma_pow2_adds, pow2};
use vstd::prelude::*;

verus! {

/// Prefix length of the block each application receives.
pub const BLOCK_PREFIX: u8 = 24;

/// Registry contents: application names with their blocks, in file order.
pub type Registry = Seq<(Seq<char>, Subnet)>;

pub open spec fn registry_view(r: Seq<(String, Subnet)>) -> Registry {
    r.map_values(|e: (String, Subnet)| (e.0@, e.1))
}

/// Number of blocks of prefix `block_prefix` in `pool`.
pub open spec fn candidate_count(pool: Subnet, block_prefix: nat) -> nat {
    if pool.prefix_len <= block_prefix {
        pow2((block_prefix - pool.prefix_len) as nat)
    } else {
        0
    }
}

/// Block number `k` of the pool, in ascending order.
pub open spec fn candidate(pool: Subnet, block_prefix: nat, k: nat) -> Subnet {
    Subnet { addr: (pool.addr + k * span(block_prefix)) as u32, prefix_len: block_prefix as u8 }
}

pub open spec fn is_block_of(pool: Subnet, block_prefix: nat, s: Subnet) -> bool {
    exists|k: nat| k < candidate_count(pool, block_prefix) && s == candidate(pool, block_prefix, k)
}

/// Some application of the registry holds `s`.
pub open spec fn taken(reg: Registry, s: Subnet) -> bool {
    exists|i: int| 0 <= i < reg.len() && reg[i].1 == s
}

/// `s` may be handed out: it is not the pool's own network and nobody holds it.
pub open spec fn available(pool: Subnet, reg: Registry, s: Subnet) -> bool {
    s.addr != pool.addr && !taken(reg, s)
}

/// Position of the first entry for `name`.
pub open spec fn entry_index(reg: Registry, name: Seq<char>) -> Option<int>
    decreases reg.len(),
{
    if reg.len() == 0 {
        None
    } else {
        match entry_index(reg.drop_last(), name) {
            Some(i) => Some(i),
            None => if reg.last().0 == name {
                Some(reg.len() - 1)
            } else {
                None
            },
        }
    }
}

/// What allocation for `app` gives from the registry `old_reg`: the block it
/// holds already, else the first available block of the pool in ascending
/// order, recorded for it; `PoolExhausted` where no block is available.
pub open spec fn allocated(
    old_reg: Registry,
    pool: Subnet,
    bp: nat,
    app: Seq<char>,
    r: Result<Subnet, SynthesisError>,
    new_reg: Registry,
) -> bool {
    match entry_index(old_reg, app) {
        Some(i) => r == Ok::<Subnet, SynthesisError>(old_reg[i].1) && new_reg == old_reg,
        None => {
            &&& r is Ok <==> exists|k: nat|
                k < candidate_count(pool, bp) && available(pool, old_reg, #[trigger] candidate(pool, bp, k))
            &&& r is Ok ==> exists|k: nat|
                {
                    &&& k < candidate_count(pool, bp)
                    &&& r->Ok_0 == candidate(pool, bp, k)
                    &&& available(pool, old_reg, r->Ok_0)
                    &&& forall|j: nat| j < k ==> !available(pool, old_reg, #[trigger] candidate(pool, bp, j))
                }
            &&& r is Ok ==> new_reg == old_reg.push((app, r->Ok_0))
            &&& r is Err ==> r->Err_0 == SynthesisError::PoolExhausted && new_reg == old_reg
        },
    }
}

/// Every block of the registry is well formed.
pub open spec fn registry_wf(r: Seq<(String, Subnet)>) -> bool {
    forall|i: int| 0 <= i < r.len() ==> (#[trigger] r[i]).1.wf()
}

/// Every application holds a block of the pool other than its first, and no
/// two applications hold overlapping blocks.
pub open spec fn registry_sound(pool: Subnet, block_prefix: nat, reg: Registry) -> bool {
    &&& forall|i: int|
        0 <= i < reg.len() ==> is_block_of(pool, block_prefix, #[trigger] reg[i].1) && reg[i].1.addr
            != pool.addr
    &&& forall|i: int, j: int|
        0 <= i < reg.len() && 0 <= j < reg.len() && i != j ==> !(#[trigger] reg[i].1).overlaps(
            #[trigger] reg[j].1,
        )
}

/// Each block of the pool is a well-formed block that lies inside the pool.
pub proof fn lemma_candidate(pool: Subnet, block_prefix: nat, k: nat)
    requires
        pool.wf(),
        block_prefix <= 32,
        k < candidate_count(pool, block_prefix),
    ensures
        pool.addr + k * span(block_prefix) + span(block_prefix) <= pool.addr + pool.size(),
        candidate(pool, block_prefix, k).addr == pool.addr + k * span(block_prefix),
        candidate(pool, block_prefix, k).wf(),
        candidate(pool, block_prefix, k).size() == span(block_prefix),
{
    let bs = span(block_prefix) as int;
    let count = candidate_count(pool, block_prefix) as int;
    lemma_pow2_adds((block_prefix - pool.prefix_len) as nat, (32 - block_prefix) as nat);
    assert(count * bs == pool.size());
    assert(bs > 0) by {
        crate::net::lemma_span_bounds(block_prefix);
    }
    lemma_mul_inequality((k + 1) as int, count, bs);
    assert((k + 1) * bs == k * bs + bs) by (nonlinear_arith);
    lemma_mod_mod(pool.addr as int, bs, count);
    assert(count * bs == bs * count) by (nonlinear_arith);
    lemma_mod_multiples_vanish(k as int, pool.addr as int, bs);
    assert(k * bs == bs * k) by (nonlinear_arith);
}

/// Two different blocks of one pool share no address.
pub proof fn lemma_distinct_blocks_disjoint(pool: Subnet, block_prefix: nat, a: Subnet, b: Subnet)
    requires
        pool.wf(),
        block_prefix <= 32,
        is_block_of(pool, block_prefix, a),
        is_block_of(pool, block_prefix, b),
        a != b,
    ensures
        !a.overlaps(b),
{
    let ka = choose|k: nat| k < candidate_count(pool, block_prefix) && a == candidate(pool, block_prefix, k);
    let kb = choose|k: nat| k < candidate_count(pool, block_prefix) && b == candidate(pool, block_prefix, k);
    lemma_candidate(pool, block_prefix, ka);
    lemma_candidate(pool, block_prefix, kb);
    let bs = span(block_prefix) as int;
    assert(bs > 0) by {
        crate::net::lemma_span_bounds(block_prefix);
    }
    if ka < kb {
        lemma_mul_inequality((ka + 1) as int, kb as int, bs);
        assert((ka + 1) * bs == ka * bs + bs) by (nonlinear_arith);
    } else {
        lemma_mul_inequality((kb + 1) as int, ka as int, bs);
        assert((kb + 1) * bs == kb * bs + bs) by (nonlinear_arith);
    }
}

/// Allocation is stable: once `app` holds a block, allocating for it again
/// gives the same block and leaves the registry as it is.
pub proof fn lemma_allocation_stable(
    old_reg: Registry,
    pool: Subnet,
    bp: nat,
    app: Seq<char>,
    r: Result<Subnet, SynthesisError>,
    new_reg: Registry,
    again: Result<Subnet, SynthesisError>,
    final_reg: Registry,
)
    requires
        allocated(old_reg, pool, bp, app, r, new_reg),
        r is Ok,
        allocated(new_reg, pool, bp, app, again, final_reg),
    ensures
        again == r,
        final_reg == new_reg,
{
    if entry_index(old_reg, app) is None {
        assert(new_reg.drop_last() =~= old_reg);
    }
}

/// Removing an application's entry from a sound registry makes its block
/// available again.
pub proof fn lemma_removed_block_available(pool: Subnet, block_prefix: nat, reg: Registry, i: int)
    requires
        pool.wf(),
        block_prefix <= 32,
        registry_sound(pool, block_prefix, reg),
        0 <= i < reg.len(),
    ensures
        available(pool, reg.remove(i), reg[i].1),
{
    let rest = reg.remove(i);
    let b = reg[i].1;
    let k = choose|k: nat| k < candidate_count(pool, block_prefix) && b == candidate(pool, block_prefix, k);
    lemma_candidate(pool, block_prefix, k);
    assert(b.overlaps(b)) by {
        crate::net::lemma_span_bounds(block_prefix);
    }
    assert forall|j: int| 0 <= j < rest.len() implies rest[j].1 != b by {
        let o = if j < i { j } else { j + 1 };
        assert(rest[j] == reg[o]);
        assert(!reg[o].1.overlaps(reg[i].1));
    }
}

/// Whether any application of the registry holds `s`.
fn is_taken(registry: &Vec<(String, Subnet)>, s: Subnet) -> (r: bool)
    ensures
        r == taken(registry_view(registry@), s),
{
    let ghost reg = registry_view(registry@);
    let mut i: usize = 0;
    while i < registry.len()
        invariant
            reg == registry_view(registry@),
            i <= registry@.len(),
            forall|j: int| 0 <= j < i ==> reg[j].1 != s,
        decreases registry@.len() - i,
    {
        if registry[i].1 == s {
            proof {
                assert(reg[i as int].1 == s);
            }
            return true;
        }
        i = i + 1;
    }
    false
}

/// Finds the block held by `app`, or gives it the first available block of
/// the pool and records it.
pub fn find_or_create_subnet_for(
    registry: &mut Vec<(String, Subnet)>,
    pool: Subnet,
    block_prefix: u8,
    app: &str,
) -> (r: Result<Subnet, SynthesisError>)
    requires
        pool.wf(),
        block_prefix <= 32,
    ensures
        allocated(
            registry_view(old(registry)@),
            pool,
            block_prefix as nat,
            app@,
            r,
            registry_view(final(registry)@),
        ),
        registry_wf(old(registry)@) ==> registry_wf(final(registry)@) && (r is Ok ==> r->Ok_0.wf()),
        registry_sound(pool, block_prefix as nat, registry_view(old(registry)@)) ==> registry_sound(
            pool,
            block_prefix as nat,
            registry_view(final(registry)@),
        ),
{
    let ghost old_reg = registry_view(registry@);
    let ghost bp = block_prefix as nat;
    let name = string_of(&chars_of(app));
    let n = registry.len();
    let mut i: usize = 0;
    while i < n
        invariant
            n == registry@.len(),
            old_reg == registry_view(registry@),
            registry@ == old(registry)@,
            name@ == app@,
            i <= n,
            entry_index(old_reg.subrange(0, i as int), app@) is None,
        decreases n - i,
    {
        proof {
            assert(old_reg.subrange(0, i + 1).drop_last() =~= old_reg.subrange(0, i as int));
        }
        if registry[i].0 == name {
            proof {
                assert(registry_wf(old(registry)@) ==> registry@[i as int].1.wf());
                assert(old_reg[i as int].0 == app@);
                lemma_entry_index_found(old_reg, app@, (i + 1) as int);
            }
            return Ok(registry[i].1);
        }
        i = i + 1;
    }
    proof {
        assert(old_reg.subrange(0, n as int) =~= old_reg);
    }
    if pool.prefix_len > block_prefix {
        return Err(SynthesisError::PoolExhausted);
    }
    let bs = block_size(block_prefix);
    let count = block_size(32 - (block_prefix - pool.prefix_len));
    let mut k: u64 = 0;
    let mut off: u64 = 0;
    while k < count
        invariant
            pool.wf(),
            pool.prefix_len <= block_prefix <= 32,
            bp == block_prefix as nat,
            old_reg == registry_view(registry@),
            registry@ == old(registry)@,
            name@ == app@,
            entry_index(old_reg, app@) is None,
            bs == span(bp),
            count == candidate_count(pool, bp),
            k <= count,
            off == k * bs,
            forall|j: nat| j < k ==> !available(pool, old_reg, #[trigger] candidate(pool, bp, j)),
        decreases count - k,
    {
        proof {
            lemma_candidate(pool, bp, k as nat);
        }
        let cand = Subnet { addr: (pool.addr as u64 + off) as u32, prefix_len: block_prefix };
        assert(cand == candidate(pool, bp, k as nat));
        if cand.addr != pool.addr && !is_taken(registry, cand) {
            proof {
                lemma_candidate(pool, bp, k as nat);
            }
            registry.push((name, cand));
            proof {
                assert(registry_wf(old(registry)@) ==> registry_wf(registry@)) by {
                    if registry_wf(old(registry)@) {
                        assert forall|a: int| 0 <= a < registry@.len() implies (#[trigger] registry@[a]).1.wf() by {
                            if a < old(registry)@.len() {
                                assert(registry@[a] == old(registry)@[a]);
                            }
                        }
                    }
                }
                let new_reg = registry_view(registry@);
                assert(new_reg =~= old_reg.push((app@, cand)));
                if registry_sound(pool, bp, old_reg) {
                    assert(is_block_of(pool, bp, cand));
                    assert forall|a: int, b: int|
                        0 <= a < new_reg.len() && 0 <= b < new_reg.len() && a != b implies !(
                        #[trigger] new_reg[a].1).overlaps(#[trigger] new_reg[b].1) by {
                        if a < old_reg.len() && b < old_reg.len() {
                            assert(new_reg[a] == old_reg[a] && new_reg[b] == old_reg[b]);
                        } else {
                            let o = if a < old_reg.len() { a } else { b };
                            assert(new_reg[o] == old_reg[o]);
                            assert(old_reg[o].1 != cand);
                            lemma_distinct_blocks_disjoint(pool, bp, old_reg[o].1, cand);
                            lemma_distinct_blocks_disjoint(pool, bp, cand, old_reg[o].1);
                        }
                    }
                    assert forall|a: int| 0 <= a < new_reg.len() implies is_block_of(
                        pool,
                        bp,
                        #[trigger] new_reg[a].1,
                    ) && new_reg[a].1.addr != pool.addr by {
                        if a < old_reg.len() {
                            assert(new_reg[a] == old_reg[a]);
                        }
                    }
                }
            }
            return Ok(cand);
        }
        proof {
            assert((k + 1) * bs == k * bs + bs) by (nonlinear_arith);
        }
        k = k + 1;
        off = off + bs;
    }
    Err(SynthesisError::PoolExhausted)
}

/// Base configuration of the resolver.
pub open spec fn base_config_text() -> Seq<char> {
    "server:\n  verbosity: 3\n  use-syslog: no\n  logfile: \"\"\n\n  interface: 0.0.0.0\n  interface: ::0\n  access-control: 0.0.0.0/0 allow\n\n  local-zone: \"local.\" transparent\n"@
}

/// `v` holds exactly the strings `items`.
pub open spec fn strings_are(v: Option<Vec<String>>, items: Seq<Seq<char>>) -> bool {
    v is Some && v->0@.map_values(|s: String| s@) == items
}

/// `r` is the resolver's compose document for the overlay network `name`
/// with the resolver at `addr`.
pub open spec fn resolver_compose(r: Yaml, name: Seq<char>, addr: u32) -> bool {
    &&& r.version is Some && r.version->0@ == "3.8"@
    &&& r.services is Some && r.services->0@.len() == 1
    &&& r.services->0@[0].0@ == "dns"@
    &&& {
        let s = r.services->0@[0].1;
        &&& s.container_name is None
        &&& s.build is Some
        &&& s.build->0.context is Some && s.build->0.context->0@ == "."@
        &&& s.build->0.dockerfile is Some && s.build->0.dockerfile->0@ == "unbound.Dockerfile"@
        &&& strings_are(s.volumes, seq!["../.dist/unbound.conf.d:/etc/unbound/unbound.conf.d"@])
        &&& strings_are(s.ports, seq!["53:53"@, "53:53/udp"@])
        &&& s.networks is Some && s.networks->0 is Mapping
        &&& s.networks->0->Mapping_0@.len() == 1
        &&& s.networks->0->Mapping_0@[0].0@ == name
        &&& s.networks->0->Mapping_0@[0].1.external is None
        &&& s.networks->0->Mapping_0@[0].1.ipv4_address == Some(addr)
        &&& s.networks->0->Mapping_0@[0].1.aliases is None
        &&& s.dns is None && s.tty is None && s.stdin_open is None
    }
    &&& r.networks is Some && r.networks->0@.len() == 1
    &&& r.networks->0@[0].0@ == name
    &&& r.networks->0@[0].1.external == Some(true)
    &&& r.networks->0@[0].1.ipv4_address is None
    &&& r.networks->0@[0].1.aliases is None
}

/// The overlay network that every application joins, served by the resolver.
pub struct Dns {
    pub path: String,
    pub name: String,
    pub domain: String,
    /// The pool from which application blocks are carved.
    pub subnet: Subnet,
    /// The public fallback resolver.
    pub root: u32,
}

pub fn new(path: String, name: String, domain: String, subnet: Subnet, root: u32) -> (r: Dns)
    ensures
        r.path == path,
        r.name == name,
        r.domain == domain,
        r.subnet == subnet,
        r.root == root,
{
    Dns { path, name, domain, subnet, root }
}

impl Dns {
    pub open spec fn wf(&self) -> bool {
        self.subnet.wf()
    }

    pub fn domain(&self) -> (r: &str)
        ensures
            r@ == self.domain@,
    {
        self.domain.as_str()
    }

    /// Address of the overlay resolver: offset `RESOLVER_INDEX` of the pool.
    pub fn addr(&self) -> (r: u32)
        requires
            self.wf(),
        ensures
            r == address_at(self.subnet, RESOLVER_INDEX as nat),
    {
        address_for(&self.subnet, RESOLVER_INDEX)
    }

    /// Address of the public fallback resolver.
    pub fn root_addr(&self) -> (r: u32)
        ensures
            r == self.root,
    {
        self.root
    }

    /// Address assignment for the application `app`, within the block that
    /// the registry holds or now records for it.
    pub fn new_dhcp_for(
        &self,
        registry: &mut Vec<(String, Subnet)>,
        app: &str,
        app_domain: String,
    ) -> (r: Result<Dhcp, SynthesisError>)
        requires
            self.wf(),
            registry_wf(old(registry)@),
        ensures
            registry_wf(final(registry)@),
            ({
                let s = match r {
                    Ok(d) => Ok::<Subnet, SynthesisError>(d.subnet),
                    Err(e) => Err(e),
                };
                allocated(
                    registry_view(old(registry)@),
                    self.subnet,
                    BLOCK_PREFIX as nat,
                    app@,
                    s,
                    registry_view(final(registry)@),
                )
            }),
            r is Ok ==> {
                let d = r->Ok_0;
                &&& d.wf()
                &&& d.domain == app_domain
                &&& d.table() == Seq::<(Seq<char>, u32)>::empty()
            },
    {
        match find_or_create_subnet_for(registry, self.subnet, BLOCK_PREFIX, app) {
            Ok(subnet) => Ok(dhcp::new(app_domain, subnet)),
            Err(e) => Err(e),
        }
    }

    /// The compose document of the resolver itself: one `dns` service built
    /// from `unbound.Dockerfile`, publishing port 53 and holding the resolver
    /// address on the overlay network, which is declared external.
    pub fn create_docker_compose(&self) -> (r: Yaml)
        requires
            self.wf(),
        ensures
            resolver_compose(r, self.name@, address_at(self.subnet, RESOLVER_INDEX as nat)),
    {
        let addr = self.addr();
        let mut service_networks: Vec<(String, Network)> = Vec::new();
        service_networks.push(
            (copy(&self.name), Network { external: None, ipv4_address: Some(addr), aliases: None }),
        );
        let build = ServiceBuild {
            context: Some(lit(".")),
            dockerfile: Some(lit("unbound.Dockerfile")),
        };
        let volumes = vec![lit("../.dist/unbound.conf.d:/etc/unbound/unbound.conf.d")];
        let ports = vec![lit("53:53"), lit("53:53/udp")];
        proof {
            assert(volumes@.map_values(|s: String| s@) =~= seq![
                "../.dist/unbound.conf.d:/etc/unbound/unbound.conf.d"@,
            ]);
            assert(ports@.map_values(|s: String| s@) =~= seq!["53:53"@, "53:53/udp"@]);
        }
        let service = Service {
            container_name: None,
            build: Some(build),
            volumes: Some(volumes),
            ports: Some(ports),
            networks: Some(ServiceNetworkable::Mapping(service_networks)),
            dns: None,
            tty: None,
            stdin_open: None,
        };
        let mut services: Vec<(String, Service)> = Vec::new();
        services.push((lit("dns"), service));
        let mut networks: Vec<(String, Network)> = Vec::new();
        networks.push(
            (copy(&self.name), Network { external: Some(true), ipv4_address: None, aliases: None }),
        );
        Yaml { version: Some(lit("3.8")), services: Some(services), networks: Some(networks) }
    }

    /// Base configuration of the resolver: listens everywhere and answers
    /// for the `local.` zone.
    pub fn create_base_config(&self) -> (r: String)
        ensures
            r@ == base_config_text(),
    {
        lit(
            "server:\n  verbosity: 3\n  use-syslog: no\n  logfile: \"\"\n\n  interface: 0.0.0.0\n  interface: ::0\n  access-control: 0.0.0.0/0 allow\n\n  local-zone: \"local.\" transparent\n",
        )
    }
}

/// A name found at position `k - 1` and not before is found there in the whole registry.
proof fn lemma_entry_index_found(reg: Registry, name: Seq<char>, k: int)
    requires
        0 < k <= reg.len(),
        entry_index(reg.subrange(0, k - 1), name) is None,
        reg[k - 1].0 == name,
    ensures
        entry_index(reg, name) == Some(k - 1),
    decreases reg.len() - k,
{
    assert(reg.subrange(0, k).drop_last() =~= reg.subrange(0, k - 1));
    if k < reg.len() {
        assert(reg.subrange(0, k + 1).drop_last() =~= reg.subrange(0, k));
        lemma_entry_index_keep(reg, name, k + 1, k - 1);
    } else {
        assert(reg.subrange(0, k) =~= reg);
    }
}

proof fn lemma_entry_index_keep(reg: Registry, name: Seq<char>, k: int, at: int)
    requires
        0 < k <= reg.len(),
        entry_index(reg.subrange(0, k - 1), name) == Some(at),
    ensures
        entry_index(reg, name) == Some(at),
    decreases reg.len() - k,
{
    assert(reg.subrange(0, k).drop_last() =~= reg.subrange(0, k - 1));
    if k < reg.len() {
        lemma_entry_index_keep(reg, name, k + 1, at);
    } else {
        assert(reg.subrange(0, k) =~= reg);
    }
}

} // verus!
