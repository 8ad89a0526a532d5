//! Synthesis of an application's derived manifests: the sanitized copy of its
//! compose file, without host-port bindings, and the network override.

use crate::dhcp::{self, Dhcp, address_of, assign_all, zone};
use crate::dns::{allocated, registry_view, registry_wf, Dns, BLOCK_PREFIX};
use crate::docker_compose::{Network, Service, ServiceNetworkable, Yaml};
use crate::error::SynthesisError;
use crate::net::{address_at, Subnet};
use crate::text::{
    chars_of, copy, has_prefix_at, lines_from, push_all, split_lines, starts_with, string_of, trim,
    trim_bounds,
};
use vstd::prelude::*;

verus! {

/// What the host-port rewrite makes of one line of a `ports:` block.
pub uninterp spec fn host_port_stripped(line: Seq<char>) -> Seq<char>;

/// Relies on regex's `Regex::replace`: the first match of
/// `^(\s+-\s+['"]?).+:([^-?+])` in `line` is replaced by its two groups,
/// which drops the `host:` part of a `host:guest` binding. The pattern needs a
/// ':', so a line without one comes back unchanged.
#[verifier::external_body]
fn strip_host_port(line: &str) -> (r: String)
    ensures
        r@ == host_port_stripped(line@),
        !line@.contains(':') ==> r@ == line@,
{
    let re = regex::Regex::new(r#"^(\s+-\s+['"]?).+:([^-?+])"#).unwrap();
    re.replace(line, "$1$2").into_owned()
}

/// Where the sanitizer stands between two lines.
#[derive(Clone, Copy, Debug, PartialEq, Eq, Structural)]
pub enum PortsState {
    OutsidePortsBlock,
    InsidePortsBlock,
}

pub open spec fn ports_key() -> Seq<char> {
    seq!['p', 'o', 'r', 't', 's', ':']
}

/// One line of the sanitizer: the next state and the line written out, if
/// any; `None` for a `ports:` key with an inline value.
pub open spec fn step(state: PortsState, line: Seq<char>) -> Option<(PortsState, Option<Seq<char>>)> {
    let t = trim(line);
    if starts_with(t, seq!['#']) {
        Some((state, None))
    } else if state == PortsState::InsidePortsBlock {
        if starts_with(t, seq!['-']) {
            Some((PortsState::InsidePortsBlock, Some(host_port_stripped(line))))
        } else {
            Some((PortsState::OutsidePortsBlock, Some(line)))
        }
    } else if starts_with(t, ports_key()) {
        if t == ports_key() {
            Some((PortsState::InsidePortsBlock, Some(line)))
        } else {
            None
        }
    } else {
        Some((PortsState::OutsidePortsBlock, Some(line)))
    }
}

/// The sanitizer run over `lines`: its final state and the text written,
/// each kept line followed by a newline; `None` where a line is refused.
pub open spec fn run(lines: Seq<Seq<char>>) -> Option<(PortsState, Seq<char>)>
    decreases lines.len(),
{
    if lines.len() == 0 {
        Some((PortsState::OutsidePortsBlock, Seq::empty()))
    } else {
        match run(lines.drop_last()) {
            None => None,
            Some((st, out)) => match step(st, lines.last()) {
                None => None,
                Some((next, emitted)) => Some(
                    (
                        next,
                        match emitted {
                            Some(l) => out + l + seq!['\n'],
                            None => out,
                        },
                    ),
                ),
            },
        }
    }
}

/// The sanitized text of a manifest given as its lines.
pub open spec fn sanitized(lines: Seq<Seq<char>>) -> Option<Seq<char>> {
    match run(lines) {
        Some((_, text)) => Some(text),
        None => None,
    }
}

pub open spec fn lines_view(lines: Seq<String>) -> Seq<Seq<char>> {
    lines.map_values(|l: String| l@)
}

fn trimmed_is(s: &Vec<char>, lo: usize, hi: usize, p: &Vec<char>) -> (r: bool)
    requires
        lo <= hi <= s@.len(),
    ensures
        r == (s@.subrange(lo as int, hi as int) == p@),
{
    if hi - lo != p.len() {
        proof {
            assert(s@.subrange(lo as int, hi as int).len() != p@.len());
        }
        return false;
    }
    let mut i: usize = 0;
    while i < p.len()
        invariant
            lo <= hi <= s@.len(),
            hi - lo == p@.len(),
            i <= p@.len(),
            forall|j: int| 0 <= j < i ==> s@[lo + j] == p@[j],
        decreases p@.len() - i,
    {
        if s[lo + i] != p[i] {
            proof {
                assert(s@.subrange(lo as int, hi as int)[i as int] != p@[i as int]);
            }
            return false;
        }
        i = i + 1;
    }
    proof {
        assert(s@.subrange(lo as int, hi as int) =~= p@);
    }
    true
}

/// One transition of the sanitizer: from `state`, reading `line`, the next
/// state and the line to write, if any.
pub fn transition(state: PortsState, line: &str) -> (r: Result<(PortsState, Option<String>), SynthesisError>)
    ensures
        r is Err <==> step(state, line@) is None,
        r is Err ==> r->Err_0 == SynthesisError::UnsupportedPortsFormat,
        r is Ok ==> {
            let (next, emitted) = step(state, line@)->0;
            &&& r->Ok_0.0 == next
            &&& r->Ok_0.1 is Some <==> emitted is Some
            &&& r->Ok_0.1 is Some ==> r->Ok_0.1->0@ == emitted->0
        },
{
    let chars = chars_of(line);
    let (lo, hi) = trim_bounds(&chars);
    let ghost t = trim(line@);
    proof {
        assert(chars@.subrange(lo as int, chars@.len() as int).subrange(0, (hi - lo) as int) =~= t);
    }
    let hash = vec!['#'];
    let dash = vec!['-'];
    let key = vec!['p', 'o', 'r', 't', 's', ':'];
    proof {
        assert(key@ =~= ports_key());
    }
    if hi > lo && chars[lo] == '#' {
        proof {
            assert(t.subrange(0, 1) =~= seq!['#']);
        }
        return Ok((state, None));
    }
    proof {
        if starts_with(t, seq!['#']) {
            assert(t.subrange(0, 1)[0] == '#');
        }
    }
    match state {
        PortsState::InsidePortsBlock => {
            if hi > lo && chars[lo] == '-' {
                proof {
                    assert(t.subrange(0, 1) =~= seq!['-']);
                }
                Ok((PortsState::InsidePortsBlock, Some(strip_host_port(line))))
            } else {
                proof {
                    if starts_with(t, seq!['-']) {
                        assert(t.subrange(0, 1)[0] == '-');
                    }
                }
                Ok((PortsState::OutsidePortsBlock, Some(string_of(&chars))))
            }
        },
        PortsState::OutsidePortsBlock => {
            let opens = has_prefix_at(&chars, lo, &key) && hi - lo >= key.len();
            proof {
                let rest = chars@.subrange(lo as int, chars@.len() as int);
                if starts_with(t, ports_key()) {
                    assert(t.subrange(0, 6) =~= rest.subrange(0, 6));
                } else if starts_with(rest, ports_key()) && hi - lo >= 6 {
                    assert(t.subrange(0, 6) =~= rest.subrange(0, 6));
                }
            }
            if opens {
                if trimmed_is(&chars, lo, hi, &key) {
                    Ok((PortsState::InsidePortsBlock, Some(string_of(&chars))))
                } else {
                    Err(SynthesisError::UnsupportedPortsFormat)
                }
            } else {
                Ok((PortsState::OutsidePortsBlock, Some(string_of(&chars))))
            }
        },
    }
}

/// Sanitizes a manifest given as its lines: comment lines are dropped, the
/// host part of each binding in a `ports:` block is removed, and every other
/// line is kept as it is. Each kept line ends with a newline.
pub fn sanitize(lines: &Vec<String>) -> (r: Result<String, SynthesisError>)
    ensures
        r is Ok <==> sanitized(lines_view(lines@)) is Some,
        r is Ok ==> r->Ok_0@ == sanitized(lines_view(lines@))->0,
        r is Err ==> r->Err_0 == SynthesisError::UnsupportedPortsFormat,
{
    let ghost view = lines_view(lines@);
    let mut state = PortsState::OutsidePortsBlock;
    let mut out: Vec<char> = Vec::new();
    let mut i: usize = 0;
    proof {
        assert(view.subrange(0, 0) =~= Seq::<Seq<char>>::empty());
    }
    while i < lines.len()
        invariant
            view == lines_view(lines@),
            i <= lines@.len(),
            run(view.subrange(0, i as int)) == Some((state, out@)),
        decreases lines@.len() - i,
    {
        proof {
            assert(view.subrange(0, i + 1).drop_last() =~= view.subrange(0, i as int));
            assert(view.subrange(0, i + 1).last() == lines@[i as int]@);
        }
        match transition(state, lines[i].as_str()) {
            Err(e) => {
                proof {
                    lemma_run_fails_after(view, (i + 1) as int);
                }
                return Err(e);
            },
            Ok((next, emitted)) => {
                match emitted {
                    Some(l) => {
                        let lc = chars_of(l.as_str());
                        push_all(&mut out, &lc);
                        out.push('\n');
                    },
                    None => {},
                }
                state = next;
            },
        }
        i = i + 1;
    }
    proof {
        assert(view.subrange(0, i as int) =~= view);
    }
    Ok(string_of(&out))
}

/// Sanitizes a manifest given as its text, split into lines as
/// `BufRead::lines` splits them.
pub fn sanitize_text(text: &str) -> (r: Result<String, SynthesisError>)
    ensures
        r is Ok <==> sanitized(lines_from(text@, 0)) is Some,
        r is Ok ==> r->Ok_0@ == sanitized(lines_from(text@, 0))->0,
        r is Err ==> r->Err_0 == SynthesisError::UnsupportedPortsFormat,
{
    let lines = split_lines(text);
    proof {
        assert(lines_view(lines@) =~= crate::text::views(lines@));
    }
    sanitize(&lines)
}

/// Once a prefix of the lines is refused, so is the whole.
proof fn lemma_run_fails_after(lines: Seq<Seq<char>>, k: int)
    requires
        0 <= k <= lines.len(),
        run(lines.subrange(0, k)) is None,
    ensures
        run(lines) is None,
    decreases lines.len() - k,
{
    if k < lines.len() {
        assert(lines.subrange(0, k + 1).drop_last() =~= lines.subrange(0, k));
        lemma_run_fails_after(lines, k + 1);
    } else {
        assert(lines.subrange(0, k) =~= lines);
    }
}

/// The name a service is known by: its explicit container name if it has
/// one, else its key.
pub open spec fn effective_name(entry: (String, Service)) -> Seq<char> {
    match entry.1.container_name {
        Some(n) => n@,
        None => entry.0@,
    }
}

pub open spec fn effective_names(services: Seq<(String, Service)>) -> Seq<Seq<char>> {
    services.map_values(|e: (String, Service)| effective_name(e))
}

/// The services of a document, in order; none where it has no `services`.
pub open spec fn services_of(yaml: Yaml) -> Seq<(String, Service)> {
    match yaml.services {
        Some(v) => v@,
        None => Seq::empty(),
    }
}

pub open spec fn default_network() -> Seq<char> {
    seq!['d', 'e', 'f', 'a', 'u', 'l', 't']
}

/// `{application}-{service}`.
pub open spec fn container_name_for(app: Seq<char>, name: Seq<char>) -> Seq<char> {
    app + seq!['-'] + name
}

/// `e` is the override entry of the service `key`, known as `name`: its
/// container name, its fixed address on the overlay network, the alias
/// `name` on the default network, and the two resolvers, with nothing else set.
pub open spec fn is_override(
    e: (String, Service),
    key: Seq<char>,
    app: Seq<char>,
    name: Seq<char>,
    overlay: Seq<char>,
    addr: u32,
    resolver: u32,
    fallback: u32,
) -> bool {
    let s = e.1;
    &&& e.0@ == key
    &&& s.container_name is Some && s.container_name->0@ == container_name_for(app, name)
    &&& s.build is None && s.volumes is None && s.ports is None
    &&& s.tty is None && s.stdin_open is None
    &&& s.dns is Some && s.dns->0@ == seq![resolver, fallback]
    &&& s.networks is Some && s.networks->0 is Mapping
    &&& {
        let m = s.networks->0->Mapping_0@;
        &&& m.len() == 2
        &&& m[0].0@ == overlay
        &&& m[0].1.external is None && m[0].1.ipv4_address == Some(addr) && m[0].1.aliases is None
        &&& m[1].0@ == default_network()
        &&& m[1].1.external is None && m[1].1.ipv4_address is None
        &&& m[1].1.aliases is Some && m[1].1.aliases->0@.len() == 1
        &&& m[1].1.aliases->0@[0]@ == name
    }
}

/// The override document declares only the overlay network, as external.
pub open spec fn declares_overlay(networks: Option<Vec<(String, Network)>>, overlay: Seq<char>) -> bool {
    &&& networks is Some
    &&& networks->0@.len() == 1
    &&& networks->0@[0].0@ == overlay
    &&& networks->0@[0].1.external == Some(true)
    &&& networks->0@[0].1.ipv4_address is None
    &&& networks->0@[0].1.aliases is None
}

/// The override document for the application `app`: for each service of
/// `yaml`, in order, its container name, an address from `dhcp` on the
/// overlay network, its alias on the default network and the resolvers.
pub fn create_override(app: &str, yaml: &Yaml, dns: &Dns, dhcp: &mut Dhcp) -> (r: Yaml)
    requires
        dns.wf(),
        old(dhcp).wf(),
        yaml.services is Some ==> old(dhcp).services@.len() + yaml.services->0@.len() < 0xffff_fff0,
    ensures
        final(dhcp).wf(),
        final(dhcp).subnet == old(dhcp).subnet,
        final(dhcp).domain == old(dhcp).domain,
        r.version is None,
        declares_overlay(r.networks, dns.name@),
        r.services is Some,
        ({
            let svcs = services_of(*yaml);
            let names = effective_names(svcs);
            let sub = old(dhcp).subnet;
            let t0 = old(dhcp).table();
            &&& final(dhcp).table() == assign_all(sub, t0, names)
            &&& r.services->0@.len() == svcs.len()
            &&& forall|i: int|
                0 <= i < svcs.len() ==> is_override(
                    #[trigger] r.services->0@[i],
                    svcs[i].0@,
                    app@,
                    names[i],
                    dns.name@,
                    address_of(sub, t0, names, i),
                    address_at(dns.subnet, crate::dhcp::RESOLVER_INDEX as nat),
                    dns.root,
                )
        }),
{
    let ghost svcs = services_of(*yaml);
    let ghost names = effective_names(svcs);
    let ghost sub = dhcp.subnet;
    let ghost t0 = dhcp.table();
    let resolver = dns.addr();
    let fallback = dns.root_addr();
    let app_chars = chars_of(app);
    let mut out: Vec<(String, Service)> = Vec::new();
    let none: Vec<(String, Service)> = Vec::new();
    let given = match &yaml.services {
        Some(v) => v,
        None => &none,
    };
    let n = given.len();
    let mut i: usize = 0;
    proof {
        assert(given@ =~= svcs);
        assert(names.subrange(0, 0) =~= Seq::<Seq<char>>::empty());
    }
    while i < n
        invariant
            n == svcs.len(),
            given@ == svcs,
            svcs == services_of(*yaml),
            names == effective_names(svcs),
            yaml.services is Some ==> old(dhcp).services@.len() + svcs.len() < 0xffff_fff0,
            i <= n,
            dhcp.wf(),
            dhcp.subnet == sub,
            dhcp.domain == old(dhcp).domain,
            sub == old(dhcp).subnet,
            t0 == old(dhcp).table(),
            dhcp.table() == assign_all(sub, t0, names.subrange(0, i as int)),
            dhcp.services@.len() <= old(dhcp).services@.len() + i,
            app_chars@ == app@,
            resolver == address_at(dns.subnet, crate::dhcp::RESOLVER_INDEX as nat),
            fallback == dns.root,
            out@.len() == i,
            forall|j: int|
                0 <= j < i ==> is_override(
                    #[trigger] out@[j],
                    svcs[j].0@,
                    app@,
                    names[j],
                    dns.name@,
                    address_of(sub, t0, names, j),
                    resolver,
                    fallback,
                ),
        decreases n - i,
    {
        let entry = &given[i];
        let name = match &entry.1.container_name {
            Some(c) => copy(c),
            None => copy(&entry.0),
        };
        proof {
            assert(svcs[i as int] == *entry);
            assert(name@ == names[i as int]);
            assert(names.subrange(0, i + 1).drop_last() =~= names.subrange(0, i as int));
        }
        let ghost before = dhcp.table();
        let addr = dhcp.assign(name.as_str());
        proof {
            assert(dhcp.table() == assign_all(sub, t0, names.subrange(0, i + 1)));
            assert(addr == address_of(sub, t0, names, i as int));
            if before.len() < dhcp.table().len() {
                assert(dhcp.services@.len() == before.len() + 1);
            }
        }
        let mut container: Vec<char> = Vec::new();
        push_all(&mut container, &app_chars);
        container.push('-');
        let name_chars = chars_of(name.as_str());
        push_all(&mut container, &name_chars);
        proof {
            assert(container@ =~= container_name_for(app@, names[i as int]));
        }
        let mut nw: Vec<(String, Network)> = Vec::new();
        nw.push(
            (copy(&dns.name), Network { external: None, ipv4_address: Some(addr), aliases: None }),
        );
        let default_name = vec!['d', 'e', 'f', 'a', 'u', 'l', 't'];
        let alias = copy(&name);
        nw.push(
            (
                string_of(&default_name),
                Network { external: None, ipv4_address: None, aliases: Some(vec![alias]) },
            ),
        );
        proof {
            assert(default_name@ =~= default_network());
        }
        let s = Service {
            container_name: Some(string_of(&container)),
            build: None,
            volumes: None,
            ports: None,
            networks: Some(ServiceNetworkable::Mapping(nw)),
            dns: Some(vec![resolver, fallback]),
            tty: None,
            stdin_open: None,
        };
        out.push((copy(&entry.0), s));
        proof {
            assert(out@[i as int].1.dns->0@ =~= seq![resolver, fallback]);
        }
        i = i + 1;
    }
    proof {
        assert(names.subrange(0, n as int) =~= names);
    }
    let mut networks: Vec<(String, Network)> = Vec::new();
    networks.push(
        (copy(&dns.name), Network { external: Some(true), ipv4_address: None, aliases: None }),
    );
    Yaml { version: None, services: Some(out), networks: Some(networks) }
}

/// What synthesis produces for one application.
pub struct Synthesis {
    /// The application's block.
    pub subnet: Subnet,
    /// The override document.
    pub overrides: Yaml,
    /// The resolver records of its services.
    pub zone: String,
}

/// Synthesizes the override and the resolver records of the application
/// `app`, whose domain is `app_domain` and whose sanitized manifest is `yaml`:
/// its block comes from the registry (recorded there when new), its services
/// receive addresses in declaration order.
pub fn synthesize(
    app: &str,
    app_domain: String,
    yaml: &Yaml,
    dns: &Dns,
    registry: &mut Vec<(String, Subnet)>,
) -> (r: Result<Synthesis, SynthesisError>)
    requires
        dns.wf(),
        registry_wf(old(registry)@),
        services_of(*yaml).len() < 0xffff_fff0,
    ensures
        registry_wf(final(registry)@),
        ({
            let s = match r {
                Ok(x) => Ok::<Subnet, SynthesisError>(x.subnet),
                Err(e) => Err(e),
            };
            allocated(
                registry_view(old(registry)@),
                dns.subnet,
                BLOCK_PREFIX as nat,
                app@,
                s,
                registry_view(final(registry)@),
            )
        }),
        r is Ok ==> {
            let x = r->Ok_0;
            let svcs = services_of(*yaml);
            let names = effective_names(svcs);
            let empty = Seq::<(Seq<char>, u32)>::empty();
            &&& x.subnet.wf()
            &&& x.overrides.version is None
            &&& declares_overlay(x.overrides.networks, dns.name@)
            &&& x.overrides.services is Some
            &&& x.overrides.services->0@.len() == svcs.len()
            &&& forall|i: int|
                0 <= i < svcs.len() ==> is_override(
                    #[trigger] x.overrides.services->0@[i],
                    svcs[i].0@,
                    app@,
                    names[i],
                    dns.name@,
                    address_of(x.subnet, empty, names, i),
                    address_at(dns.subnet, dhcp::RESOLVER_INDEX as nat),
                    dns.root,
                )
            &&& x.zone@ == zone(app_domain@, assign_all(x.subnet, empty, names))
        },
{
    let mut d = match dns.new_dhcp_for(registry, app, app_domain) {
        Ok(d) => d,
        Err(e) => return Err(e),
    };
    proof {
        assert(d.services@.len() == d.table().len());
    }
    let overrides = create_override(app, yaml, dns, &mut d);
    let zone_text = d.dns_config();
    Ok(Synthesis { subnet: d.subnet, overrides, zone: zone_text })
}

} // verus!
