use hills::application::docker_compose::{create_override, sanitize, sanitize_text, synthesize, transition, PortsState};
use hills::application::{artifact_name, domain, is_up_to_date, plan_sync, template, SyncPlan};
use hills::dhcp;
use hills::dns::{self, Dns};
use hills::docker_compose::{Service, ServiceNetworkable, Yaml};
use hills::error::SynthesisError;
use hills::net::Subnet;
use hills::text::{dotted_string, split_lines};

fn lines(v: &[&str]) -> Vec<String> {
    v.iter().map(|s| s.to_string()).collect()
}

fn ip(a: u32, b: u32, c: u32, d: u32) -> u32 {
    (a << 24) | (b << 16) | (c << 8) | d
}

fn pool_dns() -> Dns {
    dns::new(
        "dns".to_string(),
        "hills".to_string(),
        "local".to_string(),
        Subnet::new(ip(10, 0, 0, 0), 16).unwrap(),
        ip(8, 8, 8, 8),
    )
}

fn service(container_name: Option<&str>) -> Service {
    Service {
        container_name: container_name.map(|s| s.to_string()),
        build: None,
        volumes: None,
        ports: None,
        networks: None,
        dns: None,
        tty: None,
        stdin_open: None,
    }
}

fn compose(entries: Vec<(&str, Option<&str>)>) -> Yaml {
    Yaml {
        version: None,
        services: Some(entries.into_iter().map(|(k, c)| (k.to_string(), service(c))).collect()),
        networks: None,
    }
}

fn overlay_address(s: &Service) -> u32 {
    match &s.networks {
        Some(ServiceNetworkable::Mapping(m)) => m[0].1.ipv4_address.unwrap(),
        _ => panic!("no network map"),
    }
}

#[test]
fn ports_binding_loses_host_part() {
    let r = sanitize(&lines(&["ports:", "  - \"8080:80\""])).unwrap();
    assert_eq!(r, "ports:\n  - \"80\"\n");
}

#[test]
fn ports_text_loses_host_part() {
    assert_eq!(sanitize_text("ports:\n  - \"8080:80\"").unwrap(), "ports:\n  - \"80\"\n");
    assert_eq!(sanitize_text("ports: [\"8080:80\"]").unwrap_err(), SynthesisError::UnsupportedPortsFormat);
}

#[test]
fn lines_split_like_buffered_reading() {
    assert_eq!(split_lines(""), Vec::<String>::new());
    assert_eq!(split_lines("a"), vec!["a".to_string()]);
    assert_eq!(split_lines("a\n"), vec!["a".to_string()]);
    assert_eq!(split_lines("\n"), vec!["".to_string()]);
    assert_eq!(split_lines("a\r\n\nb\r"), vec!["a".to_string(), "".to_string(), "b\r".to_string()]);
}

#[test]
fn inline_ports_list_is_refused() {
    let r = sanitize(&lines(&["services:", "  web:", "    ports: [\"8080:80\"]"]));
    assert_eq!(r.unwrap_err(), SynthesisError::UnsupportedPortsFormat);
}

#[test]
fn sanitize_keeps_other_lines_and_drops_comments() {
    let input = lines(&[
        "services:",
        "  # a comment",
        "  web:",
        "    image: nginx",
        "    ports:",
        "      - 8080:80/udp",
        "      - '127.0.0.1:5432:5432'",
        "    environment:",
        "      - A=1",
    ]);
    let r = sanitize(&input).unwrap();
    assert_eq!(
        r,
        "services:\n  web:\n    image: nginx\n    ports:\n      - 80/udp\n      - '5432'\n    environment:\n      - A=1\n"
    );
}

#[test]
fn sanitize_handles_unbound_and_variable_ports() {
    let input = lines(&["    ports:", "      - \"80\"", "      - \"${HOST_PORT:-8080}:80\"", "      - 3000-3005:3000-3005"]);
    assert_eq!(
        sanitize(&input).unwrap(),
        "    ports:\n      - \"80\"\n      - \"80\"\n      - 3000-3005\n"
    );
}

#[test]
fn sanitize_of_nothing_is_empty() {
    assert_eq!(sanitize(&Vec::new()).unwrap(), "");
}

#[test]
fn transition_closes_block_on_non_item() {
    let (s, out) = transition(PortsState::InsidePortsBlock, "    image: x").unwrap();
    assert_eq!(s, PortsState::OutsidePortsBlock);
    assert_eq!(out.unwrap(), "    image: x");
    let (s, out) = transition(PortsState::OutsidePortsBlock, "  ports:  ").unwrap();
    assert_eq!(s, PortsState::InsidePortsBlock);
    assert_eq!(out.unwrap(), "  ports:  ");
    let (s, out) = transition(PortsState::InsidePortsBlock, "   # note").unwrap();
    assert_eq!(s, PortsState::InsidePortsBlock);
    assert!(out.is_none());
}

#[test]
fn end_to_end_alpha_web() {
    let sanitized = sanitize(&lines(&["services:", "  web:", "    ports:", "      - \"8080:80\""])).unwrap();
    assert!(!sanitized.contains("8080:"));
    assert!(sanitized.contains("\"80\""));
    let d = pool_dns();
    let mut registry: Vec<(String, Subnet)> = Vec::new();
    let app_domain = domain(&"alpha".to_string(), &None, d.domain());
    let s = synthesize("alpha", app_domain, &compose(vec![("web", None)]), &d, &mut registry).unwrap();
    assert_eq!(s.subnet, Subnet::new(ip(10, 0, 1, 0), 24).unwrap());
    let svcs = s.overrides.services.as_ref().unwrap();
    assert_eq!(svcs.len(), 1);
    assert_eq!(svcs[0].0, "web");
    assert_eq!(svcs[0].1.container_name.as_deref(), Some("alpha-web"));
    assert_eq!(overlay_address(&svcs[0].1), ip(10, 0, 1, 3));
    assert_eq!(svcs[0].1.dns.as_ref().unwrap(), &vec![ip(10, 0, 0, 2), ip(8, 8, 8, 8)]);
    assert!(s.zone.contains("web.alpha."));
    assert_eq!(s.zone, "local-data: \"web.alpha.local. A 10.0.1.3\"\n");
    assert_eq!(registry.len(), 1);
    assert_eq!(registry[0].0, "alpha");
    let nets = s.overrides.networks.as_ref().unwrap();
    assert_eq!(nets[0].0, "hills");
    assert_eq!(nets[0].1.external, Some(true));
}

#[test]
fn services_get_addresses_in_declaration_order() {
    let d = pool_dns();
    let mut registry: Vec<(String, Subnet)> = Vec::new();
    let s = synthesize("shop", "shop.local".to_string(), &compose(vec![("web", None), ("worker", None)]), &d, &mut registry)
        .unwrap();
    let svcs = s.overrides.services.unwrap();
    assert_eq!(overlay_address(&svcs[0].1), ip(10, 0, 1, 3));
    assert_eq!(overlay_address(&svcs[1].1), ip(10, 0, 1, 4));
    let s2 = synthesize("shop", "shop.local".to_string(), &compose(vec![("worker", None), ("web", None)]), &d, &mut registry)
        .unwrap();
    let svcs2 = s2.overrides.services.unwrap();
    assert_eq!(svcs2[0].0, "worker");
    assert_eq!(overlay_address(&svcs2[0].1), ip(10, 0, 1, 3));
    assert_eq!(s2.subnet, s.subnet);
}

#[test]
fn explicit_container_name_is_the_effective_name() {
    let d = pool_dns();
    let mut registry: Vec<(String, Subnet)> = Vec::new();
    let s = synthesize("alpha", "alpha.local".to_string(), &compose(vec![("db", Some("postgres"))]), &d, &mut registry)
        .unwrap();
    let svcs = s.overrides.services.unwrap();
    assert_eq!(svcs[0].0, "db");
    assert_eq!(svcs[0].1.container_name.as_deref(), Some("alpha-postgres"));
    match &svcs[0].1.networks {
        Some(ServiceNetworkable::Mapping(m)) => {
            assert_eq!(m[1].0, "default");
            assert_eq!(m[1].1.aliases.as_ref().unwrap(), &vec!["postgres".to_string()]);
        }
        _ => panic!("no network map"),
    }
    assert_eq!(s.zone, "local-data: \"postgres.alpha.local. A 10.0.1.3\"\n");
}

#[test]
fn repeated_effective_name_keeps_its_address() {
    let sub = Subnet::new(ip(10, 0, 7, 0), 24).unwrap();
    let mut d = dhcp::new("a.local".to_string(), sub);
    assert_eq!(d.assign("x"), ip(10, 0, 7, 3));
    assert_eq!(d.assign("y"), ip(10, 0, 7, 4));
    assert_eq!(d.assign("x"), ip(10, 0, 7, 3));
    assert_eq!(d.assign("z"), ip(10, 0, 7, 5));
    assert_eq!(
        d.dns_config(),
        "local-data: \"x.a.local. A 10.0.7.3\"\nlocal-data: \"y.a.local. A 10.0.7.4\"\nlocal-data: \"z.a.local. A 10.0.7.5\"\n"
    );
}

#[test]
fn create_override_without_services() {
    let d = pool_dns();
    let mut dh = dhcp::new("a.local".to_string(), Subnet::new(ip(10, 0, 3, 0), 24).unwrap());
    let y = create_override("a", &Yaml { version: None, services: None, networks: None }, &d, &mut dh);
    assert_eq!(y.services.unwrap().len(), 0);
    assert_eq!(dh.dns_config(), "");
}

#[test]
fn artifact_cache_plan() {
    let h1 = "a".repeat(64);
    let h2 = "b".repeat(64);
    assert_eq!(artifact_name(&h1), format!("{}.yml", h1));
    let files = vec![format!("{}.yml", h1), "override.yml".to_string()];
    assert!(is_up_to_date(&h1, &files));
    assert!(!is_up_to_date(&h2, &files));
    assert!(matches!(plan_sync(&h1, &files, false), SyncPlan::UpToDate));
    match plan_sync(&h1, &files, true) {
        SyncPlan::Regenerate { artifact, stale } => {
            assert_eq!(artifact, format!("{}.yml", h1));
            assert_eq!(stale, vec!["override.yml".to_string()]);
        }
        SyncPlan::UpToDate => panic!("forced synthesis must regenerate"),
    }
    match plan_sync(&h2, &files, false) {
        SyncPlan::Regenerate { artifact, stale } => {
            assert_eq!(artifact, format!("{}.yml", h2));
            assert_eq!(stale, files);
        }
        SyncPlan::UpToDate => panic!("a new hash must regenerate"),
    }
}

#[test]
fn idempotent_synthesis_is_a_no_op() {
    let h = "c".repeat(64);
    let files = match plan_sync(&h, &Vec::new(), false) {
        SyncPlan::Regenerate { artifact, .. } => vec![artifact, "override.yml".to_string()],
        SyncPlan::UpToDate => panic!("empty directory is not current"),
    };
    assert!(matches!(plan_sync(&h, &files, false), SyncPlan::UpToDate));
    let a = sanitize(&lines(&["ports:", "  - \"1:2\""])).unwrap();
    let b = sanitize(&lines(&["ports:", "  - \"1:2\""])).unwrap();
    assert_eq!(a, b);
}

#[test]
fn template_text() {
    assert_eq!(
        template(),
        "# Relative path to the repository directory from not applications directory but root.\npath = \"\"\n\n# URL for the repository\nrepository = \"\"\n"
    );
}

#[test]
fn application_domain_prefers_alias() {
    assert_eq!(domain(&"alpha".to_string(), &None, "local"), "alpha.local");
    assert_eq!(domain(&"alpha".to_string(), &Some("a".to_string()), "local"), "a.local");
}

#[test]
fn dotted_quad() {
    assert_eq!(dotted_string(ip(172, 31, 0, 2)), "172.31.0.2");
    assert_eq!(dotted_string(0), "0.0.0.0");
    assert_eq!(dotted_string(u32::MAX), "255.255.255.255");
}
