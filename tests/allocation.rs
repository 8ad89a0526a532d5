use hills::dns::{self, find_or_create_subnet_for, Dns, BLOCK_PREFIX};
use hills::error::SynthesisError;
use hills::net::{address_for, block_size, Subnet};

fn ip(a: u32, b: u32, c: u32, d: u32) -> u32 {
    (a << 24) | (b << 16) | (c << 8) | d
}

fn pool() -> Subnet {
    Subnet::new(ip(10, 0, 0, 0), 16).unwrap()
}

#[test]
fn first_block_skips_pool_network() {
    let mut reg: Vec<(String, Subnet)> = Vec::new();
    let s = find_or_create_subnet_for(&mut reg, pool(), 24, "alpha").unwrap();
    assert_eq!(s, Subnet::new(ip(10, 0, 1, 0), 24).unwrap());
    assert_eq!(reg, vec![("alpha".to_string(), s)]);
}

#[test]
fn allocation_is_stable() {
    let mut reg: Vec<(String, Subnet)> = Vec::new();
    let a = find_or_create_subnet_for(&mut reg, pool(), 24, "alpha").unwrap();
    let b = find_or_create_subnet_for(&mut reg, pool(), 24, "beta").unwrap();
    let a2 = find_or_create_subnet_for(&mut reg, pool(), 24, "alpha").unwrap();
    assert_eq!(a, a2);
    assert_eq!(b, Subnet::new(ip(10, 0, 2, 0), 24).unwrap());
    assert_eq!(reg.len(), 2);
}

#[test]
fn blocks_never_overlap() {
    let mut reg: Vec<(String, Subnet)> = Vec::new();
    let names = ["a", "b", "c", "d", "e"];
    let mut got = Vec::new();
    for n in names.iter() {
        got.push(find_or_create_subnet_for(&mut reg, pool(), 24, n).unwrap());
    }
    for i in 0..got.len() {
        assert_ne!(got[i].addr, pool().addr);
        for j in 0..got.len() {
            if i != j {
                let (x, y) = (got[i].addr as u64, got[j].addr as u64);
                assert!(x + 256 <= y || y + 256 <= x);
            }
        }
    }
}

#[test]
fn reclaimed_block_is_reused() {
    let mut reg: Vec<(String, Subnet)> = Vec::new();
    let a = find_or_create_subnet_for(&mut reg, pool(), 24, "alpha").unwrap();
    assert_eq!(a, Subnet::new(ip(10, 0, 1, 0), 24).unwrap());
    reg.retain(|e| e.0 != "alpha");
    let b = find_or_create_subnet_for(&mut reg, pool(), 24, "beta").unwrap();
    assert_eq!(b, Subnet::new(ip(10, 0, 1, 0), 24).unwrap());
}

#[test]
fn pool_exhaustion() {
    let small = Subnet::new(ip(192, 168, 0, 0), 23).unwrap();
    let mut reg: Vec<(String, Subnet)> = Vec::new();
    assert_eq!(
        find_or_create_subnet_for(&mut reg, small, 24, "a").unwrap(),
        Subnet::new(ip(192, 168, 1, 0), 24).unwrap()
    );
    assert_eq!(find_or_create_subnet_for(&mut reg, small, 24, "b"), Err(SynthesisError::PoolExhausted));
    assert_eq!(reg.len(), 1);
    let tiny = Subnet::new(ip(192, 168, 0, 0), 28).unwrap();
    assert_eq!(find_or_create_subnet_for(&mut Vec::new(), tiny, 24, "c"), Err(SynthesisError::PoolExhausted));
}

#[test]
fn hand_edited_registry_entries_are_skipped() {
    let mut reg = vec![("old".to_string(), Subnet::new(ip(10, 0, 1, 0), 24).unwrap())];
    let s = find_or_create_subnet_for(&mut reg, pool(), 24, "new").unwrap();
    assert_eq!(s, Subnet::new(ip(10, 0, 2, 0), 24).unwrap());
}

#[test]
fn subnet_validation() {
    assert!(Subnet::new(ip(10, 0, 1, 5), 24).is_none());
    assert!(Subnet::new(ip(10, 0, 1, 0), 33).is_none());
    assert!(Subnet::new(0, 0).is_some());
    assert_eq!(block_size(24), 256);
    assert_eq!(block_size(0), 1 << 32);
    assert_eq!(Subnet::new(ip(10, 0, 1, 0), 24).unwrap().len(), 256);
}

#[test]
fn addresses_saturate_at_block_end() {
    let s = Subnet::new(ip(10, 0, 1, 0), 24).unwrap();
    assert_eq!(address_for(&s, 3), ip(10, 0, 1, 3));
    assert_eq!(address_for(&s, 255), ip(10, 0, 1, 255));
    assert_eq!(address_for(&s, 256), ip(10, 0, 1, 255));
    assert_eq!(address_for(&s, u32::MAX), ip(10, 0, 1, 255));
    let top = Subnet::new(ip(255, 255, 255, 0), 24).unwrap();
    assert_eq!(address_for(&top, 1000), u32::MAX);
}

#[test]
fn resolver_and_fallback_addresses() {
    let d: Dns = dns::new("dns".to_string(), "hills".to_string(), "local".to_string(), pool(), ip(8, 8, 8, 8));
    assert_eq!(d.addr(), ip(10, 0, 0, 2));
    assert_eq!(d.root_addr(), ip(8, 8, 8, 8));
    assert_eq!(d.domain(), "local");
    assert_eq!(BLOCK_PREFIX, 24);
    let mut reg: Vec<(String, Subnet)> = Vec::new();
    let dh = d.new_dhcp_for(&mut reg, "alpha", "alpha.local".to_string()).unwrap();
    assert_eq!(dh.subnet, Subnet::new(ip(10, 0, 1, 0), 24).unwrap());
    assert_eq!(dh.domain, "alpha.local");
}

#[test]
fn resolver_compose_document() {
    let d: Dns = dns::new("dns".to_string(), "hills".to_string(), "local".to_string(), pool(), ip(8, 8, 8, 8));
    let y = d.create_docker_compose();
    assert_eq!(y.version.as_deref(), Some("3.8"));
    let svcs = y.services.unwrap();
    assert_eq!(svcs[0].0, "dns");
    assert_eq!(svcs[0].1.ports.as_ref().unwrap(), &vec!["53:53".to_string(), "53:53/udp".to_string()]);
    assert_eq!(svcs[0].1.build.as_ref().unwrap().dockerfile.as_deref(), Some("unbound.Dockerfile"));
    assert!(d.create_base_config().contains("local-zone: \"local.\" transparent"));
}
