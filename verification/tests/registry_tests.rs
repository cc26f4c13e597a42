use simpiwallet::error::Error;
use simpiwallet::network::Network;
use simpiwallet::registry::AssemblySet;

const UNIT_PROGRAM: [u8; 1] = [0x24];

fn root(byte: u8) -> Vec<u8> {
    vec![byte; 32]
}

#[test]
fn insert_is_idempotent() {
    let mut set = AssemblySet::new();
    let r = root(0xaa);
    assert!(!set.contains(&r));
    assert!(set.insert(r.clone()));
    assert!(set.contains(&r));
    assert!(!set.insert(r.clone()));
    assert!(set.contains(&r));
    assert_eq!(set.iter().len(), 1);
    assert_eq!(set.iter()[0], r);
}

#[test]
fn get_address_only_for_registered_roots() {
    let mut set = AssemblySet::new();
    let r = root(0x11);
    assert!(set.get_address(&r, Network::Testnet).is_none());
    set.insert(r.clone());
    let addr = set.get_address(&r, Network::Testnet).expect("registered");
    assert!(addr.starts_with("tex1"));
    let addr_rt = set.get_address(&r, Network::Regtest).expect("registered");
    assert!(addr_rt.starts_with("ert1"));
    assert!(set.get_address(&root(0x12), Network::Testnet).is_none());
}

#[test]
fn insert_satisfaction_unknown_root_is_reported() {
    let mut set = AssemblySet::new();
    let r = root(0x33);
    let res = set.insert_satisfaction(&r, UNIT_PROGRAM.to_vec(), Vec::new());
    assert!(matches!(res, Err(Error::UnknownAssembly(bad)) if bad == r));
}

#[test]
fn insert_satisfaction_rejects_malformed_program() {
    let mut set = AssemblySet::new();
    let r = root(0x44);
    set.insert(r.clone());
    let res = set.insert_satisfaction(&r, vec![0xff, 0xff, 0xff], Vec::new());
    assert!(matches!(res, Err(Error::Finalize(_))));
}

#[test]
fn insert_satisfaction_replaces_and_returns_old() {
    let mut set = AssemblySet::new();
    let r = root(0x55);
    set.insert(r.clone());
    let first = set
        .insert_satisfaction(&r, UNIT_PROGRAM.to_vec(), Vec::new())
        .expect("valid program");
    assert!(first.is_none());
    let second = set
        .insert_satisfaction(&r, UNIT_PROGRAM.to_vec(), Vec::new())
        .expect("valid program");
    let prev = second.expect("old value returned, never dropped");
    assert_eq!(prev.program, UNIT_PROGRAM.to_vec());
    assert_eq!(prev.witness, Vec::<u8>::new());
    let stored = set.get_satisfaction(&r).expect("spendable");
    assert_eq!(stored.program, UNIT_PROGRAM.to_vec());
}

#[test]
fn spendable_and_locked_partition_is_disjoint_and_complete() {
    let mut set = AssemblySet::new();
    let locked_root = root(0x01);
    let spendable_root = root(0x02);
    set.insert(locked_root.clone());
    set.insert(spendable_root.clone());
    set.insert_satisfaction(&spendable_root, UNIT_PROGRAM.to_vec(), Vec::new())
        .expect("valid program");

    let spendable = set.spendable_descriptors();
    let locked = set.locked_descriptors();
    assert_eq!(spendable.len(), 1);
    assert_eq!(locked.len(), 1);
    let s_root = simpiwallet::outputs::get_cmr(&spendable[0]).expect("opaque");
    let l_root = simpiwallet::outputs::get_cmr(&locked[0]).expect("opaque");
    assert_eq!(s_root, spendable_root);
    assert_eq!(l_root, locked_root);
    assert_eq!(set.iter().len(), 2);
}
