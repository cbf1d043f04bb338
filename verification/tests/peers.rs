use peer_chat::{PeerIdentity, PeerSet};

fn id(bytes: &[u8]) -> PeerIdentity {
    PeerIdentity::new(bytes.to_vec())
}

#[test]
fn identity_keeps_its_bytes() {
    let a = id(&[0, 36, 8, 1]);
    assert_eq!(a.as_bytes(), &[0, 36, 8, 1]);
    assert_eq!(a.clone().as_bytes(), &[0, 36, 8, 1]);
}

#[test]
fn identities_compare_by_their_bytes() {
    assert_eq!(id(&[1, 2, 3]), id(&[1, 2, 3]));
    assert_ne!(id(&[1, 2, 3]), id(&[1, 2, 4]));
    assert_ne!(id(&[1, 2, 3]), id(&[1, 2]));
    assert_ne!(id(&[]), id(&[0]));
    assert_eq!(id(&[]), id(&[]));
}

#[test]
fn new_set_is_empty() {
    let set = PeerSet::new();
    assert!(set.is_empty());
    assert_eq!(set.len(), 0);
    assert!(set.snapshot().is_empty());
    assert!(!set.contains(&id(&[1])));
}

#[test]
fn discover_adds_a_member() {
    let mut set = PeerSet::new();
    assert!(set.discover(id(&[1])));
    assert!(set.contains(&id(&[1])));
    assert!(!set.contains(&id(&[2])));
    assert!(!set.is_empty());
    assert_eq!(set.len(), 1);
}

#[test]
fn discover_twice_is_discover_once() {
    let mut once = PeerSet::new();
    once.discover(id(&[7]));
    once.discover(id(&[9, 9]));
    let mut twice = PeerSet::new();
    twice.discover(id(&[7]));
    twice.discover(id(&[9, 9]));
    assert!(!twice.discover(id(&[9, 9])));
    assert_eq!(twice.snapshot(), once.snapshot());
    assert!(!twice.discover(id(&[7])));
    assert_eq!(twice.snapshot(), once.snapshot());
    assert_eq!(twice.len(), 2);
}

#[test]
fn expire_of_a_stranger_changes_nothing() {
    let mut set = PeerSet::new();
    assert!(!set.expire(&id(&[1])));
    assert!(set.is_empty());
    set.discover(id(&[1]));
    set.discover(id(&[2]));
    assert!(!set.expire(&id(&[3])));
    assert_eq!(set.snapshot(), vec![id(&[1]), id(&[2])]);
}

#[test]
fn expire_after_discover_removes_the_peer() {
    let mut set = PeerSet::new();
    set.discover(id(&[1]));
    set.discover(id(&[2]));
    set.discover(id(&[3]));
    assert!(set.expire(&id(&[2])));
    assert!(!set.contains(&id(&[2])));
    assert_eq!(set.snapshot(), vec![id(&[1]), id(&[3])]);
    assert_eq!(set.len(), 2);
}

#[test]
fn expire_twice_is_expire_once() {
    let mut set = PeerSet::new();
    set.discover(id(&[1]));
    set.discover(id(&[2]));
    assert!(set.expire(&id(&[1])));
    assert!(!set.expire(&id(&[1])));
    assert_eq!(set.snapshot(), vec![id(&[2])]);
}

#[test]
fn rediscovered_peer_joins_at_the_end() {
    let mut set = PeerSet::new();
    set.discover(id(&[1]));
    set.discover(id(&[2]));
    set.expire(&id(&[1]));
    assert!(set.discover(id(&[1])));
    assert_eq!(set.snapshot(), vec![id(&[2]), id(&[1])]);
}

#[test]
fn snapshot_is_in_order_of_discovery() {
    let mut set = PeerSet::new();
    for n in [5u8, 3, 9, 3, 1, 5] {
        set.discover(id(&[n]));
    }
    assert_eq!(set.snapshot(), vec![id(&[5]), id(&[3]), id(&[9]), id(&[1])]);
    assert_eq!(set.len(), 4);
}

#[test]
fn snapshot_does_not_follow_later_changes() {
    let mut set = PeerSet::new();
    set.discover(id(&[1]));
    let then = set.snapshot();
    set.discover(id(&[2]));
    set.expire(&id(&[1]));
    assert_eq!(then, vec![id(&[1])]);
    assert_eq!(set.snapshot(), vec![id(&[2])]);
}
