use p2p_rt::p2p::prepare_open;
use p2p_rt::p2p::P2pError;
use p2p_rt::p2p::Peer;
use p2p_rt::p2p::PeerAddr;
use p2p_rt::p2p::PeerRegistry;
use p2p_rt::p2p::ServiceName;
use p2p_rt::time::Interval;
use p2p_rt::time::Timeout;
use p2p_rt::vlock::VLock;

fn addr(n: u64) -> PeerAddr {
    PeerAddr { ip_hi: 0, ip_lo: n, port: 4433, v4: false }
}

#[test]
fn racing_opens_dial_once() {
    let mut reg: PeerRegistry<u32> = PeerRegistry::new();
    // Both racers reach the dial decision; only the first claim wins.
    assert!(reg.claim_dial(addr(1)));
    assert!(!reg.claim_dial(addr(1)));
    assert!(reg.dial_in_flight(addr(1)));
    // The winner's dial completes and registers, settling the claim; the
    // address never again calls for a dial.
    assert!(reg.register(Peer::new(addr(1), 7)));
    assert!(!reg.dial_in_flight(addr(1)));
    assert!(!reg.claim_dial(addr(1)));
    assert!(!reg.needs_dial(addr(1)));
    // A late duplicate registration (the inbound race) is refused too.
    assert!(!reg.register(Peer::new(addr(1), 9)));
    assert_eq!(reg.lookup_openner(addr(1)).copied(), Some(7));
}

#[test]
fn failed_dial_releases_its_claim() {
    let mut reg: PeerRegistry<u32> = PeerRegistry::new();
    assert!(reg.claim_dial(addr(9)));
    // The dial failed: the claim goes back, so a later attempt may dial.
    reg.abandon_dial(addr(9));
    assert!(!reg.dial_in_flight(addr(9)));
    assert!(reg.claim_dial(addr(9)));
}

#[test]
fn address_families_do_not_merge() {
    let mut reg: PeerRegistry<u32> = PeerRegistry::new();
    let four = PeerAddr { ip_hi: 0, ip_lo: 0x7f00_0001, port: 4433, v4: true };
    let sixteen = PeerAddr { ip_hi: 0, ip_lo: 0x7f00_0001, port: 4433, v4: false };
    assert!(reg.register(Peer::new(four, 1)));
    assert!(reg.register(Peer::new(sixteen, 2)));
    assert_eq!(reg.lookup_openner(four).copied(), Some(1));
    assert_eq!(reg.lookup_openner(sixteen).copied(), Some(2));
}

#[test]
fn teardown_removes_only_its_peer() {
    let mut reg: PeerRegistry<u32> = PeerRegistry::new();
    assert!(reg.register(Peer::new(addr(1), 10)));
    assert!(reg.register(Peer::new(addr(2), 20)));
    reg.remove(addr(1));
    assert!(reg.needs_dial(addr(1)));
    assert_eq!(reg.lookup_openner(addr(2)).copied(), Some(20));
}

#[test]
fn open_against_missing_peer_is_the_no_peer_race() {
    let reg: PeerRegistry<u32> = PeerRegistry::new();
    let name = ServiceName::new("echo".to_owned());
    let err = prepare_open(&reg, addr(3), &name).unwrap_err();
    assert_eq!(err, P2pError::NoPeer);
}

#[test]
fn open_against_known_peer_yields_opener_and_frame() {
    let mut reg: PeerRegistry<u32> = PeerRegistry::new();
    assert!(reg.register(Peer::new(addr(3), 42)));
    let name = ServiceName::new("echo".to_owned());
    let (openner, frame) = prepare_open(&reg, addr(3), &name).unwrap();
    assert_eq!(*openner, 42);
    assert_eq!(frame, vec![0x91, 0xa4, b'e', b'c', b'h', b'o']);
}

#[test]
fn one_guard_at_a_time() {
    let mut lock = VLock::new();
    let guard = lock.try_lock().expect("free lock must be acquired");
    // While the guard is out, every further attempt is refused.
    assert!(lock.try_lock().is_none());
    assert!(lock.try_lock().is_none());
    lock.unlock(guard);
    let again = lock.lock();
    assert!(lock.try_lock().is_none());
    lock.unlock(again);
}

#[test]
fn interval_schedule_is_start_plus_n_periods() {
    let every = Interval::new(250);
    assert_eq!(every.nth_tick(1_000, 0), Some(1_000));
    assert_eq!(every.nth_tick(1_000, 4), Some(2_000));
    assert_eq!(every.nth_tick(u64::MAX, 1), None);
    assert_eq!(Interval::new(u64::MAX).nth_tick(0, 2), None);
}

#[test]
fn timeout_fires_once_at_its_deadline() {
    let after = Timeout::new(5_000);
    assert_eq!(after.deadline(100), Some(5_100));
    assert_eq!(after.deadline(u64::MAX), None);
}
