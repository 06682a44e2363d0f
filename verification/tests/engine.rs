use irc_correlator::engine::Engine;
use irc_correlator::engine::RawRecord;
use irc_correlator::engine::ResultSet;
use irc_correlator::engine::Sender;
use irc_correlator::hostmask::HostMask;

fn rec(id: i64, text: &str) -> RawRecord {
    RawRecord { id, text: String::from(text), realname: None }
}

#[test]
fn no_matches_terminates_after_one_round() {
    let mask = HostMask::from_str("kks!~kks@user/kks").unwrap();
    let mut e = Engine::new(&mask, 3, false, false);
    assert!(!e.finished());
    assert_eq!(e.nick_queries(), vec![String::from("kks%")]);
    assert_eq!(e.ident_queries().len(), 0);
    assert_eq!(e.host_queries(), vec![String::from("%user/kks")]);
    e.absorb_round(&Vec::new());
    assert!(e.finished());
    assert_eq!(e.results().len(), 0);
}

#[test]
fn seed_ident_queried_when_following() {
    let mask = HostMask::from_str("kks!~kks@user/kks").unwrap();
    let e = Engine::new(&mask, 3, true, false);
    assert_eq!(e.ident_queries(), vec![String::from("%~kks%")]);
}

#[test]
fn rediscovery_does_not_grow_visited() {
    let mask = HostMask::from_str("a!b@c").unwrap();
    let mut e = Engine::new(&mask, 5, true, false);
    e.absorb_round(&vec![rec(1, "x!y@z"), rec(1, "x!y@z")]);
    assert_eq!(e.results().len(), 1);
    // the same record in a later round changes nothing
    e.absorb_round(&vec![rec(1, "x!y@z")]);
    assert_eq!(e.results().len(), 1);
    // the same mask under a new store id is a new discovery
    e.absorb_round(&vec![rec(2, "x!y@z")]);
    assert_eq!(e.results().len(), 2);
}

#[test]
fn depth_bound_stops_engine() {
    let mask = HostMask::from_str("n!i@h").unwrap();
    let mut e = Engine::new(&mask, 1, false, false);
    let rows = vec![rec(1, "n1!i1@h1"), rec(2, "n2!i2@h2")];
    e.absorb_round(&rows);
    // the frontiers were rebuilt, but the depth bound ends the run
    assert_eq!(e.nick_queries().len(), 2);
    assert!(e.finished());
}

#[test]
fn ident_frontier_stays_empty_when_off() {
    let mask = HostMask::from_str("n!i@h").unwrap();
    let mut e = Engine::new(&mask, 3, false, false);
    assert_eq!(e.ident_queries().len(), 0);
    e.absorb_round(&vec![rec(1, "a!id1@x"), rec(2, "b!id2@y")]);
    assert_eq!(e.ident_queries().len(), 0);
    assert_eq!(e.nick_queries().len(), 2);
    // the idents were still stored on the records themselves
    assert_eq!(e.results().len(), 2);
}

#[test]
fn malformed_rows_are_dropped() {
    let mask = HostMask::from_str("n!i@h").unwrap();
    let mut e = Engine::new(&mask, 3, false, false);
    e.absorb_round(&vec![rec(1, "nodelims"), rec(2, "ok!mask@host"), rec(3, "half!only")]);
    assert_eq!(e.results().len(), 1);
}

#[test]
fn subnet_flag_applied_to_discoveries() {
    let mask = HostMask::from_str("n!i@66.205.192.51").unwrap();
    let mut e = Engine::new(&mask, 3, false, true);
    assert_eq!(e.host_queries(), vec![String::from("%66_205_192%")]);
    e.absorb_round(&vec![rec(1, "m!j@10.1.2.3")]);
    assert_eq!(e.host_queries(), vec![String::from("%10_1_2%")]);
}

#[test]
fn frontier_deduplicates_components() {
    let mask = HostMask::from_str("n!i@h").unwrap();
    let mut e = Engine::new(&mask, 3, true, false);
    // two new records share a nick and a host but differ in id
    e.absorb_round(&vec![rec(1, "same!a@host.example"), rec(2, "same!b@host.example")]);
    assert_eq!(e.results().len(), 2);
    assert_eq!(e.nick_queries(), vec![String::from("same%")]);
    assert_eq!(e.host_queries(), vec![String::from("%host.example")]);
    assert_eq!(e.ident_queries().len(), 2);
}

#[test]
fn insert_is_idempotent() {
    let mut rs = ResultSet::new();
    let s = Sender {
        id: 7,
        sender: HostMask::from_str("a!b@c").unwrap(),
        realname: None,
    };
    assert!(rs.insert(s.clone()));
    assert!(!rs.insert(s.clone()));
    assert_eq!(rs.len(), 1);
    // a different display name makes a different record
    let named = Sender {
        id: 7,
        sender: HostMask::from_str("a!b@c").unwrap(),
        realname: Some(String::from("someone")),
    };
    assert!(rs.insert(named));
    assert_eq!(rs.len(), 2);
    assert!(rs.contains(&s));
}

#[test]
fn results_are_readable() {
    let mask = HostMask::from_str("n!i@h").unwrap();
    let mut e = Engine::new(&mask, 3, false, false);
    e.absorb_round(&vec![rec(9, "x!y@z")]);
    let rs = e.results();
    assert_eq!(rs.len(), 1);
    let s = rs.get(0);
    assert_eq!(s.id, 9);
    assert_eq!(s.sender.nick().text(), "x");
    assert_eq!(s.sender.ident().text(), "y");
    assert_eq!(s.sender.host().text(), "z");
    assert!(matches!(s.realname, None));
}
