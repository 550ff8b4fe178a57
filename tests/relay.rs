use mpc_websocket::keys::{decimal_text, round_key_text};
use mpc_websocket::messages::{Outgoing, Reply, Request, Round};
use mpc_websocket::phase::{Phase, PhaseMachine};
use mpc_websocket::registry::Registry;
use mpc_websocket::server::Server;
use mpc_websocket::signup::next_signup;
use mpc_websocket::store::RoundStore;
use mpc_websocket::types::{Entry, Parameters, PartySignup};

fn entry(key: &str, value: &str) -> Entry {
    Entry { key: key.to_string(), value: value.to_string() }
}

fn answers(out: &[Outgoing]) -> Vec<(usize, String, Vec<String>)> {
    out.iter()
        .filter_map(|o| match &o.reply {
            Reply::CommitmentAnswer { round, answer } => {
                Some((o.conn_id, round.clone(), answer.clone()))
            }
            _ => None,
        })
        .collect()
}

fn server_with(parties: u16, conns: usize) -> (Server, Vec<usize>) {
    let mut server = Server::new(Parameters { parties, threshold: parties - 1 });
    let ids: Vec<usize> = (0..conns).map(|_| server.connect().unwrap()).collect();
    (server, ids)
}

#[test]
fn phase_cursor_moves_forward_and_holds_at_last() {
    let mut m = PhaseMachine::new();
    assert_eq!(m.current(), Phase::Standby);
    assert_eq!(m.advance(), Phase::Keygen);
    assert_eq!(m.advance(), Phase::Signing);
    assert_eq!(m.advance(), Phase::Signing);
    assert_eq!(m.current(), Phase::Signing);
}

#[test]
fn decimal_and_key_text() {
    assert_eq!(decimal_text(0), "0");
    assert_eq!(decimal_text(7), "7");
    assert_eq!(decimal_text(10), "10");
    assert_eq!(decimal_text(65535), "65535");
    assert_eq!(round_key_text(12, "round1", "R"), "12-round1-R");
}

#[test]
fn next_signup_advances_then_rolls_over() {
    let cur = PartySignup { number: 1, uuid: "R".to_string() };
    let n = next_signup(&cur, 3, "S".to_string());
    assert_eq!((n.number, n.uuid.as_str()), (2, "R"));
    let full = PartySignup { number: 3, uuid: "R".to_string() };
    let n = next_signup(&full, 3, "S".to_string());
    assert_eq!((n.number, n.uuid.as_str()), (1, "S"));
}

#[test]
fn sequential_signups_fill_run_then_start_new_one() {
    for parties in 1u16..=4 {
        let (mut server, ids) = server_with(parties, parties as usize + 1);
        let seats: Vec<PartySignup> =
            ids.iter().map(|c| server.party_signup(*c).unwrap()).collect();
        for (i, s) in seats.iter().take(parties as usize).enumerate() {
            assert_eq!(s.number as usize, i + 1);
            assert_eq!(s.uuid, seats[0].uuid);
            assert_eq!(s.uuid.len(), 36);
        }
        let last = &seats[parties as usize];
        assert_eq!(last.number, 1);
        assert_ne!(last.uuid, seats[0].uuid);
        assert_eq!(last.uuid.len(), 36);
    }
}

#[test]
fn signup_of_unknown_connection_is_refused() {
    let (mut server, _) = server_with(2, 1);
    assert!(server.party_signup(99).is_none());
}

#[test]
fn store_overwrite_keeps_count() {
    let mut s = RoundStore::new();
    s.insert("a".to_string(), "1".to_string());
    s.insert("b".to_string(), "2".to_string());
    assert_eq!(s.len(), 2);
    s.insert("a".to_string(), "3".to_string());
    assert_eq!(s.len(), 2);
    assert_eq!(s.get(&"a".to_string()), Some("3".to_string()));
    assert_eq!(s.get(&"c".to_string()), None);
    s.clear();
    assert_eq!(s.len(), 0);
}

#[test]
fn answer_skips_own_and_missing_entries() {
    let mut s = RoundStore::new();
    s.insert("1-round1-R".to_string(), "x1".to_string());
    s.insert("3-round1-R".to_string(), "x3".to_string());
    s.insert("2-round1-R".to_string(), "x2".to_string());
    s.insert("4-round2-R".to_string(), "other".to_string());
    assert_eq!(s.answer_for(2, "round1", "R", 4), vec!["x1".to_string(), "x3".to_string()]);
    assert_eq!(s.answer_for(1, "round1", "R", 4), vec!["x2".to_string(), "x3".to_string()]);
    assert_eq!(s.answer_for(1, "round1", "Q", 4), Vec::<String>::new());
    assert!(s.answer_for(4, "round1", "R", 4).len() <= 3);
}

#[test]
fn round_fires_only_at_nth_distinct_key() {
    let (mut server, ids) = server_with(3, 3);
    let run = server.party_signup(ids[0]).unwrap().uuid;
    server.party_signup(ids[1]);
    server.party_signup(ids[2]);
    let k1 = format!("1-round1-{}", run);
    let k2 = format!("2-round1-{}", run);
    let k3 = format!("3-round1-{}", run);
    assert!(server.submit_entry(Round::One, entry(&k1, "a"), &run).is_empty());
    assert!(server.submit_entry(Round::One, entry(&k1, "a2"), &run).is_empty());
    assert!(server.submit_entry(Round::One, entry(&k2, "b"), &run).is_empty());
    let out = server.submit_entry(Round::One, entry(&k3, "c"), &run);
    assert_eq!(answers(&out).len(), 3);
}

#[test]
fn store_is_fresh_after_broadcast() {
    let (mut server, ids) = server_with(2, 2);
    let run = server.party_signup(ids[0]).unwrap().uuid;
    server.party_signup(ids[1]);
    let k1 = format!("1-round1-{}", run);
    let k2 = format!("2-round1-{}", run);
    assert!(server.submit_entry(Round::One, entry(&k1, "a"), &run).is_empty());
    assert_eq!(server.submit_entry(Round::One, entry(&k2, "b"), &run).len(), 2);
    // the same key again counts as the first entry of a new round
    assert!(server.submit_entry(Round::One, entry(&k1, "a"), &run).is_empty());
    assert_eq!(server.submit_entry(Round::One, entry(&k2, "b"), &run).len(), 2);
}

#[test]
fn three_party_round_answers() {
    let (mut server, ids) = server_with(3, 3);
    let run = server.party_signup(ids[0]).unwrap().uuid;
    assert_eq!(server.party_signup(ids[1]).unwrap().number, 2);
    assert_eq!(server.party_signup(ids[2]).unwrap().number, 3);
    let key = |p: u16| format!("{}-round1-{}", p, run);
    let r1 = server.handle_request(
        ids[0],
        10,
        Request::SetRoundEntry { round: Round::One, entry: entry(&key(2), "a"), uuid: run.clone() },
    );
    assert_eq!(r1.len(), 1);
    assert!(matches!(r1[0].reply, Reply::Ack));
    assert_eq!((r1[0].conn_id, r1[0].id), (ids[0], Some(10)));
    let r2 = server.handle_request(
        ids[1],
        11,
        Request::SetRoundEntry { round: Round::One, entry: entry(&key(1), "b"), uuid: run.clone() },
    );
    assert_eq!(r2.len(), 1);
    let r3 = server.handle_request(
        ids[2],
        12,
        Request::SetRoundEntry { round: Round::One, entry: entry(&key(3), "c"), uuid: run.clone() },
    );
    assert!(matches!(r3[0].reply, Reply::Ack));
    assert_eq!(r3[0].conn_id, ids[2]);
    let got = answers(&r3[1..]);
    assert_eq!(
        got,
        vec![
            (ids[0], "round1".to_string(), vec!["a".to_string(), "c".to_string()]),
            (ids[1], "round1".to_string(), vec!["b".to_string(), "c".to_string()]),
            (ids[2], "round1".to_string(), vec!["b".to_string(), "a".to_string()]),
        ]
    );
    assert!(r3[1..].iter().all(|o| o.id.is_none()));
}

#[test]
fn round_two_answers_skip_unseated_parties() {
    let (mut server, ids) = server_with(2, 2);
    let run = server.party_signup(ids[0]).unwrap().uuid;
    server.party_signup(ids[1]);
    server.disconnect(ids[1]);
    server.submit_entry(Round::Two, entry(&format!("1-round2-{}", run), "p"), &run);
    let out = server.submit_entry(Round::Two, entry(&format!("2-round2-{}", run), "q"), &run);
    assert_eq!(answers(&out), vec![(ids[0], "round2".to_string(), vec!["q".to_string()])]);
}

#[test]
fn deregistered_party_is_not_found() {
    let (mut server, ids) = server_with(3, 7);
    assert_eq!(ids[6], 7);
    server.party_signup(1);
    let seat = server.party_signup(7).unwrap();
    assert_eq!(seat.number, 2);
    assert_eq!(server.conn_for_party(2), Some(7));
    server.disconnect(7);
    assert_eq!(server.conn_for_party(2), None);
    assert!(!server.is_connected(7));
    server.disconnect(7);
    assert_eq!(server.conn_for_party(2), None);
}

#[test]
fn registry_lookup_by_number_and_seat() {
    let mut reg = Registry::new();
    reg.register(4);
    reg.register(5);
    assert!(reg.seat(5, PartySignup { number: 1, uuid: "R".to_string() }));
    assert!(reg.seat(4, PartySignup { number: 1, uuid: "S".to_string() }));
    assert!(!reg.seat(6, PartySignup { number: 1, uuid: "R".to_string() }));
    assert_eq!(reg.find_by_party_number(1), Some(4));
    assert_eq!(reg.find_seat(1, &"R".to_string()), Some(5));
    assert_eq!(reg.find_seat(2, &"R".to_string()), None);
    reg.register(4);
    assert_eq!(reg.find_by_party_number(1), Some(5));
    assert!(reg.contains(4));
}

#[test]
fn parameters_request_reports_params_and_conn() {
    let (mut server, ids) = server_with(3, 1);
    let out = server.handle_request(ids[0], 1, Request::Parameters);
    assert_eq!(out.len(), 1);
    match &out[0].reply {
        Reply::Parameters { parties, threshold, conn_id } => {
            assert_eq!((*parties, *threshold, *conn_id), (3, 2, ids[0]));
        }
        _ => panic!("expected parameters"),
    }
    let out = server.handle_request(ids[0], 2, Request::PartySignup);
    match &out[0].reply {
        Reply::Signup { party_signup } => assert_eq!(party_signup.number, 1),
        _ => panic!("expected signup"),
    }
}

#[test]
fn server_phase_advances() {
    let (mut server, _) = server_with(2, 0);
    assert_eq!(server.phase(), Phase::Standby);
    assert_eq!(server.advance_phase(), Phase::Keygen);
    assert_eq!(server.advance_phase(), Phase::Signing);
    assert_eq!(server.advance_phase(), Phase::Signing);
}
