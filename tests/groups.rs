use mpc_websocket::groups::ServiceError;
use mpc_websocket::messages::{ServiceCall, ServiceReply};
use mpc_websocket::phase::Phase;
use mpc_websocket::server::Server;
use mpc_websocket::types::Parameters;

fn params() -> Parameters {
    Parameters { parties: 3, threshold: 1 }
}

#[test]
fn group_create_makes_owner_the_only_member() {
    let mut server = Server::new(params());
    let g = server.group_create(1, "demo".to_string(), params());
    assert_eq!(g.len(), 36);
    let other = server.group_create(1, "demo".to_string(), params());
    assert_ne!(g, other);
    let snap = server.group_join(1, &g).unwrap();
    assert_eq!(snap.clients, vec![1]);
    assert_eq!(snap.owner, 1);
    assert_eq!(snap.label, "demo");
    assert_eq!(snap.params, params());
}

#[test]
fn group_join_is_idempotent() {
    let mut server = Server::new(params());
    let g = server.group_create_with(1, "demo".to_string(), params(), "G".to_string());
    assert_eq!(g, "G");
    let once = server.group_join(2, &g).unwrap();
    let twice = server.group_join(2, &g).unwrap();
    assert_eq!(once.clients, vec![1, 2]);
    assert_eq!(twice.clients.len(), once.clients.len());
}

#[test]
fn group_join_unknown_is_not_found() {
    let mut server = Server::new(params());
    assert_eq!(server.group_join(1, &"nope".to_string()).unwrap_err(), ServiceError::NotFound);
}

#[test]
fn session_calls_check_membership() {
    let mut server = Server::new(params());
    let g = server.group_create(1, "demo".to_string(), params());
    assert_eq!(server.session_create(2, &g, Phase::Keygen).unwrap_err(), ServiceError::Forbidden);
    assert_eq!(
        server.session_create(1, &"nope".to_string(), Phase::Keygen).unwrap_err(),
        ServiceError::NotFound
    );
    let s = server.session_create(1, &g, Phase::Keygen).unwrap();
    assert_eq!(s.phase, Phase::Keygen);
    assert_eq!(s.uuid.len(), 36);
    assert_eq!(server.session_join(2, &g, &s.uuid).unwrap_err(), ServiceError::Forbidden);
    assert_eq!(
        server.session_join(1, &"nope".to_string(), &s.uuid).unwrap_err(),
        ServiceError::NotFound
    );
    assert_eq!(
        server.session_join(1, &g, &"missing".to_string()).unwrap_err(),
        ServiceError::NotFound
    );
    server.group_join(2, &g).unwrap();
    let joined = server.session_join(2, &g, &s.uuid).unwrap();
    assert_eq!((joined.uuid, joined.phase), (s.uuid, Phase::Keygen));
}

#[test]
fn service_calls_dispatch() {
    let mut server = Server::new(params());
    let g = match server
        .handle_call(1, ServiceCall::GroupCreate { label: "x".to_string(), params: params() })
    {
        Ok(ServiceReply::GroupId(g)) => g,
        _ => panic!("expected a group id"),
    };
    match server.handle_call(2, ServiceCall::GroupJoin { group: g.clone() }) {
        Ok(ServiceReply::Group(snap)) => assert_eq!(snap.clients, vec![1, 2]),
        _ => panic!("expected a group"),
    }
    let s = match server
        .handle_call(2, ServiceCall::SessionCreate { group: g.clone(), phase: Phase::Signing })
    {
        Ok(ServiceReply::Session(s)) => s,
        _ => panic!("expected a session"),
    };
    assert_eq!(s.phase, Phase::Signing);
    match server.handle_call(
        1,
        ServiceCall::SessionJoin { group: g.clone(), session: s.uuid.clone(), phase: Phase::Signing },
    ) {
        Ok(ServiceReply::Session(j)) => assert_eq!(j.uuid, s.uuid),
        _ => panic!("expected a session"),
    }
    assert!(matches!(
        server.handle_call(3, ServiceCall::SessionCreate { group: g, phase: Phase::Keygen }),
        Err(ServiceError::Forbidden)
    ));
}
