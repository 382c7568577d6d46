use graphql_subs::registry::Registry;
use graphql_subs::schema::{RootType, Schema};
use graphql_subs::selection::{Field, Selection};
use graphql_subs::session::{Frame, HeartbeatConfig, WsSession, SessionAction, SessionEvent, SessionState};
use graphql_subs::stub::{Definition, Document, SubscriptionRoot};

fn config() -> HeartbeatConfig {
    HeartbeatConfig { tick_interval: 1, timeout_window: 10 }
}

fn active(now: u64, slot: usize) -> WsSession {
    let mut s = WsSession::new(config(), now);
    assert!(matches!(s.step(SessionEvent::Opened { slot }, now), SessionAction::Nothing));
    assert_eq!(s.state, SessionState::Active);
    s
}

#[test]
fn deregister_twice_is_noop() {
    let mut r = Registry::new();
    let a = r.register(10);
    let b = r.register(20);
    assert_ne!(a, b);
    assert!(r.deregister(a));
    assert!(!r.deregister(a));
    assert_eq!(r.len(), 1);
    assert_eq!(r.targets(), vec![(b, 20)]);
}

#[test]
fn fanout_prunes_only_closed_subscriber() {
    let mut r = Registry::new();
    let slots: Vec<usize> = (0..4u64).map(|c| r.register(100 + c)).collect();
    let targets = r.targets();
    assert_eq!(targets.len(), 4);
    let closed = slots[2];
    let failed: Vec<usize> = targets.iter().map(|t| t.0).filter(|s| *s == closed).collect();
    let delivered: Vec<usize> = targets.iter().map(|t| t.0).filter(|s| *s != closed).collect();
    assert_eq!(delivered.len(), 3);
    r.prune(&failed);
    assert_eq!(r.len(), 3);
    let left: Vec<usize> = r.targets().iter().map(|t| t.0).collect();
    assert_eq!(left, delivered);
}

#[test]
fn freed_slot_is_reused() {
    let mut r = Registry::new();
    let a = r.register(1);
    r.register(2);
    r.deregister(a);
    assert_eq!(r.register(3), a);
    assert_eq!(r.targets(), vec![(0, 3), (1, 2)]);
}

#[test]
fn pongs_keep_session_active() {
    let mut s = active(0, 4);
    let mut now: u64 = 0;
    for _ in 0..50 {
        now += 9;
        s.step(SessionEvent::Inbound(Frame::Pong(vec![])), now);
        now += 1;
        assert!(matches!(s.step(SessionEvent::Tick, now), SessionAction::Nothing));
        assert_eq!(s.state, SessionState::Active);
    }
}

#[test]
fn silent_session_closes_and_deregisters() {
    let mut r = Registry::new();
    let slot = r.register(7);
    let mut s = active(5, slot);
    assert!(matches!(s.step(SessionEvent::Tick, 15), SessionAction::Nothing));
    match s.step(SessionEvent::Tick, 16) {
        SessionAction::Close { deregister: Some(k) } => {
            assert_eq!(k, slot);
            assert_eq!(s.state, SessionState::Closing);
            assert!(r.deregister(k));
            assert!(matches!(s.step(SessionEvent::Deregistered, 16), SessionAction::Nothing));
        }
        other => panic!("unexpected {:?}", other),
    }
    assert_eq!(s.state, SessionState::Closed);
    assert_eq!(r.len(), 0);
    assert!(matches!(s.step(SessionEvent::Inbound(Frame::Ping(vec![1])), 17), SessionAction::Nothing));
}

#[test]
fn session_frames() {
    let mut s = active(0, 3);
    match s.step(SessionEvent::Inbound(Frame::Ping(vec![1, 2])), 4) {
        SessionAction::SendPong(p) => assert_eq!(p, vec![1, 2]),
        other => panic!("unexpected {:?}", other),
    }
    assert_eq!(s.last_heartbeat, 4);
    match s.step(SessionEvent::Inbound(Frame::Text("start".to_string())), 5) {
        SessionAction::Forward(t) => assert_eq!(t, "start"),
        other => panic!("unexpected {:?}", other),
    }
    match s.step(SessionEvent::Outbound("{}".to_string()), 5) {
        SessionAction::SendText(t) => assert_eq!(t, "{}"),
        other => panic!("unexpected {:?}", other),
    }
    assert!(matches!(s.step(SessionEvent::Inbound(Frame::Nop), 6), SessionAction::Nothing));
    assert!(matches!(
        s.step(SessionEvent::Inbound(Frame::Binary(vec![0])), 6),
        SessionAction::Close { deregister: Some(3) }
    ));
    assert_eq!(s.state, SessionState::Closing);
    assert!(matches!(s.step(SessionEvent::Inbound(Frame::Ping(vec![])), 7), SessionAction::Nothing));
    s.step(SessionEvent::Deregistered, 7);
    assert_eq!(s.state, SessionState::Closed);
}

#[test]
fn text_before_open_is_dropped_and_errors_close() {
    let mut s = WsSession::new(config(), 0);
    assert!(matches!(s.step(SessionEvent::Inbound(Frame::Text("x".to_string())), 1), SessionAction::Nothing));
    assert!(matches!(
        s.step(SessionEvent::Inbound(Frame::ProtocolError), 2),
        SessionAction::Close { deregister: None }
    ));
}

fn roots() -> (RootType, RootType, SubscriptionRoot) {
    (
        RootType { name: "Query".to_string(), is_empty: false },
        RootType { name: "EmptyMutation".to_string(), is_empty: true },
        SubscriptionRoot { name: "Subscription".to_string(), fields: vec![("books".to_string(), 1)] },
    )
}

#[test]
fn schema_builder_configuration() {
    let (q, m, s) = roots();
    let schema = Schema::build(q, m, s)
        .disable_introspection()
        .limit_complexity(50)
        .limit_depth(5)
        .extension("tracing".to_string())
        .data("db".to_string(), "a".to_string())
        .data("cache".to_string(), "b".to_string())
        .data("db".to_string(), "c".to_string())
        .finish();
    assert!(schema.0.disable_introspection);
    assert_eq!(schema.0.complexity, Some(50));
    assert_eq!(schema.0.depth, Some(5));
    assert_eq!(schema.0.registry.query_type, "Query");
    assert_eq!(schema.0.registry.mutation_type, None);
    assert_eq!(schema.0.registry.subscription_type, Some("Subscription".to_string()));
    assert_eq!(schema.0.registry.directives.len(), 2);
    assert_eq!(
        schema.0.data,
        vec![("db".to_string(), "c".to_string()), ("cache".to_string(), "b".to_string())]
    );
    let qb = schema.query("{ a }".to_string());
    assert_eq!(qb.extensions, vec!["tracing".to_string()]);
    assert_eq!(qb.source, "{ a }");
    assert!(qb.operation_name.is_none());
}

#[test]
fn schema_new_defaults_and_stub() {
    let (q, m, s) = roots();
    let schema = Schema::new(q, m, s);
    assert!(!schema.0.disable_introspection);
    assert_eq!(schema.0.complexity, None);
    assert!(schema.0.extensions.is_empty());
    let doc = Document {
        sets: vec![vec![Selection::Field { field: Field { name: "books".to_string(), selection_set: None }, directives: vec![] }]],
        definitions: vec![Definition::Subscription { name: None, selection_set: 0 }],
    };
    let stub = schema.create_subscription_stub(doc, None, vec![]).unwrap();
    assert_eq!(stub.field_for(1).map(|f| f.name.clone()), Some("books".to_string()));
}
