use mocknet::message::{ContainerServer, InitEmuNet, ListEmuNet, Outcome, Request, Response};
use mocknet::store::{CreateError, EmuNetRecord, Store};

fn ok<T>(o: Outcome<T>) -> T {
    match o {
        Outcome::Succeed(v) => v,
        Outcome::Fail(m) => panic!("unexpected failure: {}", m),
    }
}

fn is_fail<T>(o: &Outcome<T>) -> bool {
    matches!(o, Outcome::Fail(_))
}

#[test]
fn register_user_twice() {
    let mut s = Store::new(true);
    let first = s.register_user("alice".to_string());
    let second = s.register_user("alice".to_string());
    assert_eq!((first, second), (true, false));
    assert_eq!(s.users.len(), 1);
}

#[test]
fn register_user_twice_through_requests() {
    let mut s = Store::new(true);
    let a = match s.execute(Request::RegisterUser("alice".to_string())) {
        Response::RegisterUser(o) => ok(o),
        _ => panic!("wrong response kind"),
    };
    let b = match s.execute(Request::RegisterUser("alice".to_string())) {
        Response::RegisterUser(o) => ok(o),
        _ => panic!("wrong response kind"),
    };
    assert_eq!((a, b), (true, false));
}

#[test]
fn ping_reports_readiness() {
    let mut s = Store::new(true);
    match s.execute(Request::Ping) {
        Response::Ping(o) => assert!(ok(o)),
        _ => panic!("wrong response kind"),
    }
    let mut t = Store::new(false);
    match t.execute(Request::Ping) {
        Response::Ping(o) => assert!(!ok(o)),
        _ => panic!("wrong response kind"),
    }
}

fn server(name: &str, cap: u32) -> ContainerServer {
    ContainerServer { name: name.to_string(), max_capacity: cap }
}

fn server_names(s: &Store) -> Vec<String> {
    s.servers.iter().map(|x| x.name.clone()).collect()
}

#[test]
fn init_is_idempotent() {
    let mut s = Store::new(true);
    assert!(s.init(vec![server("host1", 8)]));
    assert!(s.initialized);
    assert_eq!(server_names(&s), vec!["host1".to_string()]);
    assert!(!s.init(vec![server("host1", 8)]));
    assert_eq!(server_names(&s), vec!["host1".to_string()]);
}

#[test]
fn init_registers_new_servers_and_keeps_known() {
    let mut s = Store::new(true);
    assert!(s.init(vec![server("host1", 8)]));
    assert!(!s.init(vec![server("host1", 99), server("host2", 4), server("host2", 5)]));
    assert_eq!(server_names(&s), vec!["host1".to_string(), "host2".to_string()]);
    assert_eq!(s.servers[0].max_capacity, 8);
    assert_eq!(s.servers[1].max_capacity, 4);
}

#[test]
fn init_through_requests() {
    let mut s = Store::new(true);
    match s.execute(Request::Init(vec![server("a", 1)])) {
        Response::Init(o) => assert!(ok(o)),
        _ => panic!("wrong response kind"),
    }
    match s.execute(Request::Init(vec![server("a", 1)])) {
        Response::Init(o) => assert!(!ok(o)),
        _ => panic!("wrong response kind"),
    }
    assert_eq!(s.servers.len(), 1);
}

#[test]
fn create_emu_net_ids_are_distinct() {
    let mut s = Store::new(true);
    s.register_user("alice".to_string());
    let a = ok(s.create_emu_net("alice".to_string(), "net1".to_string(), 10));
    let b = ok(s.create_emu_net("alice".to_string(), "net2".to_string(), 10));
    assert_ne!(a, b);
    assert_eq!(s.emunets.len(), 2);
}

#[test]
fn create_emu_net_for_unknown_user_fails() {
    let mut s = Store::new(true);
    let r = s.create_emu_net("bob".to_string(), "net".to_string(), 1);
    assert!(is_fail(&r));
    assert_eq!(s.emunets.len(), 0);
}

#[test]
fn retried_create_makes_a_second_network() {
    let mut s = Store::new(true);
    s.register_user("alice".to_string());
    let first = ok(s.create_emu_net("alice".to_string(), "net".to_string(), 1));
    let second = ok(s.create_emu_net("alice".to_string(), "net".to_string(), 1));
    assert_ne!(first, second);
    assert_eq!(s.emunets.len(), 2);
    let list = ok(ListEmuNet::new("alice".to_string()).execute(&s));
    assert_eq!(list, vec![("net".to_string(), first), ("net".to_string(), second)]);
}

#[test]
fn unknown_user_message() {
    let mut s = Store::new(true);
    match s.create_emu_net("nobody".to_string(), "n".to_string(), 1) {
        Outcome::Fail(m) => assert_eq!(m, "invalid user name"),
        Outcome::Succeed(_) => panic!("unexpected success"),
    }
}

#[test]
fn admit_checks_in_order() {
    let mut s = Store::new(true);
    assert_eq!(s.admit_emu_net("u".to_string(), "n".to_string(), 1, 42), Err(CreateError::UnknownUser));
    s.register_user("u".to_string());
    assert_eq!(s.admit_emu_net("u".to_string(), "n".to_string(), 1, 42), Ok(42));
    assert_eq!(s.admit_emu_net("u".to_string(), "n".to_string(), 5, 44), Ok(44));
    assert_eq!(s.admit_emu_net("u".to_string(), "m".to_string(), 1, 42), Err(CreateError::IdInUse));
    assert_eq!(s.admit_emu_net("u".to_string(), "m".to_string(), 3, 43), Ok(43));
    assert_eq!(s.emunets.len(), 3);
    assert_eq!(s.emunets[1].capacity, 5);
    assert_eq!(s.emunets[2].capacity, 3);
}

#[test]
fn list_emu_net_unknown_user_fails() {
    let s = Store::new(true);
    let r = ListEmuNet::new("carol".to_string()).execute(&s);
    assert!(is_fail(&r));
}

#[test]
fn list_emu_net_returns_own_networks_in_order() {
    let mut s = Store::new(true);
    s.register_user("alice".to_string());
    s.register_user("bob".to_string());
    s.admit_emu_net("alice".to_string(), "n1".to_string(), 1, 100).unwrap();
    s.admit_emu_net("bob".to_string(), "n2".to_string(), 1, 200).unwrap();
    s.admit_emu_net("alice".to_string(), "n3".to_string(), 1, 300).unwrap();
    let list = ok(ListEmuNet::new("alice".to_string()).execute(&s));
    assert_eq!(list, vec![("n1".to_string(), 100), ("n3".to_string(), 300)]);
    let none = ok(ListEmuNet::new("bob".to_string()).execute(&s));
    assert_eq!(none, vec![("n2".to_string(), 200)]);
}

#[test]
fn list_emu_net_through_requests() {
    let mut s = Store::new(true);
    match s.execute(Request::ListEmuNet(ListEmuNet::new("dave".to_string()))) {
        Response::ListEmuNet(o) => assert!(is_fail(&o)),
        _ => panic!("wrong response kind"),
    }
    s.execute(Request::RegisterUser("dave".to_string()));
    match s.execute(Request::CreateEmuNet("dave".to_string(), "x".to_string(), 2)) {
        Response::CreateEmuNet(o) => {
            let id = ok(o);
            match s.execute(Request::ListEmuNet(ListEmuNet::new("dave".to_string()))) {
                Response::ListEmuNet(l) => assert_eq!(ok(l), vec![("x".to_string(), id)]),
                _ => panic!("wrong response kind"),
            }
        }
        _ => panic!("wrong response kind"),
    }
}

#[test]
fn init_emu_net_request_leaves_store_alone() {
    let mut s = Store::new(true);
    let m = InitEmuNet { emunet_id: 1, vertices: None, edges: None };
    match s.execute(Request::InitEmuNet(m)) {
        Response::InitEmuNet(o) => assert!(is_fail(&o)),
        _ => panic!("wrong response kind"),
    }
    assert_eq!(s.users.len(), 0);
}

#[test]
fn random_ids_are_version_four() {
    let mut s = Store::new(true);
    s.register_user("alice".to_string());
    let id = ok(s.create_emu_net("alice".to_string(), "net".to_string(), 1));
    assert_eq!((id >> 76) & 0xF, 4);
}

#[test]
fn malformed_snapshots_are_detected() {
    let mut s = Store::new(true);
    assert!(s.is_well_formed());
    s.register_user("alice".to_string());
    s.admit_emu_net("alice".to_string(), "n".to_string(), 1, 7).unwrap();
    assert!(s.is_well_formed());
    let mut dup_user = Store::new(true);
    dup_user.users = vec!["x".to_string(), "x".to_string()];
    assert!(!dup_user.is_well_formed());
    let mut dup_id = Store::new(true);
    dup_id.emunets = vec![
        EmuNetRecord { owner: "a".to_string(), name: "n1".to_string(), id: 1, capacity: 1 },
        EmuNetRecord { owner: "a".to_string(), name: "n2".to_string(), id: 1, capacity: 1 },
    ];
    assert!(!dup_id.is_well_formed());
    let mut dup_name = Store::new(true);
    dup_name.emunets = vec![
        EmuNetRecord { owner: "a".to_string(), name: "n".to_string(), id: 1, capacity: 1 },
        EmuNetRecord { owner: "a".to_string(), name: "n".to_string(), id: 2, capacity: 1 },
    ];
    assert!(dup_name.is_well_formed());
    let mut same_name_other_owner = Store::new(true);
    same_name_other_owner.emunets = vec![
        EmuNetRecord { owner: "a".to_string(), name: "n".to_string(), id: 1, capacity: 1 },
        EmuNetRecord { owner: "b".to_string(), name: "n".to_string(), id: 2, capacity: 1 },
    ];
    assert!(same_name_other_owner.is_well_formed());
}

#[test]
fn read_only_requests() {
    assert!(Request::Ping.is_read_only());
    assert!(Request::ListEmuNet(ListEmuNet::new("a".to_string())).is_read_only());
    assert!(Request::InitEmuNet(InitEmuNet { emunet_id: 1, vertices: None, edges: None }).is_read_only());
    assert!(!Request::RegisterUser("a".to_string()).is_read_only());
    assert!(!Request::Init(vec![]).is_read_only());
    assert!(!Request::CreateEmuNet("a".to_string(), "n".to_string(), 1).is_read_only());
}
