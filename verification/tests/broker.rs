use miyori::broker::{
    cid_is_gone, dir_mode_is_private, find_guest, guid_args, unknown_guest, Broker, BrokerConfig,
    ProxyPlan,
};
use miyori::daemon::render::{RegistryEntry, RegistryError};

const REGISTRY: &str =
    "[[space]]\nid = \"spike\"\ncid = 3\nlabel = \"untrusted\"\ncolor = \"#e03131\"\n";

fn broker() -> Broker {
    Broker::new(BrokerConfig::for_tests())
}

fn start(b: &mut Broker, id: &str) -> bool {
    let socket = b.socket_path(id);
    match b.ensure_proxy(id, true, true) {
        ProxyPlan::Running => false,
        ProxyPlan::Start { carried, .. } => {
            b.proxy_started(id, 3, &socket, carried);
            true
        }
    }
}

#[test]
fn known_cid_resolves_to_its_own_space() {
    assert_eq!(broker().resolve(REGISTRY, 3).unwrap().unwrap().id, "spike");
}

#[test]
fn unknown_cid_is_refused() {
    assert!(broker().resolve(REGISTRY, 42).unwrap().is_none());
    assert_eq!(
        unknown_guest(42),
        "отклонено соединение с незарегистрированного CID 42"
    );
}

#[test]
fn a_registry_that_claims_the_local_address_refuses_every_guest() {
    let broker = Broker::new(BrokerConfig::for_tests());
    let text = "[[space]]\nid = \"a\"\ncid = 1\nlabel = \"work\"\ncolor = \"#112233\"\n\n[[space]]\nid = \"b\"\ncid = 3\nlabel = \"work\"\ncolor = \"#112233\"\n";
    assert_eq!(
        broker.resolve(text, 1).err(),
        Some(RegistryError::LocalAddress)
    );
    assert_eq!(
        broker.resolve(text, 3).err(),
        Some(RegistryError::LocalAddress)
    );
    let entry = RegistryEntry {
        id: "a".to_string(),
        cid: 1,
        label: "work".to_string(),
        color: "#112233".to_string(),
    };
    assert_eq!(find_guest(&vec![entry], 1), None);
}

#[test]
fn only_the_last_of_all_leases_ends_a_restarted_proxy() {
    let mut broker = Broker::new(BrokerConfig::for_tests());
    broker.ensure_proxy("a", false, false);
    broker.proxy_started("a", 3, "/s", 0);
    assert!(matches!(
        broker.ensure_proxy("a", true, true),
        ProxyPlan::Running
    ));
    let carried = match broker.ensure_proxy("a", false, false) {
        ProxyPlan::Start { carried, .. } => carried,
        ProxyPlan::Running => panic!("прокси мёртв"),
    };
    broker.proxy_started("a", 3, "/s", carried);
    assert!(broker.release_proxy("a").is_none());
    assert!(broker.release_proxy("a").is_none());
    assert_eq!(broker.release_proxy("a").unwrap().cid, 3);
    assert!(broker.release_proxy("a").is_none());
}

#[test]
fn loopback_cid_never_resolves() {
    assert!(
        broker().resolve(REGISTRY, 1).unwrap().is_none(),
        "локальный процесс не должен получать label спейса"
    );
}

#[test]
fn socket_path_is_derived_from_registry_not_from_peer() {
    let b = broker();
    let space = b.resolve(REGISTRY, 3).unwrap().unwrap();
    assert_eq!(b.socket_path(&space.id), "/run/miyorios/spike/gui/gui.sock");
}

#[test]
fn space_added_after_start_is_resolved() {
    let b = broker();
    assert!(b.resolve(REGISTRY, 4).unwrap().is_none());
    let longer = "[[space]]\nid = \"spike\"\ncid = 3\nlabel = \"untrusted\"\ncolor = \"#e03131\"\n\n[[space]]\nid = \"ctf\"\ncid = 4\nlabel = \"untrusted\"\ncolor = \"#e03131\"\n";
    assert_eq!(
        b.resolve(longer, 4).unwrap().unwrap().id,
        "ctf",
        "спейс, дописанный после старта, обязан резолвиться без перезапуска демона"
    );
}

#[test]
fn broken_registry_refuses_every_cid() {
    let b = broker();
    assert!(b.resolve(REGISTRY, 3).unwrap().is_some());
    assert!(
        b.resolve("это не toml {{{", 3).is_err(),
        "битый реестр обязан отказывать всем CID, а не работать по последней хорошей копии"
    );
}

#[test]
fn dead_proxy_is_restarted_on_next_connect() {
    let mut b = broker();
    assert!(start(&mut b, "spike"));
    assert!(!start(&mut b, "spike"));
    let plan = b.ensure_proxy("spike", false, false);
    assert!(matches!(
        plan,
        ProxyPlan::Start {
            reap: true,
            kill: false,
            carried: 2
        }
    ));
}

#[test]
fn a_living_proxy_without_its_socket_is_killed_and_started_anew() {
    let mut b = broker();
    assert!(start(&mut b, "spike"));
    let plan = b.ensure_proxy("spike", true, false);
    assert!(matches!(
        plan,
        ProxyPlan::Start {
            reap: true,
            kill: true,
            carried: 1
        }
    ));
}

#[test]
fn proxy_dies_with_its_last_connection() {
    let mut b = broker();
    start(&mut b, "spike");
    let dead = b.release_proxy("spike").unwrap();
    assert_eq!(dead.space_id, "spike");
    assert_eq!(dead.socket, "/run/miyorios/spike/gui/gui.sock");
    assert!(b.started.is_empty());
}

#[test]
fn proxy_survives_until_the_last_connection_goes() {
    let mut b = broker();
    start(&mut b, "spike");
    start(&mut b, "spike");
    assert!(b.release_proxy("spike").is_none());
    assert_eq!(b.started.len(), 1);
    assert!(b.release_proxy("spike").is_some());
    assert_eq!(b.started.len(), 0);
}

#[test]
fn restarted_proxy_keeps_the_count_of_live_connections() {
    let mut b = broker();
    start(&mut b, "spike");
    start(&mut b, "spike");
    let socket = b.socket_path("spike");
    match b.ensure_proxy("spike", false, false) {
        ProxyPlan::Start { carried, .. } => b.proxy_started("spike", 3, &socket, carried),
        ProxyPlan::Running => panic!("мёртвый прокси не может считаться живым"),
    }
    assert_eq!(b.started[0].leases, 3);
    assert!(
        b.release_proxy("spike").is_none(),
        "новый прокси не должен гаситься чужой арендой: счётчик протухшей записи обязан перейти новой"
    );
}

#[test]
fn release_of_unknown_space_is_harmless() {
    let mut b = broker();
    assert!(b.release_proxy("нет-такого").is_none());
}

#[test]
fn dir_mode_is_private_matches_the_others_bits() {
    assert!(dir_mode_is_private(0o700));
    assert!(dir_mode_is_private(0o770));
    assert!(!dir_mode_is_private(0o755));
    assert!(!dir_mode_is_private(0o777));
    assert!(!dir_mode_is_private(0o701));
}

#[test]
fn ensure_proxy_leaves_an_already_private_dir_untouched() {
    let mode = 0o40770;
    assert!(
        dir_mode_is_private(mode),
        "уже приватный чужой режим не должен подменяться на 0700"
    );
}

const ENODEV: i32 = 19;
const ECONNRESET: i32 = 104;
const ETIMEDOUT: i32 = 110;
const ECONNREFUSED: i32 = 111;
const EACCES: i32 = 13;

#[test]
fn cid_is_gone_reads_only_enodev() {
    assert!(cid_is_gone(Some(ENODEV)));
    for code in [ECONNRESET, ETIMEDOUT, ECONNREFUSED, EACCES] {
        assert!(
            !cid_is_gone(Some(code)),
            "errno {code} означает, что CID жив, а не мёртв"
        );
    }
    assert!(!cid_is_gone(None));
}

#[test]
fn watchdog_kills_proxy_of_a_dead_cid() {
    let mut b = broker();
    start(&mut b, "spike");
    start(&mut b, "ctf");
    let gone = b.reap_dead_proxies(&vec![Some(ENODEV), Some(ECONNRESET)]);
    assert_eq!(gone.len(), 1);
    assert_eq!(gone[0].space_id, "spike");
    assert_eq!(b.started.len(), 1);
    assert_eq!(b.started[0].space_id, "ctf");
}

#[test]
fn watchdog_leaves_proxy_of_a_live_cid_alone() {
    let mut b = broker();
    start(&mut b, "spike");
    assert!(b.reap_dead_proxies(&vec![None]).is_empty());
    assert_eq!(b.started.len(), 1);
    assert!(b.release_proxy("spike").is_some());
}

#[test]
fn the_broker_reads_its_arguments() {
    let strings = |items: &[&str]| items.iter().map(|s| s.to_string()).collect::<Vec<String>>();
    let config = guid_args(&vec![]).ok().unwrap();
    assert_eq!(config.registry, "/etc/miyorios/spaces.toml");
    assert_eq!(config.port, 1700);
    let config = guid_args(&strings(&["--port", "7", "--registry", "/r"])).ok().unwrap();
    assert_eq!(config.port, 7);
    assert_eq!(config.registry, "/r");
    let words = |args: &[&str]| guid_args(&strings(args)).err().unwrap();
    assert_eq!(words(&["--port"]), "--port без значения");
    assert_eq!(
        words(&["--port", "x"]),
        "--port ожидает число: invalid digit found in string"
    );
    assert_eq!(words(&["x"]), "неизвестный аргумент x");
}
