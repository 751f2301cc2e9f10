use miyori::daemon::store::{parse_config, refresh, render_config, NewSpace, SpaceConfig, Store};

const PASSWD: &str = "root:x:0:0:root:/root:/bin/bash\n";

fn store() -> Store {
    Store::load_with_paths("/state", "/etc/passwd", "/sys/class/net", vec![])
}

/// The store as it is read back from what was written of each space.
fn reload(s: &Store) -> Store {
    let mut configs: Vec<SpaceConfig> = s
        .list()
        .iter()
        .map(|c| parse_config(&render_config(c)).unwrap())
        .collect();
    configs.reverse();
    Store::load("/state", configs)
}

fn digest() -> String {
    "d".repeat(64)
}

fn new(id: &str, encrypted: bool) -> NewSpace {
    NewSpace {
        id: id.to_string(),
        profile: "spike".to_string(),
        digest: digest(),
        label: "untrusted".to_string(),
        color: "#e03131".to_string(),
        encrypted,
    }
}








#[test]
fn allocates_lowest_free_cid_from_three() {
    let mut s = store();
    let cfg = s
        .create_space(&new("a", false), &vec![], PASSWD, 0)
        .unwrap();
    assert_eq!(cfg.cid, 3);
}

#[test]
fn never_allocates_reserved_cids() {
    let mut s = store();
    for name in ["a", "b", "c", "e"] {
        let cfg = s
            .create_space(&new(name, false), &vec![], PASSWD, 0)
            .unwrap();
        assert!(
            ![0, 1, 2, 9].contains(&cfg.cid),
            "cid {} зарезервирован",
            cfg.cid
        );
    }
}

#[test]
fn reuses_cid_freed_by_destroy() {
    let mut s = store();
    let cid = s
        .create_space(&new("a", false), &vec![], PASSWD, 0)
        .unwrap()
        .cid;
    s.remove_space("a").unwrap();
    let cfg2 = s
        .create_space(&new("b", false), &vec![], PASSWD, 0)
        .unwrap();
    assert_eq!(cfg2.cid, cid);
}

#[test]
fn uid_is_derived_from_cid() {
    let mut s = store();
    let cfg = s
        .create_space(&new("a", false), &vec![], PASSWD, 0)
        .unwrap();
    assert_eq!(cfg.uid, 70000 + cfg.cid);
}



#[test]
fn refuses_duplicate_space_id() {
    let mut s = store();
    s.create_space(&new("a", false), &vec![], PASSWD, 0)
        .unwrap();
    assert!(s
        .create_space(&new("a", false), &vec![], PASSWD, 0)
        .is_err());
}

#[test]
fn refuses_reserved_space_id() {
    let mut s = store();
    assert!(s
        .create_space(&new("miyori-net", false), &vec![], PASSWD, 0)
        .is_err());
}


#[test]
fn set_clean_shutdown_persists_across_reload() {
    let mut s = store();
    s.create_space(&new("a", false), &vec![], PASSWD, 0)
        .unwrap();
    s.set_clean_shutdown("a", false).unwrap();

    let reloaded = reload(&s);
    assert_eq!(reloaded.get("a").unwrap().clean_shutdown, Some(false));
}

#[test]
fn set_clean_shutdown_errors_for_missing_space() {
    let mut s = store();
    assert!(s.set_clean_shutdown("ghost", true).is_err());
}

#[test]
fn set_digest_persists_across_reload() {
    let mut s = store();
    s.create_space(&new("a", false), &vec![], PASSWD, 0)
        .unwrap();
    let new_digest = "e".repeat(64);
    s.set_digest("a", new_digest.clone()).unwrap();

    let reloaded = reload(&s);
    assert_eq!(reloaded.get("a").unwrap().digest, new_digest);
}

#[test]
fn set_digest_errors_for_missing_space() {
    let mut s = store();
    assert!(s.set_digest("ghost", digest()).is_err());
}

#[test]
fn config_without_clean_shutdown_field_parses_as_none() {
    let toml = r##"
id = "a"
profile = "spike"
digest = "dddddddddddddddddddddddddddddddddddddddddddddddddddddddddddddd"
cid = 3
uid = 70003
label = "untrusted"
color = "#e03131"
created = "2026-08-26T00:00:00Z"
"##;
    let config: SpaceConfig = parse_config(toml).unwrap();
    assert_eq!(config.clean_shutdown, None);
}

#[test]
fn config_without_encrypted_field_parses_as_false() {
    let toml = r##"
id = "a"
profile = "spike"
digest = "dddddddddddddddddddddddddddddddddddddddddddddddddddddddddddddd"
cid = 3
uid = 70003
label = "untrusted"
color = "#e03131"
created = "2026-08-26T00:00:00Z"
"##;
    let config: SpaceConfig = parse_config(toml).unwrap();
    assert!(!config.encrypted);
}

#[test]
fn create_space_persists_encrypted_flag() {
    let mut s = store();
    s.create_space(&new("a", true), &vec![], PASSWD, 0)
        .unwrap();

    let reloaded = reload(&s);
    assert!(reloaded.get("a").unwrap().encrypted);
}

#[test]
fn config_roundtrips() {
    let mut s = store();
    let cfg = s
        .create_space(&new("a", false), &vec![], PASSWD, 0)
        .unwrap();
    let reloaded = reload(&s);
    assert_eq!(reloaded.get("a"), Some(&cfg));
}


#[test]
fn list_stays_sorted_after_create() {
    let mut s = store();
    s.create_space(&new("b", false), &vec![], PASSWD, 0)
        .unwrap();
    s.create_space(&new("a", false), &vec![], PASSWD, 0)
        .unwrap();
    let created_order: Vec<&str> = s.list().iter().map(|c| c.id.as_str()).collect();

    let reloaded = reload(&s);
    let loaded_order: Vec<&str> = reloaded.list().iter().map(|c| c.id.as_str()).collect();

    assert_eq!(
        created_order, loaded_order,
        "порядок list() не должен зависеть от того, создан спейс в этом процессе или загружен с диска"
    );
}

#[test]
fn refuses_uid_already_present_in_passwd() {
    let mut s = store();
    let passwd = "someone:x:70003:70003::/home/someone:/bin/false\n";
    let err = s.create_space(&new("a", false), &vec![], passwd, 0).err().unwrap();
    assert!(err.contains("70003"), "{err}");
    assert!(s.list().is_empty());
}

#[test]
fn skips_cid_whose_tap_already_exists_on_the_host() {
    let mut s = store();
    let links = vec!["tap-space-3".to_string(), "tap-space-4".to_string()];
    assert_eq!(s.allocate_cid(&links), Some(5));
    let cfg = s.create_space(&new("a", false), &links, PASSWD, 0).unwrap();
    assert_eq!(cfg.cid, 5, "CID 3 и 4 заняты чужими tap, 9 зарезервирован");
}

#[test]
fn a_space_has_its_directory_and_its_time() {
    let mut s = store();
    let cfg = s
        .create_space(&new("a", false), &vec![], PASSWD, 951_782_400)
        .unwrap();
    assert_eq!(cfg.created, "2000-02-29T00:00:00Z");
    assert_eq!(s.space_dir("a"), "/state/spaces/a");
}

#[test]
fn every_cid_can_be_taken_and_then_none_is_left() {
    let mut s = store();
    let mut last = 0;
    let mut count = 0;
    while let Some(cid) = s.allocate_cid(&vec![]) {
        assert!(cid > last);
        assert_ne!(cid, 9);
        last = cid;
        count += 1;
        s.create_space(&new(&format!("s{cid}"), false), &vec![], PASSWD, 0)
            .unwrap();
    }
    assert_eq!(count, s.list().len());
    assert!(s
        .create_space(&new("one-more", false), &vec![], PASSWD, 0)
        .is_err());
}

#[test]
fn a_refresh_renders_what_is_stored() {
    let mut s = store();
    s.create_space(&new("a", false), &vec![], PASSWD, 0).unwrap();
    let (registry, rules) = refresh(&s);
    assert!(registry.contains("\"a\""), "{registry}");
    assert!(registry.contains("miyori-net"), "{registry}");
    assert_eq!(rules.unwrap().matches("tap-space-3\"").count(), 2);
}

#[test]
fn a_config_that_is_no_config_is_not_read() {
    assert!(parse_config("это не toml {{{").is_none());
    assert!(parse_config("id = \"a\"").is_none());
}

#[test]
fn the_list_is_loaded_again_in_any_order() {
    let mut s = store();
    for id in ["m", "a", "z"] {
        s.create_space(&new(id, false), &vec![], "", 0).unwrap();
    }
    let state_dir = s.state_dir.clone();
    s.set_digest("m", "d".to_string()).unwrap();
    s.set_clean_shutdown("a", true).unwrap();
    assert_eq!(s.state_dir, state_dir);
    for order in [[0, 1, 2], [2, 0, 1], [1, 2, 0]] {
        let found = order.iter().map(|&i: &usize| s.list()[i].copy()).collect();
        assert_eq!(Store::load(&state_dir, found).list(), s.list());
    }
    s.remove_space("m").unwrap();
    assert_eq!(s.state_dir, state_dir);
}
