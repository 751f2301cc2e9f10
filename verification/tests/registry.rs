use miyori::daemon::render::{
    load_registry_file, render_nft, render_registry, RegistryEntry, RegistryError,
};
use miyori::daemon::server::{merge_entries, render_args, server_args, Kind};
use miyori::toml::{is_shallow, parse_toml};

fn entry(id: &str, cid: u32) -> RegistryEntry {
    RegistryEntry {
        id: id.to_string(),
        cid,
        label: "untrusted".to_string(),
        color: "#e03131".to_string(),
    }
}


fn roundtrip(entries: &[RegistryEntry]) -> Vec<RegistryEntry> {
    let toml = render_registry(&owned(entries));
    load_registry_file(&toml).unwrap()
}

fn owned(entries: &[RegistryEntry]) -> Vec<RegistryEntry> {
    entries.iter().map(|e| e.copy()).collect()
}

#[test]
fn registry_always_contains_miyori_net() {
    let loaded = roundtrip(&[]);
    let net = loaded
        .iter()
        .find(|e| e.id == "miyori-net")
        .expect("реестр обязан содержать miyori-net");
    assert_eq!(net.cid, 9);
    assert_eq!(net.label, "trusted");
}

#[test]
fn registry_matches_config_of_each_space() {
    let entries = vec![entry("spike", 3), entry("spike2", 4)];
    let loaded = roundtrip(&entries);
    for e in &entries {
        let found = loaded
            .iter()
            .find(|l| l.id == e.id)
            .unwrap_or_else(|| panic!("{} не найден в отрендеренном реестре", e.id));
        assert_eq!(found.cid, e.cid);
        assert_eq!(found.label, e.label);
        assert_eq!(found.color, e.color);
    }
}

#[test]
fn nft_has_two_rules_per_space() {
    let entries = vec![entry("spike", 3), entry("spike2", 4)];
    let nft = render_nft(&entries).unwrap();
    assert_eq!(nft.matches("tap-space-3\"").count(), 2);
    assert_eq!(nft.matches("tap-space-4\"").count(), 2);
}

#[test]
fn nft_rule_binds_tap_mac_and_ip_together() {
    let nft = render_nft(&vec![entry("spike", 3)]).unwrap();

    let ip_line = nft
        .lines()
        .find(|l| l.contains("ip saddr 10.59.0.3"))
        .expect("нет строки ip saddr для cid 3");
    assert!(ip_line.contains("tap-space-3"));
    assert!(ip_line.contains("52:54:00:6d:59:03"));

    let arp_line = nft
        .lines()
        .find(|l| l.contains("arp saddr ip 10.59.0.3"))
        .expect("нет строки arp saddr ip для cid 3");
    assert!(arp_line.contains("tap-space-3"));
    assert!(arp_line.contains("52:54:00:6d:59:03"));
}

#[test]
fn nft_ends_with_drop_not_accept() {
    let nft = render_nft(&vec![entry("spike", 3)]).unwrap();
    assert!(
        nft.contains("\t\tdrop\n\t}\n"),
        "цепочка spaces обязана заканчиваться drop, а не accept по умолчанию"
    );
}

#[test]
fn nft_keeps_to_host_chain() {
    let nft = render_nft(&vec![]).unwrap();
    assert!(nft.contains("chain to-host"));
    assert!(nft.contains("counter drop"));
}

#[test]
fn cid_above_255_is_refused() {
    let entries = vec![entry("spike", 256)];
    assert!(render_nft(&entries).is_err());
}



#[test]
fn merge_unions_two_sources_sorted_by_cid() {
    let a = vec![entry("web", 7), entry("spike", 3)];
    let b = vec![entry("dev", 5), entry("spike-reduced", 6)];
    let merged = merge_entries(&a, &b).unwrap();
    let cids: Vec<u32> = merged.iter().map(|e| e.cid).collect();
    assert_eq!(cids, vec![3, 5, 6, 7]);
}

#[test]
fn merge_collapses_exact_duplicate() {
    let a = vec![entry("spike", 3)];
    let b = vec![entry("spike", 3)];
    let merged = merge_entries(&a, &b).unwrap();
    assert_eq!(merged.len(), 1);
}

#[test]
fn merge_rejects_same_cid_different_id() {
    let a = vec![entry("spike", 3)];
    let b = vec![entry("spike2", 3)];
    let msg = match merge_entries(&a, &b) {
        Err(err) => err.to_string(),
        Ok(_) => panic!("конфликт cid 3 (spike/spike2) обязан быть ошибкой"),
    };
    assert!(msg.contains("spike"), "{msg}");
    assert!(msg.contains("spike2"), "{msg}");
    assert!(msg.contains('3'), "{msg}");
}

#[test]
fn merge_rejects_same_id_different_cid() {
    let a = vec![entry("spike", 3)];
    let b = vec![entry("spike", 4)];
    let msg = match merge_entries(&a, &b) {
        Err(err) => err.to_string(),
        Ok(_) => panic!("конфликт id spike (cid 3/4) обязан быть ошибкой"),
    };
    assert!(msg.contains("spike"), "{msg}");
    assert!(msg.contains('3'), "{msg}");
    assert!(msg.contains('4'), "{msg}");
}

fn strings(items: &[&str]) -> Vec<String> {
    items.iter().map(|s| s.to_string()).collect()
}

#[test]
fn the_server_reads_its_arguments() {
    let config = server_args(&vec![]).ok().unwrap();
    assert_eq!(config.state_dir, "/var/lib/miyorios");
    assert_eq!(config.run_dir, "/run/miyorios");
    assert_eq!(config.group, "miyori");
    assert_eq!(config.registry, "/etc/miyorios/spaces.toml");
    assert_eq!(config.build_uid, None);

    let config = server_args(&strings(&[
        "--state-dir",
        "/s",
        "--run-dir",
        "/r",
        "--group",
        "g",
        "--registry",
        "/reg",
        "--build-uid",
        "1000",
    ]))
    .ok()
    .unwrap();
    assert_eq!(config.state_dir, "/s");
    assert_eq!(config.run_dir, "/r");
    assert_eq!(config.group, "g");
    assert_eq!(config.registry, "/reg");
    assert_eq!(config.build_uid, Some(1000));

    let words = |args: &[&str]| server_args(&strings(args)).err().unwrap();
    assert_eq!(words(&["--group"]), "--group без значения");
    assert_eq!(words(&["--what"]), "неизвестный аргумент --what");
    assert_eq!(
        words(&["--build-uid", "x"]),
        "--build-uid \"x\" не является числом: invalid digit found in string"
    );
    assert_eq!(
        words(&["--build-uid", "4294967296"]),
        "--build-uid \"4294967296\" не является числом: number too large to fit in target type"
    );
    assert_eq!(
        words(&["--build-uid", ""]),
        "--build-uid \"\" не является числом: cannot parse integer from empty string"
    );
}

#[test]
fn the_rendering_reads_its_arguments() {
    let config = render_args(&strings(&["--registry", "/r", "--kind", "nft"]))
        .ok()
        .unwrap();
    assert_eq!(config.registry.as_deref(), Some("/r"));
    assert_eq!(config.state_dir, None);
    assert_eq!(config.kind, Kind::Nft);
    let config = render_args(&strings(&["--state-dir", "/s", "--kind", "registry"]))
        .ok()
        .unwrap();
    assert_eq!(config.kind, Kind::Registry);

    let words = |args: &[&str]| render_args(&strings(args)).err().unwrap();
    assert_eq!(
        words(&["--kind", "nft"]),
        "нужен --registry <файл> либо --state-dir <каталог>"
    );
    assert_eq!(words(&["--registry", "/r"]), "нужен --kind nft|registry");
    assert_eq!(
        words(&["--kind", "xml"]),
        "--kind ожидает nft или registry, получено \"xml\""
    );
}

#[test]
fn the_registry_holds_the_network_machine_once() {
    let net = RegistryEntry {
        id: "miyori-net".to_string(),
        cid: 9,
        label: "trusted".to_string(),
        color: "#000000".to_string(),
    };
    let loaded = roundtrip(&[entry("spike", 3), net]);
    assert_eq!(loaded.iter().filter(|e| e.cid == 9).count(), 1);
    assert_eq!(loaded.len(), 2);
}

#[test]
fn a_registry_that_cannot_be_read_is_refused() {
    assert!(matches!(
        load_registry_file("space = ["),
        Err(RegistryError::Malformed)
    ));
    assert_eq!(load_registry_file("").ok().unwrap().len(), 0);
}

#[test]
fn a_written_registry_is_toml() {
    let text = render_registry(&vec![entry("spike", 3)]);
    assert!(text.contains("[[space]]"), "{text}");
    assert!(text.contains("id = \"spike\""), "{text}");
}

#[test]
fn rendering_what_was_read_gives_the_same_text() {
    let text = render_registry(&vec![entry("z", 12), entry("a", 3), entry("q", 9)]);
    let read = load_registry_file(&text).unwrap();
    assert_eq!(read.len(), 4);
    assert_eq!(render_registry(&read), text);
}

#[test]
fn the_order_of_the_entries_does_not_change_the_rules() {
    let rules = render_nft(&vec![entry("a", 3), entry("b", 30), entry("c", 4)]).unwrap();
    assert_eq!(
        render_nft(&vec![entry("b", 30), entry("c", 4), entry("a", 3)]).unwrap(),
        rules
    );
    let lines: Vec<&str> = rules.lines().collect();
    for cid in [3, 4, 30] {
        let words = format!("iifname \"tap-space-{cid}\"");
        assert_eq!(lines.iter().filter(|l| l.contains(&words)).count(), 2);
    }
    let at = |needle: &str| lines.iter().position(|l| l.contains(needle)).unwrap();
    assert!(at("tap-space-3\"") < at("tap-space-4\""));
    assert!(at("tap-space-4\"") < at("tap-space-30\""));
    assert!(at("tap-space-30\"") < lines.iter().position(|l| *l == "\t\tdrop").unwrap());
    assert!(lines.contains(
        &"\t\tiifname \"tap-space-3\" ether saddr 52:54:00:6d:59:03 arp saddr ip 10.59.0.3 accept"
    ));
}

#[test]
fn a_row_may_be_a_list_of_its_fields() {
    let read = load_registry_file("space = [[\"a\", 3, \"l\", \"#ffffff\"]]").unwrap();
    assert_eq!(read.len(), 1);
    assert_eq!((read[0].id.as_str(), read[0].cid), ("a", 3));
    assert_eq!((read[0].label.as_str(), read[0].color.as_str()), ("l", "#ffffff"));
    for text in [
        "space = [[\"a\", 3, \"l\"]]",
        "space = [[\"a\", 3, \"l\", \"#ffffff\", 1]]",
        "space = [[3, \"a\", \"l\", \"#ffffff\"]]",
    ] {
        assert_eq!(load_registry_file(text), Err(RegistryError::Malformed));
    }
}

#[test]
fn a_document_that_is_nested_too_deep_is_not_read() {
    for text in [
        format!("x = {}", "[".repeat(100_000)),
        format!("x = {}1{}", "{a=".repeat(50_000), "}".repeat(50_000)),
        format!("[{}a]", "a.".repeat(50_000)),
        format!("{}a = 1", "a.".repeat(50_000)),
        format!("x = {}", "[\"]\", ".repeat(50_000)),
        format!("x = {}", "[']', # ]\n".repeat(50_000)),
        format!("x = {}", "[\"\"\"\n]\"\"\", ".repeat(50_000)),
    ] {
        assert!(!is_shallow(&text));
        assert_eq!(load_registry_file(&text), Err(RegistryError::Malformed));
    }
}

#[test]
fn a_long_registry_is_not_nested_deep() {
    let entries: Vec<RegistryEntry> = (3..1000).map(|cid| entry("a", cid)).collect();
    let text = render_registry(&entries);
    assert!(is_shallow(&text));
    assert_eq!(load_registry_file(&text).unwrap().len(), 998);
    assert!(is_shallow(&format!("x = {}{}", "[".repeat(64), "]".repeat(64))));
    assert!(!is_shallow(&format!("x = {}{}", "[".repeat(65), "]".repeat(65))));
    let nested = format!("x = {}{}\n", "[".repeat(64), "]".repeat(64));
    assert!(parse_toml(&nested).is_some());
    let dotted = format!("[{}a]\nb = 1\n", "a.".repeat(64));
    assert!(parse_toml(&dotted).is_none());
    let dotted = format!("[{}a]\nb = 1\n", "a.".repeat(63));
    assert!(parse_toml(&dotted).is_some());
    let quoted = "x = \"[[[\\\"[.\" # [[[\n".repeat(100);
    assert!(is_shallow(&quoted));
}
