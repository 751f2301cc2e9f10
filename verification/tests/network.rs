use miyori::accounts::{lookup_gid, lookup_passwd_entry, uid_free};
use miyori::daemon::net::{
    bridge_exists, cmdline_is_miyori_net, create_tap, delete_tap, find_miyori_net, link_exists,
    list_space_taps, miyori_net_status, parse_isolated_flag, parse_last_tunnel_block, parse_uplink,
    pci_status, reap_leftover_tap, ruleset_from_output, LinkEntry, ProcEntry, TunnelBlock, BRIDGE,
    CAPTIVE_BRIDGE, RULESET_MAX_CHARS,
};
use miyori::names::{space_ipv4, space_mac, space_tap};

fn strings(items: &[&str]) -> Vec<String> {
    items.iter().map(|s| s.to_string()).collect()
}

#[test]
fn cid_derived_names_match_the_guest_formula() {
    assert_eq!(space_tap(3), "tap-space-3");
    assert_eq!(space_mac(3), "52:54:00:6d:59:03");
    assert_eq!(space_ipv4(3), "10.59.0.3");
    assert_eq!(space_mac(255), "52:54:00:6d:59:ff");
}

#[test]
fn lookup_passwd_entry_does_not_confuse_gid_with_home() {
    let entry = lookup_passwd_entry(
        "/etc/passwd",
        "op:x:1000:2000:Op,,,:/home/op:/bin/bash\n",
        1000,
    )
    .unwrap();
    assert_eq!(entry.gid, 2000);
    assert_eq!(entry.home, "/home/op");
}

#[test]
fn lookup_passwd_entry_errors_when_uid_is_absent() {
    let err = lookup_passwd_entry("/etc/passwd", "root:x:0:0:root:/root:/bin/bash\n", 1000)
        .err()
        .unwrap();
    assert!(err.contains("1000"), "{err}");
}

#[test]
fn lookup_passwd_entry_errors_on_malformed_line() {
    let err = lookup_passwd_entry("/etc/passwd", "broken:x:1000\n", 1000)
        .err()
        .unwrap();
    assert!(err.contains("passwd"), "{err}");
}

#[test]
fn a_group_is_found_by_its_name() {
    let src = "root:x:0:\nkvm:x:36:qemu\n";
    assert_eq!(lookup_gid("/etc/group", src, "kvm"), Ok(36));
    assert!(lookup_gid("/etc/group", src, "kv").is_err());
    assert!(lookup_gid("/etc/group", "kvm:x:many:\n", "kvm").is_err());
}

#[test]
fn an_account_takes_its_number() {
    let src = "root:x:0:0:root:/root:/bin/bash\nop:x:100003:100003::/:/bin/false\n";
    assert!(!uid_free(src, 100003));
    assert!(uid_free(src, 100004));
    assert!(!uid_free(src, 0));
}

#[test]
fn tap_and_bridge_names_come_from_shared_formula() {
    assert_eq!(space_tap(7), "tap-space-7");
    assert_eq!(BRIDGE, "br-spaces");
    assert_eq!(CAPTIVE_BRIDGE, "br-captive");
}

#[test]
fn links_are_asked_for_by_name() {
    assert_eq!(link_exists("lo"), strings(&["ip", "link", "show", "lo"]));
    assert_eq!(bridge_exists(), strings(&["ip", "link", "show", "br-spaces"]));
}

#[test]
fn reap_leftover_tap_is_noop_when_interface_absent() {
    assert!(reap_leftover_tap(u32::MAX, false).is_none());
    assert_eq!(
        reap_leftover_tap(5, true),
        Some(strings(&["ip", "link", "del", "tap-space-5"]))
    );
    assert_eq!(delete_tap(5), strings(&["ip", "link", "del", "tap-space-5"]));
}

#[test]
fn a_tap_is_isolated_before_it_comes_up() {
    let commands = create_tap(3, 100003);
    assert_eq!(commands[0][..4], strings(&["ip", "tuntap", "add", "dev"])[..]);
    assert!(commands[0].contains(&"tap-space-3".to_string()));
    assert!(commands[0].contains(&"100003".to_string()));
    let isolated = commands
        .iter()
        .position(|c| c.contains(&"isolated".to_string()))
        .unwrap();
    let up = commands
        .iter()
        .position(|c| c.contains(&"up".to_string()))
        .unwrap();
    assert!(isolated < up);
}

#[test]
fn list_space_taps_at_finds_only_space_taps_and_reads_isolation() {
    let links = vec![
        LinkEntry {
            name: "lo".to_string(),
            isolated: None,
        },
        LinkEntry {
            name: "tap-spaces".to_string(),
            isolated: None,
        },
        LinkEntry {
            name: "tap-space-3".to_string(),
            isolated: Some("1\n".to_string()),
        },
        LinkEntry {
            name: "tap-space-10".to_string(),
            isolated: None,
        },
    ];

    let taps = list_space_taps(&links);

    assert_eq!(taps.len(), 2);
    assert_eq!(taps[0].name, "tap-space-10");
    assert_eq!(taps[0].isolated, None);
    assert_eq!(taps[1].name, "tap-space-3");
    assert_eq!(taps[1].isolated, Some(true));
}

#[test]
fn list_space_taps_at_on_missing_dir_is_empty_not_error() {
    assert_eq!(list_space_taps(&vec![]).len(), 0);
}

#[test]
fn parse_isolated_flag_reads_sysfs_boolean() {
    assert_eq!(parse_isolated_flag("0\n"), Some(false));
    assert_eq!(parse_isolated_flag("1\n"), Some(true));
    assert_eq!(parse_isolated_flag(""), None);
    assert_eq!(parse_isolated_flag("mусор\n"), None);
}

#[test]
fn pci_status_at_reports_absent_device() {
    let status = pci_status("0000:0c:00.0", false, None);
    assert!(!status.present);
    assert_eq!(status.driver, None);
}

#[test]
fn pci_status_at_reports_present_without_driver() {
    let status = pci_status("0000:0c:00.0", true, None);
    assert!(status.present);
    assert_eq!(status.driver, None);
}

#[test]
fn pci_status_at_reads_driver_from_symlink() {
    let status = pci_status(
        "0000:0c:00.0",
        true,
        Some("../../../bus/pci/drivers/vfio-pci"),
    );
    assert!(status.present);
    assert_eq!(status.driver.as_deref(), Some("vfio-pci"));
    assert_eq!(status.address, "0000:0c:00.0");
}

#[test]
fn cmdline_is_miyori_net_requires_both_markers() {
    let miyori_net = b"qemu-system-x86_64\0-append\0console=ttyS0 MIYORI_UPLINK=vfio\0".to_vec();
    assert!(cmdline_is_miyori_net(&miyori_net));

    let space = b"qemu-system-x86_64\0-device\0vhost-vsock-device,guest-cid=5\0".to_vec();
    assert!(!cmdline_is_miyori_net(&space));

    let foreign = b"sleep\x00300\0".to_vec();
    assert!(!cmdline_is_miyori_net(&foreign));
}

#[test]
fn parse_uplink_reads_kernel_param_out_of_append_string() {
    let cmdline = b"qemu-system-x86_64\0-append\0console=ttyS0 root=/dev/vda rw MIYORI_UPLINK=vfio MIYORI_KILLSWITCH_TEST=none\0".to_vec();
    assert_eq!(parse_uplink(&cmdline), Some("vfio".to_string()));
}

#[test]
fn parse_uplink_missing_is_none() {
    let cmdline = b"qemu-system-x86_64\0-append\0console=ttyS0\0".to_vec();
    assert_eq!(parse_uplink(&cmdline), None);
}

#[test]
fn find_miyori_net_skips_foreign_and_non_numeric_entries() {
    let processes = vec![
        ProcEntry {
            name: "self".to_string(),
            cmdline: Vec::new(),
        },
        ProcEntry {
            name: "111".to_string(),
            cmdline: b"sleep\x00300\0".to_vec(),
        },
        ProcEntry {
            name: "222".to_string(),
            cmdline: b"qemu-system-x86_64\0-append\0MIYORI_UPLINK=captive\0".to_vec(),
        },
    ];
    let found = find_miyori_net(&processes).expect("должен найти 222");
    assert_eq!(found.0, 222);
    assert_eq!(
        parse_uplink(&processes[found.1].cmdline),
        Some("captive".to_string())
    );
}

#[test]
fn find_miyori_net_none_when_nobody_matches() {
    let processes = vec![ProcEntry {
        name: "111".to_string(),
        cmdline: b"sleep\x00300\0".to_vec(),
    }];
    assert!(find_miyori_net(&processes).is_none());
}

#[test]
fn the_network_machine_is_described_by_its_process_and_console() {
    let cmdline = b"qemu-system-x86_64\0-append\0MIYORI_UPLINK=vfio\0".to_vec();
    let console = b"---MIYORI-TUNNEL-BEGIN---\nTUNNEL-IFC: tun0\nTUNNEL-SET: { tun0 }\nTUNNEL-ROUTE: default dev tun0\n---MIYORI-TUNNEL-END---\n".to_vec();
    let status = miyori_net_status(Some((7, &cmdline)), Some(&console));
    assert!(status.running);
    assert_eq!(status.pid, Some(7));
    assert_eq!(status.uplink.as_deref(), Some("vfio"));
    assert_eq!(status.tunnel.unwrap().ifc, "tun0");

    let without_console = miyori_net_status(Some((7, &cmdline)), None);
    assert!(without_console.tunnel.is_none());
    let none = miyori_net_status(None, Some(&console));
    assert!(!none.running);
    assert!(none.tunnel.is_none());
}

#[test]
fn read_console_tail_tolerates_invalid_utf8() {
    let cmdline = b"qemu-system-x86_64\0MIYORI_UPLINK=vfio\0".to_vec();
    let console = vec![0xff, 0xfe, b'a', b'b'];
    let status = miyori_net_status(Some((7, &cmdline)), Some(&console));
    assert!(status.running);
    assert!(status.tunnel.is_none());
}

#[test]
fn parse_last_tunnel_block_reads_the_three_fields() {
    let text = "\
noise before\n\
---MIYORI-TUNNEL-BEGIN---\n\
TUNNEL-IFC: tun_abcd\n\
TUNNEL-SET: { tun_abcd }\n\
TUNNEL-ROUTE: default dev tun_abcd table 100\n\
---MIYORI-TUNNEL-END---\n\
noise after\n";

    let block = parse_last_tunnel_block(text).unwrap();
    assert_eq!(block.ifc, "tun_abcd");
    assert_eq!(block.set, "{ tun_abcd }");
    assert_eq!(block.route, "default dev tun_abcd table 100");
}

#[test]
fn parse_last_tunnel_block_picks_the_last_of_several() {
    let text = "\
---MIYORI-TUNNEL-BEGIN---\n\
TUNNEL-IFC: none\n\
TUNNEL-SET: \n\
TUNNEL-ROUTE: \n\
---MIYORI-TUNNEL-END---\n\
---MIYORI-TUNNEL-BEGIN---\n\
TUNNEL-IFC: tun0\n\
TUNNEL-SET: { tun0 }\n\
TUNNEL-ROUTE: default dev tun0 table 100\n\
---MIYORI-TUNNEL-END---\n";

    let block: TunnelBlock = parse_last_tunnel_block(text).unwrap();
    assert_eq!(block.ifc, "tun0");
}

#[test]
fn parse_last_tunnel_block_none_when_truncated_mid_block() {
    let text = "\
---MIYORI-TUNNEL-BEGIN---\n\
TUNNEL-IFC: tun0\n\
TUNNEL-SET: { tun0 }\n";
    assert_eq!(parse_last_tunnel_block(text), None);
}

#[test]
fn parse_last_tunnel_block_none_when_field_missing() {
    let text = "\
---MIYORI-TUNNEL-BEGIN---\n\
TUNNEL-IFC: tun0\n\
---MIYORI-TUNNEL-END---\n";
    assert_eq!(parse_last_tunnel_block(text), None);
}

#[test]
fn parse_last_tunnel_block_none_when_absent() {
    assert_eq!(parse_last_tunnel_block("hello world\n"), None);
}

#[test]
fn ruleset_from_output_success_returns_full_text() {
    let status = ruleset_from_output(
        true,
        &b"table inet filter {}\n".to_vec(),
        &Vec::new(),
        RULESET_MAX_CHARS,
    );
    assert!(status.available);
    assert_eq!(status.text, "table inet filter {}\n");
    assert_eq!(status.truncated_from, None);
}

#[test]
fn ruleset_from_output_failure_shows_reason_from_stderr() {
    let status = ruleset_from_output(
        false,
        &Vec::new(),
        &b"Operation not permitted\n".to_vec(),
        RULESET_MAX_CHARS,
    );
    assert!(!status.available);
    assert!(status.text.contains("Operation not permitted"));
}

#[test]
fn ruleset_from_output_failure_with_empty_stderr_is_not_blank() {
    let status = ruleset_from_output(false, &Vec::new(), &Vec::new(), RULESET_MAX_CHARS);
    assert!(!status.available);
    assert!(!status.text.trim().is_empty());
}

#[test]
fn ruleset_from_output_truncates_by_char_count() {
    let long = "a".repeat(10);
    let status = ruleset_from_output(true, &long.as_bytes().to_vec(), &Vec::new(), 4);
    assert_eq!(status.text.chars().count(), 4);
    assert_eq!(status.truncated_from, Some(10));
}

#[test]
fn ruleset_from_output_invalid_utf8_does_not_panic() {
    let status = ruleset_from_output(
        true,
        &vec![0xff, 0xfe, b'a'],
        &Vec::new(),
        RULESET_MAX_CHARS,
    );
    assert!(status.available);
    assert_eq!(status.text, "\u{fffd}\u{fffd}a");
}

#[test]
fn ruleset_from_output_truncates_multibyte_chars_by_char_not_byte() {
    let text = "привет".repeat(5);
    let char_count = text.chars().count();
    let status = ruleset_from_output(true, &text.as_bytes().to_vec(), &Vec::new(), 4);
    assert_eq!(status.text, "прив");
    assert_eq!(status.text.chars().count(), 4);
    assert_eq!(status.truncated_from, Some(char_count));
}

#[test]
fn names_of_two_spaces_differ() {
    for a in 3..30u32 {
        for b in 3..30u32 {
            if a != b {
                assert_ne!(space_tap(a), space_tap(b));
                assert_ne!(space_mac(a), space_mac(b));
                assert_ne!(space_ipv4(a), space_ipv4(b));
            }
        }
    }
}
