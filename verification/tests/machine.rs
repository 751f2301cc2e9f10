use miyori::daemon::qemu::{
    build_append, build_argv, cmdline_identifies_space, parse_pid, pid_of, state_of, SpaceRun,
    SpaceState,
};
use miyori::guest::nonce_from_cmdline;
fn run() -> SpaceRun {
    SpaceRun {
        id: "telegram".into(),
        cid: 5,
        uid: 70005,
        template_dir: "/var/lib/miyorios/templates/telegram/deadbeef".into(),
        overlay: "/var/lib/miyorios/spaces/telegram/system-overlay.qcow2".into(),
        data: "/var/lib/miyorios/spaces/telegram/data.qcow2".into(),
        data_mb: 4096,
        memory_mb: 1024,
        cpus: 2,
        isolation_level: "standard".into(),
        gpu: "none".into(),
        nonce: "3f9a7c2e1b6d4508".into(),
        app_command: "/usr/bin/telegram-desktop".into(),
        kvm_gid: 108,
    }
}

fn flag_value<'a>(a: &'a [String], flag: &str) -> Vec<&'a str> {
    a.windows(2)
        .filter(|w| w[0] == flag)
        .map(|w| w[1].as_str())
        .collect()
}

#[test]
fn exactly_one_netdev_and_it_is_the_space_tap() {
    let a = build_argv(&run(), None);
    let netdevs = flag_value(&a, "-netdev");
    assert_eq!(netdevs.len(), 1, "{a:?}");
    assert!(netdevs[0].starts_with("tap,"), "{netdevs:?}");
    assert!(netdevs[0].contains("ifname=tap-space-5"), "{netdevs:?}");
}

#[test]
fn never_user_mode_networking() {
    let a = build_argv(&run(), None);
    assert!(!a.iter().any(|s| s == "-net"), "{a:?}");
    assert!(!a.iter().any(|s| s == "-nic"), "{a:?}");
    assert!(
        !flag_value(&a, "-netdev")
            .iter()
            .any(|v| v.starts_with("user")),
        "{a:?}"
    );
}

#[test]
fn defaults_and_user_config_are_off() {
    let a = build_argv(&run(), None);
    assert!(a.contains(&"-nodefaults".to_string()));
    assert!(a.contains(&"-no-user-config".to_string()));
}

#[test]
fn guest_cid_matches_config() {
    let spec = run();
    let a = build_argv(&spec, None);
    let vsock = a
        .iter()
        .find(|s| s.contains("vhost-vsock-device"))
        .expect("нет vhost-vsock-device");
    assert!(vsock.contains(&format!("guest-cid={}", spec.cid)));
}

#[test]
fn root_disk_is_the_overlay_not_the_template() {
    let spec = run();
    let a = build_argv(&spec, None);
    let root_drive = flag_value(&a, "-drive")
        .into_iter()
        .find(|d| d.starts_with("id=root,"))
        .expect("нет id=root");
    assert!(root_drive.contains(&format!("file={}", spec.overlay)));
    let template_root = format!("{}/root.qcow2", spec.template_dir);
    assert!(!root_drive.contains(&template_root));
}

#[test]
fn template_is_only_a_backing_file() {
    let spec = run();
    let a = build_argv(&spec, None);
    let template_root = format!("{}/root.qcow2", spec.template_dir);
    assert!(
        !a.iter().any(|s| s.contains(&template_root)),
        "путь шаблонного диска не должен появляться в argv напрямую: {a:?}"
    );
}

#[test]
fn standard_level_has_no_gpu_device() {
    let a = build_argv(&run(), None);
    assert!(!a.iter().any(|s| s.contains("virtio-gpu")), "{a:?}");
}

#[test]
fn reduced_gpu_has_exactly_one_virtio_gpu_device() {
    let mut spec = run();
    spec.isolation_level = "reduced".into();
    spec.gpu = "virtio-gpu-venus".into();
    let a = build_argv(&spec, None);
    let gpu_devices = flag_value(&a, "-device")
        .into_iter()
        .filter(|d| d.contains("virtio-gpu"))
        .collect::<Vec<_>>();
    assert_eq!(gpu_devices.len(), 1, "{a:?}");
    assert_eq!(
        gpu_devices[0],
        "virtio-gpu-gl-device,hostmem=256M,blob=true,venus=true"
    );
}

#[test]
fn reduced_level_without_gpu_still_has_no_gpu_device() {
    let mut spec = run();
    spec.isolation_level = "reduced".into();
    spec.gpu = "none".into();
    let a = build_argv(&spec, None);
    assert!(
        !a.iter().any(|s| s.contains("virtio-gpu")),
        "level сам по себе не должен включать GPU: {a:?}"
    );
}

#[test]
fn reduced_gpu_adds_matching_memfd_backend() {
    let mut spec = run();
    spec.isolation_level = "reduced".into();
    spec.gpu = "virtio-gpu-venus".into();
    let a = build_argv(&spec, None);
    let objects = flag_value(&a, "-object");
    assert_eq!(objects.len(), 1, "{a:?}");
    assert_eq!(
        objects[0],
        format!(
            "memory-backend-memfd,id=mem,size={}M,share=on",
            spec.memory_mb
        )
    );
    let machines = flag_value(&a, "-machine");
    assert_eq!(machines, vec!["memory-backend=mem"], "{a:?}");
}

#[test]
fn reduced_gpu_only_adds_graphics_args_nothing_else_changes() {
    let mut without_gpu = run();
    without_gpu.isolation_level = "reduced".into();
    without_gpu.gpu = "none".into();
    let base = build_argv(&without_gpu, None);

    let mut with_gpu = without_gpu;
    with_gpu.gpu = "virtio-gpu-venus".into();
    let with_gpu_argv = build_argv(&with_gpu, None);

    assert_eq!(
        with_gpu_argv[..base.len()],
        base[..],
        "vsock, tap и диски не должны меняться от появления gpu"
    );
    assert_eq!(
        &with_gpu_argv[base.len()..],
        &[
            "-device".to_string(),
            "virtio-gpu-gl-device,hostmem=256M,blob=true,venus=true".to_string(),
            "-object".to_string(),
            format!(
                "memory-backend-memfd,id=mem,size={}M,share=on",
                with_gpu.memory_mb
            ),
            "-machine".to_string(),
            "memory-backend=mem".to_string(),
        ],
        "{with_gpu_argv:?}"
    );
}

#[test]
fn standard_level_has_no_vfio_device() {
    let a = build_argv(&run(), None);
    assert!(!a.iter().any(|s| s.contains("vfio")), "{a:?}");
}

#[test]
fn memory_and_cpus_come_from_manifest() {
    let spec = run();
    let a = build_argv(&spec, None);
    assert_eq!(
        flag_value(&a, "-m"),
        vec![spec.memory_mb.to_string().as_str()]
    );
    assert_eq!(flag_value(&a, "-smp"), vec![spec.cpus.to_string().as_str()]);
}

#[test]
fn append_carries_the_nonce() {
    let spec = run();
    let a = build_argv(&spec, None);
    let append = flag_value(&a, "-append")[0];
    assert!(append.contains(&format!("MIYORI_NONCE={}", spec.nonce)));
}

#[test]
fn append_has_no_shell_metacharacters() {
    let a = build_argv(&run(), None);
    let append = flag_value(&a, "-append")[0];
    for ch in ['`', '$', ';', '|', '&', '>', '<', '\n', '"', '\'', '\\'] {
        assert!(!append.contains(ch), "метасимвол {ch:?} в append: {append}");
    }
}

#[test]
fn data_disk_present_only_when_data_mb_positive() {
    let mut spec = run();
    spec.data_mb = 0;
    let a = build_argv(&spec, None);
    assert!(!a.iter().any(|s| s.contains("id=data")), "{a:?}");

    spec.data_mb = 4096;
    let a = build_argv(&spec, None);
    let data_drive = flag_value(&a, "-drive")
        .into_iter()
        .find(|d| d.starts_with("id=data,"))
        .expect("нет id=data при data_mb > 0");
    assert!(data_drive.contains(&format!("file={}", spec.data)));
}

#[test]
fn no_secret_means_no_object_and_no_encrypt_key_secret() {
    let a = build_argv(&run(), None);
    assert!(!a.iter().any(|s| s.contains("secret,id=sec0")), "{a:?}");
    assert!(
        flag_value(&a, "-drive")
            .iter()
            .all(|d| !d.contains("encrypt")),
        "{a:?}"
    );
}

#[test]
fn secret_object_precedes_drives_and_both_drives_get_key_secret() {
    let secret = "/run/miyorios/secrets/telegram/pass";
    let a = build_argv(&run(), Some(secret));

    let object_idx = a
        .iter()
        .position(|s| s == "-object")
        .expect("нет -object c секретом");
    assert_eq!(
        a[object_idx + 1],
        format!("secret,id=sec0,file={},format=raw", secret)
    );

    let first_drive_idx = a.iter().position(|s| s == "-drive").expect("нет -drive");
    assert!(
        object_idx < first_drive_idx,
        "-object обязан идти раньше -drive: {a:?}"
    );

    let drives = flag_value(&a, "-drive");
    assert_eq!(drives.len(), 2, "{a:?}");
    for d in drives {
        assert!(d.contains(",encrypt.key-secret=sec0"), "{d}");
    }
}

#[test]
fn secret_without_data_volume_only_touches_the_one_drive_there_is() {
    let mut spec = run();
    spec.data_mb = 0;
    let secret = "/run/miyorios/secrets/telegram/pass";
    let a = build_argv(&spec, Some(secret));

    let drives = flag_value(&a, "-drive");
    assert_eq!(drives.len(), 1, "{a:?}");
    assert!(drives[0].contains(",encrypt.key-secret=sec0"));
}

#[test]
fn privileges_are_dropped_before_qemu() {
    let spec = run();
    let a = build_argv(&spec, None);
    assert_eq!(a[0], "setpriv");
    assert_eq!(a[1], "--reuid");
    assert_eq!(a[2], spec.uid.to_string());
    assert_eq!(a[3], "--regid");
    assert_eq!(a[4], spec.kvm_gid.to_string());
    assert!(a.contains(&"--no-new-privs".to_string()));

    let sep = a
        .iter()
        .position(|s| s == "--")
        .expect("нет разделителя --");
    assert_eq!(a[sep + 1], "qemu-system-x86_64");
}

#[test]
fn no_snapshot_flag() {
    let a = build_argv(&run(), None);
    assert!(!a.iter().any(|s| s == "-snapshot"), "{a:?}");
}




#[test]
fn cmdline_matcher_recognizes_the_right_space() {
    let cmdline = b"qemu-system-x86_64\0-device\0vhost-vsock-device,guest-cid=3\0".to_vec();
    assert!(cmdline_identifies_space(&cmdline, 3));
}

#[test]
fn cmdline_matcher_rejects_foreign_process() {
    let cmdline = b"sleep\x00300\0".to_vec();
    assert!(!cmdline_identifies_space(&cmdline, 3));
}

#[test]
fn cmdline_matcher_rejects_wrong_cid() {
    let cmdline = b"qemu-system-x86_64\0-device\0vhost-vsock-device,guest-cid=4\0".to_vec();
    assert!(!cmdline_identifies_space(&cmdline, 3));
}

#[test]
fn a_context_id_is_not_the_start_of_another() {
    let cmdline = b"qemu-system-x86_64\0-device\0vhost-vsock-device,guest-cid=30\0".to_vec();
    assert!(!cmdline_identifies_space(&cmdline, 3));
    assert!(cmdline_identifies_space(&cmdline, 30));
    assert_eq!(pid_of(Some("77"), &cmdline, 3), None);
    assert_eq!(pid_of(Some("77"), &cmdline, 30), Some(77));
    assert_eq!(state_of(Some("77"), &cmdline, 3), SpaceState::Stopped);
    let at_the_end = b"qemu-system-x86_64\0guest-cid=30\0guest-cid=3".to_vec();
    assert!(cmdline_identifies_space(&at_the_end, 3));
}

#[test]
fn no_pid_file_means_stopped() {
    let cmdline = b"qemu-system-x86_64\0-device\0vhost-vsock-device,guest-cid=3\0".to_vec();
    assert_eq!(state_of(None, &cmdline, 3), SpaceState::Stopped);
    assert_eq!(state_of(Some("42\n"), &cmdline, 3), SpaceState::Running);
    assert_eq!(pid_of(Some("42\n"), &cmdline, 3), Some(42));
}

#[test]
fn pid_reuse_does_not_look_like_a_running_space() {
    let cmdline = b"sleep\x002\0".to_vec();
    assert_eq!(state_of(Some("42"), &cmdline, 3), SpaceState::Stopped);
    assert_eq!(pid_of(Some("42"), &cmdline, 3), None);
}

#[test]
fn a_pid_file_holds_a_number() {
    assert_eq!(parse_pid(" 123\n"), Some(123));
    assert_eq!(parse_pid(""), None);
    assert_eq!(parse_pid("-1"), None);
    assert_eq!(parse_pid("4294967296"), None);
}

#[test]
fn the_guest_reads_the_nonce_of_its_host() {
    let mut spec = run();
    assert_eq!(nonce_from_cmdline(&build_append(&spec)), spec.nonce);
    spec.app_command = "x MIYORI_NONCE=forged".into();
    assert_eq!(nonce_from_cmdline(&build_append(&spec)), spec.nonce);
}

#[test]
fn the_guest_reads_the_nonce_of_a_whole_line() {
    for nonce in ["3f9a", ""] {
        let mut machine = run();
        machine.nonce = nonce.to_string();
        machine.app_command = "x MIYORI_NONCE=forged".to_string();
        let line = build_append(&machine) + "\n";
        assert_eq!(nonce_from_cmdline(&line), nonce);
    }
    assert_eq!(nonce_from_cmdline("console=hvc0 rw\n"), "");
}
