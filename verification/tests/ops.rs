use miyori::agent::{observed_state, AgentReply, HealthError};
use miyori::daemon::net::{LinkEntry, TunnelBlock};
use miyori::daemon::net::{list_space_taps, miyori_net_status, pci_status, ruleset_from_output};
use miyori::daemon::ops::create::{CreateAction, CreateEvent, CreateJob};
use miyori::daemon::ops::destroy::{DestroyAction, DestroyEvent, DestroyJob};
use miyori::daemon::ops::image::{BuildAction, BuildEvent, BuildJob};
use miyori::daemon::ops::report::{
    describe, describe_profile, list, net_status, profiles, ListedSpace, ProfilesRead, SpaceFacts,
};
use miyori::daemon::ops::shared::{
    create_volumes, generate_nonce, load_manifest, manifest_path, mkfs_seed_argv,
    qemu_died_of_wrong_passphrase, qemu_img_blank_argv, qemu_img_convert_argv,
    qemu_img_overlay_argv, read_nonce, require_passphrase_matches_encryption, resolve_build_gid,
    resolve_build_home, resolve_build_uid, resolve_latest_digest, resolve_template_digest,
    secrets_dir, space_secret_dir, tail_of, template_dir_is_complete, template_files,
    validate_seed_dir, ErrorCode, Manifest, ManifestRead, PathKind, Refusal, SeedSpec, VolumeRun,
    VolumeStep,
};
use miyori::daemon::ops::start::{CleanUp, StartAction, StartEvent, StartJob};
use miyori::daemon::ops::stop::{
    shutdown_via_agent, StopAction, StopEvent, StopJob, WindowAction, WindowJob,
};
use miyori::daemon::ops::volumes::{VolumeAction, VolumeEvent, VolumeJob, VolumeOp};
use miyori::daemon::qemu::SpaceState;
use miyori::daemon::store::{SpaceConfig, Store};
use miyori::json::Json;

const STATE: &str = "/var/lib/miyorios";

fn manifest() -> Manifest {
    Manifest {
        description: "проба".to_string(),
        app_mode: "app".to_string(),
        app_command: "/bin/true".to_string(),
        memory_mb: 1024,
        cpus: 2,
        disk_gb: 8,
        data_mb: 4096,
        isolation_level: "standard".to_string(),
        isolation_gpu: "none".to_string(),
        isolation_reason: String::new(),
        network_via: "miyori-net".to_string(),
    }
}

fn reduced(reason: &str) -> Manifest {
    Manifest {
        app_mode: "session".to_string(),
        app_command: "/usr/bin/startxfce4".to_string(),
        isolation_level: "reduced".to_string(),
        isolation_gpu: "virtio-gpu-venus".to_string(),
        isolation_reason: reason.to_string(),
        ..manifest()
    }
}

fn config(id: &str, profile: &str, cid: u32, uid: u32, encrypted: bool) -> SpaceConfig {
    SpaceConfig {
        id: id.to_string(),
        profile: profile.to_string(),
        digest: "d".repeat(64),
        cid,
        uid,
        label: "untrusted".to_string(),
        color: "#e03131".to_string(),
        created: "2026-08-26T00:00:00Z".to_string(),
        clean_shutdown: None,
        encrypted,
    }
}

fn store_of(configs: Vec<SpaceConfig>) -> Store {
    Store::load(STATE, configs)
}

fn one_space() -> Store {
    store_of(vec![config("a", "spike", 3, 70003, false)])
}

fn one_encrypted() -> Store {
    store_of(vec![config("a", "spike", 3, 70003, true)])
}

fn text(v: &Json, key: &str) -> String {
    match v.get(key) {
        Some(Json::Str(s)) => s.clone(),
        other => panic!("{key}: {other:?}"),
    }
}

fn text2(v: &Json, outer: &str, inner: &str) -> String {
    text(v.get(outer).unwrap(), inner)
}

fn is_null(v: &Json, key: &str) -> bool {
    v.get(key) == Some(&Json::Null)
}

fn items(v: &Json) -> &Vec<Json> {
    match v {
        Json::Array(items) => items,
        other => panic!("{other:?}"),
    }
}

fn facts() -> SpaceFacts {
    SpaceFacts {
        state: SpaceState::Stopped,
        alive: false,
        rss_kib: None,
        uptime_secs: None,
        data_qcow2_bytes: None,
        log_tail: vec![],
    }
}

fn described(store: &Store, f: &SpaceFacts) -> Json {
    describe(STATE, store, "a", ManifestRead::Found(manifest()), f).unwrap()
}

fn listed(config: SpaceConfig, manifest: Option<Manifest>) -> Json {
    list(&vec![ListedSpace {
        config,
        manifest,
        state: SpaceState::Stopped,
    }])
}

fn reply(nonce: &str, ok: bool, detail: Option<&str>) -> AgentReply {
    AgentReply {
        nonce: nonce.to_string(),
        ok,
        detail: detail.map(|s| s.to_string()),
        data_unmounted: None,
    }
}

#[test]
fn mkfs_seed_argv_drops_privileges_before_reading_seed() {
    let spec = SeedSpec {
        dir: "/home/op/files".to_string(),
        build_uid: 70042,
        build_gid: 70100,
    };
    let raw = "/var/lib/miyorios/spaces/a/.seed-staging/data.raw";
    let argv = mkfs_seed_argv(&spec, raw);

    assert_eq!(argv[0], "setpriv");
    assert_eq!(argv[1], "--reuid");
    assert_eq!(argv[2], "70042");
    assert_eq!(argv[3], "--regid");
    assert_eq!(argv[4], "70100");
    assert!(argv.contains(&"--clear-groups".to_string()));
    let sep = argv
        .iter()
        .position(|s| s == "--")
        .expect("нет разделителя --");
    assert_eq!(argv[sep + 1], "mkfs.ext4");
    assert_eq!(argv[sep + 2], "-q");
    assert_eq!(argv[sep + 3], "-d");
    assert_eq!(argv[sep + 4], "/home/op/files");
    assert_eq!(
        argv[sep + 5],
        "/var/lib/miyorios/spaces/a/.seed-staging/data.raw"
    );
}

#[test]
fn qemu_img_overlay_argv_without_secret() {
    let backing = "/var/lib/miyorios/templates/spike/dead/root.qcow2";
    let overlay = "/var/lib/miyorios/spaces/a/system-overlay.qcow2";
    let argv = qemu_img_overlay_argv(backing, overlay, None);
    assert_eq!(
        argv,
        vec![
            "qemu-img",
            "create",
            "-f",
            "qcow2",
            "-b",
            "/var/lib/miyorios/templates/spike/dead/root.qcow2",
            "-F",
            "qcow2",
            "/var/lib/miyorios/spaces/a/system-overlay.qcow2",
        ]
    );
}

#[test]
fn qemu_img_overlay_argv_with_secret_matches_proven_syntax() {
    let backing = "/var/lib/miyorios/templates/spike/dead/root.qcow2";
    let overlay = "/var/lib/miyorios/spaces/a/system-overlay.qcow2";
    let secret = "/run/miyorios/.qemu-img-secrets/sec-1";
    let argv = qemu_img_overlay_argv(backing, overlay, Some(secret));
    assert_eq!(
        argv,
        vec![
            "qemu-img",
            "create",
            "--object",
            "secret,id=sec0,file=/run/miyorios/.qemu-img-secrets/sec-1,format=raw",
            "-f",
            "qcow2",
            "-b",
            "/var/lib/miyorios/templates/spike/dead/root.qcow2",
            "-F",
            "qcow2",
            "-o",
            "encrypt.format=luks,encrypt.key-secret=sec0",
            "/var/lib/miyorios/spaces/a/system-overlay.qcow2",
        ]
    );
}

#[test]
fn qemu_img_blank_argv_without_secret() {
    let path = "/var/lib/miyorios/spaces/a/data.qcow2";
    let argv = qemu_img_blank_argv(path, 4096, None);
    assert_eq!(
        argv,
        vec![
            "qemu-img",
            "create",
            "-f",
            "qcow2",
            "/var/lib/miyorios/spaces/a/data.qcow2",
            "4096M",
        ]
    );
}

#[test]
fn qemu_img_blank_argv_with_secret_matches_proven_syntax() {
    let path = "/var/lib/miyorios/spaces/a/data.qcow2";
    let secret = "/run/miyorios/.qemu-img-secrets/sec-1";
    let argv = qemu_img_blank_argv(path, 4096, Some(secret));
    assert_eq!(
        argv,
        vec![
            "qemu-img",
            "create",
            "--object",
            "secret,id=sec0,file=/run/miyorios/.qemu-img-secrets/sec-1,format=raw",
            "-f",
            "qcow2",
            "-o",
            "encrypt.format=luks,encrypt.key-secret=sec0",
            "/var/lib/miyorios/spaces/a/data.qcow2",
            "4096M",
        ]
    );
}

#[test]
fn qemu_img_convert_argv_without_secret() {
    let raw = "/var/lib/miyorios/spaces/a/.seed-staging/data.raw";
    let qcow2 = "/var/lib/miyorios/spaces/a/data.qcow2";
    let argv = qemu_img_convert_argv(raw, qcow2, None);
    assert_eq!(
        argv,
        vec![
            "qemu-img",
            "convert",
            "-O",
            "qcow2",
            "/var/lib/miyorios/spaces/a/.seed-staging/data.raw",
            "/var/lib/miyorios/spaces/a/data.qcow2",
        ]
    );
}

#[test]
fn qemu_img_convert_argv_with_secret_matches_proven_syntax() {
    let raw = "/var/lib/miyorios/spaces/a/.seed-staging/data.raw";
    let qcow2 = "/var/lib/miyorios/spaces/a/data.qcow2";
    let secret = "/run/miyorios/.qemu-img-secrets/sec-1";
    let argv = qemu_img_convert_argv(raw, qcow2, Some(secret));
    assert_eq!(
        argv,
        vec![
            "qemu-img",
            "convert",
            "--object",
            "secret,id=sec0,file=/run/miyorios/.qemu-img-secrets/sec-1,format=raw",
            "-O",
            "qcow2",
            "-o",
            "encrypt.format=luks,encrypt.key-secret=sec0",
            "/var/lib/miyorios/spaces/a/.seed-staging/data.raw",
            "/var/lib/miyorios/spaces/a/data.qcow2",
        ]
    );
}

#[test]
fn qemu_died_of_wrong_passphrase_matches_qemu_diagnostic() {
    assert!(qemu_died_of_wrong_passphrase(
        "qemu-system-x86_64: -drive id=root,...: Invalid password, cannot unlock any keyslot"
    ));
}

#[test]
fn qemu_died_of_wrong_passphrase_does_not_match_missing_secret_diagnostic() {
    assert!(!qemu_died_of_wrong_passphrase(
        "qemu-system-x86_64: -drive id=root,...: Parameter 'encrypt.key-secret' is required for cipher"
    ));
}

#[test]
fn require_passphrase_matches_encryption_rules() {
    assert!(require_passphrase_matches_encryption(true, &Some("x".to_string())).is_ok());
    assert!(require_passphrase_matches_encryption(false, &None).is_ok());
    assert_eq!(
        require_passphrase_matches_encryption(true, &None)
            .unwrap_err()
            .code,
        ErrorCode::BadRequest
    );
    assert_eq!(
        require_passphrase_matches_encryption(false, &Some("x".to_string()))
            .unwrap_err()
            .code,
        ErrorCode::BadRequest
    );
}

#[test]
fn list_is_empty_without_spaces() {
    assert_eq!(list(&vec![]), Json::Array(vec![]));
}

#[test]
fn list_survives_a_broken_manifest_of_one_profile() {
    let data = listed(config("a", "spike", 3, 70003, false), None);
    assert_eq!(text(&items(&data)[0], "id"), "a");
    assert_eq!(text(&items(&data)[0], "isolation-level"), "неизвестен");
}

#[test]
fn profiles_is_empty_without_profiles_dir() {
    assert_eq!(profiles(ProfilesRead::Missing).unwrap(), Vec::<String>::new());
}

#[test]
fn profiles_reports_template_readiness_and_sorts_by_name() {
    let names = profiles(ProfilesRead::Found(vec![
        "unbuilt".to_string(),
        "spike".to_string(),
    ]))
    .unwrap();
    assert_eq!(names, vec!["spike", "unbuilt"]);

    let item = describe_profile("spike", true, &Ok(manifest()));
    assert_eq!(text(&item, "profile"), "spike");
    assert_eq!(item.get("template"), Some(&Json::Bool(true)));
    assert_eq!(item.get("manifest-ok"), Some(&Json::Bool(true)));
    assert_eq!(text(&item, "isolation-level"), "standard");
    assert_eq!(text(&item, "isolation-reason"), "");
    assert_eq!(text(&item, "command"), "/bin/true");
    assert!(is_null(&item, "manifest-error"));

    let item = describe_profile("unbuilt", false, &Ok(reduced("полноэкранная графика")));
    assert_eq!(text(&item, "profile"), "unbuilt");
    assert_eq!(item.get("template"), Some(&Json::Bool(false)));
    assert_eq!(item.get("manifest-ok"), Some(&Json::Bool(true)));
    assert_eq!(text(&item, "isolation-level"), "reduced");
    assert_eq!(text(&item, "isolation-reason"), "полноэкранная графика");
    assert_eq!(text(&item, "command"), "/usr/bin/startxfce4");
}

#[test]
fn profiles_reports_broken_manifest_without_dropping_it_or_failing_the_op() {
    let names = profiles(ProfilesRead::Found(vec![
        "spike".to_string(),
        "ghost".to_string(),
    ]))
    .unwrap();
    let items: Vec<Json> = names
        .iter()
        .map(|name| {
            let read = if name == "ghost" {
                Err("не toml".to_string())
            } else {
                Ok(manifest())
            };
            describe_profile(name, false, &read)
        })
        .collect();
    assert_eq!(
        items.len(),
        2,
        "сломанный манифест не должен исчезать из списка"
    );

    let ghost = items.iter().find(|it| text(it, "profile") == "ghost").unwrap();
    assert_eq!(ghost.get("manifest-ok"), Some(&Json::Bool(false)));
    assert!(
        !text(ghost, "manifest-error").is_empty(),
        "должна быть непустая причина отказа"
    );
    assert!(is_null(ghost, "isolation-level"));
    assert!(is_null(ghost, "command"));

    let spike = items.iter().find(|it| text(it, "profile") == "spike").unwrap();
    assert_eq!(spike.get("manifest-ok"), Some(&Json::Bool(true)));
}

#[test]
fn describe_reports_space_not_found() {
    let err = describe(
        STATE,
        &store_of(vec![]),
        "nope",
        ManifestRead::Missing,
        &facts(),
    )
    .unwrap_err();
    assert_eq!(err.code, ErrorCode::SpaceNotFound);
}

#[test]
fn describe_reports_profile_not_found() {
    let store = store_of(vec![config("a", "ghost", 3, 70003, false)]);
    let err = describe(STATE, &store, "a", ManifestRead::Missing, &facts()).unwrap_err();
    assert_eq!(err.code, ErrorCode::ProfileNotFound);
    let err = describe(STATE, &store, "a", ManifestRead::Unreadable, &facts()).unwrap_err();
    assert_eq!(err.code, ErrorCode::Internal);
}

#[test]
fn describe_returns_manifest_sections_verbatim() {
    let data = described(&one_space(), &facts());
    assert_eq!(text(&data, "state"), "stopped");
    assert_eq!(data.get("cid"), Some(&Json::Unsigned(3)));
    assert_eq!(data.get("uid"), Some(&Json::Unsigned(70003)));
    assert_eq!(text(&data, "digest"), "d".repeat(64));
    assert_eq!(text2(&data, "isolation", "level"), "standard");
    assert_eq!(text2(&data, "isolation", "gpu"), "none");
    assert_eq!(text2(&data, "network", "via"), "miyori-net");
    assert_eq!(
        data.get2("resources", "memory-mb"),
        Some(&Json::Unsigned(1024))
    );
    assert!(is_null(&data, "data-qcow2-bytes"));
    assert!(text(&data, "manifest-path").ends_with("profiles/spike/manifest.toml"));
}

#[test]
fn describe_reports_label_color_description_and_app_command() {
    let data = described(&one_space(), &facts());
    assert_eq!(text(&data, "label"), "untrusted");
    assert_eq!(text(&data, "color"), "#e03131");
    assert_eq!(text(&data, "description"), "проба");
    assert_eq!(text2(&data, "app", "command"), "/bin/true");
}

#[test]
fn describe_reports_encrypted_field() {
    let data = described(&one_encrypted(), &facts());
    assert_eq!(data.get("encrypted"), Some(&Json::Bool(true)));
}

#[test]
fn describe_reports_null_rss_and_uptime_for_stopped_space() {
    let stale = SpaceFacts {
        rss_kib: Some(7),
        uptime_secs: Some(7),
        ..facts()
    };
    let data = described(&one_space(), &stale);
    assert!(is_null(&data, "rss-kib"));
    assert!(is_null(&data, "uptime-secs"));
}

#[test]
fn describe_reports_real_rss_and_uptime_for_running_space() {
    let live = SpaceFacts {
        state: SpaceState::Running,
        alive: true,
        rss_kib: Some(2048),
        uptime_secs: Some(60),
        ..facts()
    };
    let data = described(&one_space(), &live);
    assert_eq!(data.get("rss-kib"), Some(&Json::Unsigned(2048)));
    assert_eq!(data.get("uptime-secs"), Some(&Json::Unsigned(60)));
}

#[test]
fn describe_reports_log_tail_as_empty_array_without_log() {
    let data = described(&one_space(), &facts());
    assert_eq!(data.get("log-tail"), Some(&Json::Array(vec![])));
}

#[test]
fn describe_reports_actual_data_qcow2_size() {
    let sized = SpaceFacts {
        data_qcow2_bytes: Some(42),
        ..facts()
    };
    let data = described(&one_space(), &sized);
    assert_eq!(data.get("data-qcow2-bytes"), Some(&Json::Unsigned(42)));
}

#[test]
fn describe_reports_unresponsive_when_process_alive_but_agent_unreachable() {
    let asked = Some(("abc123".to_string(), Err(HealthError::Timeout)));
    let silent = SpaceFacts {
        state: observed_state(SpaceState::Running, asked),
        alive: true,
        ..facts()
    };
    assert_eq!(text(&described(&one_space(), &silent), "state"), "unresponsive");
}

#[test]
fn describe_reports_running_when_agent_confirms_nonce() {
    let state = |nonce: &str| {
        let asked = Some(("abc123\n".to_string(), Ok(reply(nonce, true, None))));
        let live = SpaceFacts {
            state: observed_state(SpaceState::Running, asked),
            alive: true,
            ..facts()
        };
        text(&described(&one_space(), &live), "state")
    };
    assert_eq!(state("abc123"), "running");
    assert_eq!(state("старый"), "unresponsive");
}

#[test]
fn list_reports_isolation_level_and_reason() {
    let data = listed(config("a", "spike", 3, 70003, false), Some(manifest()));
    assert_eq!(text(&items(&data)[0], "id"), "a");
    assert_eq!(text(&items(&data)[0], "isolation-level"), "standard");
    assert_eq!(text(&items(&data)[0], "isolation-reason"), "");
}

#[test]
fn list_reports_label_and_color() {
    let data = listed(config("a", "spike", 3, 70003, false), Some(manifest()));
    assert_eq!(text(&items(&data)[0], "label"), "untrusted");
    assert_eq!(text(&items(&data)[0], "color"), "#e03131");
}

#[test]
fn list_reports_encrypted_field() {
    let a = listed(config("a", "spike", 3, 70003, true), Some(manifest()));
    let b = listed(config("b", "spike", 4, 70004, false), Some(manifest()));
    assert_eq!(items(&a)[0].get("encrypted"), Some(&Json::Bool(true)));
    assert_eq!(items(&b)[0].get("encrypted"), Some(&Json::Bool(false)));
}

fn network(running: bool) -> Json {
    let taps = list_space_taps(&vec![LinkEntry {
        name: "tap-space-3".to_string(),
        isolated: Some("1\n".to_string()),
    }]);
    let cmdline = b"qemu-system-x86_64\0MIYORI_UPLINK=vfio\0".to_vec();
    let net = if running {
        miyori_net_status(Some((7, &cmdline)), None)
    } else {
        miyori_net_status(None, None)
    };
    net_status(
        true,
        false,
        &taps,
        &pci_status("0000:0c:00.0", true, None),
        &net,
        &ruleset_from_output(true, &b"table inet filter {}".to_vec(), &vec![], 100),
    )
}

#[test]
fn net_status_is_ok_and_names_absence_explicitly() {
    let data = network(false);
    assert_eq!(text(&data, "killswitch_counters"), "недоступны с хоста");
    assert_eq!(data.get2("bridges", "br-spaces"), Some(&Json::Bool(true)));
    assert_eq!(data.get2("bridges", "br-captive"), Some(&Json::Bool(false)));
    assert_eq!(items(data.get("taps").unwrap()).len(), 1);
    assert_eq!(text2(&data, "uplink-pci", "address"), "0000:0c:00.0");
    assert_eq!(data.get2("uplink-pci", "present"), Some(&Json::Bool(true)));
    assert_eq!(data.get2("miyori-net", "running"), Some(&Json::Bool(false)));
    assert_eq!(data.get2("miyori-net", "pid"), Some(&Json::Null));
    assert_eq!(data.get2("miyori-net", "tunnel"), Some(&Json::Null));
    let data = network(true);
    assert_eq!(data.get2("miyori-net", "pid"), Some(&Json::Unsigned(7)));
}

#[test]
fn net_status_reports_ruleset_field_shape() {
    let data = network(false);
    assert_eq!(data.get2("ruleset", "available"), Some(&Json::Bool(true)));
    assert_eq!(text2(&data, "ruleset", "text"), "table inet filter {}");
    assert!(data.get2("ruleset", "truncated-from").is_some());
}

fn create_job(id: &str, profile: &str, seed: Option<&str>, passphrase: Option<&str>) -> Result<CreateJob, Refusal> {
    CreateJob::begin(
        STATE.to_string(),
        None,
        id.to_string(),
        profile.to_string(),
        "untrusted".to_string(),
        "#e03131".to_string(),
        seed.map(|s| s.to_string()),
        passphrase.map(|s| s.to_string()),
    )
}

fn create_refusal(action: CreateAction) -> Refusal {
    match action {
        CreateAction::Refuse(e) => e,
        _ => panic!("ожидался отказ"),
    }
}

#[test]
fn create_rejects_reserved_space_id() {
    let err = create_job("miyori-net", "spike", None, None).err().unwrap();
    assert_eq!(err.code, ErrorCode::BadRequest);
}

#[test]
fn create_rejects_duplicate_space_id() {
    let mut job = create_job("a", "spike", None, None).ok().unwrap();
    let err = create_refusal(job.step(CreateEvent::Store(Some(one_space()))));
    assert_eq!(err.code, ErrorCode::SpaceExists);
}

#[test]
fn create_reports_profile_not_found() {
    let mut job = create_job("a", "ghost", None, None).ok().unwrap();
    job.step(CreateEvent::Store(Some(store_of(vec![]))));
    let err = create_refusal(job.step(CreateEvent::Manifest(ManifestRead::Missing)));
    assert_eq!(err.code, ErrorCode::ProfileNotFound);
}

fn up_to_templates(job: &mut CreateJob, m: Manifest) {
    job.step(CreateEvent::Store(Some(store_of(vec![]))));
    let action = job.step(CreateEvent::Manifest(ManifestRead::Found(m)));
    assert!(matches!(action, CreateAction::ReadTemplates { .. }));
}

fn one_template() -> CreateEvent {
    CreateEvent::Templates {
        latest: None,
        dirs: vec!["d".repeat(64)],
    }
}

#[test]
fn create_reports_template_not_found() {
    let mut job = create_job("a", "spike", None, None).ok().unwrap();
    up_to_templates(&mut job, manifest());
    let err = create_refusal(job.step(CreateEvent::Templates {
        latest: None,
        dirs: vec![],
    }));
    assert_eq!(err.code, ErrorCode::TemplateNotFound);
}

#[test]
fn create_rejects_seed_when_profile_has_no_data_volume() {
    let mut job = create_job("a", "nodata", Some("/home/op/files"), None).ok().unwrap();
    up_to_templates(
        &mut job,
        Manifest {
            data_mb: 0,
            ..manifest()
        },
    );
    let mut action = job.step(one_template());
    if let CreateAction::StatPath { .. } = action {
        action = job.step(CreateEvent::Kind(PathKind::Directory));
    }
    assert_eq!(create_refusal(action).code, ErrorCode::BadRequest);
}

#[test]
fn create_rejects_relative_seed_path() {
    let mut job = create_job("a", "spike", Some("relative/seed"), None).ok().unwrap();
    up_to_templates(&mut job, manifest());
    let mut action = job.step(one_template());
    if let CreateAction::StatPath { .. } = action {
        action = job.step(CreateEvent::Kind(PathKind::Directory));
    }
    assert_eq!(create_refusal(action).code, ErrorCode::BadRequest);
}

#[test]
fn create_rejects_seed_dir_that_does_not_exist() {
    let mut job = create_job("a", "spike", Some("/no-such-seed-dir"), None).ok().unwrap();
    up_to_templates(&mut job, manifest());
    let mut action = job.step(one_template());
    if let CreateAction::StatPath { .. } = action {
        action = job.step(CreateEvent::Kind(PathKind::Missing));
    }
    assert_eq!(create_refusal(action).code, ErrorCode::BadRequest);
}

#[test]
fn create_rejects_empty_passphrase() {
    let err = create_job("a", "spike", None, Some("")).err().unwrap();
    assert_eq!(err.code, ErrorCode::BadRequest);
}

fn host() -> CreateEvent {
    CreateEvent::Host {
        links: vec![],
        passwd: Some("root:x:0:0:root:/root:/bin/bash\n".to_string()),
        now_secs: 0,
    }
}

#[test]
fn a_creation_writes_its_space_makes_its_volumes_and_is_published() {
    let mut job = create_job("a", "spike", None, Some("тайна")).ok().unwrap();
    up_to_templates(&mut job, manifest());
    assert!(matches!(job.step(one_template()), CreateAction::AskHost));
    match job.step(host()) {
        CreateAction::WriteConfig { dir, text } => {
            assert_eq!(dir, "/var/lib/miyorios/spaces/a");
            assert!(text.contains("cid = 3"), "{text}");
            assert!(text.contains("encrypted = true"), "{text}");
        }
        _ => panic!("ожидалась запись config"),
    }
    match job.step(CreateEvent::Flag(true)) {
        CreateAction::WriteSecret { passphrase } => assert_eq!(passphrase, "тайна"),
        _ => panic!("ожидался секрет"),
    }
    match job.step(CreateEvent::Text(Some("/run/sec".to_string()))) {
        CreateAction::MakeVolumes { steps, remove_after } => {
            assert_eq!(remove_after.as_deref(), Some("/run/sec"));
            assert_eq!(steps.len(), 4);
        }
        _ => panic!("ожидались тома"),
    }
    assert!(matches!(
        job.step(CreateEvent::Flag(true)),
        CreateAction::Publish { .. }
    ));
    match job.step(CreateEvent::Flag(true)) {
        CreateAction::Reply(v) => assert_eq!(text(&v, "id"), "a"),
        _ => panic!("ожидался ответ"),
    }
}

#[test]
fn a_failed_creation_removes_what_it_wrote() {
    let mut job = create_job("a", "spike", None, None).ok().unwrap();
    up_to_templates(&mut job, manifest());
    job.step(one_template());
    job.step(host());
    job.step(CreateEvent::Flag(true));
    match job.step(CreateEvent::Flag(false)) {
        CreateAction::RemoveSpace { dir } => assert_eq!(dir, "/var/lib/miyorios/spaces/a"),
        _ => panic!("ожидалось удаление"),
    }
    assert_eq!(
        create_refusal(job.step(CreateEvent::Done)).code,
        ErrorCode::Internal
    );
}

#[test]
fn a_seeded_creation_asks_for_the_account_of_the_builder() {
    let mut job = create_job("a", "spike", Some("/home/op/files"), None).ok().unwrap();
    up_to_templates(&mut job, manifest());
    assert!(matches!(job.step(one_template()), CreateAction::StatPath { .. }));
    assert!(matches!(
        job.step(CreateEvent::Kind(PathKind::Directory)),
        CreateAction::AskOwner
    ));
    assert!(matches!(
        job.step(CreateEvent::Number(Some(1000))),
        CreateAction::ReadAccounts
    ));
    assert!(matches!(
        job.step(CreateEvent::Text(Some(
            "op:x:1000:2000:Op,,,:/home/op:/bin/bash\n".to_string()
        ))),
        CreateAction::AskHost
    ));
    job.step(host());
    match job.step(CreateEvent::Flag(true)) {
        CreateAction::MakeVolumes { steps, remove_after } => {
            assert_eq!(remove_after, None);
            let staged = steps
                .iter()
                .any(|s| matches!(s, VolumeStep::Stage { dir, uid: 1000 } if dir.ends_with(".seed-staging")));
            let unstaged = steps.iter().any(|s| matches!(s, VolumeStep::Unstage { .. }));
            assert!(staged && unstaged);
            let seeded = steps.iter().any(|s| match s {
                VolumeStep::Run(argv) => argv.contains(&"/home/op/files".to_string()),
                _ => false,
            });
            assert!(seeded);
        }
        _ => panic!("ожидались тома"),
    }
}

#[test]
fn create_volumes_without_seed_takes_the_old_path() {
    let steps = create_volumes("/t", "/s", 70003, 1, None, None);
    assert_eq!(steps.len(), 4);
    match &steps[2] {
        VolumeStep::Run(argv) => {
            assert!(argv.contains(&"/s/data.qcow2".to_string()));
            assert!(argv.contains(&"1M".to_string()));
        }
        _ => panic!("ожидалась команда"),
    }
    assert!(
        !steps.iter().any(|s| matches!(s, VolumeStep::Stage { .. })),
        "без seed засев не должен создавать staging вообще"
    );
    assert_eq!(create_volumes("/t", "/s", 70003, 0, None, None).len(), 2);
}

#[test]
fn build_reports_profile_not_found_not_internal() {
    let mut job = BuildJob::begin(STATE.to_string(), None, "ghost".to_string(), "1".to_string());
    match job.step(BuildEvent::Manifest(ManifestRead::Missing)) {
        BuildAction::Refuse(e) => assert_eq!(e.code, ErrorCode::ProfileNotFound),
        _ => panic!("ожидался отказ"),
    }
}

fn up_to_builder() -> BuildJob {
    let mut job = BuildJob::begin(STATE.to_string(), None, "spike".to_string(), "7".to_string());
    assert!(matches!(
        job.step(BuildEvent::Manifest(ManifestRead::Found(manifest()))),
        BuildAction::AskOwner
    ));
    assert!(matches!(
        job.step(BuildEvent::Number(Some(1000))),
        BuildAction::ReadAccounts
    ));
    match job.step(BuildEvent::Text(Some(
        "op:x:1000:2000:Op,,,:/home/op:/bin/bash\n".to_string(),
    ))) {
        BuildAction::Stage { dir, uid } => {
            assert_eq!(dir, "/var/lib/miyorios/templates/.staging/spike-7");
            assert_eq!(uid, 1000);
        }
        _ => panic!("ожидался каталог сборки"),
    }
    match job.step(BuildEvent::Flag(true)) {
        BuildAction::RunBuilder { argv, home, .. } => {
            assert_eq!(home, "/home/op");
            assert_eq!(argv[2], "1000");
            assert_eq!(argv[4], "2000");
        }
        _ => panic!("ожидалась сборка"),
    }
    job
}

#[test]
fn a_build_puts_its_image_in_place_and_clears_up() {
    let mut job = up_to_builder();
    assert!(matches!(
        job.step(BuildEvent::Flag(true)),
        BuildAction::ReadLink { .. }
    ));
    match job.step(BuildEvent::Text(Some("deadbeef".to_string()))) {
        BuildAction::Place { target, .. } => {
            assert_eq!(target, "/var/lib/miyorios/templates/spike/deadbeef")
        }
        _ => panic!("ожидался образ"),
    }
    match job.step(BuildEvent::Flag(true)) {
        BuildAction::Link { digest, .. } => assert_eq!(digest, "deadbeef"),
        _ => panic!("ожидалась ссылка"),
    }
    assert!(matches!(
        job.step(BuildEvent::Flag(false)),
        BuildAction::Unstage { .. }
    ));
    match job.step(BuildEvent::Done) {
        BuildAction::Reply(v) => assert_eq!(text(&v, "digest"), "deadbeef"),
        _ => panic!("ожидался ответ"),
    }
}

#[test]
fn a_failed_build_clears_up() {
    let mut job = up_to_builder();
    assert!(matches!(
        job.step(BuildEvent::Flag(false)),
        BuildAction::Unstage { .. }
    ));
    match job.step(BuildEvent::Done) {
        BuildAction::Refuse(e) => assert_eq!(e.code, ErrorCode::Internal),
        _ => panic!("ожидался отказ"),
    }
}

#[test]
fn resolve_build_uid_defaults_to_profiles_dir_owner() {
    assert_eq!(resolve_build_uid(None, Some(501)).unwrap(), 501);
    assert!(resolve_build_uid(None, None).is_err());
}

#[test]
fn resolve_build_uid_prefers_explicit_flag() {
    assert_eq!(resolve_build_uid(Some(12345), Some(501)).unwrap(), 12345);
}

#[test]
fn the_builder_has_a_group_and_a_home() {
    let passwd = "op:x:1000:2000:Op,,,:/home/op:/bin/bash\n";
    assert_eq!(resolve_build_gid(passwd, 1000).unwrap(), 2000);
    assert_eq!(resolve_build_home(passwd, 1000).unwrap(), "/home/op");
    assert_eq!(resolve_build_gid(passwd, 1).unwrap_err().code, ErrorCode::Internal);
    assert_eq!(resolve_build_home(passwd, 1).unwrap_err().code, ErrorCode::Internal);
}

#[test]
fn read_nonce_rejects_missing_file() {
    assert!(read_nonce(Err("нет файла".to_string())).is_err());
}

#[test]
fn read_nonce_rejects_empty_file() {
    assert!(read_nonce(Ok("   \n".to_string())).is_err());
}

#[test]
fn read_nonce_returns_trimmed_value() {
    assert_eq!(read_nonce(Ok("abc123\n".to_string())).unwrap(), "abc123");
}

#[test]
fn a_nonce_is_random_bytes_in_hexadecimal() {
    let nonce = generate_nonce(&vec![0, 1, 0x7f, 0xff, 0xa0]);
    assert_eq!(nonce, "00017fffa0");
    assert_eq!(read_nonce(Ok(nonce.clone())), Ok(nonce));
}

#[test]
fn resolve_template_digest_prefers_latest_symlink() {
    let dirs = vec!["digest-a".to_string(), "digest-b".to_string()];
    assert_eq!(
        resolve_template_digest(STATE, "spike", Some("digest-b"), &dirs).unwrap(),
        "digest-b"
    );
}

#[test]
fn resolve_template_digest_uses_single_directory_without_latest() {
    assert_eq!(
        resolve_template_digest(STATE, "spike", None, &vec!["onlydigest".to_string()]).unwrap(),
        "onlydigest"
    );
}

#[test]
fn resolve_template_digest_errors_on_ambiguous_directories() {
    let dirs = vec!["digest-a".to_string(), "digest-b".to_string()];
    let err = resolve_template_digest(STATE, "spike", None, &dirs).unwrap_err();
    assert_eq!(err.code, ErrorCode::TemplateNotFound);
}

#[test]
fn resolve_template_digest_errors_when_missing() {
    let err = resolve_template_digest(STATE, "spike", None, &vec![]).unwrap_err();
    assert_eq!(err.code, ErrorCode::TemplateNotFound);
}

#[test]
fn paths_lie_under_their_directories() {
    assert_eq!(
        manifest_path(STATE, "spike"),
        "/var/lib/miyorios/profiles/spike/manifest.toml"
    );
    assert_eq!(secrets_dir("/run/miyorios"), "/run/miyorios/secrets");
    assert_eq!(space_secret_dir("/run/miyorios", "a"), "/run/miyorios/secrets/a");
    assert_eq!(resolve_latest_digest(STATE, "spike", Some("x")).unwrap(), "x");
    assert_eq!(
        resolve_latest_digest(STATE, "spike", None).unwrap_err().code,
        ErrorCode::TemplateNotFound
    );
    let files = template_files("/t");
    assert!(files.contains(&"/t/root.qcow2".to_string()));
    assert!(template_dir_is_complete(&vec![true; files.len()]));
    assert!(!template_dir_is_complete(&vec![true, false, true, true]));
    assert!(!template_dir_is_complete(&vec![]));
    assert!(!template_dir_is_complete(&vec![true, true, true]));
}

#[test]
fn a_seed_is_an_absolute_directory_for_a_data_volume() {
    assert_eq!(
        validate_seed_dir("/home/op/files", 64, PathKind::Directory).unwrap(),
        "/home/op/files"
    );
    for (raw, data_mb, kind) in [
        ("/home/op/files", 0, PathKind::Directory),
        ("files", 64, PathKind::Directory),
        ("/home/op/files", 64, PathKind::Missing),
    ] {
        assert_eq!(
            validate_seed_dir(raw, data_mb, kind).unwrap_err().code,
            ErrorCode::BadRequest
        );
    }
}

#[test]
fn a_manifest_is_found_missing_or_unreadable() {
    assert!(load_manifest("spike", ManifestRead::Found(manifest())).is_ok());
    assert_eq!(
        load_manifest("spike", ManifestRead::Missing).err().unwrap().code,
        ErrorCode::ProfileNotFound
    );
    assert_eq!(
        load_manifest("spike", ManifestRead::Unreadable).err().unwrap().code,
        ErrorCode::Internal
    );
    assert!(tail_of("x").contains('x'));
}

fn start_job(store: &Store, id: &str, passphrase: Option<&str>) -> Result<StartJob, Refusal> {
    StartJob::begin(
        STATE.to_string(),
        "/run/miyorios".to_string(),
        store,
        id,
        passphrase.map(|s| s.to_string()),
    )
}

fn start_refusal(action: StartAction) -> Refusal {
    match action {
        StartAction::Refuse(e) => e,
        _ => panic!("ожидался отказ"),
    }
}

#[test]
fn start_reports_space_not_found() {
    let err = start_job(&store_of(vec![]), "nope", None).err().unwrap();
    assert_eq!(err.code, ErrorCode::SpaceNotFound);
}

#[test]
fn start_reports_space_running_when_already_running() {
    let mut job = start_job(&one_space(), "a", None).ok().unwrap();
    let err = start_refusal(job.step(StartEvent::State(SpaceState::Running)));
    assert_eq!(err.code, ErrorCode::SpaceRunning);
}

#[test]
fn start_rejects_missing_passphrase_for_encrypted_space() {
    let err = start_job(&one_encrypted(), "a", None).err().unwrap();
    assert_eq!(err.code, ErrorCode::BadRequest);
}

#[test]
fn start_rejects_passphrase_for_unencrypted_space() {
    let err = start_job(&one_space(), "a", Some("hunter2")).err().unwrap();
    assert_eq!(err.code, ErrorCode::BadRequest);
}

#[test]
fn start_needs_a_bridge_a_profile_and_an_image() {
    let mut job = start_job(&one_space(), "a", None).ok().unwrap();
    job.step(StartEvent::State(SpaceState::Stopped));
    assert_eq!(
        start_refusal(job.step(StartEvent::Flag(false))).code,
        ErrorCode::NoBridge
    );
    let mut job = start_job(&one_space(), "a", None).ok().unwrap();
    job.step(StartEvent::State(SpaceState::Stopped));
    job.step(StartEvent::Flag(true));
    assert_eq!(
        start_refusal(job.step(StartEvent::Manifest(ManifestRead::Missing))).code,
        ErrorCode::ProfileNotFound
    );
    let mut job = start_job(&one_space(), "a", None).ok().unwrap();
    job.step(StartEvent::State(SpaceState::Stopped));
    job.step(StartEvent::Flag(true));
    job.step(StartEvent::Manifest(ManifestRead::Found(manifest())));
    assert_eq!(
        start_refusal(job.step(StartEvent::Flag(false))).code,
        ErrorCode::TemplateNotFound
    );
}

/// A start that waits for its machine to live through its first moments.
fn up_to_settle(store: &Store, passphrase: Option<&str>) -> StartJob {
    let mut job = start_job(store, "a", passphrase).ok().unwrap();
    assert!(matches!(
        job.step(StartEvent::State(SpaceState::Stopped)),
        StartAction::AskBridge
    ));
    job.step(StartEvent::Flag(true));
    job.step(StartEvent::Manifest(ManifestRead::Found(manifest())));
    job.step(StartEvent::Flag(true));
    job.step(StartEvent::Number(Some(108)));
    match job.step(StartEvent::Bytes(Some(vec![0xab; 16]))) {
        StartAction::MakeRunDir { dir, nonce } => {
            assert_eq!(dir, "/run/miyorios/a");
            assert_eq!(nonce, "ab".repeat(16));
        }
        _ => panic!("ожидался каталог запуска"),
    }
    job.step(StartEvent::Flag(true));
    job.step(StartEvent::Flag(true));
    let mut action = job.step(StartEvent::Flag(true));
    if passphrase.is_some() {
        assert!(matches!(action, StartAction::WriteSecret { uid: 70003, .. }));
        action = job.step(StartEvent::Text(Some("/run/miyorios/secrets/a/pass".to_string())));
    }
    match action {
        StartAction::Spawn { run, argv } => {
            assert_eq!(run.nonce, "ab".repeat(16));
            assert_eq!(run.kvm_gid, 108);
            assert_eq!(
                argv.iter().any(|a| a.contains("secret,id=sec0")),
                passphrase.is_some()
            );
        }
        _ => panic!("ожидалась машина"),
    }
    assert!(matches!(job.step(StartEvent::Flag(true)), StartAction::Settle));
    job
}

#[test]
fn a_start_ends_with_the_application() {
    let mut job = up_to_settle(&one_space(), None);
    let nonce = job.nonce.clone();
    assert!(matches!(
        job.step(StartEvent::Flag(true)),
        StartAction::AskHealth { cid: 3 }
    ));
    assert!(matches!(
        job.step(StartEvent::Health {
            reply: Ok(reply(&nonce, true, None)),
            in_time: true
        }),
        StartAction::ExecApp { cid: 3 }
    ));
    match job.step(StartEvent::Agent(Ok(reply(&nonce, true, None)))) {
        StartAction::Reply(v) => {
            assert_eq!(text(&v, "state"), "running");
            assert_eq!(text(&v, "app"), "started");
        }
        _ => panic!("ожидался ответ"),
    }
}

#[test]
fn a_passphrase_that_could_not_be_written_is_removed() {
    let store = one_encrypted();
    let mut job = start_job(&store, &store.list()[0].id, Some("hunter2")).ok().unwrap();
    job.step(StartEvent::State(SpaceState::Stopped));
    job.step(StartEvent::Flag(true));
    job.step(StartEvent::Manifest(ManifestRead::Found(manifest())));
    job.step(StartEvent::Flag(true));
    job.step(StartEvent::Number(Some(36)));
    job.step(StartEvent::Bytes(Some(vec![1, 2])));
    job.step(StartEvent::Flag(true));
    job.step(StartEvent::Flag(true));
    assert!(matches!(
        job.step(StartEvent::Flag(true)),
        StartAction::WriteSecret { .. }
    ));
    match job.step(StartEvent::Text(None)) {
        StartAction::CleanUp { steps, read_log } => {
            assert_eq!(steps, vec![CleanUp::DropTap, CleanUp::RemoveSecret]);
            assert!(!read_log);
        }
        _ => panic!("ожидалась уборка"),
    }
    let err = start_refusal(job.step(StartEvent::Done));
    assert_eq!(err.code, ErrorCode::Internal);
}

fn seeded_steps() -> Vec<VolumeStep> {
    let dir = "/d".to_string();
    vec![
        VolumeStep::Run(vec!["overlay".to_string()]),
        VolumeStep::Stage {
            dir: dir.clone(),
            uid: 1000,
        },
        VolumeStep::Run(vec!["mkfs".to_string()]),
        VolumeStep::Run(vec!["convert".to_string()]),
        VolumeStep::Unstage { dir },
        VolumeStep::Own {
            path: "/v".to_string(),
            uid: 70003,
        },
    ]
}

fn taken(fails_at: Option<usize>) -> (Vec<usize>, bool) {
    let mut run = VolumeRun::new(seeded_steps());
    let mut ok = true;
    let mut named = Vec::new();
    while let Some(at) = run.next(ok) {
        named.push(at);
        ok = Some(at) != fails_at;
    }
    (named, run.failed)
}

#[test]
fn after_a_failed_step_only_the_staging_goes() {
    assert_eq!(taken(None), (vec![0, 1, 2, 3, 4, 5], false));
    assert_eq!(taken(Some(0)), (vec![0], true));
    assert_eq!(taken(Some(1)), (vec![0, 1], true));
    assert_eq!(taken(Some(2)), (vec![0, 1, 2, 4], true));
    assert_eq!(taken(Some(3)), (vec![0, 1, 2, 3, 4], true));
    assert_eq!(taken(Some(4)), (vec![0, 1, 2, 3, 4, 5], false));
    assert_eq!(taken(Some(5)), (vec![0, 1, 2, 3, 4, 5], true));
}

#[test]
fn a_machine_that_dies_at_once_is_cleared_up() {
    let mut job = up_to_settle(&one_encrypted(), Some("hunter2"));
    match job.step(StartEvent::Flag(false)) {
        StartAction::CleanUp { steps, read_log } => {
            assert_eq!(
                steps,
                vec![
                    CleanUp::DropTap,
                    CleanUp::RemovePidFile,
                    CleanUp::RemoveSecret
                ]
            );
            assert!(read_log);
        }
        _ => panic!("ожидалась уборка"),
    }
    let log = "qemu-system-x86_64: -drive id=root,...: Invalid password, cannot unlock any keyslot";
    let err = start_refusal(job.step(StartEvent::Text(Some(log.to_string()))));
    assert_eq!(err.code, ErrorCode::WrongPassphrase);

    let mut job = up_to_settle(&one_space(), None);
    job.step(StartEvent::Flag(false));
    let err = start_refusal(job.step(StartEvent::Text(None)));
    assert_eq!(err.code, ErrorCode::Internal);
}

#[test]
fn start_app_via_agent_reports_reason_when_agent_never_answers() {
    let mut job = up_to_settle(&one_space(), None);
    job.step(StartEvent::Flag(true));
    assert!(matches!(
        job.step(StartEvent::Health {
            reply: Err(HealthError::Timeout),
            in_time: true
        }),
        StartAction::AskAlive
    ));
    assert!(matches!(
        job.step(StartEvent::Flag(true)),
        StartAction::Pause { .. }
    ));
    assert!(matches!(
        job.step(StartEvent::Done),
        StartAction::AskHealth { .. }
    ));
    let action = job.step(StartEvent::Health {
        reply: Err(HealthError::Timeout),
        in_time: false,
    });
    let app = match action {
        StartAction::Reply(v) => text(&v, "app"),
        StartAction::AskAlive => match job.step(StartEvent::Flag(true)) {
            StartAction::Reply(v) => text(&v, "app"),
            _ => panic!("ожидался ответ"),
        },
        _ => panic!("ожидался ответ"),
    };
    assert_ne!(app, "started", "{app}");
}

#[test]
fn start_app_via_agent_gives_up_as_soon_as_qemu_is_gone() {
    let mut job = up_to_settle(&one_space(), None);
    job.step(StartEvent::Flag(true));
    job.step(StartEvent::Health {
        reply: Err(HealthError::Timeout),
        in_time: true,
    });
    let mut action = job.step(StartEvent::Flag(false));
    if let StartAction::AskAlive = action {
        action = job.step(StartEvent::Flag(false));
    }
    match action {
        StartAction::CleanUp { steps, read_log } => {
            assert!(steps.contains(&CleanUp::KillAndReap));
            assert!(steps.contains(&CleanUp::DropTap));
            assert!(read_log);
        }
        _ => panic!("мёртвый QEMU обязан прервать ожидание сразу"),
    }
    assert_eq!(
        start_refusal(job.step(StartEvent::Text(None))).code,
        ErrorCode::Internal
    );
}

fn stop_job(store: Store, id: &str) -> Result<StopJob, Refusal> {
    StopJob::begin(STATE.to_string(), store, id)
}

#[test]
fn stop_reports_space_not_found() {
    let err = stop_job(store_of(vec![]), "nope").err().unwrap();
    assert_eq!(err.code, ErrorCode::SpaceNotFound);
}

#[test]
fn stop_reports_space_stopped_when_not_running() {
    let mut job = stop_job(one_space(), "a").ok().unwrap();
    match job.step(StopEvent::State(SpaceState::Stopped)) {
        StopAction::Refuse(e) => assert_eq!(e.code, ErrorCode::SpaceStopped),
        _ => panic!("ожидался отказ"),
    }
}

#[test]
fn a_stop_asks_the_guest_and_records_how_it_went() {
    let mut job = stop_job(one_space(), "a").ok().unwrap();
    assert!(matches!(
        job.step(StopEvent::State(SpaceState::Running)),
        StopAction::ReadNonce
    ));
    match job.step(StopEvent::Nonce(Ok("abc123\n".to_string()))) {
        StopAction::Shutdown { cid } => assert_eq!(cid, 3),
        _ => panic!("ожидался вопрос гостю"),
    }
    let mut answer = reply("abc123", true, Some("том отмонтирован"));
    answer.data_unmounted = Some(true);
    assert!(matches!(
        job.step(StopEvent::Agent(Ok(answer))),
        StopAction::KillAndReap
    ));
    assert!(matches!(
        job.step(StopEvent::Done),
        StopAction::DropTap { cid: 3 }
    ));
    assert!(matches!(
        job.step(StopEvent::Flag(true)),
        StopAction::RemoveSecret
    ));
    match job.step(StopEvent::Done) {
        StopAction::WriteConfig { text, .. } => {
            assert!(text.contains("clean_shutdown = true"), "{text}")
        }
        _ => panic!("ожидалась запись"),
    }
    match job.step(StopEvent::Flag(true)) {
        StopAction::Reply(v) => {
            assert_eq!(v.get("clean-shutdown"), Some(&Json::Bool(true)));
            assert_eq!(text(&v, "state"), "stopped");
        }
        _ => panic!("ожидался ответ"),
    }
}

#[test]
fn open_window_reports_space_stopped_when_not_running() {
    let mut job = WindowJob::begin(&one_space(), "a").ok().unwrap();
    match job.step(StopEvent::State(SpaceState::Stopped)) {
        WindowAction::Refuse(e) => assert_eq!(e.code, ErrorCode::SpaceStopped),
        _ => panic!("ожидался отказ"),
    }
}

fn up_to_window() -> WindowJob {
    let mut job = WindowJob::begin(&one_space(), "a").ok().unwrap();
    job.step(StopEvent::State(SpaceState::Running));
    assert!(matches!(
        job.step(StopEvent::Nonce(Ok("abc123".to_string()))),
        WindowAction::ExecApp { cid: 3 }
    ));
    job
}

#[test]
fn open_window_succeeds_when_agent_confirms_exec_app() {
    let answer = reply("abc123", true, Some("окно открыто"));
    match up_to_window().step(StopEvent::Agent(Ok(answer))) {
        WindowAction::Reply(v) => {
            assert_eq!(text(&v, "id"), "a");
            assert_eq!(text(&v, "detail"), "окно открыто");
        }
        _ => panic!("ожидался ответ"),
    }
}

#[test]
fn open_window_fails_when_agent_declines_exec_app() {
    let answer = reply("abc123", false, Some("нет свободных леасов"));
    match up_to_window().step(StopEvent::Agent(Ok(answer))) {
        WindowAction::Refuse(e) => assert_eq!(e.message, "нет свободных леасов"),
        _ => panic!("ожидался отказ"),
    }
}

#[test]
fn describe_reports_clean_shutdown_after_forced_stop() {
    let mut store = one_space();
    store.set_clean_shutdown("a", false).unwrap();
    let data = described(&store, &facts());
    assert_eq!(data.get("clean-shutdown"), Some(&Json::Bool(false)));
}

#[test]
fn describe_reports_null_clean_shutdown_before_first_stop() {
    assert!(is_null(&described(&one_space(), &facts()), "clean-shutdown"));
}

fn volume_job(op: VolumeOp, store: Store, id: &str, passphrase: Option<&str>) -> Result<VolumeJob, Refusal> {
    VolumeJob::begin(
        op,
        STATE.to_string(),
        store,
        id,
        passphrase.map(|s| s.to_string()),
    )
}

fn volume_refusal(action: VolumeAction) -> Refusal {
    match action {
        VolumeAction::Refuse(e) => e,
        _ => panic!("ожидался отказ"),
    }
}

#[test]
fn reset_system_reports_space_not_found() {
    let err = volume_job(VolumeOp::ResetSystem, store_of(vec![]), "nope", None).err().unwrap();
    assert_eq!(err.code, ErrorCode::SpaceNotFound);
}

#[test]
fn reset_all_reports_space_not_found() {
    let err = volume_job(VolumeOp::ResetAll, store_of(vec![]), "nope", None).err().unwrap();
    assert_eq!(err.code, ErrorCode::SpaceNotFound);
}

#[test]
fn reset_system_refuses_running_space() {
    let mut job = volume_job(VolumeOp::ResetSystem, one_space(), "a", None).ok().unwrap();
    let err = volume_refusal(job.step(VolumeEvent::State(SpaceState::Running)));
    assert_eq!(err.code, ErrorCode::SpaceRunning);
}

#[test]
fn reset_all_refuses_running_space() {
    let mut job = volume_job(VolumeOp::ResetAll, one_space(), "a", None).ok().unwrap();
    let err = volume_refusal(job.step(VolumeEvent::State(SpaceState::Running)));
    assert_eq!(err.code, ErrorCode::SpaceRunning);
}

#[test]
fn reset_system_rejects_missing_passphrase_for_encrypted_space() {
    let err = volume_job(VolumeOp::ResetSystem, one_encrypted(), "a", None).err().unwrap();
    assert_eq!(err.code, ErrorCode::BadRequest);
}

#[test]
fn reset_all_rejects_passphrase_for_unencrypted_space() {
    let err = volume_job(VolumeOp::ResetAll, one_space(), "a", Some("hunter2")).err().unwrap();
    assert_eq!(err.code, ErrorCode::BadRequest);
}

#[test]
fn reset_system_keeps_the_data() {
    let mut job = volume_job(VolumeOp::ResetSystem, one_space(), "a", None).ok().unwrap();
    match job.step(VolumeEvent::State(SpaceState::Stopped)) {
        VolumeAction::MakeVolumes { steps, remove_after } => {
            assert_eq!(steps.len(), 2);
            assert_eq!(remove_after, None);
            for s in &steps {
                if let VolumeStep::Run(argv) = s {
                    assert!(!argv.iter().any(|a| a.contains("data.qcow2")));
                }
            }
        }
        _ => panic!("ожидались тома"),
    }
    assert!(matches!(
        job.step(VolumeEvent::Flag(true)),
        VolumeAction::Reply(_)
    ));
}

#[test]
fn update_image_reports_space_not_found() {
    let err = volume_job(VolumeOp::UpdateImage, store_of(vec![]), "nope", None).err().unwrap();
    assert_eq!(err.code, ErrorCode::SpaceNotFound);
}

#[test]
fn update_image_refuses_running_space() {
    let mut job = volume_job(VolumeOp::UpdateImage, one_space(), "a", None).ok().unwrap();
    let err = volume_refusal(job.step(VolumeEvent::State(SpaceState::Running)));
    assert_eq!(err.code, ErrorCode::SpaceRunning);
}

#[test]
fn update_image_rejects_missing_passphrase_for_encrypted_space() {
    let err = volume_job(VolumeOp::UpdateImage, one_encrypted(), "a", None).err().unwrap();
    assert_eq!(err.code, ErrorCode::BadRequest);
}

fn up_to_latest() -> VolumeJob {
    let mut job = volume_job(VolumeOp::UpdateImage, one_space(), "a", None).ok().unwrap();
    assert!(matches!(
        job.step(VolumeEvent::State(SpaceState::Stopped)),
        VolumeAction::ReadLatest { .. }
    ));
    job
}

#[test]
fn update_image_reports_missing_latest_symlink() {
    let err = volume_refusal(up_to_latest().step(VolumeEvent::Latest(None)));
    assert_eq!(err.code, ErrorCode::TemplateNotFound);
}

#[test]
fn update_image_reports_incomplete_template() {
    let mut job = up_to_latest();
    assert!(matches!(
        job.step(VolumeEvent::Latest(Some("e".repeat(64)))),
        VolumeAction::CheckFiles { .. }
    ));
    let err = volume_refusal(job.step(VolumeEvent::Flags(vec![true, true, true, false])));
    assert_eq!(err.code, ErrorCode::TemplateNotFound);
}

#[test]
fn update_image_reports_already_current_without_touching_overlay() {
    match up_to_latest().step(VolumeEvent::Latest(Some("d".repeat(64)))) {
        VolumeAction::Reply(data) => {
            assert_eq!(text(&data, "from"), "d".repeat(64));
            assert_eq!(text(&data, "to"), "d".repeat(64));
            assert_eq!(text(&data, "detail"), "спейс уже на текущем образе");
        }
        _ => panic!("образ и так текущий — оверлей пересоздавать не за чем"),
    }
}

#[test]
fn update_image_leaves_digest_unchanged_when_persisting_new_digest_fails() {
    let mut job = up_to_latest();
    job.step(VolumeEvent::Latest(Some("e".repeat(64))));
    match job.step(VolumeEvent::Flags(vec![true, true, true, true])) {
        VolumeAction::MakeVolumes { steps, .. } => match &steps[0] {
            VolumeStep::Run(argv) => assert!(
                argv.iter().any(|a| a.contains(&"e".repeat(64))),
                "оверлей обязан был успеть переехать на новый backing до сбоя записи digest"
            ),
            _ => panic!("ожидалась команда"),
        },
        _ => panic!("ожидались тома"),
    }
    match job.step(VolumeEvent::Flag(true)) {
        VolumeAction::WriteConfig { dir, text } => {
            assert_eq!(dir, "/var/lib/miyorios/spaces/a");
            assert!(text.contains(&"e".repeat(64)));
        }
        _ => panic!("ожидалась запись"),
    }
    let err = volume_refusal(job.step(VolumeEvent::Flag(false)));
    assert_eq!(err.code, ErrorCode::Internal);
}

#[test]
fn shutdown_via_agent_is_graceful_when_agent_confirms_unmount() {
    let mut answer = reply("abc123", true, Some("том отмонтирован"));
    answer.data_unmounted = Some(true);
    let (graceful, detail) = shutdown_via_agent(Ok("abc123".to_string()), Ok(answer));
    assert!(graceful);
    assert_eq!(detail, "том отмонтирован");
}

#[test]
fn shutdown_via_agent_is_forced_when_agent_is_unreachable() {
    let (graceful, detail) = shutdown_via_agent(
        Ok("abc123".to_string()),
        Err(HealthError::Io("нет связи".to_string())),
    );
    assert!(!graceful, "{detail}");
}

#[test]
fn shutdown_via_agent_is_forced_on_nonce_mismatch() {
    let mut answer = reply("старый", true, Some("том отмонтирован"));
    answer.data_unmounted = Some(true);
    let (graceful, detail) = shutdown_via_agent(Ok("abc123".to_string()), Ok(answer));
    assert!(!graceful);
    assert_eq!(detail, "агент недостижим: агент ответил чужим nonce");
}

#[test]
fn without_a_nonce_no_reply_confirms_a_stop() {
    for read in [Err("нет файла".to_string()), Ok(" \n".to_string())] {
        let mut answer = reply("", true, None);
        answer.data_unmounted = Some(true);
        assert!(!shutdown_via_agent(read, Ok(answer)).0);
    }
}

#[test]
fn a_foreign_nonce_confirms_nothing_in_any_job() {
    let foreign = || {
        let mut answer = reply("старый", true, Some("том отмонтирован"));
        answer.data_unmounted = Some(true);
        Ok(answer)
    };

    let mut job = stop_job(one_space(), "a").ok().unwrap();
    job.step(StopEvent::State(SpaceState::Running));
    job.step(StopEvent::Nonce(Ok("abc123\n".to_string())));
    job.step(StopEvent::Agent(foreign()));
    assert!(!job.graceful);

    match up_to_window().step(StopEvent::Agent(foreign())) {
        WindowAction::Refuse(e) => assert_eq!(e.code, ErrorCode::AgentTimeout),
        _ => panic!("ожидался отказ"),
    }

    let mut job = up_to_settle(&one_space(), None);
    let nonce = job.nonce.clone();
    job.step(StartEvent::Flag(true));
    assert!(matches!(
        job.step(StartEvent::Health {
            reply: foreign(),
            in_time: true
        }),
        StartAction::AskAlive
    ));
    job.step(StartEvent::Flag(true));
    job.step(StartEvent::Done);
    assert!(matches!(
        job.step(StartEvent::Health {
            reply: Ok(reply(&nonce, true, None)),
            in_time: true
        }),
        StartAction::ExecApp { cid: 3 }
    ));
    assert!(matches!(
        job.step(StartEvent::Agent(foreign())),
        StartAction::AskAlive
    ));
    match job.step(StartEvent::Flag(true)) {
        StartAction::Reply(v) => assert_eq!(
            text(&v, "app"),
            "не удалось запустить приложение: агент ответил чужим nonce"
        ),
        _ => panic!("ожидался ответ"),
    }
}

#[test]
fn destroy_reports_space_not_found() {
    let err = DestroyJob::begin(STATE.to_string(), store_of(vec![]), "nope").err().unwrap();
    assert_eq!(err.code, ErrorCode::SpaceNotFound);
}

#[test]
fn destroy_refuses_running_space_and_keeps_its_directory() {
    let mut job = DestroyJob::begin(STATE.to_string(), one_space(), "a").ok().unwrap();
    match job.step(DestroyEvent::State(SpaceState::Running)) {
        DestroyAction::Refuse(e) => assert_eq!(e.code, ErrorCode::SpaceRunning),
        _ => panic!("запущенный спейс не должен быть удалён"),
    }
}

#[test]
fn a_destruction_removes_the_tap_the_directory_and_the_entry() {
    let mut job = DestroyJob::begin(STATE.to_string(), one_space(), "a").ok().unwrap();
    match job.step(DestroyEvent::State(SpaceState::Stopped)) {
        DestroyAction::AskLink { name } => assert_eq!(name, "tap-space-3"),
        _ => panic!("ожидался вопрос о tap"),
    }
    assert!(matches!(
        job.step(DestroyEvent::Flag(true)),
        DestroyAction::DropTap { cid: 3 }
    ));
    match job.step(DestroyEvent::Flag(true)) {
        DestroyAction::RemoveSpace { dir } => assert_eq!(dir, "/var/lib/miyorios/spaces/a"),
        _ => panic!("ожидалось удаление"),
    }
    match job.step(DestroyEvent::Flag(true)) {
        DestroyAction::Publish { registry, rules } => {
            assert!(!registry.contains("\"a\""), "{registry}");
            assert!(!rules.unwrap().contains("tap-space-3"));
        }
        _ => panic!("ожидался реестр"),
    }
    match job.step(DestroyEvent::Flag(true)) {
        DestroyAction::Reply(v) => assert_eq!(text(&v, "id"), "a"),
        _ => panic!("ожидался ответ"),
    }
}

#[test]
fn a_tunnel_is_reported_field_by_field() {
    let tunnel = TunnelBlock {
        ifc: "tun0".to_string(),
        set: "{ tun0 }".to_string(),
        route: "default dev tun0".to_string(),
    };
    let net = miyori::daemon::net::MiyoriNetStatus {
        running: true,
        pid: Some(7),
        uplink: Some("vfio".to_string()),
        tunnel: Some(tunnel),
    };
    let data = net_status(
        true,
        true,
        &vec![],
        &pci_status("0000:0c:00.0", false, None),
        &net,
        &ruleset_from_output(false, &vec![], &vec![], 100),
    );
    let machine = data.get("miyori-net").unwrap();
    assert_eq!(text2(machine, "tunnel", "ifc"), "tun0");
    assert_eq!(text(machine, "uplink"), "vfio");
}
