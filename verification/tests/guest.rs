use miyori::agent::{
    exec_app, health, observed_state, read_error_to_health_error, shutdown, to_health_error,
    AgentReply, AgentRequest, HealthError,
};
use miyori::daemon::qemu::SpaceState;
use miyori::guest::{
    error_reply, exec_app_reply, exits_after, health_reply, mounts_contain, nonce_from_cmdline,
    read_request, request_frame, request_from, shutdown_reply, shutdown_steps, unmount_data,
    GuestStep,
};

fn reply(nonce: &str, ok: bool) -> AgentReply {
    AgentReply {
        nonce: nonce.to_string(),
        ok,
        detail: None,
        data_unmounted: None,
    }
}

#[test]
fn nonce_from_cmdline_extracts_value() {
    let cmdline = "console=hvc0 root=/dev/vda rw MIYORI_NONCE=3f9a7c2e1b6d4508 MIYORI_CID=3\n";
    assert_eq!(nonce_from_cmdline(cmdline), "3f9a7c2e1b6d4508");
}

#[test]
fn nonce_from_cmdline_is_empty_when_missing() {
    assert_eq!(nonce_from_cmdline("console=hvc0 root=/dev/vda rw\n"), "");
}

#[test]
fn read_request_parses_health() {
    assert_eq!(
        read_request("{\"cmd\":\"health\"}\n").unwrap(),
        AgentRequest::Health
    );
    assert_eq!(
        read_request("{\"cmd\":\"shutdown\"}"),
        Ok(AgentRequest::Shutdown)
    );
    assert_eq!(
        read_request("{\"cmd\":\"exec-app\"}"),
        Ok(AgentRequest::ExecApp)
    );
}

#[test]
fn read_request_rejects_unknown_field_on_unit_variant() {
    assert!(read_request("{\"cmd\":\"health\",\"evil\":1}\n").is_err());
}

#[test]
fn read_request_rejects_unknown_command() {
    assert!(read_request("{\"cmd\":\"rm-rf\"}\n").is_err());
}

#[test]
fn read_request_rejects_truncated_frame() {
    assert!(read_request("{\"cmd\":\"health\"").is_err());
    assert!(read_request("[]").is_err());
    assert!(read_request("{\"cmd\":1}").is_err());
}

#[test]
fn the_guest_understands_every_frame_of_the_host() {
    for request in [
        AgentRequest::Health,
        AgentRequest::Shutdown,
        AgentRequest::ExecApp,
    ] {
        assert_eq!(request_from(&request_frame(request)), Some(request));
    }
}

#[test]
fn mounts_contain_finds_exact_mount_point() {
    let sample = "/dev/vda / ext4 rw 0 0\n/dev/vdb /data ext4 rw 0 0\n";
    assert!(mounts_contain(sample, "/data"));
}

#[test]
fn mounts_contain_does_not_match_a_prefix() {
    let sample = "/dev/vdc /data2 ext4 rw 0 0\n";
    assert!(!mounts_contain(sample, "/data"));
}

#[test]
fn mounts_contain_false_when_absent() {
    assert!(!mounts_contain("/dev/vda / ext4 rw 0 0\n", "/data"));
}

#[test]
fn shutdown_reply_succeeds_when_nothing_is_mounted_at_data() {
    let unmounted = unmount_data("/dev/vda / ext4 rw 0 0\n", false);
    let reply = shutdown_reply("n".to_string(), unmounted);
    assert!(reply.ok, "{reply:?}");
    assert_eq!(reply.data_unmounted, Some(true));
    assert_eq!(reply.detail.as_deref(), Some("том отмонтирован"));
}

#[test]
fn a_mounted_volume_that_stays_is_reported() {
    let mounts = "/dev/vdb /data ext4 rw 0 0\n";
    assert!(!unmount_data(mounts, false));
    assert!(unmount_data(mounts, true));
    let reply = shutdown_reply("n".to_string(), false);
    assert!(!reply.ok);
    assert_eq!(
        reply.detail.as_deref(),
        Some("не удалось отмонтировать /data")
    );
}

#[test]
fn the_application_is_stopped_before_the_volume_is_unmounted() {
    assert_eq!(
        shutdown_steps(),
        vec![GuestStep::StopApp, GuestStep::Sync, GuestStep::UnmountData]
    );
    assert!(exits_after(AgentRequest::Shutdown));
    assert!(!exits_after(AgentRequest::Health));
}

#[test]
fn replies_carry_the_nonce_and_the_reason() {
    let health = health_reply("abc".to_string(), Some(123));
    assert_eq!(health.detail.as_deref(), Some("uptime=123s"));
    assert_eq!(health.nonce, "abc");
    assert_eq!(health_reply("abc".to_string(), None).detail, None);
    let failed = exec_app_reply("abc".to_string(), Some("нет файла".to_string()));
    assert!(!failed.ok);
    assert_eq!(failed.detail.as_deref(), Some("нет файла"));
    assert!(exec_app_reply("abc".to_string(), None).ok);
    let error = error_reply("abc".to_string(), "что-то".to_string());
    assert!(!error.ok);
    assert_eq!(error.detail.as_deref(), Some("что-то"));
}

#[test]
fn health_succeeds_when_nonce_matches() {
    assert!(health("abc123", Ok(reply("abc123", true))).is_ok());
}

#[test]
fn health_rejects_wrong_nonce() {
    assert_eq!(
        health("abc123", Ok(reply("чужой", true))),
        Err(HealthError::NonceMismatch)
    );
}

#[test]
fn shutdown_succeeds_when_agent_confirms_unmount() {
    let mut answer = reply("abc123", true);
    answer.detail = Some("том отмонтирован".to_string());
    answer.data_unmounted = Some(true);
    let got = shutdown("abc123", Ok(answer)).unwrap();
    assert!(got.ok);
    assert_eq!(got.data_unmounted, Some(true));
    assert_eq!(got.detail.as_deref(), Some("том отмонтирован"));
}

#[test]
fn exec_app_succeeds_when_agent_confirms() {
    assert!(exec_app("abc123", Ok(reply("abc123", true))).unwrap().ok);
}

#[test]
fn exec_app_rejects_wrong_nonce() {
    assert_eq!(
        exec_app("abc123", Ok(reply("чужой", true))),
        Err(HealthError::NonceMismatch)
    );
}

#[test]
fn shutdown_rejects_wrong_nonce() {
    let mut answer = reply("чужой", true);
    answer.detail = Some("том отмонтирован".to_string());
    answer.data_unmounted = Some(true);
    assert_eq!(
        shutdown("abc123", Ok(answer)),
        Err(HealthError::NonceMismatch)
    );
}

#[test]
fn a_silent_agent_is_a_matter_of_time() {
    assert_eq!(to_health_error(true, "x"), HealthError::Timeout);
    assert_eq!(
        to_health_error(false, "x"),
        HealthError::Io("x".to_string())
    );
    assert_eq!(
        read_error_to_health_error(&vec![false, true], "x"),
        HealthError::Timeout
    );
    assert_eq!(
        read_error_to_health_error(&vec![false], "x"),
        HealthError::Io("x".to_string())
    );
    assert_eq!(
        HealthError::Timeout.text(),
        "агент не ответил за отведённое время"
    );
    assert_eq!(
        HealthError::NonceMismatch.text(),
        "агент ответил чужим nonce"
    );
    assert_eq!(HealthError::Io("x".to_string()).text(), "x");
    assert_eq!(health("n", Err(HealthError::Timeout)), Err(HealthError::Timeout));
}

#[test]
fn observed_state_is_stopped_without_pid_file() {
    assert_eq!(
        observed_state(SpaceState::Stopped, None),
        SpaceState::Stopped
    );
}

#[test]
fn observed_state_is_unresponsive_when_process_alive_but_agent_unreachable() {
    let asked = |answer| Some(("abc123".to_string(), answer));
    assert_eq!(
        observed_state(SpaceState::Running, asked(Err(HealthError::Timeout))),
        SpaceState::Unresponsive
    );
    assert_eq!(
        observed_state(SpaceState::Running, asked(Ok(reply("чужой", true)))),
        SpaceState::Unresponsive
    );
    assert_eq!(
        observed_state(SpaceState::Running, None),
        SpaceState::Unresponsive
    );
    assert_eq!(
        observed_state(SpaceState::Running, asked(Ok(reply("abc123", true)))),
        SpaceState::Running
    );
}
