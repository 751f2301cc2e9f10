use miyori::ids::is_rrggbb;
use miyori::manager::daemon::{answer_to, cut_progress, request_timeout, Daemon, Update};
use miyori::manager::rules::{
    action_enabled, clock_text, color_error, confirm_message, confirm_op, id_error,
    needs_passphrase, normalize_profile_input, parse_hex_color, passphrase_error,
    profile_eligibility, profile_for_build, profile_info, profile_option_text, profile_subtitle,
    slug_error, space_icon, space_row_text, space_row_tooltip, state_css_class, state_text, Action,
    ConfirmKind, ProfileEligibility, PRESET_COLORS, PRESET_LABELS,
};
use miyori::manager::view::{ProfileRow, Reply, SpaceRow};
use miyori::json::Json;
use std::time::Duration;

/// The colour as it is drawn: what cannot be read is grey.
fn gray_or(color: &str) -> (f64, f64, f64) {
    match parse_hex_color(color) {
        Some((r, g, b)) => (r as f64 / 255.0, g as f64 / 255.0, b as f64 / 255.0),
        None => (0.5, 0.5, 0.5),
    }
}


#[test]
fn parse_hex_color_valid_uses_all_three_channels() {
    let (r, g, b) = gray_or("#3390ec");
    assert!((r - 0x33 as f64 / 255.0).abs() < f64::EPSILON);
    assert!((g - 0x90 as f64 / 255.0).abs() < f64::EPSILON);
    assert!((b - 0xec as f64 / 255.0).abs() < f64::EPSILON);
}

#[test]
fn parse_hex_color_missing_hash_falls_back_to_gray() {
    assert_eq!(gray_or("3390ec"), (0.5, 0.5, 0.5));
}

#[test]
fn parse_hex_color_wrong_length_falls_back_to_gray() {
    assert_eq!(gray_or("#333"), (0.5, 0.5, 0.5));
}

#[test]
fn parse_hex_color_non_hex_falls_back_to_gray() {
    assert_eq!(gray_or("#zzzzzz"), (0.5, 0.5, 0.5));
}

#[test]
fn parse_hex_color_multibyte_does_not_panic() {
    assert_eq!(gray_or("#日本語ab"), (0.5, 0.5, 0.5));
}

#[test]
fn space_row_text_is_one_line_and_never_includes_level_reason() {
    let row = SpaceRow {
        id: "spike-reduced".to_string(),
        label: "spike-reduced".to_string(),
        color: "#557c94".to_string(),
        profile: "spike-reduced".to_string(),
        state: "stopped".to_string(),
        level: "reduced".to_string(),
        level_reason: "профиль стенда: уровень заявлен, чтобы его видимость можно было \
            проверить на живом спейсе"
            .to_string(),
        encrypted: false,
    };
    let text = space_row_text(&row);
    assert!(text.contains("spike-reduced"));
    assert!(text.contains("stopped"));
    assert!(text.contains("reduced"));
    assert!(!text.contains("профиль стенда"), "{text}");
    assert!(
        !text.contains('\n'),
        "строка списка должна быть одной строкой: {text:?}"
    );
}

#[test]
fn space_row_text_omits_reason_when_standard() {
    let row = SpaceRow {
        id: "telegram".to_string(),
        label: "Telegram".to_string(),
        color: "#3390ec".to_string(),
        profile: "telegram".to_string(),
        state: "running".to_string(),
        level: "standard".to_string(),
        level_reason: String::new(),
        encrypted: false,
    };
    let text = space_row_text(&row);
    assert!(!text.contains(" — "));
}

#[test]
fn state_css_class_running() {
    assert_eq!(state_css_class("running"), "state-running");
}

#[test]
fn state_css_class_stopped() {
    assert_eq!(state_css_class("stopped"), "state-stopped");
}

#[test]
fn state_css_class_unresponsive() {
    assert_eq!(state_css_class("unresponsive"), "state-unresponsive");
}

#[test]
fn start_is_offered_only_to_a_stopped_space() {
    assert!(action_enabled(Action::Start, Some("stopped")));
    assert!(!action_enabled(Action::Start, Some("running")));
    assert!(!action_enabled(Action::Start, Some("unresponsive")));
}

#[test]
fn stop_is_offered_to_running_and_unresponsive() {
    assert!(action_enabled(Action::Stop, Some("running")));
    assert!(action_enabled(Action::Stop, Some("unresponsive")));
    assert!(!action_enabled(Action::Stop, Some("stopped")));
}

#[test]
fn open_window_is_offered_only_to_a_running_space() {
    assert!(action_enabled(Action::OpenWindow, Some("running")));
    assert!(!action_enabled(Action::OpenWindow, Some("stopped")));
    assert!(!action_enabled(Action::OpenWindow, Some("unresponsive")));
}

#[test]
fn destructive_actions_need_a_stopped_space() {
    for action in [Action::ResetSystem, Action::ResetAll, Action::Destroy] {
        assert!(action_enabled(action, Some("stopped")), "{action:?}");
        assert!(!action_enabled(action, Some("running")), "{action:?}");
        assert!(!action_enabled(action, Some("unresponsive")), "{action:?}");
    }
}

#[test]
fn update_image_needs_a_stopped_space() {
    assert!(action_enabled(Action::UpdateImage, Some("stopped")));
    assert!(!action_enabled(Action::UpdateImage, Some("running")));
    assert!(!action_enabled(Action::UpdateImage, Some("unresponsive")));
}

#[test]
fn build_is_offered_without_a_selected_space() {
    assert!(action_enabled(Action::Build, None));
}

#[test]
fn unknown_state_offers_nothing_but_build() {
    for action in [
        Action::Start,
        Action::Stop,
        Action::OpenWindow,
        Action::ResetSystem,
        Action::ResetAll,
        Action::UpdateImage,
        Action::Destroy,
    ] {
        assert!(!action_enabled(action, None), "{action:?}");
        assert!(!action_enabled(action, Some("бог знает что")), "{action:?}");
    }
}

#[test]
fn slug_error_empty_is_rejected() {
    assert!(slug_error("").is_some());
}

#[test]
fn slug_error_uppercase_is_rejected() {
    assert!(slug_error("Kali").is_some());
}

#[test]
fn slug_error_dot_is_rejected() {
    assert!(slug_error("ka.li").is_some());
}

#[test]
fn slug_error_too_long_is_rejected() {
    assert!(slug_error(&"a".repeat(33)).is_some());
}

#[test]
fn slug_error_valid_slug_is_accepted() {
    assert_eq!(slug_error("kali-2"), None);
}

#[test]
fn id_error_rejects_already_existing() {
    let existing = vec!["kali".to_string(), "telegram".to_string()];
    assert!(id_error("kali", &existing).is_some());
}

#[test]
fn id_error_accepts_unique_valid_id() {
    let existing = vec!["kali".to_string()];
    assert_eq!(id_error("telegram", &existing), None);
}

#[test]
fn id_error_reports_format_before_uniqueness() {
    let existing = vec!["ka.li".to_string()];
    let err = id_error("ka.li", &existing).unwrap();
    assert!(!err.contains("существует"), "{err}");
}

#[test]
fn is_rrggbb_accepts_valid_hex() {
    assert!(is_rrggbb("#2f9e44"));
}

#[test]
fn is_rrggbb_rejects_missing_hash() {
    assert!(!is_rrggbb("2f9e44"));
}

#[test]
fn is_rrggbb_rejects_wrong_length() {
    assert!(!is_rrggbb("#1234567"));
}

#[test]
fn is_rrggbb_rejects_non_hex() {
    assert!(!is_rrggbb("#zzzzzz"));
}

#[test]
fn color_error_none_for_valid() {
    assert_eq!(color_error("#2f9e44"), None);
}

#[test]
fn color_error_some_for_invalid() {
    assert!(color_error("red").is_some());
}

#[test]
fn preset_labels_are_all_valid_slugs() {
    for label in PRESET_LABELS {
        assert_eq!(slug_error(label), None, "{label}");
    }
}

#[test]
fn preset_colors_are_all_valid_and_distinct() {
    for color in PRESET_COLORS {
        assert!(is_rrggbb(color), "{color}");
    }
    let mut sorted = PRESET_COLORS.to_vec();
    sorted.sort_unstable();
    sorted.dedup();
    assert_eq!(
        sorted.len(),
        PRESET_COLORS.len(),
        "цвета не должны повторяться"
    );
}

fn ready_profile_row() -> ProfileRow {
    ProfileRow {
        profile: "spike".to_string(),
        template: true,
        manifest_ok: true,
        isolation_level: Some("standard".to_string()),
        manifest_error: None,
    }
}

#[test]
fn profile_eligibility_ready_when_template_and_manifest_ok() {
    assert!(matches!(
        profile_eligibility(&ready_profile_row()),
        ProfileEligibility::Ready
    ));
}

#[test]
fn profile_eligibility_no_template_when_image_missing() {
    let mut row = ready_profile_row();
    row.template = false;
    assert!(matches!(
        profile_eligibility(&row),
        ProfileEligibility::NoTemplate
    ));
}

#[test]
fn profile_eligibility_manifest_broken_carries_error_verbatim() {
    let mut row = ready_profile_row();
    row.manifest_ok = false;
    row.template = false;
    row.isolation_level = None;
    row.manifest_error = Some("некорректный TOML манифеста: ...".to_string());
    match profile_eligibility(&row) {
        ProfileEligibility::ManifestBroken(err) => {
            assert_eq!(err, "некорректный TOML манифеста: ...")
        }
        _ => panic!("ожидался ManifestBroken"),
    }
}

#[test]
fn profile_eligibility_prefers_manifest_broken_over_no_template() {
    let mut row = ready_profile_row();
    row.manifest_ok = false;
    row.template = true;
    assert!(matches!(
        profile_eligibility(&row),
        ProfileEligibility::ManifestBroken(_)
    ));
}

#[test]
fn profile_option_text_ready_shows_name_and_level() {
    let text = profile_option_text(&ready_profile_row());
    assert!(text.contains("spike"));
    assert!(text.contains("standard"));
    assert!(!text.contains("не собран"));
}

#[test]
fn profile_option_text_no_template_marks_it() {
    let mut row = ready_profile_row();
    row.template = false;
    let text = profile_option_text(&row);
    assert!(text.contains("образ не собран"));
}

#[test]
fn profile_option_text_broken_manifest_marks_it_and_has_no_stale_level() {
    let mut row = ready_profile_row();
    row.manifest_ok = false;
    row.template = false;
    row.isolation_level = None;
    let text = profile_option_text(&row);
    assert!(text.contains("манифест не читается"));
    assert!(!text.contains("standard"));
}

#[test]
fn confirm_message_contains_space_id() {
    for kind in [
        ConfirmKind::Destroy,
        ConfirmKind::ResetAll,
        ConfirmKind::ResetSystem,
        ConfirmKind::UpdateImage,
    ] {
        let text = confirm_message(&kind, "kali");
        assert!(text.contains("kali"), "{text}");
    }
}

#[test]
fn confirm_message_marks_destroy_and_reset_all_irreversible() {
    assert!(confirm_message(&ConfirmKind::Destroy, "x").contains("необратимо"));
    assert!(confirm_message(&ConfirmKind::ResetAll, "x").contains("необратимо"));
}

#[test]
fn confirm_message_reset_system_does_not_claim_irreversibility() {
    assert!(!confirm_message(&ConfirmKind::ResetSystem, "x").contains("необратимо"));
}

#[test]
fn confirm_message_update_image_names_the_loss_and_spares_data() {
    let text = confirm_message(&ConfirmKind::UpdateImage, "x");
    assert!(!text.contains("необратимо"), "{text}");
    assert!(text.contains("/data"), "{text}");
    assert!(text.contains("вручную"), "{text}");
}

fn sample_spaces() -> Vec<SpaceRow> {
    vec![SpaceRow {
        id: "kali".to_string(),
        label: "Kali".to_string(),
        color: "#557c94".to_string(),
        profile: "kali-profile".to_string(),
        state: "stopped".to_string(),
        level: "standard".to_string(),
        level_reason: String::new(),
        encrypted: false,
    }]
}

#[test]
fn profile_for_build_finds_profile_of_selected_space() {
    let spaces = sample_spaces();
    assert_eq!(
        profile_for_build(&spaces, "kali"),
        Some("kali-profile".to_string())
    );
}

#[test]
fn profile_for_build_none_when_id_not_present() {
    let spaces = sample_spaces();
    assert_eq!(profile_for_build(&spaces, "missing"), None);
}

#[test]
fn normalize_profile_input_trims_surrounding_whitespace() {
    assert_eq!(
        normalize_profile_input("  kali  "),
        Some("kali".to_string())
    );
}

#[test]
fn normalize_profile_input_rejects_empty_string() {
    assert_eq!(normalize_profile_input(""), None);
}

#[test]
fn normalize_profile_input_rejects_whitespace_only() {
    assert_eq!(normalize_profile_input("   "), None);
}

#[test]
fn passphrase_error_none_when_both_fields_empty() {
    assert_eq!(passphrase_error("", ""), None);
}

#[test]
fn passphrase_error_none_when_passphrase_and_confirm_match() {
    assert_eq!(passphrase_error("secret", "secret"), None);
}

#[test]
fn passphrase_error_some_when_mismatched() {
    assert!(passphrase_error("secret", "other").is_some());
}

#[test]
fn passphrase_error_some_when_only_one_field_filled() {
    assert!(passphrase_error("secret", "").is_some());
    assert!(passphrase_error("", "secret").is_some());
}

fn encrypted_space(id: &str) -> SpaceRow {
    SpaceRow {
        id: id.to_string(),
        label: id.to_string(),
        color: "#557c94".to_string(),
        profile: "kali-profile".to_string(),
        state: "stopped".to_string(),
        level: "standard".to_string(),
        level_reason: String::new(),
        encrypted: true,
    }
}

#[test]
fn needs_passphrase_true_for_start_on_encrypted_space() {
    let spaces = vec![encrypted_space("kali")];
    assert!(needs_passphrase("start", &spaces, "kali"));
}

#[test]
fn needs_passphrase_false_for_start_on_plain_space() {
    let spaces = sample_spaces(); // не зашифрован
    assert!(!needs_passphrase("start", &spaces, "kali"));
}

#[test]
fn needs_passphrase_false_for_destroy_even_on_encrypted_space() {
    let spaces = vec![encrypted_space("kali")];
    assert!(!needs_passphrase("destroy", &spaces, "kali"));
}

#[test]
fn needs_passphrase_true_for_reset_and_update_ops_on_encrypted_space() {
    let spaces = vec![encrypted_space("kali")];
    for op in ["reset-system", "reset-all", "update-image"] {
        assert!(needs_passphrase(op, &spaces, "kali"), "{op}");
    }
}

#[test]
fn needs_passphrase_false_when_space_id_not_found() {
    let spaces = vec![encrypted_space("kali")];
    assert!(!needs_passphrase("start", &spaces, "missing"));
}

#[test]
fn read_timeouts_do_not_inherit_long_mutation_timeout() {
    let request_timeout = |op: &str| Duration::from_secs(request_timeout(op));
    assert_eq!(request_timeout("describe"), Duration::from_secs(8));
    assert_eq!(request_timeout("profiles"), Duration::from_secs(10));
    assert_eq!(request_timeout("net-status"), Duration::from_secs(10));
    assert_eq!(request_timeout("list"), Duration::from_secs(60));
    assert_eq!(request_timeout("build"), Duration::from_secs(120));
}

#[test]
fn a_line_of_progress_is_cut() {
    assert_eq!(cut_progress(&"я".repeat(2048)).chars().count(), 1024);
    assert_eq!(cut_progress("шаг"), "шаг");
}

#[test]
fn the_answer_to_another_request_is_not_taken() {
    assert_eq!(Daemon::new("/s".to_string()).socket, "/s");
    let done = |id: u64| Update::Done {
        request_id: id,
        reply: Ok(Reply::Value(Json::Null)),
    };
    assert!(answer_to(7, done(7)).is_some());
    assert!(answer_to(7, done(8)).is_none());
    let progress = Update::Progress {
        request_id: 7,
        text: "шаг".to_string(),
    };
    assert!(answer_to(7, progress).is_none());
}

#[test]
fn states_and_profiles_have_words() {
    assert_eq!(state_css_class("странное"), "state-unknown");
    assert_eq!(state_text("running"), "Работает");
    assert_eq!(state_text("stopped"), "Остановлен");
    assert_eq!(state_text("unresponsive"), "Не отвечает");
    assert_eq!(state_text("странное"), "странное");
    assert_eq!(space_icon("telegram"), "mail-send-symbolic");
    assert_eq!(space_icon("web"), "web-browser-symbolic");
    assert_eq!(space_icon("kali"), "utilities-terminal-symbolic");
    assert_eq!(space_icon("x"), "application-x-executable-symbolic");
    assert_eq!(clock_text(0), "0:00");
    assert_eq!(clock_text(125), "2:05");
    assert_eq!(clock_text(3600), "60:00");
    let row = &sample_spaces()[0];
    assert_eq!(
        space_row_tooltip(row),
        "kali · stopped · kali-profile (standard)\nМетка: Kali\n"
    );
    let mut profile = ready_profile_row();
    assert_eq!(
        profile_info(&profile),
        "Образ готов · уровень standard\nНовая сборка не меняет уже созданные спейсы."
    );
    assert_eq!(profile_subtitle(&profile), "Образ готов");
    profile.template = false;
    assert_eq!(
        profile_info(&profile),
        "Образ ещё не собран · уровень standard\nСоберите его перед созданием спейса."
    );
    assert_eq!(profile_subtitle(&profile), "Нужна сборка");
    profile.manifest_ok = false;
    profile.manifest_error = Some("ошибка".to_string());
    assert_eq!(profile_info(&profile), "Манифест не читается: ошибка");
    assert_eq!(profile_subtitle(&profile), "Ошибка манифеста");
}

#[test]
fn every_question_has_its_operation() {
    assert_eq!(confirm_op(ConfirmKind::Destroy), ("destroy", "Удалить спейс"));
    assert_eq!(confirm_op(ConfirmKind::ResetAll), ("reset-all", "Сбросить всё"));
    assert_eq!(
        confirm_op(ConfirmKind::ResetSystem),
        ("reset-system", "Сбросить систему")
    );
    assert_eq!(
        confirm_op(ConfirmKind::UpdateImage),
        ("update-image", "Обновить образ")
    );
}
