use miyori::json::{parse_json, Json};
use miyori::manager::form::{effective_color, FormInput};
use miyori::manager::report::{
    cards, detail_lines, manager_args, net_lines, no_spaces_line, row_value, row_warns, space_line,
};
use miyori::manager::request::Request;
use miyori::manager::rules::PRESET_COLORS;
use miyori::manager::ui::{Page, PendingKind, Prompt, Ui};
use miyori::manager::view::{detail_view, net_view, spaces_view, Reply, SpacesView};

const SPACES: &str = r##"[
    {"id":"alpha","profile":"web","label":"personal","color":"#1971c2","state":"stopped","isolation-level":"standard","isolation-reason":""},
    {"id":"beta","profile":"dev","label":"work","color":"#2f9e44","state":"running","isolation-level":"reduced","isolation-reason":"Тестовый профиль"}
]"##;

const REVERSED: &str = r##"[
    {"id":"beta","profile":"dev","label":"work","color":"#2f9e44","state":"running","isolation-level":"reduced","isolation-reason":""},
    {"id":"alpha","profile":"web","label":"personal","color":"#1971c2","state":"stopped","isolation-level":"standard","isolation-reason":""}
]"##;

const ENCRYPTED: &str = r##"[
    {"id":"alpha","profile":"web","label":"personal","color":"#1971c2","state":"stopped","isolation-level":"standard","isolation-reason":"","encrypted":true}
]"##;

const PROFILES: &str = r##"[
    {"profile":"web","template":true,"manifest-ok":true,"isolation-level":"standard","manifest-error":null},
    {"profile":"dev","template":false,"manifest-ok":true,"isolation-level":"reduced","manifest-error":null},
    {"profile":"broken","template":false,"manifest-ok":false,"isolation-level":null,"manifest-error":"invalid TOML"}
]"##;

fn json(text: &str) -> Json {
    parse_json(text).unwrap()
}

fn value(text: &str) -> Result<Reply, String> {
    Ok(Reply::Value(json(text)))
}

fn refusal(code: &str, message: &str) -> Result<Reply, String> {
    Ok(Reply::Refusal {
        code: code.to_string(),
        message: message.to_string(),
    })
}

/// A window that the daemon has answered.
fn connected(spaces: &str) -> Ui {
    let mut ui = Ui::new();
    ui.flow.refresh_list();
    let id = ui.flow.latest_list;
    assert!(ui.handle_done(id, value(spaces)).is_none());
    assert!(ui.flow.connected);
    ui
}

fn ops(ui: &mut Ui) -> Vec<String> {
    ui.flow.take_outbox().iter().map(|m| m.1.op()).collect()
}

fn selected(ui: &Ui) -> Option<&str> {
    ui.sidebar.selected.as_deref()
}

fn describe(ui: &mut Ui, text: &str) {
    let id = ui.flow.latest_detail;
    assert_ne!(id, 0);
    ui.handle_done(id, value(text));
}

fn form(id: &str) -> FormInput {
    FormInput {
        id: id.to_string(),
        label: "work".to_string(),
        manual_color: String::new(),
        preset_color: Some(PRESET_COLORS[2].to_string()),
        seed: String::new(),
        encrypt: false,
        passphrase: String::new(),
        confirm: String::new(),
    }
}

#[test]
fn the_first_list_selects_the_first_space_and_describes_it() {
    let mut ui = connected(SPACES);
    assert_eq!(selected(&ui), Some("alpha"));
    assert_eq!(ops(&mut ui), vec!["list", "describe"]);
    describe(&mut ui, r#"{"id":"alpha","log-tail":["a","b"]}"#);
    assert!(ui.detail.visible);
    assert_eq!(ui.detail.log, "a\nb");
    assert_eq!(ui.detail.message, None);
}

#[test]
fn a_background_refresh_keeps_the_selection_and_the_page() {
    let mut ui = connected(SPACES);
    ui.select_space(Some("beta".to_string()));
    ui.show_page(Page::Network);
    ui.render_spaces(spaces_view(value(REVERSED)));
    assert_eq!(selected(&ui), Some("beta"));
    assert!(ui.page == Page::Network);
}

#[test]
fn the_filter_moves_the_selection_to_what_it_shows() {
    let mut ui = connected(SPACES);
    ui.set_filter("WORK".to_string(), false);
    assert_eq!(selected(&ui), Some("beta"));
    ui.set_filter("personal".to_string(), false);
    assert_eq!(selected(&ui), Some("alpha"));
    ui.set_filter("nothing-found".to_string(), false);
    assert_eq!(selected(&ui), None);
    assert!(!ui.detail.header);
    assert_eq!(ui.sidebar.message.as_deref(), Some("Ничего не найдено."));
    ui.set_filter(String::new(), true);
    assert_eq!(selected(&ui), Some("beta"));
    assert_eq!(ui.sidebar.message, None);
}

#[test]
fn the_filter_ignores_case_beyond_ascii() {
    let mut ui = connected(
        r##"[{"id":"a","profile":"p","label":"ЯБЛОКО","color":"#1971c2","state":"stopped","isolation-level":"standard","isolation-reason":""}]"##,
    );
    ui.set_filter("яблоко".to_string(), false);
    assert_eq!(selected(&ui), Some("a"));
    assert_eq!(ui.sidebar.visible_spaces(), vec!["a"]);
}

#[test]
fn a_selection_does_not_start_a_second_description() {
    let mut ui = connected(SPACES);
    let first = ui.flow.latest_detail;
    ui.flow.take_outbox();
    ui.select_space(Some("beta".to_string()));
    assert_eq!(ui.flow.latest_detail, first);
    let next = ui.flow.next_id;
    for _ in 0..100 {
        ui.flow.refresh_detail("beta".to_string());
    }
    assert_eq!(ui.flow.next_id, next);
    describe(&mut ui, r#"{"id":"alpha","log-tail":["alpha"]}"#);
    assert!(!ui.detail.visible, "описание прежнего выбора не показывается");
    assert_eq!(ops(&mut ui), vec!["describe"]);
    describe(&mut ui, r#"{"id":"beta","log-tail":["beta"]}"#);
    assert!(ui.detail.visible);
    assert_eq!(ui.detail.log, "beta");
}

#[test]
fn a_lost_daemon_clears_what_was_shown() {
    let mut ui = connected(SPACES);
    let stale = ui.flow.latest_detail;
    ui.render_spaces(SpacesView::Unavailable {
        message: "lost".to_string(),
    });
    ui.handle_done(stale, value(r#"{"id":"alpha"}"#));
    assert_eq!(selected(&ui), None);
    assert!(!ui.detail.visible);
    assert!(!ui.flow.connected);
    assert_eq!(ui.sidebar.message.as_deref(), Some("lost"));
    let buttons = ui.sync_action_sensitivity(true, true);
    assert!(!buttons.create && !buttons.start && !buttons.build);
}

#[test]
fn polls_do_not_pile_up() {
    let mut ui = connected(SPACES);
    ui.flow.take_outbox();
    ui.start_build("dev");
    assert_eq!(ops(&mut ui), vec!["build"]);
    ui.show_page(Page::Network);
    ui.poll_refresh();
    let bounded = ui.flow.next_id;
    assert_eq!(ops(&mut ui), vec!["net-status", "list"]);
    for _ in 0..100 {
        ui.poll_refresh();
    }
    assert_eq!(ui.flow.next_id, bounded);
}

#[test]
fn progress_is_bounded_and_foreign_progress_ignored() {
    let mut ui = connected(SPACES);
    ui.start_build("  dev ");
    let id = ui.operation.pending.as_ref().unwrap().id;
    assert_eq!(ui.operation.title, "Сборка образа dev");
    assert_eq!(ui.operation.summary, "Сборка образа dev…");
    for step in 0..300 {
        ui.handle_progress(id, &format!("Шаг {step}\n{}", "я".repeat(2000)));
    }
    assert_eq!(ui.operation.progress.len(), 200);
    assert_eq!(ui.operation.progress[198], "Шаг 299");
    assert_eq!(ui.operation.progress[199].chars().count(), 1024);
    ui.handle_progress(id + 99, "FOREIGN PROGRESS");
    assert!(!ui.operation.status.contains("FOREIGN"));
    assert!(ui.operation.progress_text().contains("Шаг 299\n"));
}

#[test]
fn an_operation_ends_with_its_outcome() {
    let mut ui = connected(SPACES);
    ui.start_build("dev");
    let id = ui.operation.pending.as_ref().unwrap().id;
    assert!(ui.handle_done(id, refusal("build-failed", "нет места на диске")).is_none());
    assert_eq!(ui.operation.status, "build-failed: нет места на диске");
    assert!(ui.operation.failed);
    assert!(ui.operation.pending.is_none());

    ui.start_build("dev");
    assert!(!ui.operation.failed);
    let id = ui.operation.pending.as_ref().unwrap().id;
    ui.flow.take_outbox();
    ui.handle_done(id, value("null"));
    assert_eq!(ui.operation.status, "Сборка образа dev: выполнено");
    assert_eq!(ops(&mut ui), vec!["list", "profiles"]);

    ui.start_build("   ");
    assert!(ui.operation.pending.is_none());
}

#[test]
fn a_second_operation_waits_for_the_first() {
    let mut ui = connected(SPACES);
    ui.start_build("dev");
    ui.flow.take_outbox();
    ui.send_action(Request::List, "другое".to_string(), PendingKind::Other);
    assert_eq!(ui.operation.title, "Сборка образа dev");
    assert!(ops(&mut ui).is_empty());
    let buttons = ui.sync_action_sensitivity(true, true);
    assert!(!buttons.create && !buttons.profile_build && !buttons.form_create);
}

#[test]
fn an_operation_that_succeeds_while_a_list_is_on_its_way_asks_again() {
    let mut ui = connected(SPACES);
    ui.flow.take_outbox();
    ui.start_build("dev");
    let id = ui.operation.pending.as_ref().unwrap().id;
    ui.flow.refresh_list();
    let list = ui.flow.latest_list;
    ui.handle_done(id, value("null"));
    assert!(ui.flow.list_again);
    ui.flow.take_outbox();
    ui.handle_done(list, value("[]"));
    assert_eq!(ui.sidebar.spaces.len(), 2, "устаревший список не показывается");
    assert_eq!(ops(&mut ui), vec!["list"]);
}

#[test]
fn an_encrypted_space_is_asked_for_its_passphrase() {
    let mut ui = connected(ENCRYPTED);
    ui.flow.take_outbox();
    match ui.operate("start", "alpha") {
        Some(Prompt::Passphrase { op, space, label }) => {
            assert_eq!((op.as_str(), space.as_str(), label.as_str()), ("start", "alpha", "start alpha"));
        }
        _ => panic!("ожидался вопрос о пароле"),
    }
    assert!(ops(&mut ui).is_empty());
    assert!(!ui.submit_passphrase("", "alpha", "start", "start alpha"));
    assert!(ui.submit_passphrase("wrong", "alpha", "start", "start alpha"));
    let id = ui.operation.pending.as_ref().unwrap().id;
    match ui.handle_done(id, refusal("wrong-passphrase", "неверный пароль")) {
        Some(Prompt::Passphrase { op, space, .. }) => {
            assert_eq!((op.as_str(), space.as_str()), ("start", "alpha"))
        }
        _ => panic!("ожидался повторный вопрос"),
    }
    assert!(ui.operate("destroy", "alpha").is_none());
    let sent = ui.flow.take_outbox();
    assert_eq!(
        sent[1].1.to_json(),
        json(r#"{"op":"destroy","space":"alpha"}"#)
    );
    assert_eq!(
        sent[0].1.to_json(),
        json(r#"{"op":"start","space":"alpha","passphrase":"wrong"}"#)
    );
}

#[test]
fn profiles_keep_their_selection() {
    let mut ui = connected(SPACES);
    ui.show_page(Page::Images);
    let id = ui.flow.latest_profiles;
    ui.handle_done(id, value(PROFILES));
    assert_eq!(ui.images.selected.as_deref(), Some("web"));
    ui.select_profile(Some("dev".to_string()));
    ui.flow.request_profiles();
    let id = ui.flow.latest_profiles;
    ui.handle_done(id, value(PROFILES));
    assert_eq!(ui.images.selected.as_deref(), Some("dev"));
    assert!(ui.sync_action_sensitivity(false, false).profile_build);
    ui.select_profile(Some("broken".to_string()));
    assert!(!ui.sync_action_sensitivity(false, false).profile_build);
    ui.flow.request_profiles();
    let id = ui.flow.latest_profiles;
    ui.handle_done(id, refusal("profiles-error", "отказ"));
    assert_eq!(ui.images.message.as_deref(), Some("profiles-error: отказ"));
    assert!(ui.images.profiles.is_empty());
    assert_eq!(ui.images.selected, None);
}

#[test]
fn a_space_shows_the_image_of_its_profile() {
    let mut ui = connected(SPACES);
    ui.select_space(Some("beta".to_string()));
    ui.show_build();
    assert_eq!(ui.images.selected.as_deref(), Some("dev"));
    assert!(ui.page == Page::Images);
}

#[test]
fn the_form_is_checked_and_sent() {
    let mut ui = connected(SPACES);
    ui.open_dialog();
    assert!(!ui.check_form(&form("secure-work")).unwrap().can_create);
    let id = ui.flow.latest_profiles;
    ui.handle_done(id, value(PROFILES));
    ui.flow.take_outbox();
    assert!(!ui.check_form(&form("alpha")).unwrap().can_create);
    ui.choose_profile(1);
    let check = ui.check_form(&form("secure-work")).unwrap();
    assert!(check.can_build && !check.can_create);
    assert_eq!(
        check.profile_hint.as_deref(),
        Some("образ этого профиля ещё не собран.")
    );
    ui.choose_profile(2);
    let check = ui.check_form(&form("secure-work")).unwrap();
    assert_eq!(
        check.profile_hint.as_deref(),
        Some("манифест профиля не читается: invalid TOML")
    );
    ui.choose_profile(0);
    let mut input = form("secure-work");
    input.encrypt = true;
    let check = ui.check_form(&input).unwrap();
    assert!(!check.can_create, "encryption silently accepted an empty password");
    assert_eq!(
        check.passphrase_error.as_deref(),
        Some("Введите пароль для шифрования.")
    );
    input.passphrase = "test-secret".to_string();
    input.confirm = "mismatch".to_string();
    assert!(!ui.check_form(&input).unwrap().can_create);
    assert!(!ui.submit_create(&input));
    input.confirm = "test-secret".to_string();
    let check = ui.check_form(&input).unwrap();
    assert!(check.can_create);
    assert_eq!(check.preview_title, "secure-work");
    assert_eq!(check.preview_subtitle, "web · метка work · С шифрованием");
    input.seed = "  /home/op  ".to_string();
    assert!(ui.submit_create(&input));
    assert!(ui.dialog.is_none());
    let sent = ui.flow.take_outbox();
    assert_eq!(
        sent[0].1.to_json(),
        json(r##"{"op":"create","space":"secure-work","profile":"web","label":"work","color":"#2f9e44","seed":"/home/op","passphrase":"test-secret"}"##)
    );
    let id = ui.operation.pending.as_ref().unwrap().id;
    match ui.handle_done(id, value("{}")) {
        Some(Prompt::StartCreated { id, encrypted }) => {
            assert_eq!(id, "secure-work");
            assert!(encrypted);
        }
        _ => panic!("ожидалось предложение запуска"),
    }
    assert!(matches!(
        ui.start_created("secure-work", true),
        Some(Prompt::Passphrase { .. })
    ));
    ui.set_filter("nothing-found".to_string(), true);
    let list = ui.flow.latest_list;
    ui.handle_done(
        list,
        value(
            r##"[{"id":"alpha","profile":"web","label":"x","color":"#1971c2","state":"running","isolation-level":"standard","isolation-reason":""},
                {"id":"secure-work","profile":"web","label":"x","color":"#1971c2","state":"stopped","isolation-level":"standard","isolation-reason":""}]"##,
        ),
    );
    assert_eq!(selected(&ui), Some("secure-work"));
    assert_eq!(ui.sidebar.query, "");
}

#[test]
fn a_plain_form_sends_no_passphrase() {
    let mut ui = connected("[]");
    ui.open_dialog();
    let id = ui.flow.latest_profiles;
    ui.handle_done(id, value(PROFILES));
    ui.flow.take_outbox();
    let mut input = form("plain");
    input.passphrase = "left-over".to_string();
    assert!(ui.submit_create(&input));
    let sent = ui.flow.take_outbox();
    assert_eq!(
        sent[0].1.to_json(),
        json(r##"{"op":"create","space":"plain","profile":"web","label":"work","color":"#2f9e44"}"##)
    );
    assert!(ui.start_created("plain", false).is_none());
}

#[test]
fn new_profiles_keep_what_is_selected_in_the_form() {
    let mut ui = connected("[]");
    ui.open_dialog();
    let id = ui.flow.latest_profiles;
    ui.handle_done(id, value(PROFILES));
    ui.choose_profile(1);
    ui.flow.request_profiles();
    let id = ui.flow.latest_profiles;
    ui.handle_done(
        id,
        value(
            r#"[{"profile":"aaa","template":true,"manifest-ok":true,"isolation-level":"standard","manifest-error":null},
                {"profile":"zzz","template":true,"manifest-ok":true,"isolation-level":"standard","manifest-error":null},
                {"profile":"dev","template":true,"manifest-ok":true,"isolation-level":"standard","manifest-error":null}]"#,
        ),
    );
    assert_eq!(ui.dialog.as_ref().unwrap().index, 2);
    ui.flow.request_profiles();
    let id = ui.flow.latest_profiles;
    ui.handle_done(id, Err("нет связи".to_string()));
    let dialog = ui.dialog.as_ref().unwrap();
    assert_eq!(dialog.failure.as_deref(), Some("Профили недоступны: нет связи"));
    assert!(dialog.selected_profile().is_none());
    ui.edit_form();
    assert_eq!(ui.dialog.as_ref().unwrap().failure, None);
    ui.close_dialog();
    assert!(ui.dialog.is_none());
}

#[test]
fn the_colour_of_the_form_is_typed_or_picked() {
    let mut input = form("x");
    assert_eq!(effective_color(&input), PRESET_COLORS[2]);
    input.preset_color = None;
    assert_eq!(effective_color(&input), PRESET_COLORS[0]);
    input.manual_color = "  #123456 ".to_string();
    assert_eq!(effective_color(&input), "#123456");
}

#[test]
fn a_closed_window_sends_nothing() {
    let mut ui = connected(SPACES);
    ui.flow.take_outbox();
    ui.open_dialog();
    ui.flow.take_outbox();
    ui.close();
    assert!(ui.dialog.is_none());
    ui.poll_refresh();
    ui.start_build("dev");
    ui.show_page(Page::Network);
    assert!(ops(&mut ui).is_empty());
}

#[test]
fn an_answer_that_nobody_waits_for_changes_nothing() {
    let mut ui = connected(SPACES);
    assert!(ui.handle_done(4711, value("[]")).is_none());
    assert!(ui.handle_done(0, value("[]")).is_none());
    assert_eq!(ui.sidebar.spaces.len(), 2);
    assert!(ui.has_room());
}

#[test]
fn the_network_is_kept_as_it_came() {
    let mut ui = connected(SPACES);
    ui.show_page(Page::Network);
    let id = ui.flow.latest_net;
    ui.handle_done(id, value("{}"));
    assert!(matches!(ui.net, Some(Ok(_))));
    ui.flow.refresh_net();
    let id = ui.flow.latest_net;
    ui.handle_done(id, Err("нет связи".to_string()));
    assert!(matches!(&ui.net, Some(Err(e)) if e == "нет связи"));
}

#[test]
fn the_buttons_follow_the_state_of_the_space() {
    let mut ui = connected(SPACES);
    let b = ui.sync_action_sensitivity(false, false);
    assert!(b.start_shown && b.start && !b.stop_shown && !b.open_window && b.destroy && b.create);
    ui.select_space(Some("beta".to_string()));
    let b = ui.sync_action_sensitivity(false, false);
    assert!(!b.start_shown && b.stop_shown && b.stop && b.open_window && !b.destroy && b.build);
}

#[test]
fn the_manager_reads_its_arguments() {
    let strings = |items: &[&str]| items.iter().map(|s| s.to_string()).collect::<Vec<String>>();
    let config = manager_args(&vec![]).ok().unwrap();
    assert_eq!(config.socket, "/run/miyorios/control.sock");
    assert!(!config.dry_run);
    let config = manager_args(&strings(&["--dry-run", "--socket", "/s"])).ok().unwrap();
    assert_eq!(config.socket, "/s");
    assert!(config.dry_run);
    assert_eq!(
        manager_args(&strings(&["--socket"])).err().unwrap(),
        "--socket без значения"
    );
    assert_eq!(
        manager_args(&strings(&["x"])).err().unwrap(),
        "неизвестный аргумент x"
    );
}

#[test]
fn the_manager_prints_what_it_knows() {
    match spaces_view(value(SPACES)) {
        SpacesView::Spaces(rows) => {
            assert_eq!(
                space_line(&rows[0]),
                "СПЕЙС alpha · personal · #1971c2 · профиль web · stopped · уровень standard"
            );
            assert_eq!(
                space_line(&rows[1]),
                "СПЕЙС beta · work · #2f9e44 · профиль dev · running · уровень reduced — Тестовый профиль"
            );
        }
        SpacesView::Unavailable { message } => panic!("{message}"),
    }
    assert_eq!(no_spaces_line("x"), "СПЕЙСЫ НЕДОСТУПНЫ: x");
    let lines = detail_lines(&detail_view(value(r#"{"profile":"web","log-tail":["раз"]}"#)));
    assert_eq!(lines[0], "  Профиль: web");
    assert_eq!(lines[lines.len() - 1], "  журнал| раз");
    assert_eq!(
        detail_lines(&detail_view(Err("нет связи".to_string()))),
        vec!["  ДЕТАЛИ НЕДОСТУПНЫ: нет связи"]
    );
    let lines = net_lines(&net_view(value(
        r#"{"ruleset":{"available":true,"text":"a\nb","truncated-from":500}}"#,
    )));
    assert_eq!(lines[0], "СЕТЬ Мост br-spaces: нет");
    assert_eq!(lines[lines.len() - 2..], ["  nft| a", "  nft| b"]);
    assert!(lines[lines.len() - 3].starts_with("СЕТЬ ruleset: "));
    assert_eq!(
        net_lines(&Err("нет связи".to_string())),
        vec!["СЕТЬ НЕДОСТУПНА: нет связи"]
    );
}

#[test]
fn the_cards_part_a_value_from_its_note() {
    let view = detail_view(value(
        r#"{"state":"running","isolation":{"level":"reduced","reason":"x"},"resources":{"memory-mb":2048,"data-mb":4096},"rss-kib":524288,"uptime-secs":7260}"#,
    ));
    match view {
        miyori::manager::view::DetailView::Space { rows, .. } => {
            let c = cards(&rows);
            assert_eq!(c[0], ("512 МиБ".to_string(), "заказано 2048 МиБ".to_string()));
            assert_eq!(c[1], ("—".to_string(), "заказано 4096 МиБ".to_string()));
            assert_eq!(c[2], ("2 ч 1 мин".to_string(), "С момента запуска".to_string()));
            let state = rows.iter().find(|r| r.key == "Состояние").unwrap();
            assert_eq!(row_value(state), "Работает");
            assert!(!row_warns(state));
            let level = rows.iter().find(|r| r.key == "Уровень изоляции").unwrap();
            assert!(row_warns(level));
            assert_eq!(row_value(level), "reduced — x");
        }
        _ => panic!("ожидались детали"),
    }
}
