use miyori::json::{parse_json, Json};
use miyori::manager::view::{
    detail_view, net_view, profiles_view, spaces_view, DetailRow, DetailSection, DetailView,
    ProfilesView, Reply, SpaceDetailRow, SpacesView,
};

fn json(text: &str) -> Json {
    parse_json(text).unwrap()
}

fn set(value: &mut Json, key: &str, new: Json) {
    if let Json::Object(fields) = value {
        fields.retain(|f| f.0 != key);
        fields.push((key.to_string(), new));
    }
}


fn row_value<'a>(rows: &'a [DetailRow], key: &str) -> &'a str {
    rows.iter()
        .find(|r| r.key == key)
        .unwrap_or_else(|| panic!("нет строки с ключом {key}"))
        .value
        .as_str()
}

fn space_row<'a>(rows: &'a [SpaceDetailRow], key: &str) -> &'a SpaceDetailRow {
    rows.iter()
        .find(|r| r.key == key)
        .unwrap_or_else(|| panic!("нет строки с ключом {key}"))
}

fn space_row_value<'a>(rows: &'a [SpaceDetailRow], key: &str) -> &'a str {
    space_row(rows, key).value.as_str()
}


#[test]
fn transport_error_becomes_unavailable_with_same_text() {
    let view = spaces_view(Err(
        "демон не отвечает на /run/miyorios/control.sock".to_string()
    ));
    match view {
        SpacesView::Unavailable { message } => {
            assert_eq!(message, "демон не отвечает на /run/miyorios/control.sock");
        }
        SpacesView::Spaces(_) => panic!("транспортная ошибка не должна давать список"),
    }
}

#[test]
fn reply_err_becomes_unavailable_with_code_and_message_verbatim() {
    let view = spaces_view(Ok(Reply::Refusal {
        code: "internal".to_string(),
        message: "не удалось прочитать реестр".to_string(),
    }));
    match view {
        SpacesView::Unavailable { message } => {
            assert!(message.contains("internal"), "{message}");
            assert!(message.contains("не удалось прочитать реестр"), "{message}");
        }
        SpacesView::Spaces(_) => panic!("отказ демона не должен давать список"),
    }
}

#[test]
fn non_array_reply_becomes_unavailable_with_clear_message() {
    let view = spaces_view(Ok(Reply::Value(json(r##"{"not": "an array"}"##))));
    match view {
        SpacesView::Unavailable { message } => {
            assert!(!message.is_empty());
        }
        SpacesView::Spaces(_) => panic!("объект вместо массива не должен давать список"),
    }
}

#[test]
fn normal_reply_preserves_daemon_order_and_fields() {
    let reply = Ok(Reply::Value(json(r##"[
        {
            "id": "telegram", "profile": "telegram", "state": "running",
            "cid": 42, "isolation-level": "standard", "isolation-reason": "",
            "label": "Telegram", "color": "#3390ec"
        },
        {
            "id": "kali", "profile": "kali", "state": "stopped",
            "cid": 43, "isolation-level": "reduced", "isolation-reason": "полноэкранная графика",
            "label": "Kali", "color": "#557c94"
        }
    ]"##)));
    match spaces_view(reply) {
        SpacesView::Spaces(rows) => {
            assert_eq!(rows.len(), 2);
            assert_eq!(rows[0].id, "telegram");
            assert_eq!(rows[0].label, "Telegram");
            assert_eq!(rows[0].color, "#3390ec");
            assert_eq!(rows[0].profile, "telegram");
            assert_eq!(rows[0].state, "running");
            assert_eq!(rows[0].level, "standard");
            assert_eq!(rows[0].level_reason, "");
            assert_eq!(rows[1].id, "kali");
            assert_eq!(rows[1].level, "reduced");
            assert_eq!(rows[1].level_reason, "полноэкранная графика");
        }
        SpacesView::Unavailable { message } => panic!("ожидался список, получено {message}"),
    }
}

#[test]
fn space_row_encrypted_field_missing_defaults_to_false() {
    let reply = Ok(Reply::Value(json(r##"[
        {
            "id": "telegram", "profile": "telegram", "state": "running",
            "cid": 42, "isolation-level": "standard", "isolation-reason": "",
            "label": "Telegram", "color": "#3390ec"
        }
    ]"##)));
    match spaces_view(reply) {
        SpacesView::Spaces(rows) => assert!(!rows[0].encrypted),
        SpacesView::Unavailable { message } => panic!("{message}"),
    }
}

#[test]
fn space_row_encrypted_field_true_is_read() {
    let reply = Ok(Reply::Value(json(r##"[
        {
            "id": "kali", "profile": "kali", "state": "stopped",
            "cid": 43, "isolation-level": "standard", "isolation-reason": "",
            "label": "Kali", "color": "#557c94", "encrypted": true
        }
    ]"##)));
    match spaces_view(reply) {
        SpacesView::Spaces(rows) => assert!(rows[0].encrypted),
        SpacesView::Unavailable { message } => panic!("{message}"),
    }
}

#[test]
fn item_missing_required_field_becomes_unavailable_not_a_blank_row() {
    let reply = Ok(Reply::Value(json(r##"[
        {
            "id": "telegram", "profile": "telegram", "state": "running",
            "cid": 42, "isolation-level": "standard", "isolation-reason": ""
        }
    ]"##)));
    match spaces_view(reply) {
        SpacesView::Unavailable { message } => assert!(!message.is_empty()),
        SpacesView::Spaces(rows) => panic!(
            "спейс без label не должен попадать в список: {:?}",
            rows.iter().map(|r| &r.id).collect::<Vec<_>>()
        ),
    }
}


#[test]
fn profiles_transport_error_becomes_unavailable_with_same_text() {
    let view = profiles_view(Err("демон не отвечает".to_string()));
    match view {
        ProfilesView::Unavailable { message } => assert_eq!(message, "демон не отвечает"),
        ProfilesView::Profiles(_) => panic!("транспортная ошибка не должна давать список"),
    }
}

#[test]
fn profiles_reply_err_becomes_unavailable_with_code_and_message_verbatim() {
    let view = profiles_view(Ok(Reply::Refusal {
        code: "internal".to_string(),
        message: "каталог профилей не читается".to_string(),
    }));
    match view {
        ProfilesView::Unavailable { message } => {
            assert!(message.contains("internal"), "{message}");
            assert!(
                message.contains("каталог профилей не читается"),
                "{message}"
            );
        }
        ProfilesView::Profiles(_) => panic!("отказ демона не должен давать список"),
    }
}

#[test]
fn profiles_non_array_reply_becomes_unavailable() {
    let view = profiles_view(Ok(Reply::Value(json(r##"{"not": "an array"}"##))));
    match view {
        ProfilesView::Unavailable { message } => assert!(!message.is_empty()),
        ProfilesView::Profiles(_) => panic!("объект вместо массива не должен давать список"),
    }
}

#[test]
fn profiles_empty_list_is_not_unavailable() {
    let view = profiles_view(Ok(Reply::Value(json(r##"[]"##))));
    match view {
        ProfilesView::Profiles(rows) => assert!(rows.is_empty()),
        ProfilesView::Unavailable { message } => {
            panic!("пустой список профилей — не ошибка: {message}")
        }
    }
}

#[test]
fn profiles_normal_reply_preserves_order_and_fields_including_broken_manifest() {
    let reply = Ok(Reply::Value(json(r##"[
        {
            "profile": "spike", "template": true, "manifest-ok": true,
            "isolation-level": "standard", "isolation-reason": "",
            "command": "/bin/true", "manifest-error": null
        },
        {
            "profile": "ghost", "template": false, "manifest-ok": false,
            "isolation-level": null, "isolation-reason": null, "command": null,
            "manifest-error": "некорректный TOML манифеста: expected `=`"
        }
    ]"##)));
    match profiles_view(reply) {
        ProfilesView::Profiles(rows) => {
            assert_eq!(rows.len(), 2);
            assert_eq!(rows[0].profile, "spike");
            assert!(rows[0].template);
            assert!(rows[0].manifest_ok);
            assert_eq!(rows[0].isolation_level.as_deref(), Some("standard"));
            assert_eq!(rows[0].manifest_error, None);

            assert_eq!(rows[1].profile, "ghost");
            assert!(!rows[1].template);
            assert!(!rows[1].manifest_ok);
            assert_eq!(rows[1].isolation_level, None);
            assert_eq!(
                rows[1].manifest_error.as_deref(),
                Some("некорректный TOML манифеста: expected `=`")
            );
        }
        ProfilesView::Unavailable { message } => panic!("ожидался список, получено {message}"),
    }
}

#[test]
fn profiles_item_missing_required_field_becomes_unavailable() {
    let reply = Ok(Reply::Value(json(r##"[
        {
            "profile": "spike", "manifest-ok": true,
            "isolation-level": "standard", "manifest-error": null
        }
    ]"##)));
    match profiles_view(reply) {
        ProfilesView::Unavailable { message } => assert!(!message.is_empty()),
        ProfilesView::Profiles(rows) => panic!(
            "профиль без template не должен попадать в список: {:?}",
            rows.iter().map(|r| &r.profile).collect::<Vec<_>>()
        ),
    }
}


#[test]
fn detail_transport_error_becomes_unavailable() {
    let view = detail_view(Err("демон не отвечает".to_string()));
    match view {
        DetailView::Unavailable { message } => assert_eq!(message, "демон не отвечает"),
        DetailView::Space { .. } => panic!("транспортная ошибка не должна давать детали"),
    }
}

#[test]
fn detail_reply_err_becomes_unavailable_verbatim() {
    let view = detail_view(Ok(Reply::Refusal {
        code: "space-not-found".to_string(),
        message: "нет спейса \"x\"".to_string(),
    }));
    match view {
        DetailView::Unavailable { message } => {
            assert!(message.contains("space-not-found"));
            assert!(message.contains("нет спейса \"x\""));
        }
        DetailView::Space { .. } => panic!("отказ демона не должен давать детали"),
    }
}

#[test]
fn detail_non_object_reply_becomes_unavailable() {
    let view = detail_view(Ok(Reply::Value(json(r##"[1, 2, 3]"##))));
    match view {
        DetailView::Unavailable { message } => assert!(!message.is_empty()),
        DetailView::Space { .. } => panic!("массив вместо объекта не должен давать детали"),
    }
}

fn full_describe_reply() -> Json {
    json(r##"{
        "id": "kali", "profile": "kali", "state": "running",
        "cid": 43, "uid": 100043, "digest": "abc123",
        "label": "Kali", "color": "#557c94", "created": "2026-08-24T10:00:00Z",
        "description": "Kali Linux — целый рабочий стол",
        "app": {"mode": "session", "command": "/usr/bin/startxfce4"},
        "resources": {"memory-mb": 512, "cpus": 2, "disk-gb": 32, "data-mb": 64},
        "data-qcow2-bytes": 1258291,
        "manifest-path": "/var/lib/miyorios/profiles/kali/manifest.toml",
        "isolation": {"level": "reduced", "gpu": "virtio-gpu-venus", "reason": "полноэкранная графика"},
        "network": {"via": "miyori-net"},
        "clean-shutdown": true,
        "rss-kib": 441344,
        "uptime-secs": 8000,
        "log-tail": ["строка1", "строка2"]
    }"##)
}

#[test]
fn detail_full_reply_renders_expected_rows_in_order() {
    let view = detail_view(Ok(Reply::Value(full_describe_reply())));
    match view {
        DetailView::Space { rows, log_tail } => {
            let keys: Vec<&str> = rows.iter().map(|r| r.key.as_str()).collect();
            assert_eq!(
                keys,
                vec![
                    "Профиль",
                    "Описание",
                    "Состояние",
                    "CID",
                    "uid",
                    "Создан",
                    "Приложение",
                    "Шаблон",
                    "Манифест",
                    "Сеть",
                    "Уровень изоляции",
                    "GPU",
                    "Память",
                    "Том данных",
                    "CPU",
                    "Диск",
                    "Шифрование диска",
                    "Время работы",
                    "Чистый останов",
                ]
            );
            assert_eq!(space_row_value(&rows, "Профиль"), "kali");
            assert_eq!(space_row_value(&rows, "CID"), "43");
            assert_eq!(space_row_value(&rows, "uid"), "100043");
            assert_eq!(
                space_row_value(&rows, "Приложение"),
                "session · /usr/bin/startxfce4"
            );
            assert_eq!(space_row_value(&rows, "Сеть"), "miyori-net");
            assert_eq!(
                space_row_value(&rows, "Уровень изоляции"),
                "reduced — полноэкранная графика"
            );
            assert_eq!(space_row_value(&rows, "GPU"), "virtio-gpu-venus");
            assert_eq!(
                space_row_value(&rows, "Память"),
                "заказано 512 МиБ · фактически 431 МиБ"
            );
            assert_eq!(
                space_row_value(&rows, "Том данных"),
                "заказано 64 МиБ · файл 1.2 МиБ"
            );
            assert_eq!(space_row_value(&rows, "CPU"), "2");
            assert_eq!(space_row_value(&rows, "Диск"), "32 ГиБ");
            assert_eq!(space_row_value(&rows, "Время работы"), "2 ч 13 мин");
            assert_eq!(space_row_value(&rows, "Чистый останов"), "да");
            assert_eq!(log_tail, vec!["строка1".to_string(), "строка2".to_string()]);
        }
        DetailView::Unavailable { message } => panic!("ожидались детали, получено {message}"),
    }
}

#[test]
fn detail_encrypted_field_missing_shows_no() {
    let reply = full_describe_reply();
    match detail_view(Ok(Reply::Value(reply))) {
        DetailView::Space { rows, .. } => {
            assert_eq!(space_row_value(&rows, "Шифрование диска"), "нет");
        }
        DetailView::Unavailable { message } => panic!("{message}"),
    }
}

#[test]
fn detail_encrypted_field_true_shows_yes() {
    let mut reply = full_describe_reply();
    set(&mut reply, "encrypted", json(r##"true"##));
    match detail_view(Ok(Reply::Value(reply))) {
        DetailView::Space { rows, .. } => {
            assert_eq!(space_row_value(&rows, "Шифрование диска"), "да");
        }
        DetailView::Unavailable { message } => panic!("{message}"),
    }
}

#[test]
fn detail_rows_carry_section_and_monospace_metadata_for_the_card_layout() {
    let view = detail_view(Ok(Reply::Value(full_describe_reply())));
    match view {
        DetailView::Space { rows, .. } => {
            assert_eq!(space_row(&rows, "Профиль").section, DetailSection::Space);
            assert_eq!(space_row(&rows, "Описание").section, DetailSection::Space);
            assert_eq!(space_row(&rows, "Состояние").section, DetailSection::Space);
            assert_eq!(
                space_row(&rows, "Время работы").section,
                DetailSection::Space
            );
            assert_eq!(
                space_row(&rows, "Чистый останов").section,
                DetailSection::Space
            );
            assert!(!space_row(&rows, "Профиль").mono);

            assert_eq!(space_row(&rows, "CID").section, DetailSection::Identity);
            assert!(space_row(&rows, "CID").mono);
            assert_eq!(space_row(&rows, "uid").section, DetailSection::Identity);
            assert!(space_row(&rows, "uid").mono);
            assert_eq!(space_row(&rows, "Создан").section, DetailSection::Identity);
            assert_eq!(
                space_row(&rows, "Приложение").section,
                DetailSection::Identity
            );
            assert_eq!(space_row(&rows, "Шаблон").section, DetailSection::Identity);
            assert!(space_row(&rows, "Шаблон").mono);
            assert_eq!(
                space_row(&rows, "Манифест").section,
                DetailSection::Identity
            );
            assert!(space_row(&rows, "Манифест").mono);

            assert_eq!(space_row(&rows, "Память").section, DetailSection::Resources);
            assert_eq!(space_row(&rows, "CPU").section, DetailSection::Resources);
            assert_eq!(space_row(&rows, "Диск").section, DetailSection::Resources);
            assert_eq!(
                space_row(&rows, "Том данных").section,
                DetailSection::Resources
            );

            assert_eq!(space_row(&rows, "Сеть").section, DetailSection::Network);
            assert_eq!(
                space_row(&rows, "Уровень изоляции").section,
                DetailSection::Network
            );
            assert_eq!(space_row(&rows, "GPU").section, DetailSection::Network);
        }
        DetailView::Unavailable { message } => panic!("{message}"),
    }
}

#[test]
fn detail_null_rss_shows_dash_for_actual_memory() {
    let mut reply = full_describe_reply();
    set(&mut reply, "rss-kib", Json::Null);
    match detail_view(Ok(Reply::Value(reply))) {
        DetailView::Space { rows, .. } => {
            assert_eq!(
                space_row_value(&rows, "Память"),
                "заказано 512 МиБ · фактически —"
            );
        }
        DetailView::Unavailable { message } => panic!("{message}"),
    }
}

#[test]
fn detail_null_data_qcow2_bytes_shows_dash_for_file() {
    let mut reply = full_describe_reply();
    set(&mut reply, "data-qcow2-bytes", Json::Null);
    match detail_view(Ok(Reply::Value(reply))) {
        DetailView::Space { rows, .. } => {
            assert_eq!(
                space_row_value(&rows, "Том данных"),
                "заказано 64 МиБ · файл —"
            );
        }
        DetailView::Unavailable { message } => panic!("{message}"),
    }
}

#[test]
fn detail_uptime_under_a_minute_shows_seconds_only() {
    let mut reply = full_describe_reply();
    set(&mut reply, "uptime-secs", json(r##"47"##));
    match detail_view(Ok(Reply::Value(reply))) {
        DetailView::Space { rows, .. } => {
            assert_eq!(space_row_value(&rows, "Время работы"), "47 с");
        }
        DetailView::Unavailable { message } => panic!("{message}"),
    }
}

#[test]
fn detail_uptime_null_shows_dash() {
    let mut reply = full_describe_reply();
    set(&mut reply, "uptime-secs", Json::Null);
    match detail_view(Ok(Reply::Value(reply))) {
        DetailView::Space { rows, .. } => {
            assert_eq!(space_row_value(&rows, "Время работы"), "—");
        }
        DetailView::Unavailable { message } => panic!("{message}"),
    }
}

#[test]
fn detail_isolation_standard_has_no_reason_suffix() {
    let mut reply = full_describe_reply();
    set(&mut reply, "isolation", json(r##"{"level": "standard", "gpu": "none", "reason": ""}"##));
    match detail_view(Ok(Reply::Value(reply))) {
        DetailView::Space { rows, .. } => {
            assert_eq!(space_row_value(&rows, "Уровень изоляции"), "standard");
        }
        DetailView::Unavailable { message } => panic!("{message}"),
    }
}

#[test]
fn detail_isolation_reduced_with_empty_reason_says_so_instead_of_hiding_it() {
    let mut reply = full_describe_reply();
    set(&mut reply, "isolation", json(r##"{"level": "reduced", "gpu": "virtio-gpu-venus", "reason": ""}"##));
    match detail_view(Ok(Reply::Value(reply))) {
        DetailView::Space { rows, .. } => {
            assert_eq!(
                space_row_value(&rows, "Уровень изоляции"),
                "reduced — причина не указана в манифесте"
            );
        }
        DetailView::Unavailable { message } => panic!("{message}"),
    }
}

#[test]
fn detail_clean_shutdown_false_and_null() {
    let mut reply = full_describe_reply();
    set(&mut reply, "clean-shutdown", json(r##"false"##));
    match detail_view(Ok(Reply::Value(reply))) {
        DetailView::Space { rows, .. } => {
            assert_eq!(space_row_value(&rows, "Чистый останов"), "нет")
        }
        DetailView::Unavailable { message } => panic!("{message}"),
    }

    let mut reply2 = full_describe_reply();
    set(&mut reply2, "clean-shutdown", Json::Null);
    match detail_view(Ok(Reply::Value(reply2))) {
        DetailView::Space { rows, .. } => {
            assert_eq!(
                space_row_value(&rows, "Чистый останов"),
                "ещё не останавливали"
            )
        }
        DetailView::Unavailable { message } => panic!("{message}"),
    }
}

#[test]
fn detail_missing_field_is_dash_not_invented() {
    let reply = json(r##"{"id": "kali"}"##);
    match detail_view(Ok(Reply::Value(reply))) {
        DetailView::Space { rows, log_tail } => {
            assert_eq!(space_row_value(&rows, "Профиль"), "—");
            assert_eq!(space_row_value(&rows, "CID"), "—");
            assert_eq!(space_row_value(&rows, "uid"), "—");
            assert_eq!(
                space_row_value(&rows, "Память"),
                "заказано — · фактически —"
            );
            assert!(log_tail.is_empty());
        }
        DetailView::Unavailable { message } => panic!("{message}"),
    }
}

#[test]
fn detail_log_tail_is_passed_through_unchanged() {
    let mut reply = full_describe_reply();
    set(&mut reply, "log-tail", json(r##"["  строка с пробелами  ", "вторая"]"##));
    match detail_view(Ok(Reply::Value(reply))) {
        DetailView::Space { log_tail, .. } => {
            assert_eq!(
                log_tail,
                vec!["  строка с пробелами  ".to_string(), "вторая".to_string()]
            );
        }
        DetailView::Unavailable { message } => panic!("{message}"),
    }
}


#[test]
fn net_transport_error_returns_err() {
    let err = net_view(Err("демон не отвечает".to_string())).unwrap_err();
    assert_eq!(err, "демон не отвечает");
}

#[test]
fn net_reply_err_returns_err_verbatim() {
    let err = net_view(Ok(Reply::Refusal {
        code: "internal".to_string(),
        message: "не удалось прочитать nft".to_string(),
    }))
    .unwrap_err();
    assert!(err.contains("internal"));
    assert!(err.contains("не удалось прочитать nft"));
}

#[test]
fn net_non_object_reply_returns_err() {
    let err = net_view(Ok(Reply::Value(json(r##"[1, 2]"##)))).unwrap_err();
    assert!(!err.is_empty());
}

fn full_net_status_reply() -> Json {
    json(r##"{
        "bridges": {"br-spaces": true, "br-captive": false},
        "taps": [{"name": "tap-telegram", "isolated": true}, {"name": "tap-kali", "isolated": false}],
        "uplink-pci": {"address": "0000:05:00.0", "present": true, "driver": "vfio-pci"},
        "miyori-net": {"running": true, "pid": 1234, "uplink": "vfio", "tunnel": {"ifc": "tun0", "set": true, "route": true}},
        "ruleset": {"available": true, "text": "table inet filter { ... }", "truncated-from": null},
        "killswitch_counters": "недоступны с хоста"
    }"##)
}

#[test]
fn net_full_reply_carries_data_verbatim() {
    let view = net_view(Ok(Reply::Value(full_net_status_reply()))).unwrap();
    assert_eq!(
        row_value(&view.rows, "Счётчики kill-switch"),
        "недоступны с хоста"
    );
    assert_eq!(view.ruleset_text, "table inet filter { ... }");
    assert_eq!(view.ruleset_note, "");
}

#[test]
fn net_ruleset_unavailable_note_says_so_and_text_carries_reason() {
    let mut reply = full_net_status_reply();
    set(&mut reply, "ruleset", json(r##"{"available": false, "text": "nft недоступен для чтения", "truncated-from": null}"##));
    let view = net_view(Ok(Reply::Value(reply))).unwrap();
    assert!(!view.ruleset_note.is_empty());
    assert_eq!(view.ruleset_text, "nft недоступен для чтения");
}

#[test]
fn net_ruleset_truncated_note_reports_shown_and_total() {
    let mut reply = full_net_status_reply();
    set(&mut reply, "ruleset", json(r##"{"available": true, "text": "abcde", "truncated-from": 500}"##));
    let view = net_view(Ok(Reply::Value(reply))).unwrap();
    assert!(view.ruleset_note.contains('5'), "{}", view.ruleset_note);
    assert!(view.ruleset_note.contains("500"), "{}", view.ruleset_note);
}

fn size_of_file(bytes: u64) -> String {
    let mut reply = full_describe_reply();
    set(&mut reply, "data-qcow2-bytes", Json::Unsigned(bytes));
    match detail_view(Ok(Reply::Value(reply))) {
        DetailView::Space { rows, .. } => space_row_value(&rows, "Том данных").to_string(),
        DetailView::Unavailable { message } => panic!("{message}"),
    }
}

#[test]
fn sizes_are_shown_as_a_double_would_be() {
    for bytes in [
        0u64,
        1,
        52428,
        52429,
        262144,
        786432,
        1258291,
        123731968,
        1 << 40,
        (1 << 53) + 1,
        u64::MAX,
        u64::MAX - 1024,
        9007199254740993,
        12345678901234567890,
    ] {
        assert_eq!(
            size_of_file(bytes),
            format!("заказано 64 МиБ · файл {:.1} МиБ", bytes as f64 / 1048576.0),
            "{bytes}"
        );
    }
}

#[test]
fn uptimes_are_shown_in_hours_and_minutes() {
    for (secs, words) in [(0u64, "0 с"), (60, "1 мин"), (3600, "1 ч 0 мин"), (7260, "2 ч 1 мин")] {
        let mut reply = full_describe_reply();
        set(&mut reply, "uptime-secs", Json::Unsigned(secs));
        match detail_view(Ok(Reply::Value(reply))) {
            DetailView::Space { rows, .. } => {
                assert_eq!(space_row_value(&rows, "Время работы"), words)
            }
            DetailView::Unavailable { message } => panic!("{message}"),
        }
    }
}

#[test]
fn net_rows_name_every_bridge_and_tap() {
    let view = net_view(Ok(Reply::Value(full_net_status_reply()))).unwrap();
    assert_eq!(row_value(&view.rows, "Мост br-spaces"), "да");
    assert_eq!(row_value(&view.rows, "Мост br-captive"), "нет");
    assert_eq!(row_value(&view.rows, "miyori-net"), "поднят");
    assert_eq!(row_value(&view.rows, "miyori-net PID"), "1234");
}
