use miyori::label::niri::{parse_event, Event, Focus, Window, WindowMap};
use miyori::label::outputs::OutputBars;
use miyori::label::session::{
    apply_line, bar_pixels, compute_content, configured, label_args, new_bar_size,
    print_if_changed, render, spaces_from_daemon, LineOutcome, Session, BAR_HEIGHT,
    DAEMON_ERROR_BACKGROUND,
};
use miyori::label::bar::BarContent;
use miyori::label::space::{space_from_cgroup, space_from_title, space_of_pid, CgroupSpace};
use miyori::label::strip::{resolve, strip_for, SpaceInfo, Strip};
use miyori::json::parse_json;
use miyori::manager::view::Reply;
#[test]
fn cgroup_real_line() {
    let cgroup =
        "0::/user.slice/user-1000.slice/user@1000.service/app.slice/miyori-gui-spike.scope";
    assert_eq!(space_from_cgroup(cgroup), Some("spike".to_string()));
}

#[test]
fn cgroup_host_window() {
    let cgroup = "0::/user.slice/user-1000.slice/user@1000.service/app.slice/app-niri-wezterm-187653.scope";
    assert_eq!(space_from_cgroup(cgroup), None);
}

#[test]
fn cgroup_id_with_dash() {
    let cgroup = "0::/user.slice/user-1000.slice/app.slice/miyori-gui-my-space.scope";
    assert_eq!(space_from_cgroup(cgroup), Some("my-space".to_string()));
}

#[test]
fn cgroup_empty_id() {
    let cgroup = "0::/user.slice/app.slice/miyori-gui-.scope";
    assert_eq!(space_from_cgroup(cgroup), None);
}

#[test]
fn cgroup_substring_not_scope_name() {
    let cgroup = "0::/user.slice/miyori-gui-fake/app.slice/some-other.scope";
    assert_eq!(space_from_cgroup(cgroup), None);
}

#[test]
fn title_simple_prefix() {
    assert_eq!(
        space_from_title("[space:spike] weston-terminal"),
        Some("spike".to_string())
    );
}

#[test]
fn title_guest_forged_second_prefix() {
    assert_eq!(
        space_from_title("[space:spike] [space:banking] Сбербанк"),
        Some("spike".to_string())
    );
}

#[test]
fn title_no_prefix() {
    assert_eq!(space_from_title("обычное окно"), None);
}

#[test]
fn title_prefix_not_at_start() {
    assert_eq!(space_from_title(" [space:spike] x"), None);
}

#[test]
fn title_empty_id() {
    assert_eq!(space_from_title("[space:] x"), None);
}

#[test]
fn pid_reads_cgroup_from_given_dir() {
    let cgroup = Some("0::/user.slice/app.slice/miyori-gui-spike.scope\n".to_string());
    assert_eq!(
        space_of_pid(&cgroup),
        CgroupSpace::Space("spike".to_string())
    );
}

#[test]
fn pid_missing_process_is_unreadable_not_not_a_space() {
    assert_eq!(space_of_pid(&None), CgroupSpace::Unreadable);
}

#[test]
fn host_process_cgroup_is_not_a_space() {
    let cgroup = Some("0::/user.slice/app.slice/app-niri-wezterm-187653.scope\n".to_string());
    assert_eq!(space_of_pid(&cgroup), CgroupSpace::NotASpace);
}

#[test]
fn a_later_line_of_a_control_group_can_name_the_space() {
    let cgroup = "12:cpu:/x\n0::/app.slice/miyori-gui-.scope\n0::/miyori-gui-a.scope\n";
    assert_eq!(space_from_cgroup(cgroup), Some("a".to_string()));
}

fn make_cgroup(cgroup: &str) -> Option<String> {
    Some(cgroup.to_string())
}


fn running_spike() -> SpaceInfo {
    SpaceInfo {
        id: "spike".into(),
        color: "#ff0000".into(),
        level: "strict".into(),
        state: "running".into(),
    }
}

#[test]
fn no_focus_is_host() {
    let dir = None;
    assert_eq!(strip_for(Focus::Absent, &dir, &vec![]), Strip::Host);
}

#[test]
fn unknown_focus_is_not_host() {
    let dir = None;
    assert_eq!(strip_for(Focus::Unknown, &dir, &vec![]), Strip::FocusUnknown);
}

#[test]
fn window_no_pid_no_title_prefix_is_host() {
    let dir = None;
    let window = Window {
        id: 1,
        title: "обычное окно".into(),
        pid: None,
    };
    assert_eq!(strip_for(Focus::Window(&window), &dir, &vec![]), Strip::Host);
}

#[test]
fn cgroup_names_running_space() {
    let dir = make_cgroup("0::/user.slice/app.slice/miyori-gui-spike.scope");
    let window = Window {
        id: 1,
        title: "weston-terminal".into(),
        pid: Some(100),
    };
    let spaces = vec![running_spike()];
    assert_eq!(
        strip_for(Focus::Window(&window), &dir, &spaces),
        Strip::Space {
            id: "spike".into(),
            color: "#ff0000".into(),
            level: "strict".into(),
        }
    );
}

#[test]
fn cgroup_names_unresponsive_space_is_space() {
    let dir = make_cgroup("0::/user.slice/app.slice/miyori-gui-spike.scope");
    let window = Window {
        id: 1,
        title: "weston-terminal".into(),
        pid: Some(101),
    };
    let mut info = running_spike();
    info.state = "unresponsive".into();
    assert_eq!(
        strip_for(Focus::Window(&window), &dir, &vec![info]),
        Strip::Space {
            id: "spike".into(),
            color: "#ff0000".into(),
            level: "strict".into(),
        }
    );
}

#[test]
fn cgroup_names_stopped_space_is_orphan() {
    let dir = make_cgroup("0::/user.slice/app.slice/miyori-gui-spike.scope");
    let window = Window {
        id: 1,
        title: "weston-terminal".into(),
        pid: Some(102),
    };
    let mut info = running_spike();
    info.state = "stopped".into();
    assert_eq!(
        strip_for(Focus::Window(&window), &dir, &vec![info]),
        Strip::Orphan { id: "spike".into() }
    );
}

#[test]
fn cgroup_names_unknown_space() {
    let dir = make_cgroup("0::/user.slice/app.slice/miyori-gui-ghost.scope");
    let window = Window {
        id: 1,
        title: "weston-terminal".into(),
        pid: Some(103),
    };
    assert_eq!(
        strip_for(Focus::Window(&window), &dir, &vec![running_spike()]),
        Strip::Unknown { id: "ghost".into() }
    );
}

#[test]
fn pid_unreadable_leaves_the_title_claim_unverified() {
    let dir = None;
    let window = Window {
        id: 1,
        title: "[space:spike] weston-terminal".into(),
        pid: Some(9999),
    };
    assert_eq!(
        strip_for(Focus::Window(&window), &dir, &vec![running_spike()]),
        Strip::Unverified {
            claimed: "spike".into()
        }
    );
}

#[test]
fn host_window_with_forged_title_stays_host() {
    let dir = make_cgroup("0::/user.slice/app.slice/app-niri-wezterm-187653.scope");
    let window = Window {
        id: 1,
        title: "[space:banking] Сбербанк".into(),
        pid: Some(105),
    };
    assert_eq!(
        strip_for(Focus::Window(&window), &dir, &vec![running_spike()]),
        Strip::Host
    );
}

#[test]
fn forged_title_does_not_override_real_cgroup() {
    let dir = make_cgroup("0::/user.slice/app.slice/miyori-gui-spike.scope");
    let window = Window {
        id: 1,
        title: "[space:banking] Сбербанк".into(),
        pid: Some(104),
    };
    assert_eq!(
        strip_for(Focus::Window(&window), &dir, &vec![running_spike()]),
        Strip::Space {
            id: "spike".into(),
            color: "#ff0000".into(),
            level: "strict".into(),
        }
    );
}
#[test]
fn parses_windows_changed() {
    let line = r#"{"WindowsChanged":{"windows":[{"id":1,"title":"a","app_id":"x","pid":100,"workspace_id":1,"is_focused":false}]}}"#;
    let event = parse_event(line).unwrap();
    assert_eq!(
        event,
        Event::WindowsChanged(
            vec![Window {
                id: 1,
                title: "a".into(),
                pid: Some(100)
            }],
            None
        )
    );
}

#[test]
fn parses_windows_changed_reports_the_focused_window_id() {
    let line = r#"{"WindowsChanged":{"windows":[
        {"id":1,"title":"a","app_id":"x","pid":100,"workspace_id":1,"is_focused":false},
        {"id":2,"title":"b","app_id":"y","pid":200,"workspace_id":1,"is_focused":true}
    ]}}"#;
    let event = parse_event(line).unwrap();
    assert_eq!(
        event,
        Event::WindowsChanged(
            vec![
                Window {
                    id: 1,
                    title: "a".into(),
                    pid: Some(100)
                },
                Window {
                    id: 2,
                    title: "b".into(),
                    pid: Some(200)
                }
            ],
            Some(2)
        )
    );
}

#[test]
fn parses_window_opened_or_changed() {
    let line = r#"{"WindowOpenedOrChanged":{"window":{"id":47,"title":"SomeF","app_id":"org.wezfurlong.wezterm","pid":187653,"workspace_id":9,"is_focused":true}}}"#;
    let event = parse_event(line).unwrap();
    assert_eq!(
        event,
        Event::WindowOpenedOrChanged(
            Window {
                id: 47,
                title: "SomeF".into(),
                pid: Some(187653)
            },
            true
        )
    );
}

#[test]
fn parses_window_closed() {
    let line = r#"{"WindowClosed":{"id":47}}"#;
    assert_eq!(parse_event(line).unwrap(), Event::WindowClosed(47));
}

#[test]
fn parses_window_focus_changed_some() {
    let line = r#"{"WindowFocusChanged":{"id":47}}"#;
    assert_eq!(
        parse_event(line).unwrap(),
        Event::WindowFocusChanged(Some(47))
    );
}

#[test]
fn parses_window_focus_changed_null() {
    let line = r#"{"WindowFocusChanged":{"id":null}}"#;
    assert_eq!(parse_event(line).unwrap(), Event::WindowFocusChanged(None));
}

#[test]
fn unknown_event_is_other_not_error() {
    let line = r#"{"WorkspacesChanged":{"workspaces":[]}}"#;
    assert_eq!(parse_event(line).unwrap(), Event::Other);
}

#[test]
fn window_with_null_pid() {
    let line = r#"{"WindowOpenedOrChanged":{"window":{"id":1,"title":"a","app_id":"x","pid":null,"workspace_id":1,"is_focused":false}}}"#;
    let event = parse_event(line).unwrap();
    assert_eq!(
        event,
        Event::WindowOpenedOrChanged(
            Window {
                id: 1,
                title: "a".into(),
                pid: None
            },
            false
        )
    );
}

#[test]
fn non_json_line_is_error() {
    assert!(parse_event("not json at all").is_err());
}

#[test]
fn windows_changed_without_array_is_error() {
    let line = r#"{"WindowsChanged":{"windows":"nope"}}"#;
    assert!(parse_event(line).is_err());
}

#[test]
fn window_closed_without_id_is_error() {
    let line = r#"{"WindowClosed":{}}"#;
    assert!(parse_event(line).is_err());
}

#[test]
fn window_opened_without_id_is_error() {
    let line = r#"{"WindowOpenedOrChanged":{"window":{"title":"a"}}}"#;
    assert!(parse_event(line).is_err());
}

fn win(id: u64, title: &str, pid: Option<u32>) -> Window {
    Window {
        id,
        title: title.into(),
        pid,
    }
}

#[test]
fn map_windows_changed_replaces_entirely() {
    let mut map = WindowMap::default();
    map.apply(Event::WindowsChanged(vec![win(1, "a", Some(10))], Some(1)));
    map.apply(Event::WindowsChanged(vec![win(2, "b", Some(20))], Some(2)));
    assert!(map.get(1).is_none());
    assert_eq!(map.get(2), Some(&win(2, "b", Some(20))));
}

#[test]
fn map_window_closed_removes_and_clears_focus() {
    let mut map = WindowMap::default();
    map.apply(Event::WindowsChanged(vec![win(1, "a", Some(10))], None));
    map.apply(Event::WindowFocusChanged(Some(1)));
    assert_eq!(map.focused(), Some(&win(1, "a", Some(10))));

    map.apply(Event::WindowClosed(1));
    assert!(map.get(1).is_none());
    assert!(map.focused().is_none());
}

#[test]
fn map_focus_changed_moves_focus() {
    let mut map = WindowMap::default();
    map.apply(Event::WindowsChanged(vec![win(1, "a", Some(10))], None));
    map.apply(Event::WindowFocusChanged(Some(1)));
    assert_eq!(map.focused().map(|w| w.id), Some(1));
}

#[test]
fn map_focus_lost_on_close_leaves_no_stale_window() {
    let mut map = WindowMap::default();
    map.apply(Event::WindowsChanged(vec![win(1, "a", Some(10))], None));
    map.apply(Event::WindowFocusChanged(Some(1)));
    map.apply(Event::WindowClosed(1));
    assert!(map.focused().is_none());
}

#[test]
fn map_windows_changed_clears_focus_if_focused_window_gone() {
    let mut map = WindowMap::default();
    map.apply(Event::WindowsChanged(vec![win(1, "a", Some(10))], None));
    map.apply(Event::WindowFocusChanged(Some(1)));
    map.apply(Event::WindowsChanged(vec![win(2, "b", Some(20))], None));
    assert!(map.focused().is_none());
}

#[test]
fn snapshot_with_focused_window_sets_focus_without_focus_changed_event() {
    let mut map = WindowMap::default();
    let line = r#"{"WindowsChanged":{"windows":[{"id":1,"title":"a","app_id":"x","pid":100,"workspace_id":1,"is_focused":true}]}}"#;
    map.apply(parse_event(line).unwrap());
    assert_eq!(map.focused().map(|w| w.id), Some(1));
}

#[test]
fn before_any_event_focus_is_unknown_not_absent() {
    let map = WindowMap::default();
    assert_eq!(map.focus(), Focus::Unknown);
}

#[test]
fn focus_changed_to_null_means_no_focus_not_unknown() {
    let mut map = WindowMap::default();
    map.apply(Event::WindowFocusChanged(None));
    assert_eq!(map.focus(), Focus::Absent);
}

#[test]
fn insert_adds_a_bar_per_output() {
    let mut bars = OutputBars::new();
    assert!(bars.insert("DP-1", 1));
    assert!(bars.insert("DP-2", 2));
    assert_eq!(bars.len(), 2);
}

#[test]
fn repeated_new_output_on_the_same_output_does_not_duplicate_the_bar() {
    let mut bars = OutputBars::new();
    assert!(bars.insert("DP-1", 1));
    assert!(!bars.insert("DP-1", 99));
    assert_eq!(bars.len(), 1);
    assert!(bars.find_mut(|b| *b == 1).is_some());
    assert!(bars.find_mut(|b| *b == 99).is_none());
}

#[test]
fn removing_one_output_does_not_touch_the_others() {
    let mut bars = OutputBars::new();
    bars.insert("DP-1", 1);
    bars.insert("DP-2", 2);
    bars.insert("DP-3", 3);

    assert_eq!(bars.remove(&"DP-2"), Some(2));

    assert_eq!(bars.len(), 2);
    assert!(bars.find_mut(|b| *b == 1).is_some());
    assert!(bars.find_mut(|b| *b == 3).is_some());
    assert!(bars.find_mut(|b| *b == 2).is_none());
}

#[test]
fn removing_unknown_output_is_a_noop() {
    let mut bars: OutputBars<&str, i32> = OutputBars::new();
    bars.insert("DP-1", 1);
    assert_eq!(bars.remove(&"DP-9"), None);
    assert_eq!(bars.len(), 1);
}

#[test]
fn remove_matching_takes_only_the_closed_bar() {
    let mut bars = OutputBars::new();
    bars.insert("DP-1", 1);
    bars.insert("DP-2", 2);
    assert_eq!(bars.remove_matching(|b| *b == 2), Some(2));
    assert_eq!(bars.len(), 1);
    assert!(!bars.is_empty());
    assert_eq!(bars.remove_matching(|b| *b == 2), None);
}

#[test]
fn is_empty_only_when_no_bars_left() {
    let mut bars = OutputBars::new();
    assert!(bars.is_empty());
    bars.insert("DP-1", 1);
    assert!(!bars.is_empty());
    bars.remove(&"DP-1");
    assert!(bars.is_empty());
}

#[test]
fn iter_mut_visits_every_bar() {
    let mut bars = OutputBars::new();
    bars.insert("DP-1", 1);
    bars.insert("DP-2", 2);
    for i in 0..bars.len() {
        *bars.bar_mut(i) += 10;
    }
    let mut values: Vec<i32> = (0..bars.len()).map(|i| *bars.bar_mut(i)).collect();
    values.sort();
    assert_eq!(values, vec![11, 12]);
}

fn strings(items: &[&str]) -> Vec<String> {
    items.iter().map(|s| s.to_string()).collect()
}

#[test]
fn the_strip_reads_its_arguments() {
    let config = label_args(&vec![]).ok().unwrap();
    assert_eq!(config.socket, "/run/miyorios/control.sock");
    assert_eq!(config.proc_dir, "/proc");
    assert!(!config.dry_run);
    assert_eq!(config.seconds, None);
    let config = label_args(&strings(&[
        "--dry-run", "--socket", "/s", "--proc-dir", "/p", "--seconds", "7",
    ]))
    .ok()
    .unwrap();
    assert_eq!(config.socket, "/s");
    assert_eq!(config.proc_dir, "/p");
    assert!(config.dry_run);
    assert_eq!(config.seconds, Some(7));
    let words = |args: &[&str]| label_args(&strings(args)).err().unwrap();
    assert_eq!(words(&["--socket"]), "--socket без значения");
    assert_eq!(
        words(&["--seconds", "x"]),
        "--seconds не число: invalid digit found in string"
    );
    assert_eq!(words(&["-v"]), "неизвестный аргумент -v");
}

fn listed() -> Result<Vec<SpaceInfo>, String> {
    let text = r##"[{"id":"spike","color":"#ff0000","isolation-level":"strict","state":"running"}]"##;
    spaces_from_daemon(Ok(Reply::Value(parse_json(text).unwrap())))
}

#[test]
fn the_daemon_lists_its_spaces() {
    assert_eq!(listed(), Ok(vec![running_spike()]));
    assert_eq!(
        spaces_from_daemon(Ok(Reply::Value(parse_json("{}").unwrap()))),
        Err("list вернул не массив".to_string())
    );
    assert_eq!(
        spaces_from_daemon(Ok(Reply::Value(parse_json(r#"[{"id":"a"}]"#).unwrap()))),
        Err("спейс без поля color".to_string())
    );
    assert_eq!(
        spaces_from_daemon(Ok(Reply::Refusal {
            code: "internal".to_string(),
            message: "сбой".to_string()
        })),
        Err("internal: сбой".to_string())
    );
    assert_eq!(
        spaces_from_daemon(Err("демон не отвечает".to_string())),
        Err("демон не отвечает".to_string())
    );
}

#[test]
fn the_strip_is_put_into_words() {
    let cgroup = make_cgroup("0::/app.slice/miyori-gui-spike.scope");
    let mut map = WindowMap::default();
    assert_eq!(render(&map, &None, &listed()), "STRIP focus-unknown");
    map.apply(Event::WindowFocusChanged(None));
    assert_eq!(render(&map, &None, &listed()), "STRIP host");
    map.apply(Event::WindowsChanged(vec![win(1, "[space:x] y", Some(5))], Some(1)));
    assert_eq!(render(&map, &cgroup, &listed()), "STRIP space spike #ff0000 strict");
    assert_eq!(render(&map, &None, &listed()), "STRIP unverified x");
    assert_eq!(render(&map, &cgroup, &Ok(vec![])), "STRIP unknown spike");
    let mut stopped = running_spike();
    stopped.state = "stopped".into();
    assert_eq!(render(&map, &cgroup, &Ok(vec![stopped])), "STRIP orphan spike");
    assert_eq!(
        render(&map, &cgroup, &Err("молчит".to_string())),
        "STRIP daemon-error молчит"
    );
}

#[test]
fn silence_of_the_daemon_is_shown_in_its_own_words() {
    let map = WindowMap::default();
    let content = compute_content(&map, &None, &Err("молчит".to_string()));
    assert_eq!(content.text, "молчит");
    assert_eq!(content.background, DAEMON_ERROR_BACKGROUND);
    assert_eq!(content.foreground, 0xffff_ffff);
    let content = compute_content(&map, &None, &listed());
    assert_eq!(content.text, "фокус ещё не определён");
}

#[test]
fn a_blank_line_is_skipped_and_a_bad_one_complained_of() {
    let mut map = WindowMap::default();
    assert!(matches!(apply_line(&mut map, "  \n"), LineOutcome::Skipped));
    match apply_line(&mut map, "not json") {
        LineOutcome::Complaint(words) => assert_eq!(
            words,
            "строка события не является JSON: expected ident at line 1 column 2"
        ),
        _ => panic!("ожидалась жалоба"),
    }
    match apply_line(&mut map, r#"{"WindowClosed":{}}"#) {
        LineOutcome::Complaint(words) => assert_eq!(words, "WindowClosed без числового id"),
        _ => panic!("ожидалась жалоба"),
    }
    assert_eq!(map.focus(), Focus::Unknown);
    assert!(matches!(
        apply_line(&mut map, r#"{"WindowFocusChanged":{"id":null}}"#),
        LineOutcome::Applied
    ));
    assert_eq!(map.focus(), Focus::Absent);
}

#[test]
fn every_malformed_event_has_its_words() {
    let words = |line: &str| parse_event(line).err().unwrap();
    assert_eq!(words(r#"{"WindowsChanged":{}}"#), "WindowsChanged без массива windows");
    assert_eq!(
        words(r#"{"WindowsChanged":{"windows":[{"id":1},{"id":"x"}]}}"#),
        "окно без числового id"
    );
    assert_eq!(
        words(r#"{"WindowOpenedOrChanged":{}}"#),
        "WindowOpenedOrChanged без window"
    );
    assert_eq!(
        words(r#"{"WindowOpenedOrChanged":{"window":{"id":1,"pid":"x"}}}"#),
        "поле pid не является числом"
    );
    assert_eq!(
        words(r#"{"WindowOpenedOrChanged":{"window":{"id":1,"pid":4294967296}}}"#),
        "pid не помещается в u32"
    );
    assert_eq!(words(r#"{"WindowFocusChanged":{}}"#), "WindowFocusChanged без поля id");
    assert_eq!(
        words(r#"{"WindowFocusChanged":{"id":"x"}}"#),
        "поле id в WindowFocusChanged не является числом"
    );
}

#[test]
fn a_window_that_is_not_listed_cannot_be_shown() {
    let mut map = WindowMap::default();
    map.apply(Event::WindowFocusChanged(Some(7)));
    assert_eq!(map.focus(), Focus::Absent);
    map.apply(Event::WindowOpenedOrChanged(win(7, "x", None), false));
    assert_eq!(map.focused().map(|w| w.id), Some(7));
    map.apply(Event::Other);
    assert_eq!(map.focused().map(|w| w.id), Some(7));
}

#[test]
fn the_strips_are_drawn_only_when_something_changed() {
    let mut session = Session::new();
    let content = |text: &str| BarContent {
        text: text.to_string(),
        background: 1,
        foreground: 2,
    };
    assert!(session.maybe_redraw(content("a")));
    assert!(!session.maybe_redraw(content("a")));
    assert!(session.maybe_redraw(content("b")));
    let mut last = String::new();
    assert!(print_if_changed(&mut last, "x".to_string()));
    assert!(!print_if_changed(&mut last, "x".to_string()));
    assert_eq!(last, "x");
}

#[test]
fn the_first_size_draws_the_strip() {
    let size = new_bar_size();
    assert!(size.first_configure);
    let (size, draw) = configured(size, 800, 0);
    assert!(draw);
    assert_eq!((size.width, size.height), (800, BAR_HEIGHT));
    let (size, draw) = configured(size, 0, 30);
    assert!(!draw);
    assert_eq!((size.width, size.height), (800, 30));
}

#[test]
fn the_ends_of_a_strip_stay_clear() {
    let content = BarContent {
        text: "ШШШШШШШШШШШШШШШШШШШШШ".to_string(),
        background: 1,
        foreground: 2,
    };
    let (width, height) = (100usize, 24usize);
    let pixels = bar_pixels(&content, width as u32, height as u32);
    assert_eq!(pixels.len(), width * height);
    assert!(pixels.iter().any(|p| *p == 2));
    for (i, pixel) in pixels.iter().enumerate() {
        let x = i % width;
        if x < 8 || x >= width - 8 {
            assert_eq!(*pixel, 1);
        }
    }
    assert!(bar_pixels(&content, 10, 24).iter().all(|p| *p == 1));
}

#[test]
fn a_space_is_looked_up_by_its_id() {
    assert_eq!(
        resolve("ghost", &vec![running_spike()]),
        Strip::Unknown { id: "ghost".to_string() }
    );
}

#[test]
fn a_strip_that_comes_and_goes_leaves_the_others() {
    let mut bars = OutputBars::new();
    bars.insert("DP-1", 1);
    bars.insert("DP-2", 2);
    let before = bars.entries.clone();
    assert!(bars.insert("DP-3", 3));
    assert_eq!(bars.remove(&"DP-3"), Some(3));
    assert_eq!(bars.entries, before);
}
