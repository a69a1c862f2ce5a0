use corewindows::classify::{Bundle, ProcessFacts};
use corewindows::error::{action_code, locale_from_env, t, Locale, WindowsError};
use corewindows::json::{parse_json, Json, JsonNumber};
use corewindows::provider::{enrich, force_quit_code, Command, Exchange, WindowsProvider, DEFAULT_SOCKET_PATH};
use corewindows::rows::decode_row;
use corewindows::types::{RawWindow, Toolkit, WindowType};


fn json(text: &str) -> Json {
    parse_json(text).unwrap()
}

fn reply(text: &str) -> Exchange {
    Exchange::Line(format!("{text}\n"))
}

fn frame(provider: &WindowsProvider, cmd: Command) -> serde_json::Value {
    let req = provider.request(cmd);
    assert!(req.line.ends_with('\n'));
    assert_eq!(req.line.matches('\n').count(), 1);
    serde_json::from_str(req.line.trim_end()).unwrap()
}

#[test]
fn display_mentions_path() {
    let err = WindowsError::SocketMissing("/run/tontoo-windows.sock".to_string());
    assert!(err.to_string(Locale::EnUs).contains("/run/tontoo-windows.sock"));
    assert!(err.to_string(Locale::DeDe).contains("/run/tontoo-windows.sock"));
}

#[test]
fn error_messages_per_locale() {
    let err = WindowsError::Parse("bad".to_string());
    assert_eq!(err.to_string(Locale::EnUs), "Failed to parse the window daemon reply: bad");
    assert_eq!(
        err.to_string(Locale::DeDe),
        "Antwort des Fenster-Daemon konnte nicht gelesen werden: bad"
    );
    let err = WindowsError::Server("boom".to_string());
    assert_eq!(err.to_string(Locale::EnUs), "Window daemon reported an error: boom");
    let err = WindowsError::Connection("refused".to_string());
    assert_eq!(err.to_string(Locale::EnUs), "Failed to connect to the window daemon: refused");
    let err = WindowsError::Protocol("eof".to_string());
    assert_eq!(err.to_string(Locale::DeDe), "Fenster-Daemon-Protokollfehler: eof");
}

#[test]
fn translation_falls_back_to_key() {
    assert_eq!(t("socket_missing", Locale::EnUs), "Window daemon socket not found");
    assert_eq!(t("socket_missing", Locale::DeDe), "Fenster-Daemon-Socket nicht gefunden");
    assert_eq!(t("no_such_key", Locale::DeDe), "no_such_key");
}

#[test]
fn locale_from_variables() {
    assert_eq!(locale_from_env(None, None, None), Locale::EnUs);
    assert_eq!(locale_from_env(None, None, Some("de_DE.UTF-8")), Locale::DeDe);
    assert_eq!(locale_from_env(Some("C"), None, Some("de_DE.UTF-8")), Locale::EnUs);
    assert_eq!(locale_from_env(None, Some("DE_at"), Some("en_US")), Locale::DeDe);
    assert_eq!(locale_from_env(Some(""), Some("de"), None), Locale::EnUs);
    assert_eq!(Locale::DeDe.as_str(), "de_de");
}

#[test]
fn missing_socket_errors() {
    let provider = WindowsProvider::with_socket("/nonexistent/tontoo-windows-test.sock");
    let err = provider.ping(Exchange::SocketMissing).unwrap_err();
    assert!(matches!(err, WindowsError::SocketMissing(_)));
    assert!(err.to_string(Locale::EnUs).contains("/nonexistent/tontoo-windows-test.sock"));
}

#[test]
fn from_env_default() {
    assert_eq!(WindowsProvider::from_setting(None).socket_path(), DEFAULT_SOCKET_PATH);
    assert_eq!(WindowsProvider::from_setting(Some("/tmp/x.sock")).socket_path(), "/tmp/x.sock");
    assert_eq!(WindowsProvider::new().socket_path(), "/run/tontoo-windows.sock");
    assert_eq!(WindowsProvider::default().socket_path(), DEFAULT_SOCKET_PATH);
}

#[test]
fn actions_send_expected_frames() {
    let provider = WindowsProvider::with_socket("/tmp/actions.sock");
    let requests = vec![
        provider.minimize_window(5),
        provider.restore_window(5),
        provider.set_fullscreen(5, true),
        provider.unfullscreen_window(5),
        provider.close_window(5),
    ];
    let seen: Vec<serde_json::Value> = requests
        .iter()
        .map(|req| {
            assert_eq!(req.socket_path, "/tmp/actions.sock");
            assert!(req.line.ends_with('\n'));
            assert_eq!(req.line.matches('\n').count(), 1);
            serde_json::from_str(req.line.trim_end()).unwrap()
        })
        .collect();
    assert_eq!(seen.len(), 5);
    assert_eq!(seen[0]["op"], serde_json::Value::from("minimize_window"));
    assert_eq!(seen[0]["window"], serde_json::Value::from(5));
    assert_eq!(seen[1]["op"], serde_json::Value::from("restore_window"));
    assert_eq!(seen[1]["window"], serde_json::Value::from(5));
    assert_eq!(seen[2]["op"], serde_json::Value::from("set_fullscreen"));
    assert_eq!(seen[2]["fullscreen"], serde_json::Value::Bool(true));
    assert_eq!(seen[3]["fullscreen"], serde_json::Value::Bool(false));
    assert_eq!(seen[4]["op"], serde_json::Value::from("close_window"));
    // The daemon's acknowledgement of each action is a success.
    for _ in &requests {
        assert!(provider.action_result(reply(r#"{"ok":true,"result":null}"#)).is_ok());
    }
    assert_eq!(frame(&provider, Command::CloseWindow(5)), seen[4]);
}

#[test]
fn request_lines_are_exact() {
    let p = WindowsProvider::with_socket("/s");
    assert_eq!(p.request(Command::Ping).line, "{\"id\":1,\"op\":\"ping\"}\n");
    assert_eq!(p.request(Command::ListWindows).line, "{\"id\":1,\"op\":\"list_windows\"}\n");
    assert_eq!(
        p.minimize_window(18446744073709551615).line,
        "{\"id\":1,\"op\":\"minimize_window\",\"window\":18446744073709551615}\n"
    );
    assert_eq!(
        p.fullscreen_window(0).line,
        "{\"fullscreen\":true,\"id\":1,\"op\":\"set_fullscreen\",\"window\":0}\n"
    );
    assert_eq!(
        p.unfullscreen_window(12).line,
        "{\"fullscreen\":false,\"id\":1,\"op\":\"set_fullscreen\",\"window\":12}\n"
    );
    assert_eq!(p.restore_window(3).line, p.request(Command::RestoreWindow(3)).line);
    assert_eq!(p.close_window(3).socket_path, "/s");
    assert_eq!(corewindows::minimize_window(4).socket_path, DEFAULT_SOCKET_PATH);
    assert_eq!(corewindows::set_fullscreen(4, true).line, p.fullscreen_window(4).line);
    assert_eq!(corewindows::restore_window(4).line, p.restore_window(4).line);
    assert_eq!(corewindows::close_window(4).line, p.close_window(4).line);
}

#[test]
fn force_quit_unknown_window_errors() {
    let provider = WindowsProvider::with_socket("/tmp/forcequit.sock");
    let windows = r#"{"ok":true,"result":{"windows":[{"id":1,"app_id":"x","pid":null}]}}"#;
    let err = provider.force_quit_window(99, reply(windows)).unwrap_err();
    assert!(matches!(err, WindowsError::Parse(_)));
    let err = provider.force_quit_window(1, reply(windows)).unwrap_err();
    assert!(matches!(err, WindowsError::Parse(_)));
    assert_eq!(err.to_string(Locale::EnUs), "Failed to parse the window daemon reply: no killable process for window 1");
}

#[test]
fn force_quit_finds_the_pid() {
    let provider = WindowsProvider::with_socket("/tmp/forcequit.sock");
    let windows = r#"{"ok":true,"result":{"windows":[{"id":1,"pid":10},{"id":2,"pid":20},{"id":2,"pid":30}]}}"#;
    assert_eq!(provider.force_quit_window(2, reply(windows)).unwrap(), 20);
    assert_eq!(corewindows::force_quit_window(1, reply(windows)).unwrap(), 10);
}

#[test]
fn force_quit_refuses_non_positive_pids() {
    let provider = WindowsProvider::with_socket("/tmp/forcequit.sock");
    let windows = r#"{"ok":true,"result":{"windows":[{"id":1,"pid":0},{"id":2,"pid":-1},{"id":3,"pid":1}]}}"#;
    assert!(matches!(provider.force_quit_window(1, reply(windows)), Err(WindowsError::Parse(_))));
    assert!(matches!(provider.force_quit_window(2, reply(windows)), Err(WindowsError::Parse(_))));
    assert_eq!(provider.force_quit_window(3, reply(windows)).unwrap(), 1);
}

#[test]
fn force_quit_codes_follow_the_c_interface() {
    let provider = WindowsProvider::with_socket("/tmp/forcequit.sock");
    let windows = r#"{"ok":true,"result":{"windows":[{"id":1,"pid":null},{"id":3,"pid":7}]}}"#;
    let unknown = provider.force_quit_target(9, reply(windows));
    assert!(matches!(unknown, Ok(None)));
    assert_eq!(force_quit_code(&unknown, false), -2);
    assert!(matches!(provider.force_quit_target(1, reply(windows)), Ok(None)));
    let found = provider.force_quit_target(3, reply(windows));
    assert!(matches!(found, Ok(Some(7))));
    assert_eq!(force_quit_code(&found, true), 0);
    assert_eq!(force_quit_code(&found, false), -1);
    let unlisted = provider.force_quit_target(3, reply(r#"{"ok":true,"result":{}}"#));
    assert!(matches!(unlisted, Err(WindowsError::Parse(_))));
    assert_eq!(force_quit_code(&unlisted, false), -1);
    assert_eq!(force_quit_code(&provider.force_quit_target(3, Exchange::SocketMissing), false), -1);
}

#[test]
fn windows_need_one_fact_per_row() {
    let provider = WindowsProvider::with_socket("/tmp/w.sock");
    let windows = r#"{"ok":true,"result":{"windows":[{"id":1,"title":"A"},{"id":2}]}}"#;
    assert!(provider.windows_with_facts(reply(windows), vec![ProcessFacts::none()], Locale::EnUs).is_none());
    let infos = provider
        .windows_with_facts(reply(windows), vec![ProcessFacts::none(), ProcessFacts::none()], Locale::EnUs)
        .unwrap()
        .unwrap();
    assert_eq!(infos.len(), 2);
    assert_eq!(infos[0].app_name.as_deref(), Some("A"));
    assert_eq!(infos[1].window_type, WindowType::Unknown);
    assert!(matches!(
        provider.windows_with_facts(Exchange::SocketMissing, Vec::new(), Locale::EnUs),
        Some(Err(WindowsError::SocketMissing(_)))
    ));
    assert!(corewindows::windows_with_facts(reply(windows), Vec::new(), Locale::EnUs).is_none());
}

#[test]
fn force_quit_missing_socket_errors() {
    let provider = WindowsProvider::with_socket("/nonexistent/tontoo-windows-test.sock");
    let _request = provider.minimize_window(1);
    let err = provider.action_result(Exchange::SocketMissing).unwrap_err();
    assert!(matches!(err, WindowsError::SocketMissing(_)));
}

#[test]
fn reply_frames_are_interpreted() {
    let p = WindowsProvider::with_socket("/s");
    assert!(p.ping(reply(r#"{"ok":true,"result":{"pong":true}}"#)).unwrap());
    assert!(!p.ping(reply(r#"{"ok":true,"result":{"pong":"yes"}}"#)).unwrap());
    assert!(!p.ping(reply(r#"{"ok":true}"#)).unwrap());
    match p.ping(reply(r#"{"ok":false,"error":"busy"}"#)) {
        Err(WindowsError::Server(e)) => assert_eq!(e, "busy"),
        other => panic!("unexpected {other:?}"),
    }
    match p.action_result(reply(r#"{"result":1}"#)) {
        Err(WindowsError::Server(e)) => assert_eq!(e, "unknown error"),
        other => panic!("unexpected {other:?}"),
    }
    match p.action_result(Exchange::Transport("refused".to_string())) {
        Err(WindowsError::Connection(e)) => assert_eq!(e, "refused"),
        other => panic!("unexpected {other:?}"),
    }
    match p.action_result(Exchange::Line(String::new())) {
        Err(WindowsError::Protocol(e)) => assert!(e.contains("EOF"), "{e}"),
        other => panic!("unexpected {other:?}"),
    }
    match p.ping(Exchange::Line("not json\n".to_string())) {
        Err(WindowsError::Protocol(_)) => {}
        other => panic!("unexpected {other:?}"),
    }
    assert!(p.action_result(reply(r#"{"ok":true}"#)).is_ok());
    assert!(matches!(p.reply_result(reply(r#"{"ok":true}"#)), Ok(Json::Null)));
    assert!(matches!(corewindows::ping(Exchange::SocketMissing), Err(WindowsError::SocketMissing(p)) if p == DEFAULT_SOCKET_PATH));
    assert_eq!(action_code(&Ok(())), 0);
    assert_eq!(action_code(&Err(WindowsError::Parse(String::new()))), -1);
}

#[test]
fn list_raw_decodes_rows() {
    let p = WindowsProvider::with_socket("/s");
    let rows = p
        .list_raw(reply(
            r#"{"ok":true,"result":{"windows":[{"id":1,"app_id":"org.tontoo.uikit","title":"Finder","pid":1234},{"id":2,"minimized":true,"extra":[1,2]}]}}"#,
        ))
        .unwrap();
    assert_eq!(rows.len(), 2);
    assert_eq!(rows[0].id, 1);
    assert_eq!(rows[0].app_id.as_deref(), Some("org.tontoo.uikit"));
    assert_eq!(rows[0].title.as_deref(), Some("Finder"));
    assert_eq!(rows[0].pid, Some(1234));
    assert!(!rows[0].minimized);
    assert_eq!(rows[1].id, 2);
    assert!(rows[1].minimized);
    assert!(rows[1].app_id.is_none());
    match p.list_raw(reply(r#"{"ok":true,"result":{}}"#)) {
        Err(WindowsError::Parse(e)) => assert_eq!(e, "reply has no windows array"),
        other => panic!("unexpected {other:?}"),
    }
    match p.list_raw(reply(r#"{"ok":true,"result":{"windows":[{"id":1},{"title":"x"}]}}"#)) {
        Err(WindowsError::Parse(e)) => assert_eq!(e, "bad window row: missing field `id`"),
        other => panic!("unexpected {other:?}"),
    }
    assert_eq!(corewindows::list_raw(reply(r#"{"ok":true,"result":{"windows":[]}}"#)).unwrap().len(), 0);
}

#[test]
fn raw_window_sparse_json() {
    let raw = decode_row(&json(r#"{"id":7}"#)).unwrap();
    assert_eq!(raw.id, 7);
    assert!(raw.app_id.is_none());
    assert!(raw.title.is_none());
    assert!(raw.pid.is_none());
    assert!(!raw.minimized);
}

#[test]
fn raw_window_minimized_flag() {
    let raw = decode_row(&json(r#"{"id":3,"minimized":true}"#)).unwrap();
    assert!(raw.minimized);
}

#[test]
fn row_errors_name_the_problem() {
    let err = |text: &str| decode_row(&json(text)).unwrap_err();
    assert_eq!(err(r#"{"id":-1}"#), "invalid value: integer `-1`, expected u64");
    assert_eq!(err(r#"{"id":1.5}"#), "invalid type: floating point `1.5`, expected u64");
    assert_eq!(err(r#"{"id":1,"pid":3000000000}"#), "invalid value: integer `3000000000`, expected i32");
    assert_eq!(err(r#"{"id":1,"pid":-3000000000}"#), "invalid value: integer `-3000000000`, expected i32");
    assert_eq!(err(r#"{"id":1,"title":5}"#), "invalid type: integer `5`, expected a string");
    assert_eq!(err(r#"{"id":1,"minimized":null}"#), "invalid type: null, expected a boolean");
    assert_eq!(err(r#""row""#), "invalid type: string \"row\", expected struct RawWindow");
    assert_eq!(err(r#"{"id":"a\"b\n"}"#), "invalid type: string \"a\\\"b\\n\", expected u64");
    assert_eq!(err(r#"[]"#), "invalid length 0, expected struct RawWindow with 5 elements");
    assert_eq!(err(r#"[1,null,null,null,false,0]"#), "invalid length 6, expected fewer elements in array");
    let dup = Json::Object(vec![
        ("id".to_string(), Json::Number(JsonNumber::PosInt(1))),
        ("id".to_string(), Json::Number(JsonNumber::PosInt(2))),
    ]);
    assert_eq!(decode_row(&dup).unwrap_err(), "duplicate field `id`");
    let row = decode_row(&json(r#"[4,"app",null,-5]"#)).unwrap();
    assert_eq!(row.id, 4);
    assert_eq!(row.app_id.as_deref(), Some("app"));
    assert_eq!(row.pid, Some(-5));
}

fn raw(id: u64, app_id: Option<&str>, title: Option<&str>, pid: Option<i32>) -> RawWindow {
    RawWindow { id, app_id: app_id.map(str::to_owned), title: title.map(str::to_owned), pid, minimized: false }
}

#[test]
fn enrichment_resolves_bundle_icons() {
    let facts = ProcessFacts {
        toolkit: Some(Toolkit::UIKit),
        bundle: Some(Bundle {
            dir: "/Applications/Finder.app".to_string(),
            info: json(r#"{"bundle_id":"com.tontoo.finder","name":"Finder","icon":"Art/F.png"}"#),
        }),
        icon_present: vec![false, true],
    };
    let info = enrich(raw(9, None, Some("Home"), Some(42)), facts, Locale::EnUs);
    assert_eq!(info.id, 9);
    assert_eq!(info.window_type, WindowType::UIKit);
    assert_eq!(info.bundle_id.as_deref(), Some("com.tontoo.finder"));
    assert_eq!(info.app_name.as_deref(), Some("Finder"));
    let icon = info.icon.expect("icon resolved");
    assert_eq!(icon.icon_path.as_deref(), Some("/Applications/Finder.app/Icon.png"));
    assert_eq!(icon.bundle_path, "/Applications/Finder.app");

    let info = enrich(raw(3, Some("org.gnome.Gedit"), None, None), ProcessFacts::none(), Locale::EnUs);
    assert_eq!(info.window_type, WindowType::Linux);
    assert!(info.icon.is_none());
}

#[test]
fn windows_enrich_every_row_in_order() {
    let p = WindowsProvider::with_socket("/s");
    let text = r#"{"ok":true,"result":{"windows":[{"id":1,"title":"A"},{"id":2,"app_id":"org.tontoo.uikit"},{"id":3}]}}"#;
    let facts = vec![ProcessFacts::none(), ProcessFacts::none(), ProcessFacts::none()];
    let infos = p.windows(reply(text), facts, Locale::EnUs).unwrap();
    assert_eq!(infos.len(), 3);
    assert_eq!(infos[0].window_type, WindowType::Linux);
    assert_eq!(infos[1].window_type, WindowType::UIKit);
    assert_eq!(infos[2].window_type, WindowType::Unknown);
    assert_eq!(infos.iter().map(|w| w.id).collect::<Vec<_>>(), vec![1, 2, 3]);
    let err = corewindows::windows(Exchange::SocketMissing, Vec::new(), Locale::EnUs).unwrap_err();
    assert!(matches!(err, WindowsError::SocketMissing(_)));
}

#[test]
fn window_type_names() {
    assert_eq!(WindowType::UIKit.as_str(), "UIKit");
    assert_eq!(WindowType::TontooUi.as_str(), "TontooUI");
    assert_eq!(WindowType::Linux.as_str(), "Linux");
    assert_eq!(WindowType::Unknown.as_str(), "Unknown");
}
