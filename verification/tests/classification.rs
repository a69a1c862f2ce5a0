use corewindows::classify::{
    classify, find_bundle_dir, localized_name, normalize_toolkit, toolkit_from_environ,
    bundle_from_text, toolkit_from_marker, ProcessFacts, UIKIT_APP_ID,
};
use corewindows::error::Locale;
use corewindows::json::{parse_json, Json};
use corewindows::types::{RawWindow, Toolkit, WindowType};


fn json(text: &str) -> Json {
    parse_json(text).unwrap()
}

fn raw(app_id: Option<&str>, title: Option<&str>, pid: Option<i32>) -> RawWindow {
    RawWindow {
        id: 1,
        app_id: app_id.map(str::to_owned),
        title: title.map(str::to_owned),
        pid,
        minimized: false,
    }
}

#[test]
fn toolkit_markers_map() {
    assert_eq!(normalize_toolkit("UIKit"), Some(WindowType::UIKit));
    assert_eq!(normalize_toolkit("uikit"), Some(WindowType::UIKit));
    assert_eq!(normalize_toolkit("TontooUI"), Some(WindowType::TontooUi));
    assert_eq!(normalize_toolkit("tos"), Some(WindowType::TontooUi));
    assert_eq!(normalize_toolkit("gtk"), None);
}

#[test]
fn toolkit_markers_trim_and_spellings() {
    assert_eq!(normalize_toolkit("  TONTOO-UI \n"), Some(WindowType::TontooUi));
    assert_eq!(normalize_toolkit("Tontoo_UI"), Some(WindowType::TontooUi));
    assert_eq!(normalize_toolkit(""), None);
    assert_eq!(toolkit_from_marker("uikit"), Some(Toolkit::UIKit));
    assert_eq!(toolkit_from_marker("tontoui"), Some(Toolkit::TontooUi));
    assert_eq!(toolkit_from_marker("UIKit"), None);
}

#[test]
fn uikit_app_id_fallback() {
    let c = classify(&raw(Some(UIKIT_APP_ID), Some("Demo"), None), ProcessFacts::none(), Locale::EnUs);
    assert_eq!(c.window_type, WindowType::UIKit);
    assert_eq!(c.app_name.as_deref(), Some("Demo"));
}

#[test]
fn foreign_app_is_linux() {
    // Pid 4242 belongs to no process with a toolkit marker or a bundle.
    let c = classify(
        &raw(Some("org.mozilla.firefox"), Some("Firefox"), Some(4242)),
        ProcessFacts::none(),
        Locale::EnUs,
    );
    assert_eq!(c.window_type, WindowType::Linux);
    assert_eq!(c.app_name.as_deref(), Some("Firefox"));
    assert!(c.bundle_id.is_none());
}

#[test]
fn empty_row_is_unknown() {
    let c = classify(&raw(None, None, None), ProcessFacts::none(), Locale::EnUs);
    assert_eq!(c.window_type, WindowType::Unknown);
    assert!(c.app_name.is_none());
}

#[test]
fn app_id_alone_is_linux_and_names_the_row() {
    let c = classify(&raw(Some("org.gnome.Gedit"), None, None), ProcessFacts::none(), Locale::EnUs);
    assert_eq!(c.window_type, WindowType::Linux);
    assert_eq!(c.app_name.as_deref(), Some("org.gnome.Gedit"));
}

fn bundle(dir: &str, info: &str) -> ProcessFacts {
    ProcessFacts {
        toolkit: None,
        bundle: bundle_from_text(dir.to_owned(), info),
        icon_present: Vec::new(),
    }
}

#[test]
fn process_marker_wins_over_everything() {
    let mut facts = bundle("/Applications/Notes.app", r#"{"toolkit":"uikit","bundle_id":"com.tontoo.notes"}"#);
    facts.toolkit = Some(Toolkit::TontooUi);
    let c = classify(&raw(Some(UIKIT_APP_ID), None, Some(7)), facts, Locale::EnUs);
    assert_eq!(c.window_type, WindowType::TontooUi);
    assert_eq!(c.bundle_id.as_deref(), Some("com.tontoo.notes"));
    assert_eq!(c.bundle_dir.as_deref(), Some("/Applications/Notes.app"));
}

#[test]
fn info_toolkit_then_bundle_prefix() {
    let c = classify(
        &raw(None, None, Some(7)),
        bundle("/Applications/Paint.app", r#"{"toolkit":" UIKit ","bundle_id":"com.tontoo.paint"}"#),
        Locale::EnUs,
    );
    assert_eq!(c.window_type, WindowType::UIKit);
    let c = classify(
        &raw(None, None, Some(7)),
        bundle("/Applications/Paint.app", r#"{"toolkit":"qt","bundle_id":"com.tontoo.paint"}"#),
        Locale::EnUs,
    );
    assert_eq!(c.window_type, WindowType::TontooUi);
    let c = classify(
        &raw(None, None, Some(7)),
        bundle("/Applications/Paint.app", r#"{"bundle_id":"org.example.paint"}"#),
        Locale::EnUs,
    );
    assert_eq!(c.window_type, WindowType::Linux);
    // Bundle dir stem names the app when Info.tontoo has no name.
    assert_eq!(c.app_name.as_deref(), Some("Paint"));
}

#[test]
fn facts_ignored_without_pid() {
    let c = classify(
        &raw(None, Some("Doc"), None),
        bundle("/Applications/Paint.app", r#"{"toolkit":"uikit","bundle_id":"com.tontoo.paint","name":"Paint"}"#),
        Locale::EnUs,
    );
    assert_eq!(c.window_type, WindowType::Linux);
    assert!(c.bundle_id.is_none());
    assert!(c.bundle_info.is_none());
    assert_eq!(c.app_name.as_deref(), Some("Doc"));
}

#[test]
fn localized_name_prefers_current_locale() {
    let info = json(r#"{"name":{"en_us":"Finder","de_de":"FinderDE"}}"#);
    let name = localized_name(&info, Locale::EnUs).unwrap();
    assert!(name == "Finder" || name == "FinderDE");
    assert_eq!(localized_name(&info, Locale::EnUs).as_deref(), Some("Finder"));
    assert_eq!(localized_name(&info, Locale::DeDe).as_deref(), Some("FinderDE"));
}

#[test]
fn localized_name_plain_string() {
    let info = json(r#"{"name":"Terminal"}"#);
    assert_eq!(localized_name(&info, Locale::EnUs).as_deref(), Some("Terminal"));
}

#[test]
fn localized_name_fallbacks() {
    let info = json(r#"{"name":{"fr_fr":"Chercheur","it_it":"Cercatore"}}"#);
    // No entry for the locale nor en_us: the first entry.
    assert_eq!(localized_name(&info, Locale::DeDe).as_deref(), Some("Chercheur"));
    let info = json(r#"{"name":{"de_de":"FinderDE","en_us":"Finder"}}"#);
    assert_eq!(localized_name(&info, Locale::DeDe).as_deref(), Some("FinderDE"));
    let info = json(r#"{"name":{"en_us":5,"fr_fr":"x"}}"#);
    assert_eq!(localized_name(&info, Locale::EnUs), None);
    assert_eq!(localized_name(&json(r#"{"bundle_id":"x"}"#), Locale::EnUs), None);
    assert_eq!(localized_name(&json(r#"{"name":7}"#), Locale::EnUs), None);
}

#[test]
fn environ_marker_is_read() {
    let env = b"HOME=/root\0TONTOO_TOOLKIT=UIKit\0LANG=C\0";
    assert_eq!(toolkit_from_environ(env), Some(Toolkit::UIKit));
    let env = b"A=1\0\xff\xfe\0TONTOO_TOOLKIT= tos\0";
    assert_eq!(toolkit_from_environ(env), Some(Toolkit::TontooUi));
    let env = b"TONTOO_TOOLKIT=gtk\0TONTOO_TOOLKIT=UIKit";
    assert_eq!(toolkit_from_environ(env), None);
    assert_eq!(toolkit_from_environ(b""), None);
    assert_eq!(toolkit_from_environ(b"PATH=/bin\0"), None);
}

#[test]
fn bundle_dir_is_nearest_app_ancestor() {
    assert_eq!(
        find_bundle_dir("/Applications/Notes.app/bin/notes").as_deref(),
        Some("/Applications/Notes.app")
    );
    assert_eq!(
        find_bundle_dir("/Applications/Notes.app/Contents/MacOS/notes").as_deref(),
        Some("/Applications/Notes.app")
    );
    assert_eq!(find_bundle_dir("/opt/tools/Runner.app").as_deref(), Some("/opt/tools/Runner.app"));
    assert_eq!(find_bundle_dir("/usr/bin/gedit"), None);
    assert_eq!(find_bundle_dir("/"), None);
}

#[test]
fn documented_markers_are_accepted() {
    assert_eq!(normalize_toolkit("tontoui"), Some(WindowType::TontooUi));
    assert_eq!(normalize_toolkit("Tontoo-UI"), Some(WindowType::TontooUi));
    assert_eq!(normalize_toolkit(" TOS "), Some(WindowType::TontooUi));
    assert_eq!(normalize_toolkit("UiKit"), Some(WindowType::UIKit));
    assert_eq!(normalize_toolkit("\u{3000}uikit\u{a0}"), Some(WindowType::UIKit));
    assert_eq!(normalize_toolkit("linux"), None);
}

#[test]
fn nearest_app_ancestor_wins() {
    assert_eq!(
        find_bundle_dir("/Applications/Outer.app/Inner.app/bin/tool").as_deref(),
        Some("/Applications/Outer.app/Inner.app")
    );
    assert_eq!(find_bundle_dir("/usr/bin/firefox"), None);
    assert_eq!(find_bundle_dir("/opt/apps/Tool.app").as_deref(), Some("/opt/apps/Tool.app"));
}

#[test]
fn bundle_needs_valid_info_text() {
    assert!(bundle_from_text("/A.app".to_string(), "not json").is_none());
    let b = bundle_from_text("/A.app".to_string(), r#"{"bundle_id":"a"}"#).unwrap();
    assert_eq!(b.dir, "/A.app");
    assert_eq!(b.info.get_str("bundle_id"), Some("a"));
}
