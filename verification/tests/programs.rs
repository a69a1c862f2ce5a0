use corewindows::error::Locale;
use corewindows::icon::{icon_candidates, resolve_icon};
use corewindows::json::{parse_json, Json};
use corewindows::programs::{
    all_names, icon_cache_path, is_app_bundle, list_programs, program_dirs, read_app,
    read_dir_bundle, read_zip_bundle, sort_by_name, zip_entry_prefix, zip_icon_candidates,
    zip_info_entry, AppEntry, AppSource, ArchiveContents, BundleContents, DirectoryContents,
};
use corewindows::programs::{
    cached_icon_usable, first_icon_step, next_icon_step, scan_listing, DirEntry, IconProbe, IconStep,
};
use corewindows::text::join;


fn json(text: &str) -> Json {
    parse_json(text).unwrap()
}

fn name_of<'a>(names: &'a [(String, String)], locale: &str) -> Option<&'a str> {
    names.iter().find(|(l, _)| l == locale).map(|(_, n)| n.as_str())
}

/// Which icon candidates of a bundle directory exist, given the existing
/// files (relative to the bundle directory).
fn present(dir: &str, info: Option<&Json>, files: &[&str]) -> Vec<bool> {
    let existing: Vec<String> = files.iter().map(|f| join(dir, f)).collect();
    icon_candidates(dir, info).iter().map(|c| existing.contains(c)).collect()
}

fn dir_app(dir: &str, info: Option<&str>, files: &[&str], source: AppSource) -> Option<AppEntry> {
    let parsed = info.and_then(|t| parse_json(t).ok());
    let icon_present = present(dir, parsed.as_ref(), files);
    let info_text = info.map(str::to_owned);
    read_dir_bundle(dir, source, &DirectoryContents { info_text, icon_present }, Locale::EnUs)
}

#[test]
fn icon_string_field_resolves() {
    let dir = "/tmp/bundle";
    let info = json(r#"{"icon":"MyIcon.png"}"#);
    let flags = present(dir, Some(&info), &["MyIcon.png"]);
    let resolved = resolve_icon(dir, "com.tontoo.demo", "Demo", Some(&info), &flags);
    assert_eq!(resolved.icon_path.as_deref(), Some("/tmp/bundle/MyIcon.png"));
}

#[test]
fn icon_object_field_resolves() {
    let dir = "/tmp/bundle";
    let info = json(r#"{"icon":{"path":"Resources/Icon.png"}}"#);
    let flags = present(dir, Some(&info), &["Resources/Icon.png"]);
    let resolved = resolve_icon(dir, "com.tontoo.demo", "Demo", Some(&info), &flags);
    assert_eq!(resolved.icon_path.as_deref(), Some("/tmp/bundle/Resources/Icon.png"));
}

#[test]
fn icon_probe_fallback() {
    let dir = "/tmp/bundle";
    let flags = present(dir, None, &["Icon.png"]);
    let resolved = resolve_icon(dir, "com.tontoo.demo", "Demo", None, &flags);
    assert_eq!(resolved.icon_path.as_deref(), Some("/tmp/bundle/Icon.png"));
}

#[test]
fn icon_missing_is_none() {
    let dir = "/tmp/bundle";
    let flags = present(dir, None, &[]);
    let resolved = resolve_icon(dir, "com.tontoo.demo", "Demo", None, &flags);
    assert!(resolved.icon_path.is_none());
    assert_eq!(resolved.bundle_id, "com.tontoo.demo");
}

#[test]
fn icon_field_beats_probes_and_falls_back() {
    let dir = "/a/B.app/";
    let info = json(r#"{"icon":"Art/logo.png"}"#);
    let c = icon_candidates(dir, Some(&info));
    assert_eq!(c.len(), 8);
    assert_eq!(c[0], "/a/B.app/Art/logo.png");
    assert_eq!(c[7], "/a/B.app/Contents/Resources/Icon.png");
    let flags = present(dir, Some(&info), &["Art/logo.png", "icon.jpg"]);
    let icon = resolve_icon(dir, "x", "B", Some(&info), &flags);
    assert_eq!(icon.icon_path.as_deref(), Some("/a/B.app/Art/logo.png"));
    let flags = present(dir, Some(&info), &["icon.jpg", "Resources/icon.png"]);
    let icon = resolve_icon(dir, "x", "B", Some(&info), &flags);
    assert_eq!(icon.icon_path.as_deref(), Some("/a/B.app/icon.jpg"));
    // An absolute icon path stands for itself, as a path join does.
    let abs = json(r#"{"icon":"/usr/share/icons/b.png"}"#);
    assert_eq!(icon_candidates("/a/B.app", Some(&abs))[0], "/usr/share/icons/b.png");
}

#[test]
fn scan_dir_reads_names_and_icon() {
    let root = "/tmp/apps";
    let finder = dir_app(
        &join(root, "Finder.app"),
        Some(r#"{"bundle_id":"com.tontoo.finder","name":{"en_us":"Finder","de_de":"FinderDE"},"icon":"Icon.png"}"#),
        &["Icon.png"],
        AppSource::User,
    );
    let broken = dir_app(&join(root, "Broken.app"), Some("not json"), &[], AppSource::User);
    let no_id = dir_app(&join(root, "NoId.app"), Some(r#"{"name":"NoId"}"#), &[], AppSource::User);
    assert!(!is_app_bundle("/tmp/apps/Not.flat", true, false));
    let mut entries: Vec<AppEntry> = [finder, broken, no_id].into_iter().flatten().collect();
    assert_eq!(entries.len(), 1);
    let app = entries.pop().unwrap();
    assert_eq!(app.bundle_id, "com.tontoo.finder");
    assert_eq!(name_of(&app.names, "en_us"), Some("Finder"));
    assert_eq!(name_of(&app.names, "de_de"), Some("FinderDE"));
    assert!(app.display_name == "Finder" || app.display_name == "FinderDE");
    assert!(app.icon.icon_path.is_some());
    assert_eq!(app.source, AppSource::User);
}

#[test]
fn plain_string_name_becomes_default() {
    let names = all_names(&json(r#"{"name":"Terminal"}"#));
    assert_eq!(names.len(), 1);
    assert_eq!(name_of(&names, "default"), Some("Terminal"));
}

#[test]
fn missing_name_is_empty() {
    assert!(all_names(&json(r#"{"bundle_id":"x"}"#)).is_empty());
}

#[test]
fn name_map_keeps_only_strings() {
    let names = all_names(&json(r#"{"name":{"de_de":"B","en_us":"A","xx":3}}"#));
    assert_eq!(names.len(), 2);
    assert_eq!(name_of(&names, "en_us"), Some("A"));
    assert_eq!(name_of(&names, "xx"), None);
    assert!(all_names(&json(r#"{"name":[1]}"#)).is_empty());
}

#[test]
fn list_programs_uses_home() {
    let dirs = program_dirs(Some("/home/me"));
    assert_eq!(dirs.len(), 2);
    assert_eq!(dirs[0].0, AppSource::User);
    assert_eq!(dirs[0].1, "/home/me/Applications");
    assert_eq!(dirs[1].0, AppSource::System);
    assert_eq!(dirs[1].1, "/Applications");
    let notes = dir_app(
        &join(&dirs[0].1, "Notes.app"),
        Some(r#"{"bundle_id":"com.tontoo.notes","name":"Notes"}"#),
        &[],
        AppSource::User,
    );
    let entries = list_programs(vec![notes.into_iter().collect(), Vec::new()]);
    let notes: Vec<_> = entries.iter().filter(|a| a.bundle_id == "com.tontoo.notes").collect();
    assert_eq!(notes.len(), 1);
    assert_eq!(notes[0].source, AppSource::User);
    assert_eq!(notes[0].display_name, "Notes");
}

#[test]
fn program_dirs_without_home() {
    assert_eq!(program_dirs(None).len(), 1);
    assert_eq!(program_dirs(Some("")).len(), 1);
    assert_eq!(program_dirs(Some("/root/")).first().map(|d| d.1.as_str()), Some("/root/Applications"));
}

fn named(name: &str, id: &str, source: AppSource) -> AppEntry {
    dir_app(
        &format!("/x/{id}.app"),
        Some(&format!(r#"{{"bundle_id":"{id}","name":"{name}"}}"#)),
        &[],
        source,
    )
    .unwrap()
}

#[test]
fn programs_sort_by_name_case_insensitively_and_stably() {
    let user = vec![named("zeta", "u1", AppSource::User), named("Alpha", "u2", AppSource::User)];
    let system = vec![
        named("beta", "s1", AppSource::System),
        named("ALPHA", "s2", AppSource::System),
        named("Äther", "s3", AppSource::System),
    ];
    let sorted = list_programs(vec![user, system]);
    let ids: Vec<&str> = sorted.iter().map(|a| a.bundle_id.as_str()).collect();
    assert_eq!(ids, vec!["u2", "s2", "s1", "u1", "s3"]);
    assert!(sort_by_name(Vec::new()).is_empty());
}

#[test]
fn scan_dir_lists_flat_zip_without_icon() {
    let names = vec!["Info.tontoo".to_string()];
    let entry = zip_info_entry(&names).unwrap();
    assert_eq!(zip_entry_prefix(&entry), "");
    let contents = ArchiveContents {
        info_text: Some(r#"{"bundle_id":"com.tontoo.flat","name":"Flat"}"#.to_string()),
        icon_file: None,
    };
    let entries: Vec<AppEntry> =
        read_zip_bundle("/tmp/apps/Flat.app", AppSource::System, &contents, Locale::EnUs).into_iter().collect();
    assert_eq!(entries.len(), 1);
    assert_eq!(entries[0].display_name, "Flat");
    assert!(entries[0].icon.icon_path.is_none());
}

#[test]
fn scan_dir_lists_zipped_app_with_icon() {
    let names = vec!["Demo.app/Info.tontoo".to_string(), "Demo.app/Resources/icon.png".to_string()];
    let entry = zip_info_entry(&names).unwrap();
    let prefix = zip_entry_prefix(&entry);
    assert_eq!(prefix, "Demo.app/");
    let info_text = r#"{"bundle_id":"com.tontoo.demo","name":{"en_us":"Demo","de_de":"DemoDE"}}"#;
    let info = json(info_text);
    let candidates = zip_icon_candidates(&prefix, &info);
    let found = candidates.iter().find(|c| names.contains(c)).unwrap();
    assert_eq!(found, "Demo.app/Resources/icon.png");
    let rel = &found[prefix.len()..];
    let out = icon_cache_path("/tmp", "com.tontoo.demo", rel);
    assert_eq!(out, "/tmp/tontoo-corewindows-icons/com-tontoo-demo/Resources/icon.png");
    let contents = BundleContents::Archive(ArchiveContents { info_text: Some(info_text.to_string()), icon_file: Some(out.clone()) });
    let app = read_app("/tmp/apps/Demo.app", AppSource::System, &contents, Locale::DeDe).unwrap();
    assert_eq!(app.bundle_id, "com.tontoo.demo");
    assert!(app.display_name == "Demo" || app.display_name == "DemoDE");
    assert_eq!(app.display_name, "DemoDE");
    assert_eq!(app.bundle_path, "/tmp/apps/Demo.app");
    assert_eq!(app.source, AppSource::System);
    assert_eq!(app.icon.icon_path.as_deref(), Some(out.as_str()));
}

#[test]
fn scan_dir_skips_broken_app_files() {
    assert!(zip_info_entry(&["readme.txt".to_string()]).is_none());
    let no_id = ArchiveContents { info_text: Some(r#"{"name":"NoId"}"#.to_string()), icon_file: None };
    assert!(read_zip_bundle("/r/NoId.app", AppSource::System, &no_id, Locale::EnUs).is_none());
    let not_zip = ArchiveContents { info_text: None, icon_file: None };
    assert!(read_zip_bundle("/r/Binary.app", AppSource::System, &not_zip, Locale::EnUs).is_none());
    assert!(!is_app_bundle("/r/notes.txt", false, true));
    assert!(is_app_bundle("/r/Binary.app", false, true));
    assert!(!is_app_bundle("/r/Gone.app", false, false));
    let empty_id = DirectoryContents { info_text: Some(r#"{"bundle_id":"","name":"E"}"#.to_string()), icon_present: vec![] };
    assert!(read_app("/r/E.app", AppSource::User, &BundleContents::Directory(empty_id), Locale::EnUs).is_none());
}

#[test]
fn app_source_names() {
    assert_eq!(AppSource::User.as_str(), "User");
    assert_eq!(AppSource::System.as_str(), "System");
}

#[test]
fn zip_icon_search_steps() {
    assert!(matches!(first_icon_step(0), IconStep::Done(None)));
    assert!(matches!(first_icon_step(3), IconStep::Probe(0)));
    assert!(matches!(next_icon_step(3, 0, IconProbe::Missing), IconStep::Probe(1)));
    assert!(matches!(next_icon_step(3, 1, IconProbe::Failed), IconStep::Probe(2)));
    assert!(matches!(next_icon_step(3, 2, IconProbe::Missing), IconStep::Done(None)));
    match next_icon_step(3, 1, IconProbe::Extracted("/tmp/i.png".to_string())) {
        IconStep::Done(Some(f)) => assert_eq!(f, "/tmp/i.png"),
        other => panic!("unexpected {other:?}"),
    }
}

#[test]
fn scan_listing_keeps_listed_in_order() {
    let bundle = |name: &str, text: Option<&str>| DirEntry {
        name: name.to_string(),
        is_dir: true,
        is_file: false,
        contents: Some(BundleContents::Directory(DirectoryContents {
            info_text: text.map(str::to_owned),
            icon_present: vec![],
        })),
    };
    let listing = vec![
        bundle("Broken.app", Some("not json")),
        bundle("Zed.app", Some(r#"{"bundle_id":"z","name":"Zed"}"#)),
        bundle("NoId.app", Some(r#"{"name":"NoId"}"#)),
        bundle("Not.flat", Some(r#"{"bundle_id":"n","name":"Not"}"#)),
        DirEntry { name: "Gone.app".to_string(), is_dir: false, is_file: false, contents: None },
        bundle("Alpha.app", Some(r#"{"bundle_id":"a"}"#)),
        bundle("NoInfo.app", None),
        DirEntry { name: "Unread.app".to_string(), is_dir: true, is_file: false, contents: None },
    ];
    let entries = scan_listing("/A", Some(listing), AppSource::User, Locale::EnUs);
    let ids: Vec<&str> = entries.iter().map(|e| e.bundle_id.as_str()).collect();
    assert_eq!(ids, vec!["z", "a"]);
    assert_eq!(entries[0].bundle_path, "/A/Zed.app");
    assert_eq!(entries[1].display_name, "Alpha");
    assert_eq!(entries[1].icon.bundle_path, "/A/Alpha.app");
    assert!(entries.iter().all(|e| e.source == AppSource::User));
    assert!(scan_listing("/A", Some(Vec::new()), AppSource::System, Locale::EnUs).is_empty());
}

#[test]
fn missing_dir_scans_empty() {
    assert!(scan_listing("/nonexistent/corewindows-programs-test", None, AppSource::System, Locale::EnUs).is_empty());
}

#[test]
fn cached_icons_are_reused_unless_stale() {
    assert!(cached_icon_usable(true, Some(10), Some(20)));
    assert!(cached_icon_usable(true, Some(20), Some(20)));
    assert!(!cached_icon_usable(true, Some(30), Some(20)));
    assert!(!cached_icon_usable(true, None, Some(20)));
    assert!(!cached_icon_usable(false, Some(10), Some(20)));
}

#[test]
fn parsed_names_are_a_map() {
    let names = all_names(&json(r#"{"name":{"en_us":"A","de_de":"B","en_us":"C"}}"#));
    assert_eq!(names.len(), 2);
    assert_eq!(name_of(&names, "en_us"), Some("C"));
}
