//! Installed TontooOS applications (`.app` bundles) in the applications
//! directories.
use vstd::prelude::*;

use crate::classify::{localized_name, localized_name_of};
use crate::error::Locale;
use crate::icon::{
    icon_field, icon_field_of, icon_probe_files, probe_files, resolve_icon, resolved_icon_path,
    AppIcon,
};
use crate::json::{parse_json, parsed_json, Json};
use crate::text::{
    chars_of, lowercase, to_lowercase, ends_with, file_name, file_stem, join, owned, path_file_name, path_file_stem, path_join,
    str_ends_with, str_equal, string_of, concat,
};
use crate::types::opt_text;

verus! {

/// System-wide applications directory (OS root).
pub const SYSTEM_APPLICATIONS_DIR: &'static str = "/Applications";

/// Per-user applications directory name (resolved against `HOME`).
pub const USER_APPLICATIONS_DIR: &'static str = "Applications";

/// Where an app bundle was found.
#[derive(Debug, Clone, Copy, PartialEq, Eq, Structural)]
pub enum AppSource {
    /// `~/Applications` – installed by the user.
    User,
    /// `/Applications` – installed system-wide.
    System,
}

impl AppSource {
    /// Display name of a variant.
    pub open spec fn name_spec(self) -> Seq<char> {
        match self {
            AppSource::User => "User"@,
            AppSource::System => "System"@,
        }
    }

    /// Display name of the variant (`User`, `System`).
    pub fn as_str(self) -> (r: &'static str)
        ensures
            r@ == self.name_spec(),
    {
        match self {
            AppSource::User => "User",
            AppSource::System => "System",
        }
    }
}

/// One installed TontooOS application (`.app` bundle).
#[derive(Debug)]
pub struct AppEntry {
    /// Bundle id from `Info.tontoo` (`bundle_id`).
    pub bundle_id: String,
    /// All known names as `(locale, name)` pairs: every string entry of the
    /// `Info.tontoo` `name` map, or a single `"default"` entry for a plain
    /// string `name`.
    pub names: Vec<(String, String)>,
    /// Display name for the current locale (locale, `en_us`, first entry,
    /// then bundle stem fallback).
    pub display_name: String,
    /// Bundle path (the `....app` directory or zipped `.app` file).
    pub bundle_path: String,
    /// Where the bundle was found.
    pub source: AppSource,
    /// Resolved app icon (paths only, see [`AppIcon`]).
    pub icon: AppIcon,
}

/// The directories to scan, user first, then system: the user directory
/// only for a set, non-empty `HOME`.
pub open spec fn program_dirs_of(home: Option<Seq<char>>) -> Seq<(AppSource, Seq<char>)> {
    let system = seq![(AppSource::System, "/Applications"@)];
    match home {
        Some(h) => if h.len() > 0 {
            seq![(AppSource::User, path_join(h, "Applications"@))] + system
        } else {
            system
        },
        None => system,
    }
}

/// The view of a list of directories.
pub open spec fn dirs_view(dirs: Seq<(AppSource, String)>) -> Seq<(AppSource, Seq<char>)> {
    dirs.map_values(|d: (AppSource, String)| (d.0, d.1@))
}

/// Directories scanned for programs, given the value of `HOME` (`None`
/// when unset): `~/Applications` first, then `/Applications`.
pub fn program_dirs(home: Option<&str>) -> (r: Vec<(AppSource, String)>)
    ensures
        dirs_view(r@) == program_dirs_of(match home {
            Some(h) => Some(h@),
            None => None,
        }),
{
    let mut dirs: Vec<(AppSource, String)> = Vec::new();
    if let Some(h) = home {
        let hc = chars_of(h);
        if hc.len() > 0 {
            dirs.push((AppSource::User, join(h, USER_APPLICATIONS_DIR)));
        }
    }
    dirs.push((AppSource::System, owned(SYSTEM_APPLICATIONS_DIR)));
    assert(dirs_view(dirs@) =~= program_dirs_of(match home {
        Some(h) => Some(h@),
        None => None,
    }));
    dirs
}

/// The string-valued members of a locale map as `(locale, name)` pairs,
/// in order.
pub open spec fn string_members(m: Seq<(String, Json)>) -> Seq<(Seq<char>, Seq<char>)>
    decreases m.len(),
{
    if m.len() == 0 {
        Seq::empty()
    } else {
        string_members(m.drop_last()) + match m.last().1 {
            Json::Str(s) => seq![(m.last().0@, s@)],
            _ => Seq::empty(),
        }
    }
}

/// Every known name of a parsed `Info.tontoo`: the string entries of the
/// `name` locale map, or one `"default"` entry for a plain string `name`;
/// none when `name` is missing or of another kind.
pub open spec fn names_of(info: Json) -> Seq<(Seq<char>, Seq<char>)> {
    match info.field("name"@) {
        Some(name) => match name {
            Json::Str(s) => seq![("default"@, s@)],
            Json::Object(m) => string_members(m@),
            _ => Seq::empty(),
        },
        None => Seq::empty(),
    }
}

/// The view of a list of `(locale, name)` pairs.
pub open spec fn names_view(names: Seq<(String, String)>) -> Seq<(Seq<char>, Seq<char>)> {
    names.map_values(|p: (String, String)| (p.0@, p.1@))
}

/// Every known name of a parsed `Info.tontoo` (see [`names_of`]).
pub fn all_names(info: &Json) -> (r: Vec<(String, String)>)
    ensures
        names_view(r@) == names_of(*info),
{
    let mut names: Vec<(String, String)> = Vec::new();
    match info.get("name") {
        Some(Json::Str(text)) => {
            names.push((owned("default"), text.clone()));
            assert(names_view(names@) =~= names_of(*info));
        },
        Some(Json::Object(m)) => {
            let mut i: usize = 0;
            assert(m@.take(0) =~= Seq::<(String, Json)>::empty());
            while i < m.len()
                invariant
                    i <= m@.len(),
                    names_view(names@) == string_members(m@.take(i as int)),
                decreases m@.len() - i,
            {
                let ghost before = names@;
                if let Json::Str(text) = &m[i].1 {
                    names.push((m[i].0.clone(), text.clone()));
                }
                assert(m@.take(i + 1).drop_last() =~= m@.take(i as int));
                assert(names_view(names@) =~= string_members(m@.take(i + 1)));
                i = i + 1;
            }
            assert(m@.take(m@.len() as int) =~= m@);
        },
        _ => {
            assert(names_view(names@) =~= names_of(*info));
        },
    }
    names
}

/// Whether a directory entry is an app bundle: its name ends in `.app` and
/// it is a directory (an installed bundle) or a regular file (a zipped
/// bundle).
pub open spec fn is_app_bundle_spec(path: Seq<char>, is_dir: bool, is_file: bool) -> bool {
    (match path_file_name(path) {
        Some(n) => ends_with(n, ".app"@),
        None => false,
    }) && (is_dir || is_file)
}

/// Whether a directory entry is an app bundle (see [`is_app_bundle_spec`]).
pub fn is_app_bundle(path: &str, is_dir: bool, is_file: bool) -> (r: bool)
    ensures
        r == is_app_bundle_spec(path@, is_dir, is_file),
{
    let named = match file_name(path) {
        Some(n) => str_ends_with(n.as_str(), ".app"),
        None => false,
    };
    named && (is_dir || is_file)
}

/// The bundle id of a parsed `Info.tontoo` when it is a non-empty string.
pub open spec fn listed_bundle_id(info: Json) -> Option<Seq<char>> {
    match info.field_text("bundle_id"@) {
        Some(id) => if id.len() > 0 {
            Some(id)
        } else {
            None
        },
        None => None,
    }
}

/// The display name of a bundle at `path`: the localized name of its
/// `Info.tontoo`, else the file stem of the bundle path.
pub open spec fn display_name_of(info: Json, path: Seq<char>, locale: Locale) -> Option<Seq<char>> {
    match localized_name_of(info, locale) {
        Some(n) => Some(n),
        None => path_file_stem(path),
    }
}

/// The identity of a bundle at `path` with a parsed `Info.tontoo`: its
/// bundle id and display name, when it has both (see [`listed_bundle_id`]
/// and [`display_name_of`]).
pub open spec fn identity_of(info: Json, path: Seq<char>, locale: Locale) -> Option<
    (Seq<char>, Seq<char>),
> {
    match (listed_bundle_id(info), display_name_of(info, path, locale)) {
        (Some(id), Some(name)) => Some((id, name)),
        _ => None,
    }
}

/// The bundle id and display name of a bundle at `path`, or `None` when it
/// is not listed (see [`identity_of`]).
pub fn bundle_identity(info: &Json, path: &str, locale: Locale) -> (r: Option<(String, String)>)
    ensures
        match r {
            Some(p) => identity_of(*info, path@, locale) == Some((p.0@, p.1@)),
            None => identity_of(*info, path@, locale) is None,
        },
{
    let id = match info.get_str("bundle_id") {
        Some(id) => id,
        None => return None,
    };
    let idc = chars_of(id);
    if idc.len() == 0 {
        return None;
    }
    let name = match localized_name(info, locale) {
        Some(n) => n,
        None => match file_stem(path) {
            Some(s) => s,
            None => return None,
        },
    };
    Some((owned(id), name))
}

/// What a bundle directory holds.
pub struct DirectoryContents {
    /// Text of `Info.tontoo`; `None` when it is missing or unreadable.
    pub info_text: Option<String>,
    /// Whether each file of [`crate::icon::icon_candidates`] (for the bundle
    /// directory and the parsed `Info.tontoo`, see [`info_of`]) exists as a
    /// regular file.
    pub icon_present: Vec<bool>,
}

/// The parsed `Info.tontoo` of a bundle, given its text: none when there is
/// no text or it is not valid JSON.
pub open spec fn info_of(text: Option<String>) -> Option<Json> {
    match text {
        Some(t) => match parsed_json(t@) {
            Ok(j) => Some(j),
            Err(_) => None,
        },
        None => None,
    }
}

/// The parsed `Info.tontoo` of a bundle, given its text (see [`info_of`]).
pub fn parse_info(text: &Option<String>) -> (r: Option<Json>)
    ensures
        r == info_of(*text),
        r matches Some(j) ==> j.well_formed(),
{
    match text {
        Some(t) => match parse_json(t.as_str()) {
            Ok(j) => Some(j),
            Err(_) => None,
        },
        None => None,
    }
}

/// Whether `r` is what reading the bundle directory `bundle_dir` with
/// `contents` gives: nothing when its `Info.tontoo` is unusable or the
/// bundle has no identity (see [`identity_of`]); else the entry with that
/// identity, all names, the directory as bundle path and the icon resolved
/// in the directory.
pub open spec fn dir_bundle_read(
    r: Option<AppEntry>,
    bundle_dir: Seq<char>,
    source: AppSource,
    contents: DirectoryContents,
    locale: Locale,
) -> bool {
    match r {
        None => info_of(contents.info_text) is None || identity_of(info_of(contents.info_text)->0, bundle_dir, locale) is None,
        Some(e) => info_of(contents.info_text) matches Some(info) && identity_of(info, bundle_dir, locale) == Some(
            (e.bundle_id@, e.display_name@),
        ) && names_view(e.names@) == names_of(info) && e.bundle_path@ == bundle_dir && e.source
            == source && e.icon.bundle_id@ == e.bundle_id@ && e.icon.bundle_path@ == bundle_dir
            && e.icon.app_name@ == e.display_name@ && opt_text(e.icon.icon_path)
            == resolved_icon_path(bundle_dir, Some(info), contents.icon_present@),
    }
}

/// Read an installed bundle directory into an [`AppEntry`]: listed when its
/// `Info.tontoo` parses and carries a non-empty `bundle_id` and a display
/// name can be found; the icon is resolved inside the bundle directory.
pub fn read_dir_bundle(bundle_dir: &str, source: AppSource, contents: &DirectoryContents, locale: Locale) -> (r:
    Option<AppEntry>)
    ensures
        dir_bundle_read(r, bundle_dir@, source, *contents, locale),
{
    let parsed = parse_info(&contents.info_text);
    let info = match &parsed {
        Some(i) => i,
        None => return None,
    };
    let (bundle_id, display_name) = match bundle_identity(info, bundle_dir, locale) {
        Some(p) => p,
        None => return None,
    };
    let names = all_names(info);
    let icon = resolve_icon(
        bundle_dir,
        bundle_id.as_str(),
        display_name.as_str(),
        Some(info),
        contents.icon_present.as_slice(),
    );
    Some(AppEntry { bundle_id, names, display_name, bundle_path: owned(bundle_dir), source, icon })
}

/// Name of the bundle description file.
pub const INFO_FILE: &'static str = "Info.tontoo";

/// Whether an archive entry is a bundle description: `Info.tontoo` at the
/// root or in a directory.
pub open spec fn is_info_entry(name: Seq<char>) -> bool {
    name == "Info.tontoo"@ || ends_with(name, "/Info.tontoo"@)
}

/// The first bundle description among archive entry names, in archive order.
pub open spec fn first_info_entry(names: Seq<Seq<char>>) -> Option<Seq<char>>
    decreases names.len(),
{
    if names.len() == 0 {
        None
    } else if is_info_entry(names[0]) {
        Some(names[0])
    } else {
        first_info_entry(names.drop_first())
    }
}

/// The first `Info.tontoo` entry among the names of a zipped bundle's
/// entries (in archive order).
pub fn zip_info_entry(names: &[String]) -> (r: Option<String>)
    ensures
        opt_text(r) == first_info_entry(names@.map_values(|n: String| n@)),
{
    let ghost all = names@.map_values(|n: String| n@);
    let mut i: usize = 0;
    assert(all.skip(0) =~= all);
    while i < names.len()
        invariant
            all == names@.map_values(|n: String| n@),
            i <= names@.len(),
            first_info_entry(all) == first_info_entry(all.skip(i as int)),
        decreases names@.len() - i,
    {
        let n = names[i].as_str();
        assert(all.skip(i as int)[0] == n@);
        if str_equal(n, INFO_FILE) || str_ends_with(n, "/Info.tontoo") {
            return Some(names[i].clone());
        }
        assert(all.skip(i as int).drop_first() =~= all.skip(i + 1));
        i = i + 1;
    }
    None
}

/// The directory prefix of a bundle description entry: the entry name
/// without its trailing `Info.tontoo` (the part before the last
/// occurrence of `Info.tontoo`).
pub open spec fn entry_prefix(name: Seq<char>) -> Seq<char> {
    name.subrange(0, name.len() - "Info.tontoo"@.len())
}

/// The directory prefix of a bundle description entry (see [`entry_prefix`]).
pub fn zip_entry_prefix(name: &str) -> (r: String)
    requires
        is_info_entry(name@),
    ensures
        r@ == entry_prefix(name@),
{
    proof {
        reveal_strlit("Info.tontoo");
        reveal_strlit("/Info.tontoo");
    }
    let cs = chars_of(name);
    let keep: usize = cs.len() - 11;
    let mut out: Vec<char> = Vec::new();
    let mut i: usize = 0;
    while i < keep
        invariant
            cs@ == name@,
            keep <= cs@.len(),
            i <= keep,
            out@ == cs@.subrange(0, i as int),
        decreases keep - i,
    {
        out.push(cs[i]);
        i = i + 1;
        assert(out@ =~= cs@.subrange(0, i as int));
    }
    string_of(out.as_slice())
}

/// The entries probed for the icon of a zipped bundle, in order: the
/// `icon` field (when there is one), then every probe file, each behind the
/// bundle's directory prefix.
pub open spec fn zip_icon_candidates_of(prefix: Seq<char>, info: Json) -> Seq<Seq<char>> {
    let field: Seq<Seq<char>> = match icon_field_of(info) {
        Some(rel) => seq![prefix + rel],
        None => Seq::empty(),
    };
    field + probe_files().map_values(|p: Seq<char>| prefix + p)
}

/// The entries probed for the icon of a zipped bundle (see
/// [`zip_icon_candidates_of`]).
pub fn zip_icon_candidates(prefix: &str, info: &Json) -> (r: Vec<String>)
    ensures
        r@.map_values(|c: String| c@) == zip_icon_candidates_of(prefix@, *info),
{
    let ghost all = zip_icon_candidates_of(prefix@, *info);
    let mut r: Vec<String> = Vec::new();
    match icon_field(info) {
        Some(rel) => r.push(concat(prefix, rel.as_str())),
        None => {},
    }
    let ghost head = r@.len();
    let probes = icon_probe_files();
    let mut k: usize = 0;
    while k < probes.len()
        invariant
            head <= 1,
            all == zip_icon_candidates_of(prefix@, *info),
            head == all.len() - probe_files().len(),
            probes@.len() == probe_files().len(),
            forall|i: int| 0 <= i < probes@.len() ==> #[trigger] probes@[i]@ == probe_files()[i],
            k <= probes@.len(),
            r@.len() == head + k,
            forall|i: int| 0 <= i < r@.len() ==> #[trigger] r@[i]@ == all[i],
        decreases probes@.len() - k,
    {
        r.push(concat(prefix, probes[k].as_str()));
        k = k + 1;
    }
    assert(r@.map_values(|c: String| c@) =~= all);
    r
}

/// What probing one icon candidate of a zipped bundle found.
#[derive(Debug)]
pub enum IconProbe {
    /// The entry is not a file in the archive.
    Missing,
    /// The entry is a file but could not be extracted.
    Failed,
    /// The entry was extracted to this file.
    Extracted(String),
}

/// The next step of the icon search in a zipped bundle.
#[derive(Debug)]
pub enum IconStep {
    /// Probe the candidate at this index of [`zip_icon_candidates`].
    Probe(usize),
    /// The search is over, with the extracted icon file, if any.
    Done(Option<String>),
}

/// The first step of the icon search among `count` candidates: probe the
/// first one, or stop with no icon when there are none.
pub fn first_icon_step(count: usize) -> (r: IconStep)
    ensures
        count > 0 ==> (r matches IconStep::Probe(i) && i == 0),
        count == 0 ==> (r matches IconStep::Done(None)),
{
    if count > 0 {
        IconStep::Probe(0)
    } else {
        IconStep::Done(None)
    }
}

/// The step after probing candidate `i` of `count`: an extracted candidate
/// ends the search with its file; otherwise the next candidate is probed,
/// and after the last one the search ends with no icon.
pub fn next_icon_step(count: usize, i: usize, probe: IconProbe) -> (r: IconStep)
    requires
        i < count,
    ensures
        match probe {
            IconProbe::Extracted(f) => r matches IconStep::Done(Some(g)) && g@ == f@,
            _ => if i + 1 < count {
                r matches IconStep::Probe(j) && j == i + 1
            } else {
                r matches IconStep::Done(None)
            },
        },
{
    match probe {
        IconProbe::Extracted(f) => IconStep::Done(Some(f)),
        _ => if i + 1 < count {
            IconStep::Probe(i + 1)
        } else {
            IconStep::Done(None)
        },
    }
}

/// A bundle id character kept in a file name: ASCII letters and digits
/// stay, anything else becomes `-`.
pub open spec fn safe_char(c: char) -> char {
    if ('0' <= c && c <= '9') || ('a' <= c && c <= 'z') || ('A' <= c && c <= 'Z') {
        c
    } else {
        '-'
    }
}

/// Where the icon entry `rel` of the zipped bundle `bundle_id` is
/// extracted: `<temp>/tontoo-corewindows-icons/<safe bundle id>/<rel>`.
pub open spec fn icon_cache_path_of(temp_dir: Seq<char>, bundle_id: Seq<char>, rel: Seq<char>) -> Seq<
    char,
> {
    path_join(
        path_join(
            path_join(temp_dir, "tontoo-corewindows-icons"@),
            bundle_id.map_values(|c: char| safe_char(c)),
        ),
        rel,
    )
}

/// Where an icon entry of a zipped bundle is extracted (see
/// [`icon_cache_path_of`]).
pub fn icon_cache_path(temp_dir: &str, bundle_id: &str, rel: &str) -> (r: String)
    ensures
        r@ == icon_cache_path_of(temp_dir@, bundle_id@, rel@),
{
    let cs = chars_of(bundle_id);
    let mut safe: Vec<char> = Vec::new();
    let mut i: usize = 0;
    while i < cs.len()
        invariant
            cs@ == bundle_id@,
            i <= cs@.len(),
            safe@ == cs@.subrange(0, i as int).map_values(|c: char| safe_char(c)),
        decreases cs@.len() - i,
    {
        let c = cs[i];
        let keep = ('0' <= c && c <= '9') || ('a' <= c && c <= 'z') || ('A' <= c && c <= 'Z');
        safe.push(if keep { c } else { '-' });
        i = i + 1;
        assert(safe@ =~= cs@.subrange(0, i as int).map_values(|c: char| safe_char(c)));
    }
    assert(cs@.subrange(0, cs@.len() as int) =~= cs@);
    let safe_id = string_of(safe.as_slice());
    let root = join(temp_dir, "tontoo-corewindows-icons");
    let dir = join(root.as_str(), safe_id.as_str());
    join(dir.as_str(), rel)
}

/// Whether the zipped bundle was modified after its cached icon extract:
/// when either modification time is unknown, it counts as newer.
pub open spec fn bundle_newer(zip_modified: Option<i128>, cache_modified: Option<i128>) -> bool {
    match (zip_modified, cache_modified) {
        (Some(z), Some(c)) => z > c,
        _ => true,
    }
}

/// Whether a cached icon extract can be reused: it is a regular file and
/// the bundle is not newer than it (times in nanoseconds from the epoch).
pub fn cached_icon_usable(cached_is_file: bool, zip_modified: Option<i128>, cache_modified: Option<i128>) -> (r:
    bool)
    ensures
        r == (cached_is_file && !bundle_newer(zip_modified, cache_modified)),
{
    let newer = match (zip_modified, cache_modified) {
        (Some(z), Some(c)) => z > c,
        _ => true,
    };
    cached_is_file && !newer
}

/// What a zipped bundle holds.
pub struct ArchiveContents {
    /// Text of the `Info.tontoo` entry (see [`zip_info_entry`]); `None` when
    /// the file is not a readable zip archive, has no such entry, or the
    /// entry is unreadable.
    pub info_text: Option<String>,
    /// The extracted icon file: the first entry of [`zip_icon_candidates`]
    /// that is a file in the archive and could be extracted, if any (the
    /// search that [`first_icon_step`] and [`next_icon_step`] drive).
    pub icon_file: Option<String>,
}

/// Whether `r` is what reading the zipped bundle `zip_path` with
/// `contents` gives: nothing when its `Info.tontoo` is unusable or the
/// bundle has no identity (see [`identity_of`]); else the entry with that
/// identity, all names, the archive as bundle path and the extracted icon.
pub open spec fn zip_bundle_read(
    r: Option<AppEntry>,
    zip_path: Seq<char>,
    source: AppSource,
    contents: ArchiveContents,
    locale: Locale,
) -> bool {
    match r {
        None => info_of(contents.info_text) is None || identity_of(info_of(contents.info_text)->0, zip_path, locale) is None,
        Some(e) => info_of(contents.info_text) matches Some(info) && identity_of(info, zip_path, locale) == Some(
            (e.bundle_id@, e.display_name@),
        ) && names_view(e.names@) == names_of(info) && e.bundle_path@ == zip_path && e.source
            == source && e.icon.bundle_id@ == e.bundle_id@ && e.icon.bundle_path@ == zip_path
            && e.icon.app_name@ == e.display_name@ && opt_text(e.icon.icon_path) == opt_text(
            contents.icon_file,
        ),
    }
}

/// Read a zipped `.app` file into an [`AppEntry`]: listed when its
/// `Info.tontoo` entry parses and carries a non-empty `bundle_id` and a
/// display name can be found. The bundle path is the `.app` file itself.
pub fn read_zip_bundle(zip_path: &str, source: AppSource, contents: &ArchiveContents, locale: Locale) -> (r:
    Option<AppEntry>)
    ensures
        zip_bundle_read(r, zip_path@, source, *contents, locale),
{
    let parsed = parse_info(&contents.info_text);
    let info = match &parsed {
        Some(i) => i,
        None => return None,
    };
    let (bundle_id, display_name) = match bundle_identity(info, zip_path, locale) {
        Some(p) => p,
        None => return None,
    };
    let names = all_names(info);
    let icon_path = match &contents.icon_file {
        Some(f) => Some(f.clone()),
        None => None,
    };
    let icon = AppIcon {
        bundle_id: bundle_id.clone(),
        bundle_path: owned(zip_path),
        icon_path,
        app_name: display_name.clone(),
    };
    Some(AppEntry { bundle_id, names, display_name, bundle_path: owned(zip_path), source, icon })
}

/// What an app bundle holds: a bundle directory or a zipped bundle.
pub enum BundleContents {
    /// An installed bundle directory.
    Directory(DirectoryContents),
    /// A zipped `.app` file.
    Archive(ArchiveContents),
}

/// Read an app bundle of either kind into an [`AppEntry`].
pub fn read_app(bundle: &str, source: AppSource, contents: &BundleContents, locale: Locale) -> (r: Option<
    AppEntry,
>)
    ensures
        match *contents {
            BundleContents::Directory(d) => dir_bundle_read(r, bundle@, source, d, locale),
            BundleContents::Archive(a) => zip_bundle_read(r, bundle@, source, a, locale),
        },
{
    match contents {
        BundleContents::Directory(d) => read_dir_bundle(bundle, source, d, locale),
        BundleContents::Archive(a) => read_zip_bundle(bundle, source, a, locale),
    }
}

/// One entry of an applications directory listing.
pub struct DirEntry {
    /// File name of the entry in the directory.
    pub name: String,
    /// Whether the entry is a directory.
    pub is_dir: bool,
    /// Whether the entry is a regular file.
    pub is_file: bool,
    /// What the entry holds, read for app bundles (see [`is_app_bundle`]);
    /// `None` when it was not read.
    pub contents: Option<BundleContents>,
}

/// Whether the entry `e` of directory `dir` is an app bundle.
pub open spec fn is_bundle_entry(dir: Seq<char>, e: DirEntry) -> bool {
    is_app_bundle_spec(path_join(dir, e.name@), e.is_dir, e.is_file)
}

/// Whether `r` is what reading the entry `e` of directory `dir` gives (see
/// [`read_app`]); an entry whose contents were not read gives nothing.
pub open spec fn entry_read(r: Option<AppEntry>, dir: Seq<char>, e: DirEntry, source: AppSource, locale: Locale) -> bool {
    let path = path_join(dir, e.name@);
    match e.contents {
        Some(BundleContents::Directory(d)) => dir_bundle_read(r, path, source, d, locale),
        Some(BundleContents::Archive(a)) => zip_bundle_read(r, path, source, a, locale),
        None => r is None,
    }
}

/// Whether `entries` are the programs of directory `dir` with `listing`,
/// in listing order: `idx[k]` is the listing entry the `k`-th program was
/// read from, an app bundle; every entry not in `idx` is no app bundle or
/// reads as nothing.
pub open spec fn listed_in(
    entries: Seq<AppEntry>,
    dir: Seq<char>,
    listing: Seq<DirEntry>,
    idx: Seq<int>,
    source: AppSource,
    locale: Locale,
) -> bool {
    &&& idx.len() == entries.len()
    &&& forall|k: int| 0 <= k < idx.len() ==> 0 <= #[trigger] idx[k] < listing.len()
    &&& forall|k: int|
        #![trigger idx[k]]
        0 <= k < idx.len() ==> is_bundle_entry(dir, listing[idx[k]]) && entry_read(
            Some(entries[k]),
            dir,
            listing[idx[k]],
            source,
            locale,
        )
    &&& forall|a: int, b: int| 0 <= a < b < idx.len() ==> #[trigger] idx[a] < #[trigger] idx[b]
    &&& forall|j: int|
        0 <= j < listing.len() && !idx.contains(j) ==> !is_bundle_entry(dir, #[trigger] listing[j])
            || entry_read(None, dir, listing[j], source, locale)
}

/// The programs of the applications directory `dir`, given its listing
/// (`None` when it could not be read): every app bundle in it (see
/// [`is_app_bundle`]) that reads as a program (see [`read_app`]), in
/// listing order; nothing for a directory that could not be read.
pub fn scan_listing(dir: &str, listing: Option<Vec<DirEntry>>, source: AppSource, locale: Locale) -> (r:
    Vec<AppEntry>)
    ensures
        listing is None ==> r@.len() == 0,
        listing matches Some(es) ==> exists|idx: Seq<int>| listed_in(r@, dir@, es@, idx, source, locale),
{
    let found = match listing {
        Some(es) => es,
        None => return Vec::new(),
    };
    let mut r: Vec<AppEntry> = Vec::new();
    let ghost mut idx: Seq<int> = Seq::empty();
    let mut i: usize = 0;
    while i < found.len()
        invariant
            i <= found@.len(),
            idx.len() == r@.len(),
            forall|k: int| 0 <= k < idx.len() ==> 0 <= #[trigger] idx[k] < i,
            forall|k: int|
                #![trigger idx[k]]
                0 <= k < idx.len() ==> is_bundle_entry(dir@, found@[idx[k]]) && entry_read(
                    Some(r@[k]),
                    dir@,
                    found@[idx[k]],
                    source,
                    locale,
                ),
            forall|a: int, b: int| 0 <= a < b < idx.len() ==> #[trigger] idx[a] < #[trigger] idx[b],
            forall|j: int|
                0 <= j < i && !idx.contains(j) ==> !is_bundle_entry(dir@, #[trigger] found@[j])
                    || entry_read(None, dir@, found@[j], source, locale),
        decreases found@.len() - i,
    {
        let e = &found[i];
        let path = join(dir, e.name.as_str());
        let candidate = is_app_bundle(path.as_str(), e.is_dir, e.is_file);
        let read = if candidate {
            match &e.contents {
                Some(c) => read_app(path.as_str(), source, c, locale),
                None => None,
            }
        } else {
            None
        };
        assert(*e == found@[i as int]);
        assert(candidate == is_bundle_entry(dir@, found@[i as int]));
        assert(entry_read(read, dir@, found@[i as int], source, locale) || !candidate);
        match read {
            Some(a) => {
                assert(candidate);
                assert(entry_read(Some(a), dir@, found@[i as int], source, locale));
                let ghost old_idx = idx;
                let ghost old_r = r@;
                r.push(a);
                proof {
                    idx = idx.push(i as int);
                    assert forall|k: int| #![trigger idx[k]] 0 <= k < idx.len() implies is_bundle_entry(dir@, found@[idx[k]])
                        && entry_read(Some(r@[k]), dir@, found@[idx[k]], source, locale) by {
                        if k < old_idx.len() {
                            assert(r@[k] == old_r[k]);
                            assert(idx[k] == old_idx[k]);
                        } else {
                            assert(r@[k] == a);
                            assert(idx[k] == i);
                        }
                    }
                    assert forall|j: int| 0 <= j < i + 1 && !idx.contains(j) implies !is_bundle_entry(
                        dir@,
                        #[trigger] found@[j],
                    ) || entry_read(None, dir@, found@[j], source, locale) by {
                        if j < i {
                            if old_idx.contains(j) {
                                let k = choose|k: int| 0 <= k < old_idx.len() && old_idx[k] == j;
                                assert(idx[k] == j);
                            }
                        } else {
                            assert(idx[idx.len() - 1] == j);
                        }
                    }
                }
            },
            None => {
                proof {
                    assert forall|j: int| 0 <= j < i + 1 && !idx.contains(j) implies !is_bundle_entry(
                        dir@,
                        #[trigger] found@[j],
                    ) || entry_read(None, dir@, found@[j], source, locale) by {}
                }
            },
        }
        i = i + 1;
    }
    assert(listed_in(r@, dir@, found@, idx, source, locale));
    r
}

/// Lexicographic order of texts by code point (the order of `str`
/// comparison): `a` comes no later than `b`.
pub open spec fn text_le(a: Seq<char>, b: Seq<char>) -> bool
    decreases a.len(),
{
    if a.len() == 0 {
        true
    } else if b.len() == 0 {
        false
    } else if a[0] != b[0] {
        a[0] < b[0]
    } else {
        text_le(a.drop_first(), b.drop_first())
    }
}

pub proof fn lemma_text_le_reflexive(a: Seq<char>)
    ensures
        text_le(a, a),
    decreases a.len(),
{
    if a.len() > 0 {
        lemma_text_le_reflexive(a.drop_first());
    }
}

pub proof fn lemma_text_le_total(a: Seq<char>, b: Seq<char>)
    ensures
        text_le(a, b) || text_le(b, a),
    decreases a.len(),
{
    if a.len() > 0 && b.len() > 0 && a[0] == b[0] {
        lemma_text_le_total(a.drop_first(), b.drop_first());
    }
}

pub proof fn lemma_text_le_transitive(a: Seq<char>, b: Seq<char>, c: Seq<char>)
    requires
        text_le(a, b),
        text_le(b, c),
    ensures
        text_le(a, c),
    decreases a.len(),
{
    if a.len() > 0 && b.len() > 0 && c.len() > 0 && a[0] == b[0] && b[0] == c[0] {
        lemma_text_le_transitive(a.drop_first(), b.drop_first(), c.drop_first());
    }
}

/// `a` comes no later than `b` in code-point lexicographic order: `a` is a
/// prefix of `b`, or at the first index where they differ the character
/// of `a` is the smaller one.
pub open spec fn lex_no_later(a: Seq<char>, b: Seq<char>) -> bool {
    ||| (a.len() <= b.len() && b.subrange(0, a.len() as int) == a)
    ||| exists|k: int|
        0 <= k < a.len() && k < b.len() && a.subrange(0, k) == b.subrange(0, k) && #[trigger] a[k] < b[k]
}

/// [`text_le`] is code-point lexicographic order.
pub proof fn lemma_text_le_is_lex(a: Seq<char>, b: Seq<char>)
    requires
        text_le(a, b),
    ensures
        lex_no_later(a, b),
    decreases a.len(),
{
    if a.len() == 0 {
        assert(b.subrange(0, 0) =~= a);
    } else if a[0] != b[0] {
        assert(a.subrange(0, 0) =~= b.subrange(0, 0));
        assert(a[0] < b[0]);
    } else {
        let (a1, b1) = (a.drop_first(), b.drop_first());
        lemma_text_le_is_lex(a1, b1);
        if a1.len() <= b1.len() && b1.subrange(0, a1.len() as int) == a1 {
            assert(b.subrange(0, a.len() as int) =~= a) by {
                assert forall|i: int| 0 <= i < a.len() implies #[trigger] b.subrange(0, a.len() as int)[i] == a[i] by {
                    if i > 0 {
                        assert(b1.subrange(0, a1.len() as int)[i - 1] == a1[i - 1]);
                    }
                }
            }
        } else {
            let k = choose|k: int|
                0 <= k < a1.len() && k < b1.len() && a1.subrange(0, k) == b1.subrange(0, k) && #[trigger] a1[k]
                    < b1[k];
            assert(a.subrange(0, k + 1) =~= b.subrange(0, k + 1)) by {
                assert forall|i: int| 0 <= i < k + 1 implies #[trigger] a.subrange(0, k + 1)[i] == b.subrange(0, k + 1)[i] by {
                    if i > 0 {
                        assert(a1.subrange(0, k)[i - 1] == b1.subrange(0, k)[i - 1]);
                    }
                }
            }
            assert(a[k + 1] == a1[k] && b[k + 1] == b1[k]);
        }
    }
}

/// Programs are in code-point lexicographic order of their lowercased
/// display names.
pub open spec fn in_name_order(s: Seq<AppEntry>) -> bool {
    forall|i: int, j: int|
        0 <= i < j < s.len() ==> lex_no_later(lowercase((#[trigger] s[i]).display_name@), lowercase((#[trigger] s[j]).display_name@))
}

/// Programs sorted by their keys are in name order.
pub proof fn lemma_sorted_in_name_order(s: Seq<AppEntry>)
    requires
        sorted_by_name(s),
    ensures
        in_name_order(s),
{
    assert forall|i: int, j: int| 0 <= i < j < s.len() implies lex_no_later(
        lowercase((#[trigger] s[i]).display_name@),
        lowercase((#[trigger] s[j]).display_name@),
    ) by {
        assert(text_le(sort_key(s[i]), sort_key(s[j])));
        lemma_text_le_is_lex(sort_key(s[i]), sort_key(s[j]));
    }
}

/// Whether `a` comes no later than `b` (see [`text_le`]).
pub fn text_le_exec(a: &str, b: &str) -> (r: bool)
    ensures
        r == text_le(a@, b@),
{
    let ca = chars_of(a);
    let cb = chars_of(b);
    let mut i: usize = 0;
    assert(ca@.skip(0) =~= ca@);
    assert(cb@.skip(0) =~= cb@);
    while i < ca.len() && i < cb.len() && ca[i] == cb[i]
        invariant
            ca@ == a@,
            cb@ == b@,
            i <= ca@.len(),
            i <= cb@.len(),
            text_le(a@, b@) == text_le(ca@.skip(i as int), cb@.skip(i as int)),
        decreases ca@.len() - i,
    {
        assert(ca@.skip(i as int).drop_first() =~= ca@.skip(i + 1));
        assert(cb@.skip(i as int).drop_first() =~= cb@.skip(i + 1));
        i = i + 1;
    }
    if i == ca.len() {
        true
    } else if i == cb.len() {
        false
    } else {
        assert(ca@.skip(i as int)[0] == ca@[i as int]);
        assert(cb@.skip(i as int)[0] == cb@[i as int]);
        ca[i] < cb[i]
    }
}

/// The sort key of a program: its display name in lowercase.
pub open spec fn sort_key(e: AppEntry) -> Seq<char> {
    lowercase(e.display_name@)
}

/// Whether programs are in order of their sort keys.
pub open spec fn sorted_by_name(s: Seq<AppEntry>) -> bool {
    forall|i: int, j: int| 0 <= i < j < s.len() ==> text_le(sort_key(#[trigger] s[i]), sort_key(#[trigger] s[j]))
}

/// The programs of `s` whose sort key is `k`, in order.
pub open spec fn with_key(s: Seq<AppEntry>, k: Seq<char>) -> Seq<AppEntry>
    decreases s.len(),
{
    if s.len() == 0 {
        Seq::empty()
    } else {
        with_key(s.drop_last(), k) + if sort_key(s.last()) == k {
            seq![s.last()]
        } else {
            Seq::empty()
        }
    }
}

pub proof fn lemma_with_key_append(a: Seq<AppEntry>, b: Seq<AppEntry>, k: Seq<char>)
    ensures
        with_key(a + b, k) == with_key(a, k) + with_key(b, k),
    decreases b.len(),
{
    if b.len() == 0 {
        assert(a + b =~= a);
        assert(with_key(a, k) + with_key(b, k) =~= with_key(a, k));
    } else {
        lemma_with_key_append(a, b.drop_last(), k);
        assert((a + b).drop_last() =~= a + b.drop_last());
        assert((a + b).last() == b.last());
        assert(with_key(a + b, k) =~= with_key(a, k) + with_key(b, k));
    }
}

pub proof fn lemma_with_key_none(b: Seq<AppEntry>, k: Seq<char>)
    requires
        forall|i: int| 0 <= i < b.len() ==> sort_key(#[trigger] b[i]) != k,
    ensures
        with_key(b, k) == Seq::<AppEntry>::empty(),
    decreases b.len(),
{
    if b.len() > 0 {
        assert forall|i: int| 0 <= i < b.drop_last().len() implies sort_key(#[trigger] b.drop_last()[i]) != k by {
            assert(b.drop_last()[i] == b[i]);
        }
        lemma_with_key_none(b.drop_last(), k);
        assert(sort_key(b[b.len() - 1]) != k);
        assert(with_key(b, k) =~= Seq::<AppEntry>::empty());
    }
}

pub proof fn lemma_with_key_single(x: AppEntry, k: Seq<char>)
    ensures
        with_key(seq![x], k) == if sort_key(x) == k { seq![x] } else { Seq::<AppEntry>::empty() },
{
    assert(seq![x].drop_last() =~= Seq::<AppEntry>::empty());
    assert(with_key(Seq::<AppEntry>::empty(), k) =~= Seq::<AppEntry>::empty());
    assert(seq![x].last() == x);
    assert(with_key(seq![x], k) =~= if sort_key(x) == k { seq![x] } else { Seq::<AppEntry>::empty() });
}

/// Inserting `x` into the sorted `out` behind every program whose key
/// comes no later than its own keeps `out` sorted and appends `x` to the
/// programs with its key.
proof fn lemma_insert_sorted(out: Seq<AppEntry>, p: int, x: AppEntry)
    requires
        sorted_by_name(out),
        0 <= p <= out.len(),
        forall|i: int| 0 <= i < p ==> text_le(sort_key(#[trigger] out[i]), sort_key(x)),
        p < out.len() ==> !text_le(sort_key(out[p]), sort_key(x)),
    ensures
        sorted_by_name(out.insert(p, x)),
        forall|k: Seq<char>| #[trigger] with_key(out.insert(p, x), k) == with_key(out, k) + if sort_key(x) == k {
            seq![x]
        } else {
            Seq::<AppEntry>::empty()
        },
{
    let n = out.insert(p, x);
    // Every program from `p` on comes strictly after `x`.
    assert forall|j: int| p <= j < out.len() implies !text_le(sort_key(#[trigger] out[j]), sort_key(x)) by {
        if j > p && text_le(sort_key(out[j]), sort_key(x)) {
            lemma_text_le_transitive(sort_key(out[p]), sort_key(out[j]), sort_key(x));
        }
    }
    assert forall|i: int, j: int| 0 <= i < j < n.len() implies text_le(sort_key(#[trigger] n[i]), sort_key(#[trigger] n[j])) by {
        if i < p && j == p {
        } else if i == p {
            lemma_text_le_total(sort_key(out[j - 1]), sort_key(x));
        } else if j < p {
        } else if i < p {
            assert(text_le(sort_key(out[i]), sort_key(out[j - 1])));
        } else {
            assert(text_le(sort_key(out[i - 1]), sort_key(out[j - 1])));
        }
    }
    assert(n =~= out.take(p) + seq![x] + out.skip(p));
    assert(out =~= out.take(p) + out.skip(p));
    assert forall|k: Seq<char>| #[trigger] with_key(out.insert(p, x), k) == with_key(out, k) + if sort_key(x) == k {
        seq![x]
    } else {
        Seq::<AppEntry>::empty()
    } by {
        lemma_with_key_append(out.take(p) + seq![x], out.skip(p), k);
        lemma_with_key_append(out.take(p), seq![x], k);
        lemma_with_key_append(out.take(p), out.skip(p), k);
        lemma_with_key_single(x, k);
        if sort_key(x) == k {
            assert forall|i: int| 0 <= i < out.skip(p).len() implies sort_key(#[trigger] out.skip(p)[i]) != k by {
                assert(out.skip(p)[i] == out[p + i]);
                lemma_text_le_reflexive(sort_key(x));
            }
            lemma_with_key_none(out.skip(p), k);
            assert(with_key(out, k) == with_key(out.take(p), k) + Seq::<AppEntry>::empty());
            assert(with_key(out.take(p), k) + Seq::<AppEntry>::empty() =~= with_key(out.take(p), k));
        } else {
            assert(with_key(out.take(p), k) + Seq::<AppEntry>::empty() =~= with_key(out.take(p), k));
            assert(with_key(out, k) + Seq::<AppEntry>::empty() =~= with_key(out, k));
        }
    }
}

/// Sorts programs by display name, case-insensitively (see [`sort_key`]),
/// keeping programs with equal keys in their given order: the result is
/// sorted and, for every key, lists exactly the given programs with that
/// key in their given order.
pub fn sort_by_name(entries: Vec<AppEntry>) -> (r: Vec<AppEntry>)
    ensures
        sorted_by_name(r@),
        in_name_order(r@),
        forall|k: Seq<char>| #[trigger] with_key(r@, k) == with_key(entries@, k),
{
    let ghost orig = entries@;
    let mut rest = entries;
    let mut out: Vec<AppEntry> = Vec::new();
    let mut done: usize = 0;
    let total = rest.len();
    assert(orig.skip(0) =~= orig);
    assert(orig.take(0) =~= Seq::<AppEntry>::empty());
    while rest.len() > 0
        invariant
            done <= orig.len(),
            orig.len() <= usize::MAX,
            done + rest@.len() == orig.len(),
            rest@ == orig.skip(done as int),
            sorted_by_name(out@),
            forall|k: Seq<char>| #[trigger] with_key(out@, k) == with_key(orig.take(done as int), k),
        decreases rest@.len(),
    {
        let x = rest.remove(0);
        assert(x == orig[done as int]);
        let key = to_lowercase(x.display_name.as_str());
        let mut p: usize = 0;
        while p < out.len() && text_le_exec(to_lowercase(out[p].display_name.as_str()).as_str(), key.as_str())
            invariant
                p <= out@.len(),
                key@ == sort_key(x),
                forall|i: int| 0 <= i < p ==> text_le(sort_key(#[trigger] out@[i]), sort_key(x)),
            decreases out@.len() - p,
        {
            p = p + 1;
        }
        proof {
            lemma_insert_sorted(out@, p as int, x);
            assert(orig.take(done + 1) =~= orig.take(done as int) + seq![x]);
            assert forall|k: Seq<char>| #[trigger] with_key(orig.take(done + 1), k) == with_key(orig.take(done as int), k) + if sort_key(x) == k {
                seq![x]
            } else {
                Seq::<AppEntry>::empty()
            } by {
                lemma_with_key_append(orig.take(done as int), seq![x], k);
                lemma_with_key_single(x, k);
            }
        }
        out.insert(p, x);
        done = done + 1;
        assert(rest@ =~= orig.skip(done as int));
    }
    assert(orig.take(done as int) =~= orig);
    proof {
        lemma_sorted_in_name_order(out@);
    }
    out
}

/// The programs of several scans, one after the other.
pub open spec fn flatten(scans: Seq<Vec<AppEntry>>) -> Seq<AppEntry>
    decreases scans.len(),
{
    if scans.len() == 0 {
        Seq::empty()
    } else {
        flatten(scans.drop_last()) + scans.last()@
    }
}

/// All installed programs from the scans of the program directories (see
/// [`program_dirs`], user directory first): sorted by display name,
/// case-insensitively, programs with equal names keeping their scan order.
pub fn list_programs(scans: Vec<Vec<AppEntry>>) -> (r: Vec<AppEntry>)
    ensures
        sorted_by_name(r@),
        in_name_order(r@),
        forall|k: Seq<char>| #[trigger] with_key(r@, k) == with_key(flatten(scans@), k),
{
    let ghost all = scans@;
    let mut scans = scans;
    let mut parts: Vec<Vec<AppEntry>> = Vec::new();
    // Take the scans apart from the back, then chain them from the front.
    while scans.len() > 0
        invariant
            all == scans@ + parts@.reverse(),
        decreases scans@.len(),
    {
        let part = scans.pop().unwrap();
        parts.push(part);
        assert(all =~= scans@ + parts@.reverse());
    }
    let mut entries: Vec<AppEntry> = Vec::new();
    let mut taken: usize = 0;
    let count = parts.len();
    assert(all.take(0) =~= Seq::<Vec<AppEntry>>::empty());
    while parts.len() > 0
        invariant
            all == all.take(taken as int) + parts@.reverse(),
            taken <= all.len(),
            taken + parts@.len() == all.len(),
            all.len() <= usize::MAX,
            entries@ == flatten(all.take(taken as int)),
        decreases parts@.len(),
    {
        let mut part = parts.pop().unwrap();
        let ghost piece = part@;
        assert(all.take(taken + 1) =~= all.take(taken as int).push(part));
        assert(all.take(taken + 1).drop_last() =~= all.take(taken as int));
        entries.append(&mut part);
        taken = taken + 1;
        assert(entries@ =~= flatten(all.take(taken as int)));
        assert(all =~= all.take(taken as int) + parts@.reverse());
    }
    assert(all.take(taken as int) =~= all);
    sort_by_name(entries)
}

} // verus!
