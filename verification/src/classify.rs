//! Toolkit classification of window rows and bundle identity.
use vstd::prelude::*;
use vstd::utf8::{decode_utf8, valid_utf8};

use crate::error::Locale;
use crate::json::{member, parse_json, parsed_json, Json};
use crate::text::{
    chars_of, ends_with, file_name, file_stem, lowercase, owned, parent, path_file_name,
    path_file_stem, path_parent, starts_with, str_equal, str_ends_with, str_starts_with,
    string_of, to_lowercase, trim, trimmed, utf8_decode,
};
use crate::types::{copy_opt, kind_of, opt_text, RawWindow, Toolkit, WindowRow, WindowType};

verus! {

/// Environment variable every TontooOS UI toolkit sets with its own id
/// (`UIKit`, `TontooUI`).
pub const TOOLKIT_ENV_VAR: &'static str = "TONTOO_TOOLKIT";

/// Toolkit id reported by UIKit apps.
pub const TOOLKIT_UIKIT: &'static str = "UIKit";

/// Toolkit id reported by TontooUI apps.
pub const TOOLKIT_TONTOOUI: &'static str = "TontooUI";

/// GTK application id used by every UIKit app.
pub const UIKIT_APP_ID: &'static str = "org.tontoo.uikit";

/// Bundle id prefix reserved for native TontooOS apps.
pub const TONTOO_BUNDLE_PREFIX: &'static str = "com.tontoo.";

/// The toolkit a normalized (trimmed, lowercase) marker names.
pub open spec fn marker_toolkit(s: Seq<char>) -> Option<Toolkit> {
    if s == "uikit"@ {
        Some(Toolkit::UIKit)
    } else if s == "tontoui"@ || s == "tontooui"@ || s == "tontoo-ui"@ || s == "tontoo_ui"@ || s
        == "tos"@ {
        Some(Toolkit::TontooUi)
    } else {
        None
    }
}

/// The toolkit a normalized (trimmed, lowercase) marker names:
/// `uikit` is UIKit; `tontoui`, `tontooui`, `tontoo-ui`, `tontoo_ui` and
/// `tos` are TontooUI; anything else names none.
pub fn toolkit_from_marker(s: &str) -> (r: Option<Toolkit>)
    ensures
        r == marker_toolkit(s@),
{
    if str_equal(s, "uikit") {
        Some(Toolkit::UIKit)
    } else if str_equal(s, "tontoui") || str_equal(s, "tontooui") || str_equal(s, "tontoo-ui")
        || str_equal(s, "tontoo_ui") || str_equal(s, "tos") {
        Some(Toolkit::TontooUi)
    } else {
        None
    }
}

/// The toolkit a raw marker value names, ignoring case and surrounding
/// whitespace.
pub open spec fn normalized_toolkit(value: Seq<char>) -> Option<Toolkit> {
    marker_toolkit(lowercase(trimmed(value)))
}

/// The toolkit a raw marker value names, ignoring case and surrounding
/// whitespace (see [`toolkit_from_marker`]).
pub fn marker_value_toolkit(value: &str) -> (r: Option<Toolkit>)
    ensures
        r == normalized_toolkit(value@),
{
    let trimmed_value = trim(value);
    let lower = to_lowercase(trimmed_value.as_str());
    toolkit_from_marker(lower.as_str())
}

/// The window type a raw toolkit marker value names, ignoring case and
/// surrounding whitespace: UIKit or TontooUI, or none.
pub fn normalize_toolkit(value: &str) -> (r: Option<WindowType>)
    ensures
        r == kind_of(normalized_toolkit(value@)),
{
    match marker_value_toolkit(value) {
        Some(t) => Some(t.window_type()),
        None => None,
    }
}

/// Index of the first NUL byte of `bytes`, or its length when there is none.
pub open spec fn first_nul(bytes: Seq<u8>) -> nat
    decreases bytes.len(),
{
    if bytes.len() == 0 {
        0
    } else if bytes[0] == 0 {
        0
    } else {
        1 + first_nul(bytes.drop_first())
    }
}

pub proof fn lemma_first_nul(bytes: Seq<u8>)
    ensures
        first_nul(bytes) <= bytes.len(),
        forall|j: int| 0 <= j < first_nul(bytes) ==> bytes[j] != 0,
        first_nul(bytes) < bytes.len() ==> bytes[first_nul(bytes) as int] == 0,
    decreases bytes.len(),
{
    if bytes.len() > 0 && bytes[0] != 0 {
        lemma_first_nul(bytes.drop_first());
        assert forall|j: int| 0 <= j < first_nul(bytes) implies bytes[j] != 0 by {
            if j > 0 {
                assert(bytes[j] == bytes.drop_first()[j - 1]);
            }
        }
    }
}

/// The toolkit marker in a NUL-separated environment block: the value
/// after `TONTOO_TOOLKIT=` of the first entry that is valid UTF-8 and
/// starts with it.
pub open spec fn environ_marker(bytes: Seq<u8>) -> Option<Seq<char>>
    decreases bytes.len(),
{
    let k = first_nul(bytes);
    let entry = bytes.subrange(0, k as int);
    if k <= bytes.len() && valid_utf8(entry) && starts_with(decode_utf8(entry), "TONTOO_TOOLKIT="@) {
        Some(decode_utf8(entry).skip("TONTOO_TOOLKIT="@.len() as int))
    } else if k < bytes.len() {
        environ_marker(bytes.skip(k + 1int))
    } else {
        None
    }
}

/// The entries of a NUL-separated block, as splitting at every NUL gives
/// them: the piece after the last NUL (possibly empty) is the last entry.
pub open spec fn nul_split(bytes: Seq<u8>) -> Seq<Seq<u8>>
    decreases bytes.len(),
{
    let k = first_nul(bytes);
    if k < bytes.len() {
        seq![bytes.subrange(0, k as int)] + nul_split(bytes.skip(k + 1int))
    } else {
        seq![bytes]
    }
}

/// The value after `TONTOO_TOOLKIT=` of the first entry that is valid
/// UTF-8 and starts with it.
pub open spec fn first_marker(entries: Seq<Seq<u8>>) -> Option<Seq<char>>
    decreases entries.len(),
{
    if entries.len() == 0 {
        None
    } else if valid_utf8(entries[0]) && starts_with(decode_utf8(entries[0]), "TONTOO_TOOLKIT="@) {
        Some(decode_utf8(entries[0]).skip("TONTOO_TOOLKIT="@.len() as int))
    } else {
        first_marker(entries.drop_first())
    }
}

/// The toolkit a process environment block (`/proc/<pid>/environ`) marks.
pub open spec fn environ_toolkit(bytes: Seq<u8>) -> Option<Toolkit> {
    match environ_marker(bytes) {
        Some(v) => normalized_toolkit(v),
        None => None,
    }
}

/// The entry of `bytes` that starts at `start` and ends before the next NUL.
fn entry_at(bytes: &[u8], start: usize) -> (r: (Vec<u8>, usize))
    requires
        start <= bytes@.len(),
    ensures
        r.1 == start + first_nul(bytes@.skip(start as int)),
        r.0@ == bytes@.skip(start as int).subrange(0, first_nul(bytes@.skip(start as int)) as int),
{
    proof { lemma_first_nul(bytes@.skip(start as int)); }
    let mut out: Vec<u8> = Vec::new();
    let mut i: usize = start;
    let ghost rest = bytes@.skip(start as int);
    while i < bytes.len() && bytes[i] != 0
        invariant
            start <= i <= bytes@.len(),
            rest == bytes@.skip(start as int),
            first_nul(rest) <= rest.len(),
            forall|j: int| 0 <= j < first_nul(rest) ==> rest[j] != 0,
            first_nul(rest) < rest.len() ==> rest[first_nul(rest) as int] == 0,
            i - start <= first_nul(rest),
            out@ == rest.subrange(0, i - start),
        decreases bytes@.len() - i,
    {
        assert(rest[i - start] == bytes@[i as int]);
        out.push(bytes[i]);
        i = i + 1;
        assert(out@ =~= rest.subrange(0, i - start));
    }
    assert(i - start == first_nul(rest)) by {
        if i - start < first_nul(rest) {
            assert(rest[i - start] == bytes@[i as int]);
        }
    }
    (out, i)
}

/// The toolkit a process environment block (`/proc/<pid>/environ`)
/// marks: the `TONTOO_TOOLKIT` value of its first valid UTF-8 entry that
/// sets it, normalized (see [`normalize_toolkit`]).
pub fn toolkit_from_environ(environ: &[u8]) -> (r: Option<Toolkit>)
    ensures
        r == environ_toolkit(environ@),
{
    let mut start: usize = 0;
    assert(environ@.skip(0) =~= environ@);
    loop
        invariant
            start <= environ@.len(),
            environ_marker(environ@) == environ_marker(environ@.skip(start as int)),
        decreases environ@.len() - start,
    {
        let ghost rest = environ@.skip(start as int);
        let (entry, end) = entry_at(environ, start);
        proof { lemma_first_nul(rest); }
        match utf8_decode(entry.as_slice()) {
            Some(text) => {
                if str_starts_with(text.as_str(), "TONTOO_TOOLKIT=") {
                    let cs = chars_of(text.as_str());
                    let marker_len: usize = 15;
                    proof { reveal_strlit("TONTOO_TOOLKIT="); }
                    let mut value: Vec<char> = Vec::new();
                    let mut i: usize = marker_len;
                    while i < cs.len()
                        invariant
                            marker_len <= i <= cs@.len(),
                            value@ == cs@.subrange(marker_len as int, i as int),
                        decreases cs@.len() - i,
                    {
                        value.push(cs[i]);
                        i = i + 1;
                        assert(value@ =~= cs@.subrange(marker_len as int, i as int));
                    }
                    assert(cs@.skip(15) =~= cs@.subrange(15, cs@.len() as int));
                    let v = string_of(value.as_slice());
                    return marker_value_toolkit(v.as_str());
                }
            },
            None => {},
        }
        if end >= environ.len() {
            return None;
        }
        assert(rest.skip(first_nul(rest) + 1int) =~= environ@.skip(end + 1));
        start = end + 1;
    }
}

/// Whether the final component of a path ends in `.app`.
pub open spec fn is_app_path(p: Seq<char>) -> bool {
    match path_file_name(p) {
        Some(n) => ends_with(n, ".app"@),
        None => false,
    }
}

/// Whether the final component of a path ends in `.app`.
pub fn has_app_name(p: &str) -> (r: bool)
    ensures
        r == is_app_path(p@),
{
    match file_name(p) {
        Some(n) => str_ends_with(n.as_str(), ".app"),
        None => false,
    }
}

/// The `k`-th ancestor of a path: `Path::parent` taken `k` times (the path
/// itself for `k == 0`), while there is one.
pub open spec fn ancestor(p: Seq<char>, k: nat) -> Option<Seq<char>>
    decreases k,
{
    if k == 0 {
        Some(p)
    } else {
        match ancestor(p, (k - 1) as nat) {
            Some(q) => path_parent(q),
            None => None,
        }
    }
}

/// The `k`-th ancestor of `p` exists and is named `*.app`.
pub open spec fn app_at(p: Seq<char>, k: nat) -> bool {
    ancestor(p, k) matches Some(a) && is_app_path(a)
}

/// The `k`-th ancestor of `p` is its nearest proper ancestor named
/// `*.app`.
pub open spec fn nearest_app(p: Seq<char>, k: nat) -> bool {
    k >= 1 && app_at(p, k) && forall|j: nat| 1 <= j < k ==> !#[trigger] app_at(p, j)
}

/// The owning `.app` bundle of an executable path: the executable itself
/// when it is named `*.app`, else its nearest ancestor directory named
/// `*.app`, else none.
pub open spec fn bundle_dir_of(exe_path: Seq<char>) -> Option<Seq<char>> {
    if is_app_path(exe_path) {
        Some(exe_path)
    } else if exists|k: nat| nearest_app(exe_path, k) {
        ancestor(exe_path, choose|k: nat| nearest_app(exe_path, k))
    } else {
        None
    }
}

/// There is one nearest `*.app` ancestor at most.
pub proof fn lemma_nearest_unique(p: Seq<char>, k: nat, m: nat)
    requires
        nearest_app(p, k),
        nearest_app(p, m),
    ensures
        k == m,
{
    if k < m {
        assert(!app_at(p, k));
    } else if m < k {
        assert(!app_at(p, m));
    }
}

/// When some proper ancestor is named `*.app`, a nearest one exists.
pub proof fn lemma_nearest_exists(p: Seq<char>, k: nat)
    requires
        k >= 1,
        app_at(p, k),
    ensures
        exists|m: nat| nearest_app(p, m),
    decreases k,
{
    if exists|j: nat| 1 <= j < k && app_at(p, j) {
        let j = choose|j: nat| 1 <= j < k && app_at(p, j);
        lemma_nearest_exists(p, j);
    } else {
        assert(nearest_app(p, k));
    }
}

/// Past a missing ancestor there are no more.
proof fn lemma_no_ancestor_after(p: Seq<char>, k: nat, j: nat)
    requires
        ancestor(p, k) is None,
        k <= j,
    ensures
        ancestor(p, j) is None,
    decreases j - k,
{
    if k < j {
        lemma_no_ancestor_after(p, k, (j - 1) as nat);
    }
}

/// The owning `.app` bundle of an executable path (see [`bundle_dir_of`]).
pub fn find_bundle_dir(exe_path: &str) -> (r: Option<String>)
    ensures
        opt_text(r) == bundle_dir_of(exe_path@),
{
    if has_app_name(exe_path) {
        return Some(owned(exe_path));
    }
    let ghost p = exe_path@;
    let mut current = parent(exe_path);
    let ghost mut k: nat = 1;
    assert(ancestor(p, 0) == Some(p));
    assert(ancestor(p, 1) == path_parent(p));
    loop
        invariant
            !is_app_path(p),
            p == exe_path@,
            k >= 1,
            opt_text(current) == ancestor(p, k),
            forall|j: nat| 1 <= j < k ==> !#[trigger] app_at(p, j),
        decreases match opt_text(current) {
            Some(d) => d.len() + 1,
            None => 0,
        },
    {
        match current {
            Some(dir) => {
                let up = parent(dir.as_str());
                assert(ancestor(p, k + 1) == path_parent(dir@));
                if has_app_name(dir.as_str()) {
                    assert(nearest_app(p, k));
                    proof {
                        let c = choose|m: nat| nearest_app(p, m);
                        lemma_nearest_unique(p, k, c);
                    }
                    return Some(dir);
                }
                assert(!app_at(p, k));
                current = up;
                proof {
                    k = k + 1;
                }
            },
            None => {
                assert forall|j: nat| j >= 1 implies !#[trigger] app_at(p, j) by {
                    if j >= k {
                        lemma_no_ancestor_after(p, k, j);
                    }
                }
                assert(!exists|m: nat| nearest_app(p, m));
                return None;
            },
        }
    }
}

/// The owning bundle of a process: its `.app` directory and parsed
/// `Info.tontoo`.
pub struct Bundle {
    /// Absolute bundle directory (`....app`).
    pub dir: String,
    /// Parsed `Info.tontoo` of the bundle.
    pub info: Json,
}

/// The bundle at `dir` with `Info.tontoo` text `info_text`: none when the
/// text is not valid JSON.
pub fn bundle_from_text(dir: String, info_text: &str) -> (r: Option<Bundle>)
    ensures
        match parsed_json(info_text@) {
            Ok(j) => r matches Some(b) && b.dir@ == dir@ && b.info == j,
            Err(_) => r is None,
        },
        r matches Some(b) ==> b.info.well_formed(),
{
    match parse_json(info_text) {
        Ok(info) => Some(Bundle { dir, info }),
        Err(_) => None,
    }
}

/// What the system says about the process that owns a window.
pub struct ProcessFacts {
    /// Toolkit marker of the process environment
    /// (see [`toolkit_from_environ`]), if any.
    pub toolkit: Option<Toolkit>,
    /// Owning `.app` bundle of the process executable, if it has one with a
    /// readable, valid `Info.tontoo`.
    pub bundle: Option<Bundle>,
    /// Whether each file of [`crate::icon::icon_candidates`] for the bundle
    /// directory and `Info.tontoo` exists as a regular file.
    pub icon_present: Vec<bool>,
}

impl ProcessFacts {
    /// No facts: a row without a process, or a process that is gone.
    pub fn none() -> (r: ProcessFacts)
        ensures
            r.toolkit is None,
            r.bundle is None,
            r.icon_present@.len() == 0,
    {
        ProcessFacts { toolkit: None, bundle: None, icon_present: Vec::new() }
    }
}

/// Classification result for one raw window row.
#[derive(Debug)]
pub struct Classification {
    /// Toolkit classification (see [`WindowType`]).
    pub window_type: WindowType,
    /// Bundle id from the owning `.app` `Info.tontoo`, if any.
    pub bundle_id: Option<String>,
    /// Display name (localized bundle name, bundle dir name, title or
    /// app id, whichever is available first).
    pub app_name: Option<String>,
    /// Owning `.app` bundle directory, if the process runs from one.
    pub bundle_dir: Option<String>,
    /// Parsed `Info.tontoo` of the owning bundle, if any.
    pub bundle_info: Option<Json>,
}

/// Localized bundle display name of a parsed `Info.tontoo`: `name` is
/// either a plain string or a locale map, resolved with `locale` first,
/// then `en_us`, then the first entry; the chosen entry must be a string.
pub open spec fn localized_name_of(info: Json, locale: Locale) -> Option<Seq<char>> {
    match info.field("name"@) {
        Some(name) => match name {
            Json::Str(s) => Some(s@),
            Json::Object(names) => {
                let pick = match member(names@, locale.key()) {
                    Some(v) => Some(v),
                    None => match member(names@, "en_us"@) {
                        Some(v) => Some(v),
                        None => if names@.len() > 0 {
                            Some(names@[0].1)
                        } else {
                            None
                        },
                    },
                };
                match pick {
                    Some(v) => v.text(),
                    None => None,
                }
            },
            _ => None,
        },
        None => None,
    }
}

/// Localized bundle display name of a parsed `Info.tontoo` (see
/// [`localized_name_of`]).
pub fn localized_name(info: &Json, locale: Locale) -> (r: Option<String>)
    ensures
        opt_text(r) == localized_name_of(*info, locale),
{
    let name = match info.get("name") {
        Some(n) => n,
        None => return None,
    };
    if let Json::Str(s) = name {
        return Some(s.clone());
    }
    let names = match name {
        Json::Object(names) => names,
        _ => return None,
    };
    let pick = match name.get(locale.as_str()) {
        Some(v) => Some(v),
        None => match name.get("en_us") {
            Some(v) => Some(v),
            None => if names.len() > 0 {
                Some(&names[0].1)
            } else {
                None
            },
        },
    };
    match pick {
        Some(v) => match v.as_str() {
            Some(s) => Some(owned(s)),
            None => None,
        },
        None => None,
    }
}

/// The toolkit the process facts give for a row (only for a row with a
/// pid).
pub open spec fn row_toolkit(raw: WindowRow, facts: ProcessFacts) -> Option<WindowType> {
    if raw.pid is Some {
        kind_of(facts.toolkit)
    } else {
        None
    }
}

/// The bundle the process facts give for a row (only for a row with a pid).
pub open spec fn row_bundle(raw: WindowRow, facts: ProcessFacts) -> Option<Bundle> {
    if raw.pid is Some {
        facts.bundle
    } else {
        None
    }
}

/// The `bundle_id` string of a bundle's `Info.tontoo`.
pub open spec fn bundle_id_of(bundle: Option<Bundle>) -> Option<Seq<char>> {
    match bundle {
        Some(b) => b.info.field_text("bundle_id"@),
        None => None,
    }
}

/// The toolkit a bundle's `Info.tontoo` names in its `toolkit` field.
pub open spec fn info_toolkit(bundle: Option<Bundle>) -> Option<WindowType> {
    match bundle {
        Some(b) => match b.info.field_text("toolkit"@) {
            Some(t) => kind_of(normalized_toolkit(t)),
            None => None,
        },
        None => None,
    }
}

/// The toolkit type of a row, first hit wins:
/// 1. the process environment marker,
/// 2. the `toolkit` field of the owning bundle's `Info.tontoo`,
/// 3. a bundle id starting with `com.tontoo.` (TontooUI),
/// 4. the app id `org.tontoo.uikit` (UIKit),
/// 5. Linux for any row with app id, title or pid, else Unknown.
pub open spec fn window_type_of(raw: WindowRow, facts: ProcessFacts) -> WindowType {
    let bundle = row_bundle(raw, facts);
    match row_toolkit(raw, facts) {
        Some(t) => t,
        None => match info_toolkit(bundle) {
            Some(t) => t,
            None => if bundle_id_of(bundle) matches Some(id) && starts_with(id, "com.tontoo."@) {
                WindowType::TontooUi
            } else if raw.app_id == Some("org.tontoo.uikit"@) {
                WindowType::UIKit
            } else if raw.app_id is Some || raw.title is Some || raw.pid is Some {
                WindowType::Linux
            } else {
                WindowType::Unknown
            },
        },
    }
}

/// The display name of a row: the localized bundle name, the bundle
/// directory stem, the title or the app id, whichever is available first.
pub open spec fn app_name_of(raw: WindowRow, bundle: Option<Bundle>, locale: Locale) -> Option<
    Seq<char>,
> {
    let localized = match bundle {
        Some(b) => localized_name_of(b.info, locale),
        None => None,
    };
    let stem = match bundle {
        Some(b) => path_file_stem(b.dir@),
        None => None,
    };
    if localized is Some {
        localized
    } else if stem is Some {
        stem
    } else if raw.title is Some {
        raw.title
    } else {
        raw.app_id
    }
}

fn app_name_for(raw: &RawWindow, bundle: &Option<Bundle>, locale: Locale) -> (r: Option<String>)
    ensures
        opt_text(r) == app_name_of(raw@, *bundle, locale),
{
    if let Some(b) = bundle {
        if let Some(name) = localized_name(&b.info, locale) {
            return Some(name);
        }
        if let Some(stem) = file_stem(b.dir.as_str()) {
            return Some(stem);
        }
    }
    if raw.title.is_some() {
        return copy_opt(&raw.title);
    }
    copy_opt(&raw.app_id)
}

/// Classify one raw window row from what the system says about its process.
///
/// `facts` are consulted only when the row carries a pid. Detection order
/// for the type (first hit wins) is that of [`window_type_of`]; the name is
/// that of [`app_name_of`]; the bundle fields come from the owning bundle.
pub fn classify(raw: &RawWindow, facts: ProcessFacts, locale: Locale) -> (r: Classification)
    ensures
        r.window_type == window_type_of(raw@, facts),
        opt_text(r.bundle_id) == bundle_id_of(row_bundle(raw@, facts)),
        opt_text(r.app_name) == app_name_of(raw@, row_bundle(raw@, facts), locale),
        opt_text(r.bundle_dir) == match row_bundle(raw@, facts) {
            Some(b) => Some(b.dir@),
            None => None,
        },
        r.bundle_info == match row_bundle(raw@, facts) {
            Some(b) => Some(b.info),
            None => None,
        },
{
    let (toolkit, bundle) = if raw.pid.is_some() {
        (facts.toolkit, facts.bundle)
    } else {
        (None, None)
    };
    let mut window_type = match toolkit {
        Some(t) => Some(t.window_type()),
        None => None,
    };
    if window_type.is_none() {
        if let Some(b) = &bundle {
            window_type = match b.info.get_str("toolkit") {
                Some(t) => normalize_toolkit(t),
                None => None,
            };
        }
    }
    let bundle_id: Option<String> = match &bundle {
        Some(b) => match b.info.get_str("bundle_id") {
            Some(id) => Some(owned(id)),
            None => None,
        },
        None => None,
    };
    if window_type.is_none() {
        if let Some(id) = &bundle_id {
            if str_starts_with(id.as_str(), TONTOO_BUNDLE_PREFIX) {
                window_type = Some(WindowType::TontooUi);
            }
        }
    }
    if window_type.is_none() {
        if let Some(app_id) = &raw.app_id {
            if str_equal(app_id.as_str(), UIKIT_APP_ID) {
                window_type = Some(WindowType::UIKit);
            }
        }
    }
    let app_name = app_name_for(raw, &bundle, locale);
    let window_type = match window_type {
        Some(t) => t,
        None => if raw.app_id.is_some() || raw.title.is_some() || raw.pid.is_some() {
            WindowType::Linux
        } else {
            WindowType::Unknown
        },
    };
    let (bundle_dir, bundle_info) = match bundle {
        Some(b) => (Some(b.dir), Some(b.info)),
        None => (None, None),
    };
    Classification { window_type, bundle_id, app_name, bundle_dir, bundle_info }
}

} // verus!
