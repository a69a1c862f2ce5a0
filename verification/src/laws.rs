//! Properties that hold across the library's operations.
use vstd::prelude::*;

use crate::classify::{app_name_of, row_bundle, window_type_of, ProcessFacts};
use crate::error::{Failure, Locale, WindowsError};
use crate::icon::{icon_candidates_of, icon_field_opt, resolved_icon_path, first_present_from};
use crate::json::{lemma_member_index, member, member_index, names_distinct, Json, JsonNumber};
use crate::programs::{
    lemma_sorted_in_name_order, sorted_by_name,
    entry_read, is_bundle_entry, listed_in, names_of, string_members, AppEntry, AppSource, DirEntry,
};
use crate::provider::{
    enriched, find_row, force_quit_outcome, list_outcome, quit_target_outcome, ping_outcome, reply_outcome, request_line, Command, Exchange,
};
use crate::text::{lowercase, decimal, digit_char, ends_with, path_join};
use crate::rows::{finish_row, no_fields, row_of, take_member, take_members, RowFields};
use crate::types::{kind_of, opt_text, Toolkit, WindowInfo, WindowRow, WindowType};
use crate::classify::{
    environ_marker, environ_toolkit, first_marker, first_nul, lemma_first_nul, nul_split,
    ancestor, app_at, bundle_dir_of, is_app_path, lemma_nearest_exists, nearest_app, normalized_toolkit,
};

verus! {

/// When the daemon socket is missing, every daemon call fails with
/// `SocketMissing` carrying the socket path.
pub proof fn missing_socket_fails_every_call(socket_path: Seq<char>, id: u64)
    ensures
        reply_outcome(socket_path, Exchange::SocketMissing) == Err::<Json, Failure>(
            Failure::SocketMissing(socket_path),
        ),
        ping_outcome(socket_path, Exchange::SocketMissing) == Err::<bool, Failure>(
            Failure::SocketMissing(socket_path),
        ),
        list_outcome(socket_path, Exchange::SocketMissing) == Err::<Seq<WindowRow>, Failure>(
            Failure::SocketMissing(socket_path),
        ),
        force_quit_outcome(socket_path, id, Exchange::SocketMissing) == Err::<i32, Failure>(
            Failure::SocketMissing(socket_path),
        ),
{
}

proof fn decimal_has_no_newline(n: nat)
    ensures
        forall|i: int| 0 <= i < decimal(n).len() ==> decimal(n)[i] != '\n',
    decreases n,
{
    if n >= 10 {
        decimal_has_no_newline(n / 10);
        assert(digit_char(n % 10) != '\n');
        assert forall|i: int| 0 <= i < decimal(n).len() implies decimal(n)[i] != '\n' by {
            if i < decimal(n / 10).len() {
                assert(decimal(n)[i] == decimal(n / 10)[i]);
            }
        }
    } else {
        assert(digit_char(n) != '\n');
    }
}

/// Every request is one line: it ends with a newline and holds no other.
pub proof fn request_is_one_line(cmd: Command)
    ensures
        request_line(cmd).len() > 0,
        request_line(cmd).last() == '\n',
        forall|i: int| 0 <= i < request_line(cmd).len() - 1 ==> request_line(cmd)[i] != '\n',
{
    reveal_strlit("{\"id\":1,\"op\":\"ping\"}\n");
    reveal_strlit("{\"id\":1,\"op\":\"list_windows\"}\n");
    reveal_strlit("{\"id\":1,\"op\":\"minimize_window\",\"window\":");
    reveal_strlit("{\"id\":1,\"op\":\"restore_window\",\"window\":");
    reveal_strlit("{\"fullscreen\":true");
    reveal_strlit("{\"fullscreen\":false");
    reveal_strlit(",\"id\":1,\"op\":\"set_fullscreen\",\"window\":");
    reveal_strlit("{\"id\":1,\"op\":\"close_window\",\"window\":");
    reveal_strlit("}\n");
    match cmd {
        Command::MinimizeWindow(w) => decimal_has_no_newline(w as nat),
        Command::RestoreWindow(w) => decimal_has_no_newline(w as nat),
        Command::SetFullscreen(w, _) => decimal_has_no_newline(w as nat),
        Command::CloseWindow(w) => decimal_has_no_newline(w as nat),
        _ => {},
    }
    let line = request_line(cmd);
    assert forall|i: int| 0 <= i < line.len() - 1 implies line[i] != '\n' by {
        match cmd {
            Command::MinimizeWindow(w) => {
                let h = "{\"id\":1,\"op\":\"minimize_window\",\"window\":"@;
                if h.len() <= i < h.len() + decimal(w as nat).len() {
                    assert(line[i] == decimal(w as nat)[i - h.len()]);
                }
            },
            Command::RestoreWindow(w) => {
                let h = "{\"id\":1,\"op\":\"restore_window\",\"window\":"@;
                if h.len() <= i < h.len() + decimal(w as nat).len() {
                    assert(line[i] == decimal(w as nat)[i - h.len()]);
                }
            },
            Command::SetFullscreen(w, fs) => {
                let a = if fs { "{\"fullscreen\":true"@ } else { "{\"fullscreen\":false"@ };
                let h = a + ",\"id\":1,\"op\":\"set_fullscreen\",\"window\":"@;
                if h.len() <= i < h.len() + decimal(w as nat).len() {
                    assert(line[i] == decimal(w as nat)[i - h.len()]);
                }
            },
            Command::CloseWindow(w) => {
                let h = "{\"id\":1,\"op\":\"close_window\",\"window\":"@;
                if h.len() <= i < h.len() + decimal(w as nat).len() {
                    assert(line[i] == decimal(w as nat)[i - h.len()]);
                }
            },
            _ => {},
        }
    }
}

/// A toolkit marker value classifies as UIKit or TontooUI, or not at all:
/// never as `Linux` or `Unknown`.
pub proof fn markers_name_toolkits(s: Seq<char>)
    ensures
        kind_of(normalized_toolkit(s)) matches Some(t) ==> t == WindowType::UIKit || t
            == WindowType::TontooUi,
{
}

/// The message of an error ends with its detail (such as the socket path).
pub proof fn error_text_ends_with_detail(e: WindowsError, locale: Locale)
    ensures
        ends_with(e.text(locale), e.detail()),
{
    let t = e.text(locale);
    let d = e.detail();
    assert(t.subrange(t.len() - d.len(), t.len() as int) =~= d);
}

/// A row is classified `Unknown` exactly when it has no app id, no title
/// and no pid; every other row gets a toolkit or `Linux`.
pub proof fn unknown_iff_anonymous(row: WindowRow, facts: ProcessFacts)
    ensures
        (window_type_of(row, facts) == WindowType::Unknown) <==> (row.app_id is None && row.title is None
            && row.pid is None),
{
}

/// The process facts matter only for rows with a pid: without one, the type
/// and the name of a row are the same whatever the facts say.
pub proof fn facts_need_a_pid(row: WindowRow, a: ProcessFacts, b: ProcessFacts, locale: Locale)
    requires
        row.pid is None,
    ensures
        window_type_of(row, a) == window_type_of(row, b),
        app_name_of(row, row_bundle(row, a), locale) == app_name_of(row, row_bundle(row, b), locale),
{
}

/// An existing file named by the `icon` field of `Info.tontoo` wins over
/// every probe file.
pub proof fn icon_field_wins(bundle_dir: Seq<char>, info: Json, present: Seq<bool>)
    requires
        icon_field_opt(Some(info)) is Some,
        present.len() > 0,
        present[0],
    ensures
        resolved_icon_path(bundle_dir, Some(info), present) == Some(
            path_join(bundle_dir, icon_field_opt(Some(info))->0),
        ),
{
    let c = icon_candidates_of(bundle_dir, Some(info));
    assert(c[0] == path_join(bundle_dir, icon_field_opt(Some(info))->0));
    assert(first_present_from(c, present, 0) == Some(c[0]));
}

/// Whether a row member is one of the optional row fields.
pub open spec fn is_optional_field(key: Seq<char>) -> bool {
    key == "app_id"@ || key == "title"@ || key == "pid"@ || key == "minimized"@
}

proof fn absent_members_keep_fields(ms: Seq<(String, Json)>, acc: RowFields)
    requires
        forall|i: int| 0 <= i < ms.len() ==> !is_optional_field(#[trigger] ms[i].0@),
    ensures
        take_members(ms, acc) matches Ok(a) ==> a.app_id == acc.app_id && a.title == acc.title
            && a.pid == acc.pid && a.minimized == acc.minimized,
    decreases ms.len(),
{
    if ms.len() > 0 {
        assert(!is_optional_field(ms[0].0@));
        if let Ok(next) = take_member(acc, ms[0].0@, ms[0].1) {
            assert forall|i: int| 0 <= i < ms.drop_first().len() implies !is_optional_field(
                #[trigger] ms.drop_first()[i].0@,
            ) by {
                assert(ms.drop_first()[i] == ms[i + 1]);
            }
            absent_members_keep_fields(ms.drop_first(), next);
        }
    }
}

/// A row object that leaves out the optional members decodes (when it
/// decodes) with no app id, no title, no pid and not minimized.
pub proof fn sparse_rows_default(v: Json)
    requires
        v matches Json::Object(ms) && forall|i: int|
            0 <= i < ms@.len() ==> !is_optional_field(#[trigger] ms@[i].0@),
    ensures
        row_of(v) matches Ok(w) ==> w.app_id is None && w.title is None && w.pid is None
            && !w.minimized,
{
    if let Json::Object(ms) = v {
        absent_members_keep_fields(ms@, crate::rows::no_fields());
    }
}

/// The bundle of an executable that is not itself named `*.app` is its
/// nearest ancestor named `*.app`; it has none exactly when no ancestor is
/// named so.
pub proof fn bundle_is_nearest_app_ancestor(exe_path: Seq<char>)
    requires
        !is_app_path(exe_path),
    ensures
        bundle_dir_of(exe_path) matches Some(d) ==> exists|k: nat|
            nearest_app(exe_path, k) && ancestor(exe_path, k) == Some(d),
        bundle_dir_of(exe_path) is None <==> forall|j: nat| j >= 1 ==> !#[trigger] app_at(exe_path, j),
{
    if exists|k: nat| nearest_app(exe_path, k) {
        let k = choose|k: nat| nearest_app(exe_path, k);
        assert(app_at(exe_path, k));
    } else {
        assert forall|j: nat| j >= 1 implies !#[trigger] app_at(exe_path, j) by {
            if app_at(exe_path, j) {
                lemma_nearest_exists(exe_path, j);
            }
        }
    }
}

/// The toolkit of a process environment is decided by its first entry
/// that is valid UTF-8 and sets `TONTOO_TOOLKIT`: later entries, and
/// entries that are not UTF-8, never matter.
pub proof fn first_marker_entry_decides(environ: Seq<u8>)
    ensures
        environ_marker(environ) == first_marker(nul_split(environ)),
        environ_toolkit(environ) == match first_marker(nul_split(environ)) {
            Some(v) => normalized_toolkit(v),
            None => None,
        },
    decreases environ.len(),
{
    lemma_first_nul(environ);
    let k = first_nul(environ);
    let parts = nul_split(environ);
    if k < environ.len() {
        first_marker_entry_decides(environ.skip(k + 1int));
        assert(parts == seq![environ.subrange(0, k as int)] + nul_split(environ.skip(k + 1int)));
        assert(parts[0] == environ.subrange(0, k as int));
        assert(parts.drop_first() =~= nul_split(environ.skip(k + 1int)));
        assert(parts.len() > 0);
    } else {
        assert(environ.subrange(0, k as int) =~= environ);
        assert(parts == seq![environ]);
        assert(parts.drop_first() =~= Seq::<Seq<u8>>::empty());
        assert(first_marker(parts.drop_first()) is None);
    }
}

/// Joining names that do not start with `/` to one directory keeps them
/// apart.
proof fn lemma_join_injective(dir: Seq<char>, a: Seq<char>, b: Seq<char>)
    requires
        !(a.len() > 0 && a[0] == '/'),
        !(b.len() > 0 && b[0] == '/'),
        path_join(dir, a) == path_join(dir, b),
    ensures
        a == b,
{
    let head = if dir.len() > 0 && dir.last() != '/' { dir + seq!['/'] } else { dir };
    assert(path_join(dir, a) == head + a);
    assert(path_join(dir, b) == head + b);
    assert(a =~= (head + a).subrange(head.len() as int, (head + a).len() as int));
    assert(b =~= (head + b).subrange(head.len() as int, (head + b).len() as int));
}

/// The programs listed from one applications directory: nothing when the
/// directory could not be read; otherwise each was read from an entry of
/// the listing named `*.app`, at the path `dir/<name>`, with the
/// directory's source, a non-empty bundle id and the icon of its own
/// bundle under its display name. Entries with distinct names (as a
/// directory's are, none starting with `/`) give programs with distinct
/// bundle paths.
pub proof fn listed_programs_are_consistent(
    entries: Seq<AppEntry>,
    dir: Seq<char>,
    listing: Seq<DirEntry>,
    idx: Seq<int>,
    source: AppSource,
    locale: Locale,
)
    requires
        listed_in(entries, dir, listing, idx, source, locale),
    ensures
        listing.len() == 0 ==> entries.len() == 0,
        forall|k: int|
            0 <= k < entries.len() ==> {
                let e = #[trigger] entries[k];
                &&& e.source == source
                &&& e.bundle_path@ == path_join(dir, listing[idx[k]].name@)
                &&& is_app_path(e.bundle_path@)
                &&& e.bundle_id@.len() > 0
                &&& e.icon.bundle_id@ == e.bundle_id@
                &&& e.icon.bundle_path@ == e.bundle_path@
                &&& e.icon.app_name@ == e.display_name@
            },
        (forall|a: int, b: int|
            0 <= a < b < listing.len() ==> #[trigger] listing[a].name@ != #[trigger] listing[b].name@)
            && (forall|a: int|
            0 <= a < listing.len() ==> !(#[trigger] listing[a].name@.len() > 0 && listing[a].name@[0]
                == '/')) ==> forall|k1: int, k2: int|
            0 <= k1 < k2 < entries.len() ==> #[trigger] entries[k1].bundle_path@ != #[trigger] entries[k2].bundle_path@,
{
    if listing.len() == 0 && entries.len() > 0 {
        assert(0 <= idx[0] < listing.len());
    }
    assert forall|k: int| 0 <= k < entries.len() implies {
        let e = #[trigger] entries[k];
        &&& e.source == source
        &&& e.bundle_path@ == path_join(dir, listing[idx[k]].name@)
        &&& is_app_path(e.bundle_path@)
        &&& e.bundle_id@.len() > 0
        &&& e.icon.bundle_id@ == e.bundle_id@
        &&& e.icon.bundle_path@ == e.bundle_path@
        &&& e.icon.app_name@ == e.display_name@
    } by {
        assert(is_bundle_entry(dir, listing[idx[k]]));
        assert(entry_read(Some(entries[k]), dir, listing[idx[k]], source, locale));
    }
    if (forall|a: int, b: int|
        0 <= a < b < listing.len() ==> #[trigger] listing[a].name@ != #[trigger] listing[b].name@) && (
    forall|a: int|
        0 <= a < listing.len() ==> !(#[trigger] listing[a].name@.len() > 0 && listing[a].name@[0] == '/')) {
        assert forall|k1: int, k2: int| 0 <= k1 < k2 < entries.len() implies #[trigger] entries[k1].bundle_path@
            != #[trigger] entries[k2].bundle_path@ by {
            let i1 = idx[k1];
            let i2 = idx[k2];
            assert(i1 < i2);
            assert(entry_read(Some(entries[k1]), dir, listing[i1], source, locale));
            assert(entry_read(Some(entries[k2]), dir, listing[i2], source, locale));
            assert(listing[i1].name@ != listing[i2].name@);
            assert(!(listing[i1].name@.len() > 0 && listing[i1].name@[0] == '/'));
            assert(!(listing[i2].name@.len() > 0 && listing[i2].name@[0] == '/'));
            if entries[k1].bundle_path@ == entries[k2].bundle_path@ {
                lemma_join_injective(dir, listing[i1].name@, listing[i2].name@);
            }
        }
    }
}

proof fn string_members_keys(m: Seq<(String, Json)>)
    ensures
        forall|a: int|
            0 <= a < string_members(m).len() ==> exists|j: int|
                0 <= j < m.len() && (#[trigger] string_members(m)[a]).0 == m[j].0@,
        names_distinct(m) ==> forall|a: int, b: int|
            0 <= a < b < string_members(m).len() ==> (#[trigger] string_members(m)[a]).0
                != (#[trigger] string_members(m)[b]).0,
    decreases m.len(),
{
    if m.len() > 0 {
        let init = m.drop_last();
        string_members_keys(init);
        let sm = string_members(m);
        let si = string_members(init);
        assert(names_distinct(m) ==> names_distinct(init)) by {
            if names_distinct(m) {
                assert forall|a: int, b: int| 0 <= a < b < init.len() implies init[a].0@ != init[b].0@ by {
                    assert(init[a] == m[a] && init[b] == m[b]);
                }
            }
        }
        assert forall|a: int| 0 <= a < sm.len() implies exists|j: int|
            0 <= j < m.len() && (#[trigger] sm[a]).0 == m[j].0@ by {
            if a < si.len() {
                assert(sm[a] == si[a]);
                let j = choose|j: int| 0 <= j < init.len() && si[a].0 == init[j].0@;
                assert(m[j] == init[j]);
            } else {
                assert(sm[a].0 == m[m.len() - 1].0@);
            }
        }
        if names_distinct(m) {
            assert forall|a: int, b: int| 0 <= a < b < sm.len() implies (#[trigger] sm[a]).0
                != (#[trigger] sm[b]).0 by {
                if b < si.len() {
                    assert(sm[a] == si[a] && sm[b] == si[b]);
                } else {
                    assert(sm[a] == si[a]);
                    let j = choose|j: int| 0 <= j < init.len() && si[a].0 == init[j].0@;
                    assert(m[j] == init[j]);
                    assert(sm[b].0 == m[m.len() - 1].0@);
                }
            }
        }
    }
}

/// The names of a well-formed `Info.tontoo` form a map: each locale occurs
/// once.
pub proof fn names_are_a_map(info: Json)
    requires
        info.well_formed(),
    ensures
        forall|a: int, b: int|
            0 <= a < b < names_of(info).len() ==> (#[trigger] names_of(info)[a]).0
                != (#[trigger] names_of(info)[b]).0,
{
    if let Json::Object(members) = info {
        lemma_member_index(members@, "name"@);
        if let Some(name) = member(members@, "name"@) {
            let i = member_index(members@, "name"@);
            assert(members@[i].1.well_formed());
            if let Json::Object(m) = name {
                string_members_keys(m@);
            }
        }
    }
}

/// Programs sorted for listing come in code-point lexicographic order of
/// their lowercased display names: for two positions, the earlier name is a
/// prefix of the later one, or it has the smaller character where they
/// first differ (so `mail` comes before `music`, whatever the scan order).
pub proof fn listing_is_lexicographic(s: Seq<AppEntry>)
    requires
        sorted_by_name(s),
    ensures
        forall|i: int, j: int|
            0 <= i < j < s.len() ==> {
                let a = lowercase((#[trigger] s[i]).display_name@);
                let b = lowercase((#[trigger] s[j]).display_name@);
                ||| (a.len() <= b.len() && b.subrange(0, a.len() as int) == a)
                ||| exists|k: int|
                    0 <= k < a.len() && k < b.len() && a.subrange(0, k) == b.subrange(0, k) && #[trigger] a[k]
                        < b[k]
            },
{
    lemma_sorted_in_name_order(s);
}

/// A window whose app id is exactly `org.tontoo.uikit` is a UIKit window
/// when nothing about its process says otherwise (no toolkit marker, no
/// bundle), whether or not it carries a pid.
pub proof fn uikit_app_id_means_uikit(row: WindowRow, facts: ProcessFacts)
    requires
        facts.toolkit is None,
        facts.bundle is None,
        row.app_id == Some("org.tontoo.uikit"@),
    ensures
        window_type_of(row, facts) == WindowType::UIKit,
{
}

/// A window whose process is marked with a toolkit is of that toolkit,
/// whatever its app id, title or bundle say.
pub proof fn process_marker_wins(row: WindowRow, facts: ProcessFacts, t: Toolkit)
    requires
        row.pid is Some,
        facts.toolkit == Some(t),
    ensures
        window_type_of(row, facts) == t.kind(),
{
}

/// An enriched window carries the row's own data unchanged: its id, app
/// id, title, pid and minimized flag.
pub proof fn enrichment_keeps_row_data(info: WindowInfo, row: WindowRow, facts: ProcessFacts, locale: Locale)
    requires
        enriched(info, row, facts, locale),
    ensures
        info.id == row.id,
        opt_text(info.app_id) == row.app_id,
        opt_text(info.title) == row.title,
        info.pid == row.pid,
        info.minimized == row.minimized,
{
}

/// Force quit aims at the requested window only: a pid it returns is the
/// pid of the first listed row with the requested id, and a window id that
/// no listed row has is never killed.
pub proof fn force_quit_aims_at_the_window(socket_path: Seq<char>, id: u64, reply: Exchange)
    ensures
        quit_target_outcome(socket_path, id, reply) matches Ok(Some(p)) ==> (list_outcome(socket_path, reply) matches Ok(
            rows,
        ) && exists|k: int|
            0 <= k < rows.len() && (#[trigger] rows[k]).id == id && rows[k].pid == Some(p) && p > 0 && forall|j: int|
                0 <= j < k ==> rows[j].id != id),
        list_outcome(socket_path, reply) matches Ok(rows) ==> ((forall|k: int|
            0 <= k < rows.len() ==> (#[trigger] rows[k]).id != id) ==> quit_target_outcome(socket_path, id, reply)
            == Ok::<Option<i32>, Failure>(None)),
        force_quit_outcome(socket_path, id, reply) matches Ok(p) ==> quit_target_outcome(socket_path, id, reply)
            == Ok::<Option<i32>, Failure>(Some(p)),
{
    if let Ok(rows) = list_outcome(socket_path, reply) {
        lemma_find_row(rows, id);
    }
}

proof fn lemma_find_row(rows: Seq<WindowRow>, id: u64)
    ensures
        find_row(rows, id) matches Some(w) ==> exists|k: int|
            0 <= k < rows.len() && #[trigger] rows[k] == w && w.id == id && forall|j: int| 0 <= j < k ==> rows[j].id != id,
        (forall|k: int| 0 <= k < rows.len() ==> (#[trigger] rows[k]).id != id) ==> find_row(rows, id) is None,
    decreases rows.len(),
{
    if rows.len() > 0 {
        let rest = rows.drop_first();
        lemma_find_row(rest, id);
        if rows[0].id != id {
            if let Some(w) = find_row(rest, id) {
                let k = choose|k: int|
                    0 <= k < rest.len() && #[trigger] rest[k] == w && w.id == id && forall|j: int|
                        0 <= j < k ==> rest[j].id != id;
                assert(rows[k + 1] == w);
                assert forall|j: int| 0 <= j < k + 1 implies rows[j].id != id by {
                    if j > 0 {
                        assert(rows[j] == rest[j - 1]);
                    }
                }
            }
            if forall|k: int| 0 <= k < rows.len() ==> (#[trigger] rows[k]).id != id {
                assert forall|k: int| 0 <= k < rest.len() implies (#[trigger] rest[k]).id != id by {
                    assert(rest[k] == rows[k + 1]);
                }
            }
        } else {
            assert(rows[0] == rows[0]);
        }
    }
}

/// What a row member says of the decoded row, by the member's name and
/// value: a non-negative integer `id` is the id; a string `app_id` or
/// `title` is that text and `null` is none; a `pid` integer in the `i32`
/// range is the pid and `null` is none; a boolean `minimized` is the flag.
pub open spec fn row_has_member(w: WindowRow, key: Seq<char>, v: Json) -> bool {
    &&& key == "id"@ ==> (v matches Json::Number(JsonNumber::PosInt(u)) ==> w.id == u)
    &&& key == "app_id"@ ==> (v matches Json::Str(t) ==> w.app_id == Some(t@)) && (v is Null ==> w.app_id
        is None)
    &&& key == "title"@ ==> (v matches Json::Str(t) ==> w.title == Some(t@)) && (v is Null ==> w.title is None)
    &&& key == "pid"@ ==> (v matches Json::Number(JsonNumber::PosInt(u)) ==> (u <= i32::MAX ==> w.pid == Some(
        u as i32,
    ))) && (v matches Json::Number(JsonNumber::NegInt(n)) ==> (n >= i32::MIN ==> w.pid == Some(n as i32)))
        && (v is Null ==> w.pid is None)
    &&& key == "minimized"@ ==> (v matches Json::Bool(b) ==> w.minimized == b)
}

/// The row member names are distinct.
proof fn lemma_row_keys_distinct()
    ensures
        "id"@ != "app_id"@,
        "id"@ != "title"@,
        "id"@ != "pid"@,
        "id"@ != "minimized"@,
        "app_id"@ != "title"@,
        "app_id"@ != "pid"@,
        "app_id"@ != "minimized"@,
        "title"@ != "pid"@,
        "title"@ != "minimized"@,
        "pid"@ != "minimized"@,
{
    reveal_strlit("id");
    reveal_strlit("app_id");
    reveal_strlit("title");
    reveal_strlit("pid");
    reveal_strlit("minimized");
    assert("id"@.len() != "app_id"@.len());
    assert("id"@.len() != "title"@.len());
    assert("id"@[0] != "pid"@[0]);
    assert("id"@.len() != "minimized"@.len());
    assert("app_id"@.len() != "title"@.len());
    assert("app_id"@.len() != "pid"@.len());
    assert("app_id"@.len() != "minimized"@.len());
    assert("title"@.len() != "pid"@.len());
    assert("title"@.len() != "minimized"@.len());
    assert("pid"@.len() != "minimized"@.len());
}

/// Members already seen keep their values: a member seen twice is an
/// error.
proof fn lemma_seen_members_stay(ms: Seq<(String, Json)>, acc: RowFields)
    ensures
        take_members(ms, acc) matches Ok(a) ==> {
            &&& acc.id is Some ==> a.id == acc.id
            &&& acc.app_id is Some ==> a.app_id == acc.app_id
            &&& acc.title is Some ==> a.title == acc.title
            &&& acc.pid is Some ==> a.pid == acc.pid
            &&& acc.minimized is Some ==> a.minimized == acc.minimized
        },
    decreases ms.len(),
{
    if ms.len() > 0 {
        if let Ok(next) = take_member(acc, ms[0].0@, ms[0].1) {
            lemma_seen_members_stay(ms.drop_first(), next);
        }
    }
}

/// The `k`-th member of a row object decides its field.
proof fn lemma_member_decides(ms: Seq<(String, Json)>, acc: RowFields, k: int)
    requires
        0 <= k < ms.len(),
    ensures
        take_members(ms, acc) matches Ok(a) ==> (finish_row(a) matches Ok(w) ==> row_has_member(
            w,
            ms[k].0@,
            ms[k].1,
        )),
    decreases k,
{
    if let Ok(next) = take_member(acc, ms[0].0@, ms[0].1) {
        assert(take_members(ms, acc) == take_members(ms.drop_first(), next));
        if k == 0 {
            lemma_row_keys_distinct();
            lemma_seen_members_stay(ms.drop_first(), next);
        } else {
            assert(ms.drop_first()[k - 1] == ms[k]);
            lemma_member_decides(ms.drop_first(), next, k - 1);
        }
    }
}

/// The field a position of a row array holds.
pub open spec fn array_key(i: int) -> Seq<char> {
    if i == 0 {
        "id"@
    } else if i == 1 {
        "app_id"@
    } else if i == 2 {
        "title"@
    } else if i == 3 {
        "pid"@
    } else {
        "minimized"@
    }
}

/// A decoded row says what its members say: each member of a row object
/// decides its field (so `"minimized": false` gives a row that is not
/// minimized), and so does each value of a row array, by position (`id`,
/// `app_id`, `title`, `pid`, `minimized`).
pub proof fn rows_say_what_their_members_say(v: Json)
    ensures
        v matches Json::Object(ms) ==> (row_of(v) matches Ok(w) ==> forall|k: int|
            0 <= k < ms@.len() ==> row_has_member(w, (#[trigger] ms@[k]).0@, ms@[k].1)),
        v matches Json::Array(items) ==> (row_of(v) matches Ok(w) ==> forall|k: int|
            0 <= k < items@.len() ==> row_has_member(w, array_key(k), #[trigger] items@[k])),
{
    if let Json::Object(ms) = v {
        if let Ok(w) = row_of(v) {
            assert forall|k: int| 0 <= k < ms@.len() implies row_has_member(w, (#[trigger] ms@[k]).0@, ms@[k].1) by {
                lemma_member_decides(ms@, no_fields(), k);
            }
        }
    }
    if let Json::Array(items) = v {
        if let Ok(w) = row_of(v) {
            assert forall|k: int| 0 <= k < items@.len() implies row_has_member(w, array_key(k), #[trigger] items@[k]) by {
                assert(items@.len() <= 5);
                lemma_row_keys_distinct();
            }
        }
    }
}

} // verus!
