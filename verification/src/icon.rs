//! App icon resolution for `.app` bundles.
use vstd::prelude::*;

use crate::json::Json;
use crate::text::{join, owned, path_join};

verus! {

/// Resolved app icon for a TontooOS `.app` bundle.
///
/// The icon file is located through the `icon` field of the bundle
/// `Info.tontoo` (relative to the bundle root). Rendering the file is left
/// to the caller; this struct only carries paths.
#[derive(Debug)]
pub struct AppIcon {
    /// Bundle id from `Info.tontoo` (`bundle_id`).
    pub bundle_id: String,
    /// Absolute bundle directory (`....app`).
    pub bundle_path: String,
    /// Absolute icon file, when a candidate resolves to an existing file.
    pub icon_path: Option<String>,
    /// Display name of the app.
    pub app_name: String,
}

/// Fallback icon file names probed inside the bundle when `Info.tontoo`
/// carries no usable `icon` field (relative to the bundle root), in order.
pub open spec fn probe_files() -> Seq<Seq<char>> {
    seq![
        "Icon.png"@,
        "icon.png"@,
        "Icon.jpg"@,
        "icon.jpg"@,
        "Resources/Icon.png"@,
        "Resources/icon.png"@,
        "Contents/Resources/Icon.png"@,
    ]
}

/// The fallback icon file names (see [`probe_files`]).
pub fn icon_probe_files() -> (r: Vec<String>)
    ensures
        r@.len() == probe_files().len(),
        forall|i: int| 0 <= i < r@.len() ==> #[trigger] r@[i]@ == probe_files()[i],
{
    let mut r: Vec<String> = Vec::new();
    r.push(owned("Icon.png"));
    r.push(owned("icon.png"));
    r.push(owned("Icon.jpg"));
    r.push(owned("icon.jpg"));
    r.push(owned("Resources/Icon.png"));
    r.push(owned("Resources/icon.png"));
    r.push(owned("Contents/Resources/Icon.png"));
    r
}

/// The relative icon path of a parsed `Info.tontoo`: the `icon` field as a
/// plain string, or the `path` string of an `icon` object.
pub open spec fn icon_field_of(info: Json) -> Option<Seq<char>> {
    match info.field("icon"@) {
        Some(icon) => match icon {
            Json::Str(s) => Some(s@),
            _ => icon.field_text("path"@),
        },
        None => None,
    }
}

/// The relative icon path of a parsed `Info.tontoo` (see [`icon_field_of`]).
pub fn icon_field(info: &Json) -> (r: Option<String>)
    ensures
        match r {
            Some(s) => icon_field_of(*info) == Some(s@),
            None => icon_field_of(*info) is None,
        },
{
    match info.get("icon") {
        Some(icon) => match icon {
            Json::Str(s) => Some(s.clone()),
            _ => match icon.get_str("path") {
                Some(p) => Some(owned(p)),
                None => None,
            },
        },
        None => None,
    }
}

/// The icon field of an optional `Info.tontoo`.
pub open spec fn icon_field_opt(info: Option<Json>) -> Option<Seq<char>> {
    match info {
        Some(i) => icon_field_of(i),
        None => None,
    }
}

/// The files probed for the icon of a bundle directory, in order: the
/// `icon` field (when there is one), then every [`probe_files`] entry, each
/// joined to the bundle directory.
pub open spec fn icon_candidates_of(bundle_dir: Seq<char>, info: Option<Json>) -> Seq<Seq<char>> {
    let field: Seq<Seq<char>> = match icon_field_opt(info) {
        Some(rel) => seq![path_join(bundle_dir, rel)],
        None => Seq::empty(),
    };
    field + probe_files().map_values(|p: Seq<char>| path_join(bundle_dir, p))
}

/// The files probed for the icon of a bundle directory (see
/// [`icon_candidates_of`]).
pub fn icon_candidates(bundle_dir: &str, info: Option<&Json>) -> (r: Vec<String>)
    ensures
        r@.len() == icon_candidates_of(bundle_dir@, opt_json(info)).len(),
        forall|i: int|
            0 <= i < r@.len() ==> #[trigger] r@[i]@ == icon_candidates_of(bundle_dir@, opt_json(info))[i],
{
    let ghost all = icon_candidates_of(bundle_dir@, opt_json(info));
    let mut r: Vec<String> = Vec::new();
    let field = match info {
        Some(i) => icon_field(i),
        None => None,
    };
    match field {
        Some(rel) => r.push(join(bundle_dir, rel.as_str())),
        None => {},
    }
    let ghost head = r@.len();
    let probes = icon_probe_files();
    let mut k: usize = 0;
    while k < probes.len()
        invariant
            head <= 1,
            all == icon_candidates_of(bundle_dir@, opt_json(info)),
            head == all.len() - probe_files().len(),
            probes@.len() == probe_files().len(),
            forall|i: int| 0 <= i < probes@.len() ==> #[trigger] probes@[i]@ == probe_files()[i],
            k <= probes@.len(),
            r@.len() == head + k,
            forall|i: int| 0 <= i < r@.len() ==> #[trigger] r@[i]@ == all[i],
        decreases probes@.len() - k,
    {
        let p = join(bundle_dir, probes[k].as_str());
        r.push(p);
        k = k + 1;
    }
    r
}

/// The view of an optional reference to a document.
pub open spec fn opt_json(info: Option<&Json>) -> Option<Json> {
    match info {
        Some(i) => Some(*i),
        None => None,
    }
}

/// The first of `candidates`, from index `i` on, whose flag in `present`
/// is set; a candidate without a flag counts as absent.
pub open spec fn first_present_from(candidates: Seq<Seq<char>>, present: Seq<bool>, i: int) -> Option<
    Seq<char>,
>
    decreases candidates.len() - i,
{
    if i < 0 || i >= candidates.len() {
        None
    } else if i < present.len() && present[i] {
        Some(candidates[i])
    } else {
        first_present_from(candidates, present, i + 1)
    }
}

/// The first of `candidates` whose flag in `present` is set.
pub open spec fn first_present(candidates: Seq<Seq<char>>, present: Seq<bool>) -> Option<Seq<char>> {
    first_present_from(candidates, present, 0)
}

/// The icon file of a bundle: the first candidate of
/// [`icon_candidates_of`] that exists.
pub open spec fn resolved_icon_path(bundle_dir: Seq<char>, info: Option<Json>, present: Seq<bool>) -> Option<
    Seq<char>,
> {
    first_present(icon_candidates_of(bundle_dir, info), present)
}

/// The first of `candidates` whose flag in `present` is set.
fn pick_present(candidates: &Vec<String>, present: &[bool]) -> (r: Option<String>)
    ensures
        match r {
            Some(p) => first_present(candidates@.map_values(|c: String| c@), present@) == Some(p@),
            None => first_present(candidates@.map_values(|c: String| c@), present@) is None,
        },
{
    let ghost cands = candidates@.map_values(|c: String| c@);
    let mut i: usize = 0;
    while i < candidates.len()
        invariant
            cands == candidates@.map_values(|c: String| c@),
            i <= candidates@.len(),
            first_present(cands, present@) == first_present_from(cands, present@, i as int),
        decreases candidates@.len() - i,
    {
        if i < present.len() && present[i] {
            return Some(candidates[i].clone());
        }
        i = i + 1;
    }
    None
}

/// Resolve the app icon for a bundle directory.
///
/// `info` is the parsed `Info.tontoo` (may be `None` for bundles without
/// one). `present[i]` tells whether the `i`-th file of
/// [`icon_candidates`] exists as a regular file. The `icon` field
/// (a plain relative path string or an object with a `path` string) is
/// tried first, then the probe files; `icon_path` is `None` when nothing
/// exists.
pub fn resolve_icon(
    bundle_dir: &str,
    bundle_id: &str,
    app_name: &str,
    info: Option<&Json>,
    present: &[bool],
) -> (r: AppIcon)
    ensures
        r.bundle_id@ == bundle_id@,
        r.bundle_path@ == bundle_dir@,
        r.app_name@ == app_name@,
        match r.icon_path {
            Some(p) => resolved_icon_path(bundle_dir@, opt_json(info), present@) == Some(p@),
            None => resolved_icon_path(bundle_dir@, opt_json(info), present@) is None,
        },
{
    let candidates = icon_candidates(bundle_dir, info);
    assert(candidates@.map_values(|c: String| c@) =~= icon_candidates_of(bundle_dir@, opt_json(info)));
    let icon_path = pick_present(&candidates, present);
    AppIcon {
        bundle_id: owned(bundle_id),
        bundle_path: owned(bundle_dir),
        icon_path,
        app_name: owned(app_name),
    }
}

} // verus!
