use vstd::prelude::*;

use crate::icon::AppIcon;

verus! {

/// Toolkit classification of an open window.
#[derive(Debug, Clone, Copy, PartialEq, Eq, Structural)]
pub enum WindowType {
    /// Built with UIKit (`TONTOO_TOOLKIT=UIKit` or `toolkit: uikit`).
    UIKit,
    /// Built with TontooUI, i.e. a native TontooOS app.
    TontooUi,
    /// Any other Linux app (GTK, Qt, Electron, Flatpak, X11, ...).
    Linux,
    /// No identifying information available.
    Unknown,
}

impl WindowType {
    /// Display name of a variant.
    pub open spec fn name_spec(self) -> Seq<char> {
        match self {
            WindowType::UIKit => "UIKit"@,
            WindowType::TontooUi => "TontooUI"@,
            WindowType::Linux => "Linux"@,
            WindowType::Unknown => "Unknown"@,
        }
    }

    /// Display name of the variant (`UIKit`, `TontooUI`, `Linux`, `Unknown`).
    pub fn as_str(self) -> (r: &'static str)
        ensures
            r@ == self.name_spec(),
    {
        match self {
            WindowType::UIKit => "UIKit",
            WindowType::TontooUi => "TontooUI",
            WindowType::Linux => "Linux",
            WindowType::Unknown => "Unknown",
        }
    }
}

/// A TontooOS UI toolkit, as a toolkit marker names it.
#[derive(Debug, Clone, Copy, PartialEq, Eq, Structural)]
pub enum Toolkit {
    /// UIKit.
    UIKit,
    /// TontooUI.
    TontooUi,
}

impl Toolkit {
    /// The window type of windows built with the toolkit.
    pub open spec fn kind(self) -> WindowType {
        match self {
            Toolkit::UIKit => WindowType::UIKit,
            Toolkit::TontooUi => WindowType::TontooUi,
        }
    }

    /// The window type of windows built with the toolkit.
    pub fn window_type(self) -> (r: WindowType)
        ensures
            r == self.kind(),
    {
        match self {
            Toolkit::UIKit => WindowType::UIKit,
            Toolkit::TontooUi => WindowType::TontooUi,
        }
    }
}

/// The window type an optional toolkit gives.
pub open spec fn kind_of(t: Option<Toolkit>) -> Option<WindowType> {
    match t {
        Some(t) => Some(t.kind()),
        None => None,
    }
}

/// One raw window row as reported by the window daemon.
///
/// This mirrors the daemon reply 1:1; use [`WindowInfo`] for the enriched
/// form with toolkit type and app icon.
#[derive(Debug)]
pub struct RawWindow {
    /// Daemon-side window id (stable while the window is mapped).
    pub id: u64,
    /// XDG app id (`set_app_id`), if the client set one.
    pub app_id: Option<String>,
    /// XDG title (`set_title`), if the client set one.
    pub title: Option<String>,
    /// Owning client pid, if the daemon knows it.
    pub pid: Option<i32>,
    /// Whether the window is currently minimized to the dock.
    pub minimized: bool,
}

/// What a raw window row says.
pub struct WindowRow {
    pub id: u64,
    pub app_id: Option<Seq<char>>,
    pub title: Option<Seq<char>>,
    pub pid: Option<i32>,
    pub minimized: bool,
}

impl View for RawWindow {
    type V = WindowRow;

    open spec fn view(&self) -> WindowRow {
        WindowRow {
            id: self.id,
            app_id: opt_text(self.app_id),
            title: opt_text(self.title),
            pid: self.pid,
            minimized: self.minimized,
        }
    }
}

/// A fully classified open window: raw daemon data plus toolkit type,
/// bundle identity and the resolved app icon.
#[derive(Debug)]
pub struct WindowInfo {
    /// Daemon-side window id (stable while the window is mapped).
    pub id: u64,
    /// XDG app id (`set_app_id`), if the client set one.
    pub app_id: Option<String>,
    /// XDG title (`set_title`), if the client set one.
    pub title: Option<String>,
    /// Owning client pid, if the daemon knows it.
    pub pid: Option<i32>,
    /// Whether the window is currently minimized to the dock.
    pub minimized: bool,
    /// Toolkit classification (see [`WindowType`]).
    pub window_type: WindowType,
    /// Bundle id from the owning `.app` `Info.tontoo`, if any.
    pub bundle_id: Option<String>,
    /// Display name (localized bundle name, bundle dir name, title or
    /// app id, whichever is available first).
    pub app_name: Option<String>,
    /// Resolved app icon for TontooOS bundles, if any.
    pub icon: Option<AppIcon>,
}

/// The view of an optional string.
pub open spec fn opt_text(s: Option<String>) -> Option<Seq<char>> {
    match s {
        Some(v) => Some(v@),
        None => None,
    }
}

/// A copy of an optional string.
pub fn copy_opt(s: &Option<String>) -> (r: Option<String>)
    ensures
        opt_text(r) == opt_text(*s),
{
    match s {
        Some(v) => Some(v.clone()),
        None => None,
    }
}

} // verus!
