//! The window daemon protocol: request frames, reply interpretation and
//! the enrichment of the listed rows.
//!
//! The daemon answers one JSON object per line: requests
//! `{"id":1,"op":"list_windows"}`, replies `{"ok":true,"result":...}` or
//! `{"ok":false,"error":"..."}`. Talking to the socket is the caller's part:
//! it sends the [`Request`] built here and hands back what came of it as
//! an [`Exchange`], which the provider interprets.
use vstd::prelude::*;

use crate::classify::{
    app_name_of, bundle_id_of, classify, row_bundle, window_type_of, ProcessFacts,
};
use crate::error::{Failure, Locale, Result, WindowsError};
use crate::icon::{resolve_icon, resolved_icon_path, AppIcon};
use crate::json::{parse_json, parsed_json, Json};
use crate::rows::{decode_row, row_of};
use crate::text::{concat, decimal, decimal_text, owned};
use crate::types::{copy_opt, opt_text, RawWindow, WindowInfo, WindowRow};

verus! {

/// Default window daemon socket path (mirrors the daemon default).
pub const DEFAULT_SOCKET_PATH: &'static str = "/run/tontoo-windows.sock";

/// An operation the daemon implements.
#[derive(Debug, Clone, Copy, PartialEq, Eq, Structural)]
pub enum Command {
    /// `ping`: answered with `{"pong": true}`.
    Ping,
    /// `list_windows`: answered with `{"windows": [...]}`.
    ListWindows,
    /// `minimize_window`: iconify the window, the app keeps running.
    MinimizeWindow(u64),
    /// `restore_window`: re-map a minimized window.
    RestoreWindow(u64),
    /// `set_fullscreen`: fullscreen (`true`) or windowed (`false`).
    SetFullscreen(u64, bool),
    /// `close_window`: ask the client to close the window.
    CloseWindow(u64),
}

/// The request line for a command: the compact JSON object with the
/// members `fullscreen` (for `set_fullscreen`), `id` (always 1), `op` and
/// `window` (for the window actions) in this order, and a newline.
pub open spec fn request_line(cmd: Command) -> Seq<char> {
    match cmd {
        Command::Ping => "{\"id\":1,\"op\":\"ping\"}\n"@,
        Command::ListWindows => "{\"id\":1,\"op\":\"list_windows\"}\n"@,
        Command::MinimizeWindow(w) => "{\"id\":1,\"op\":\"minimize_window\",\"window\":"@ + decimal(
            w as nat,
        ) + "}\n"@,
        Command::RestoreWindow(w) => "{\"id\":1,\"op\":\"restore_window\",\"window\":"@ + decimal(
            w as nat,
        ) + "}\n"@,
        Command::SetFullscreen(w, fs) => (if fs {
            "{\"fullscreen\":true"@
        } else {
            "{\"fullscreen\":false"@
        }) + ",\"id\":1,\"op\":\"set_fullscreen\",\"window\":"@ + decimal(w as nat) + "}\n"@,
        Command::CloseWindow(w) => "{\"id\":1,\"op\":\"close_window\",\"window\":"@ + decimal(
            w as nat,
        ) + "}\n"@,
    }
}

/// One request to send to the daemon: the socket to connect to and the
/// line to write.
#[derive(Debug)]
pub struct Request {
    /// Socket path of the daemon.
    pub socket_path: String,
    /// The request frame, newline-terminated.
    pub line: String,
}

/// What came of sending a request to the daemon.
#[derive(Debug)]
pub enum Exchange {
    /// The socket path does not exist (the daemon is not running).
    SocketMissing,
    /// Connecting, writing or reading failed, with the error text.
    Transport(String),
    /// The reply line the daemon answered with.
    Line(String),
}

/// What a reply frame means: the `result` member (null when absent) when
/// `ok` is `true`, else a daemon error with the `error` text (or
/// `unknown error`).
pub open spec fn frame_outcome(frame: Json) -> core::result::Result<Json, Failure> {
    if frame.field("ok"@) matches Some(ok) && ok.boolean() == Some(true) {
        Ok(
            match frame.field("result"@) {
                Some(r) => r,
                None => Json::Null,
            },
        )
    } else {
        Err(
            Failure::Server(
                match frame.field_text("error"@) {
                    Some(t) => t,
                    None => "unknown error"@,
                },
            ),
        )
    }
}

/// What an exchange with the daemon at `socket_path` gives: a reply line
/// that is not JSON is a protocol error, else the frame says (see
/// [`frame_outcome`]).
pub open spec fn reply_outcome(socket_path: Seq<char>, reply: Exchange) -> core::result::Result<
    Json,
    Failure,
> {
    match reply {
        Exchange::SocketMissing => Err(Failure::SocketMissing(socket_path)),
        Exchange::Transport(e) => Err(Failure::Connection(e@)),
        Exchange::Line(line) => match parsed_json(line@) {
            Ok(frame) => frame_outcome(frame),
            Err(e) => Err(Failure::Protocol(e)),
        },
    }
}

/// What a `ping` reply gives: whether the result carries `pong: true`.
pub open spec fn ping_outcome(socket_path: Seq<char>, reply: Exchange) -> core::result::Result<
    bool,
    Failure,
> {
    match reply_outcome(socket_path, reply) {
        Ok(result) => Ok(
            match result.field("pong"@) {
                Some(p) => p.boolean() == Some(true),
                None => false,
            },
        ),
        Err(f) => Err(f),
    }
}

/// The rows of the `windows` array, in order; the first row that does not
/// decode is an error.
pub open spec fn rows_of(items: Seq<Json>) -> core::result::Result<Seq<WindowRow>, Seq<char>>
    decreases items.len(),
{
    if items.len() == 0 {
        Ok(Seq::empty())
    } else {
        match row_of(items[0]) {
            Err(e) => Err("bad window row: "@ + e),
            Ok(w) => match rows_of(items.drop_first()) {
                Ok(ws) => Ok(seq![w] + ws),
                Err(e) => Err(e),
            },
        }
    }
}

/// The rows a `list_windows` result lists.
pub open spec fn listed_rows(result: Json) -> core::result::Result<Seq<WindowRow>, Seq<char>> {
    match result.field("windows"@) {
        Some(Json::Array(items)) => rows_of(items@),
        _ => Err("reply has no windows array"@),
    }
}

/// What a `list_windows` exchange gives: the listed rows, or the daemon
/// error, or a parse error.
pub open spec fn list_outcome(socket_path: Seq<char>, reply: Exchange) -> core::result::Result<
    Seq<WindowRow>,
    Failure,
> {
    match reply_outcome(socket_path, reply) {
        Ok(result) => match listed_rows(result) {
            Ok(rows) => Ok(rows),
            Err(e) => Err(Failure::Parse(e)),
        },
        Err(f) => Err(f),
    }
}

/// The first row with window id `id`.
pub open spec fn find_row(rows: Seq<WindowRow>, id: u64) -> Option<WindowRow>
    decreases rows.len(),
{
    if rows.len() == 0 {
        None
    } else if rows[0].id == id {
        Some(rows[0])
    } else {
        find_row(rows.drop_first(), id)
    }
}

/// The process to force quit for window `id` after a `list_windows`
/// exchange: the pid of the first row with that id, none when there is no
/// such row or it has no process id (no pid, or one that is not positive),
/// or the error of the listing.
pub open spec fn quit_target_outcome(socket_path: Seq<char>, id: u64, reply: Exchange) -> core::result::Result<
    Option<i32>,
    Failure,
> {
    match list_outcome(socket_path, reply) {
        Ok(rows) => match find_row(rows, id) {
            Some(w) if w.pid matches Some(p) && p > 0 => Ok(Some(w.pid->0)),
            _ => Ok(None),
        },
        Err(f) => Err(f),
    }
}

/// What a force quit of window `id` gives after a `list_windows` exchange:
/// the pid to kill (see [`quit_target_outcome`]), or a parse error when
/// the window has no process to kill.
pub open spec fn force_quit_outcome(socket_path: Seq<char>, id: u64, reply: Exchange) -> core::result::Result<
    i32,
    Failure,
> {
    match quit_target_outcome(socket_path, id, reply) {
        Ok(Some(p)) => Ok(p),
        Ok(None) => Err(Failure::Parse("no killable process for window "@ + decimal(id as nat))),
        Err(f) => Err(f),
    }
}

/// The view of a force-quit target.
pub open spec fn target_view(r: Result<Option<i32>>) -> core::result::Result<Option<i32>, Failure> {
    match r {
        Ok(p) => Ok(p),
        Err(e) => Err(e@),
    }
}

/// The C status of a force quit: 0 when the owner was killed, -1 when the
/// window list is unavailable or the signal failed, -2 when the window is
/// unknown or carries no process id.
pub fn force_quit_code(target: &Result<Option<i32>>, killed: bool) -> (r: i32)
    ensures
        r == match target {
            Ok(Some(_)) => if killed { 0i32 } else { -1i32 },
            Ok(None) => -2i32,
            Err(_) => -1i32,
        },
{
    match target {
        Ok(Some(_)) => if killed { 0 } else { -1 },
        Ok(None) => -2,
        Err(_) => -1,
    }
}

/// Whether `info` is the enrichment of `row` with the facts of its process:
/// the row's data, the classification and, for a row with a bundle, a
/// bundle id and a name, the icon resolved in the bundle.
pub open spec fn enriched(info: WindowInfo, row: WindowRow, facts: ProcessFacts, locale: Locale) -> bool {
    let bundle = row_bundle(row, facts);
    &&& info.id == row.id
    &&& opt_text(info.app_id) == row.app_id
    &&& opt_text(info.title) == row.title
    &&& info.pid == row.pid
    &&& info.minimized == row.minimized
    &&& info.window_type == window_type_of(row, facts)
    &&& opt_text(info.bundle_id) == bundle_id_of(bundle)
    &&& opt_text(info.app_name) == app_name_of(row, bundle, locale)
    &&& match (bundle, bundle_id_of(bundle), app_name_of(row, bundle, locale)) {
        (Some(b), Some(id), Some(name)) => info.icon matches Some(icon) && icon.bundle_id@ == id
            && icon.bundle_path@ == b.dir@ && icon.app_name@ == name && opt_text(icon.icon_path)
            == resolved_icon_path(b.dir@, Some(b.info), facts.icon_present@),
        _ => info.icon is None,
    }
}

/// The view of a result with nothing in it.
pub open spec fn unit_view(r: Result<()>) -> core::result::Result<(), Failure> {
    match r {
        Ok(()) => Ok(()),
        Err(e) => Err(e@),
    }
}

/// The view of a result with a flag in it.
pub open spec fn bool_view(r: Result<bool>) -> core::result::Result<bool, Failure> {
    match r {
        Ok(b) => Ok(b),
        Err(e) => Err(e@),
    }
}

/// The view of a result with a document in it.
pub open spec fn json_view(r: Result<Json>) -> core::result::Result<Json, Failure> {
    match r {
        Ok(j) => Ok(j),
        Err(e) => Err(e@),
    }
}

/// The view of a result with a pid in it.
pub open spec fn pid_view(r: Result<i32>) -> core::result::Result<i32, Failure> {
    match r {
        Ok(p) => Ok(p),
        Err(e) => Err(e@),
    }
}

/// The view of a result with rows in it.
pub open spec fn rows_view(r: Result<Vec<RawWindow>>) -> core::result::Result<Seq<WindowRow>, Failure> {
    match r {
        Ok(ws) => Ok(ws@.map_values(|w: RawWindow| w@)),
        Err(e) => Err(e@),
    }
}

/// Client handle for the window daemon at a socket path.
#[derive(Debug)]
pub struct WindowsProvider {
    socket_path: String,
}

impl WindowsProvider {
    /// The socket path of the provider.
    pub closed spec fn path(&self) -> Seq<char> {
        self.socket_path@
    }

    /// A provider for the default socket path.
    pub fn new() -> (r: WindowsProvider)
        ensures
            r.path() == DEFAULT_SOCKET_PATH@,
    {
        WindowsProvider { socket_path: owned(DEFAULT_SOCKET_PATH) }
    }

    /// A provider for an explicit socket path.
    pub fn with_socket(path: &str) -> (r: WindowsProvider)
        ensures
            r.path() == path@,
    {
        WindowsProvider { socket_path: owned(path) }
    }

    /// A provider for the `WINDOWS_SOCKET` setting (`None` when unset),
    /// falling back to the default path.
    pub fn from_setting(setting: Option<&str>) -> (r: WindowsProvider)
        ensures
            r.path() == match setting {
                Some(p) => p@,
                None => DEFAULT_SOCKET_PATH@,
            },
    {
        match setting {
            Some(p) => WindowsProvider::with_socket(p),
            None => WindowsProvider::new(),
        }
    }

    /// The socket path of the provider.
    pub fn socket_path(&self) -> (r: &str)
        ensures
            r@ == self.path(),
    {
        self.socket_path.as_str()
    }

    /// The request that sends `cmd` to this provider's daemon.
    pub fn request(&self, cmd: Command) -> (r: Request)
        ensures
            r.socket_path@ == self.path(),
            r.line@ == request_line(cmd),
    {
        let line = match cmd {
            Command::Ping => owned("{\"id\":1,\"op\":\"ping\"}\n"),
            Command::ListWindows => owned("{\"id\":1,\"op\":\"list_windows\"}\n"),
            Command::MinimizeWindow(w) => window_line("{\"id\":1,\"op\":\"minimize_window\",\"window\":", w),
            Command::RestoreWindow(w) => window_line("{\"id\":1,\"op\":\"restore_window\",\"window\":", w),
            Command::SetFullscreen(w, fs) => {
                let head = if fs {
                    concat("{\"fullscreen\":true", ",\"id\":1,\"op\":\"set_fullscreen\",\"window\":")
                } else {
                    concat("{\"fullscreen\":false", ",\"id\":1,\"op\":\"set_fullscreen\",\"window\":")
                };
                window_line(head.as_str(), w)
            },
            Command::CloseWindow(w) => window_line("{\"id\":1,\"op\":\"close_window\",\"window\":", w),
        };
        Request { socket_path: self.socket_path.clone(), line }
    }

    /// The request to minimize (iconify) a window. The daemon hides the
    /// window, the app keeps running.
    pub fn minimize_window(&self, id: u64) -> (r: Request)
        ensures
            r.socket_path@ == self.path(),
            r.line@ == request_line(Command::MinimizeWindow(id)),
    {
        self.request(Command::MinimizeWindow(id))
    }

    /// The request to restore a window minimized to the dock. The daemon
    /// re-maps the window and drops its temporary dock icon; it answers
    /// with an error when the id is not a minimized window.
    pub fn restore_window(&self, id: u64) -> (r: Request)
        ensures
            r.socket_path@ == self.path(),
            r.line@ == request_line(Command::RestoreWindow(id)),
    {
        self.request(Command::RestoreWindow(id))
    }

    /// The request to set the fullscreen state of a window (`true` =
    /// fullscreen, `false` = back to windowed).
    pub fn set_fullscreen(&self, id: u64, fullscreen: bool) -> (r: Request)
        ensures
            r.socket_path@ == self.path(),
            r.line@ == request_line(Command::SetFullscreen(id, fullscreen)),
    {
        self.request(Command::SetFullscreen(id, fullscreen))
    }

    /// The request to fullscreen a window (`set_fullscreen(id, true)`).
    pub fn fullscreen_window(&self, id: u64) -> (r: Request)
        ensures
            r.socket_path@ == self.path(),
            r.line@ == request_line(Command::SetFullscreen(id, true)),
    {
        self.set_fullscreen(id, true)
    }

    /// The request to unfullscreen a window (`set_fullscreen(id, false)`).
    pub fn unfullscreen_window(&self, id: u64) -> (r: Request)
        ensures
            r.socket_path@ == self.path(),
            r.line@ == request_line(Command::SetFullscreen(id, false)),
    {
        self.set_fullscreen(id, false)
    }

    /// The request to close a window gracefully: the daemon asks the client
    /// to close, the app decides what happens next. Nothing is killed.
    pub fn close_window(&self, id: u64) -> (r: Request)
        ensures
            r.socket_path@ == self.path(),
            r.line@ == request_line(Command::CloseWindow(id)),
    {
        self.request(Command::CloseWindow(id))
    }

    /// What an exchange with the daemon gives (see [`reply_outcome`]).
    pub fn reply_result(&self, reply: Exchange) -> (r: Result<Json>)
        ensures
            json_view(r) == reply_outcome(self.path(), reply),
    {
        match reply {
            Exchange::SocketMissing => Err(WindowsError::SocketMissing(self.socket_path.clone())),
            Exchange::Transport(e) => Err(WindowsError::Connection(e)),
            Exchange::Line(line) => {
                let frame = match parse_json(line.as_str()) {
                    Ok(f) => f,
                    Err(e) => return Err(WindowsError::Protocol(e)),
                };
                let ok = match frame.get("ok") {
                    Some(v) => v.as_bool(),
                    None => None,
                };
                match ok {
                    Some(true) => {
                        let result = frame.take_field("result");
                        match result {
                            Some(r) => Ok(r),
                            None => Ok(Json::Null),
                        }
                    },
                    _ => {
                        let text = match frame.get_str("error") {
                            Some(t) => owned(t),
                            None => owned("unknown error"),
                        };
                        Err(WindowsError::Server(text))
                    },
                }
            },
        }
    }

    /// What the exchange for a window action gives: nothing on success,
    /// else its error.
    pub fn action_result(&self, reply: Exchange) -> (r: Result<()>)
        ensures
            unit_view(r) == match reply_outcome(self.path(), reply) {
                Ok(_) => Ok(()),
                Err(f) => Err::<(), Failure>(f),
            },
    {
        match self.reply_result(reply) {
            Ok(_) => Ok(()),
            Err(e) => Err(e),
        }
    }

    /// Ping the daemon: `true` on a valid pong reply, given what came of
    /// sending it `request(Command::Ping)`.
    pub fn ping(&self, reply: Exchange) -> (r: Result<bool>)
        ensures
            bool_view(r) == ping_outcome(self.path(), reply),
    {
        let result = match self.reply_result(reply) {
            Ok(r) => r,
            Err(e) => return Err(e),
        };
        let pong = match result.get("pong") {
            Some(p) => p.as_bool(),
            None => None,
        };
        match pong {
            Some(true) => Ok(true),
            _ => Ok(false),
        }
    }

    /// Raw window rows from the daemon, given what came of sending it
    /// `request(Command::ListWindows)`; no classification or icon lookup.
    pub fn list_raw(&self, reply: Exchange) -> (r: Result<Vec<RawWindow>>)
        ensures
            rows_view(r) == list_outcome(self.path(), reply),
    {
        let result = match self.reply_result(reply) {
            Ok(r) => r,
            Err(e) => return Err(e),
        };
        let items = match result.get("windows") {
            Some(Json::Array(items)) => items,
            _ => return Err(WindowsError::Parse(owned("reply has no windows array"))),
        };
        let mut rows: Vec<RawWindow> = Vec::new();
        let mut i: usize = 0;
        assert(items@.skip(0) =~= items@);
        while i < items.len()
            invariant
                i <= items@.len(),
                rows@.len() == i,
                list_outcome(self.path(), reply) == match rows_of(items@) {
                    Ok(ws) => Ok(ws),
                    Err(e) => Err(Failure::Parse(e)),
                },
                rows_of(items@) == match rows_of(items@.skip(i as int)) {
                    Ok(ws) => Ok(rows@.map_values(|w: RawWindow| w@) + ws),
                    Err(e) => Err(e),
                },
            decreases items@.len() - i,
        {
            let ghost rest = items@.skip(i as int);
            assert(rest[0] == items@[i as int]);
            assert(rest.drop_first() =~= items@.skip(i + 1));
            match decode_row(&items[i]) {
                Ok(w) => {
                    let ghost before = rows@.map_values(|w: RawWindow| w@);
                    rows.push(w);
                    assert(rows@.map_values(|w: RawWindow| w@) =~= before.push(w@));
                    assert forall|ws: Seq<WindowRow>| #[trigger] (before + (seq![w@] + ws)) == before.push(w@) + ws by {
                        assert(before + (seq![w@] + ws) =~= before.push(w@) + ws);
                    }
                },
                Err(e) => {
                    let msg = concat("bad window row: ", e.as_str());
                    return Err(WindowsError::Parse(msg));
                },
            }
            i = i + 1;
        }
        assert(items@.skip(i as int) =~= Seq::<Json>::empty());
        assert(rows@.map_values(|w: RawWindow| w@) + Seq::<WindowRow>::empty() =~= rows@.map_values(
            |w: RawWindow| w@,
        ));
        Ok(rows)
    }

    /// The process to force quit for a window, given what came of sending
    /// the daemon `request(Command::ListWindows)`: its pid, none when the
    /// window id is unknown or carries no positive pid, or the listing error.
    pub fn force_quit_target(&self, id: u64, reply: Exchange) -> (r: Result<Option<i32>>)
        ensures
            target_view(r) == quit_target_outcome(self.path(), id, reply),
    {
        let rows = match self.list_raw(reply) {
            Ok(rows) => rows,
            Err(e) => return Err(e),
        };
        let ghost all = rows@.map_values(|w: RawWindow| w@);
        let mut i: usize = 0;
        assert(all.skip(0) =~= all);
        while i < rows.len()
            invariant
                list_outcome(self.path(), reply) == Ok::<Seq<WindowRow>, Failure>(all),
                all == rows@.map_values(|w: RawWindow| w@),
                i <= rows@.len(),
                find_row(all, id) == find_row(all.skip(i as int), id),
            decreases rows@.len() - i,
        {
            assert(all.skip(i as int)[0] == rows@[i as int]@);
            if rows[i].id == id {
                return match rows[i].pid {
                    Some(pid) if pid > 0 => Ok(Some(pid)),
                    _ => Ok(None),
                };
            }
            assert(all.skip(i as int).drop_first() =~= all.skip(i + 1));
            i = i + 1;
        }
        Ok(None)
    }

    /// Force quit the owner of a window: the pid to send `SIGKILL` to, given
    /// what came of sending the daemon `request(Command::ListWindows)`;
    /// a parse error when the window id is unknown or carries no positive pid.
    pub fn force_quit_window(&self, id: u64, reply: Exchange) -> (r: Result<i32>)
        ensures
            pid_view(r) == force_quit_outcome(self.path(), id, reply),
    {
        match self.force_quit_target(id, reply) {
            Ok(Some(pid)) => Ok(pid),
            Ok(None) => {
                let text = decimal_text(id);
                Err(WindowsError::Parse(concat("no killable process for window ", text.as_str())))
            },
            Err(e) => Err(e),
        }
    }

    /// Fully classified windows: the listed rows, each enriched with the
    /// facts about its process (`facts[i]` for the `i`-th row), given what
    /// came of sending the daemon `request(Command::ListWindows)`.
    pub fn windows(&self, reply: Exchange, facts: Vec<ProcessFacts>, locale: Locale) -> (r: Result<
        Vec<WindowInfo>,
    >)
        requires
            list_outcome(self.path(), reply) matches Ok(rows) ==> rows.len() == facts@.len(),
        ensures
            match list_outcome(self.path(), reply) {
                Ok(rows) => r matches Ok(infos) && infos@.len() == rows.len() && forall|i: int|
                    0 <= i < rows.len() ==> enriched(#[trigger] infos@[i], rows[i], facts@[i], locale)
                    && forall|i: int|
                    0 <= i < rows.len() ==> {
                        let info = #[trigger] infos@[i];
                        &&& info.id == rows[i].id
                        &&& opt_text(info.app_id) == rows[i].app_id
                        &&& opt_text(info.title) == rows[i].title
                        &&& info.pid == rows[i].pid
                        &&& info.minimized == rows[i].minimized
                    },
                Err(f) => r matches Err(e) && e@ == f,
            },
    {
        let rows = match self.list_raw(reply) {
            Ok(rows) => rows,
            Err(e) => return Err(e),
        };
        let ghost all_rows = rows@.map_values(|w: RawWindow| w@);
        let ghost all_facts = facts@;
        let mut rows = rows;
        let mut facts = facts;
        let mut infos: Vec<WindowInfo> = Vec::new();
        // Enrich from the back, then put the results in row order.
        while rows.len() > 0
            invariant
                rows@.len() == facts@.len(),
                all_rows.len() == all_facts.len(),
                rows@.len() + infos@.len() == all_rows.len(),
                forall|i: int| 0 <= i < rows@.len() ==> #[trigger] rows@[i]@ == all_rows[i],
                forall|i: int| 0 <= i < facts@.len() ==> #[trigger] facts@[i] == all_facts[i],
                forall|j: int|
                    0 <= j < infos@.len() ==> enriched(
                        #[trigger] infos@[j],
                        all_rows[all_rows.len() - 1 - j],
                        all_facts[all_rows.len() - 1 - j],
                        locale,
                    ),
            decreases rows@.len(),
        {
            let raw = rows.pop().unwrap();
            let f = facts.pop().unwrap();
            let info = enrich(raw, f, locale);
            infos.push(info);
        }
        let mut ordered: Vec<WindowInfo> = Vec::new();
        while infos.len() > 0
            invariant
                ordered@.len() + infos@.len() == all_rows.len(),
                all_rows.len() == all_facts.len(),
                forall|j: int|
                    0 <= j < infos@.len() ==> enriched(
                        #[trigger] infos@[j],
                        all_rows[all_rows.len() - 1 - j],
                        all_facts[all_rows.len() - 1 - j],
                        locale,
                    ),
                forall|i: int|
                    0 <= i < ordered@.len() ==> enriched(#[trigger] ordered@[i], all_rows[i], all_facts[i], locale),
            decreases infos@.len(),
        {
            let info = infos.pop().unwrap();
            ordered.push(info);
        }
        Ok(ordered)
    }
}

/// A copy of an exchange: it means what the original means.
pub fn copy_exchange(e: &Exchange) -> (r: Exchange)
    ensures
        forall|p: Seq<char>| #[trigger] reply_outcome(p, r) == reply_outcome(p, *e),
{
    match e {
        Exchange::SocketMissing => Exchange::SocketMissing,
        Exchange::Transport(t) => Exchange::Transport(t.clone()),
        Exchange::Line(l) => Exchange::Line(l.clone()),
    }
}

impl WindowsProvider {
    /// Fully classified windows with the facts gathered for the listed rows
    /// (`facts[i]` for the `i`-th row): none when the facts do not match
    /// the rows one for one, else what [`WindowsProvider::windows`] gives.
    pub fn windows_with_facts(&self, reply: Exchange, facts: Vec<ProcessFacts>, locale: Locale) -> (r:
        Option<Result<Vec<WindowInfo>>>)
        ensures
            match list_outcome(self.path(), reply) {
                Ok(rows) => if rows.len() == facts@.len() {
                    r matches Some(Ok(infos)) && infos@.len() == rows.len() && forall|i: int|
                        0 <= i < rows.len() ==> enriched(#[trigger] infos@[i], rows[i], facts@[i], locale)
                    && forall|i: int|
                    0 <= i < rows.len() ==> {
                        let info = #[trigger] infos@[i];
                        &&& info.id == rows[i].id
                        &&& opt_text(info.app_id) == rows[i].app_id
                        &&& opt_text(info.title) == rows[i].title
                        &&& info.pid == rows[i].pid
                        &&& info.minimized == rows[i].minimized
                    }
                } else {
                    r is None
                },
                Err(f) => r matches Some(Err(e)) && e@ == f,
            },
    {
        let again = copy_exchange(&reply);
        assert(reply_outcome(self.path(), again) == reply_outcome(self.path(), reply));
        let count = match self.list_raw(reply) {
            Ok(rows) => rows.len(),
            Err(e) => return Some(Err(e)),
        };
        if count != facts.len() {
            return None;
        }
        Some(self.windows(again, facts, locale))
    }
}

impl Default for WindowsProvider {
    /// A provider for the default socket path.
    fn default() -> (r: WindowsProvider)
        ensures
            r.path() == DEFAULT_SOCKET_PATH@,
    {
        WindowsProvider::new()
    }
}

/// A window action line: `head`, the decimal window id and `}` with a
/// newline.
fn window_line(head: &str, w: u64) -> (r: String)
    ensures
        r@ == head@ + decimal(w as nat) + "}\n"@,
{
    let d = decimal_text(w);
    concat(concat(head, d.as_str()).as_str(), "}\n")
}

/// Enrich one raw row with the facts about its process: classification,
/// bundle identity and, for a row with a bundle, a bundle id and a name,
/// the app icon.
pub fn enrich(raw: RawWindow, facts: ProcessFacts, locale: Locale) -> (r: WindowInfo)
    ensures
        enriched(r, raw@, facts, locale),
        r.id == raw.id,
        r.app_id == raw.app_id,
        r.title == raw.title,
        r.pid == raw.pid,
        r.minimized == raw.minimized,
{
    let ghost facts0 = facts;
    let present = facts.icon_present;
    let c = classify(&raw, ProcessFacts { toolkit: facts.toolkit, bundle: facts.bundle, icon_present: Vec::new() }, locale);
    let icon = match (&c.bundle_dir, &c.bundle_id, &c.app_name) {
        (Some(dir), Some(bundle_id), Some(app_name)) => Some(
            resolve_icon(dir.as_str(), bundle_id.as_str(), app_name.as_str(), c.bundle_info.as_ref(), present.as_slice()),
        ),
        _ => None,
    };
    WindowInfo {
        id: raw.id,
        app_id: raw.app_id,
        title: raw.title,
        pid: raw.pid,
        minimized: raw.minimized,
        window_type: c.window_type,
        bundle_id: c.bundle_id,
        app_name: c.app_name,
        icon,
    }
}

} // verus!
