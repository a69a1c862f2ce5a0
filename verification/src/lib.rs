//! Open windows on TontooOS: each window with its toolkit type (`UIKit`,
//! `TontooUI`, `Linux`) and, for TontooOS `.app` bundles, the app icon
//! resolved from `Info.tontoo`; and the installed programs.
//!
//! The library holds the decisions: the daemon protocol, the toolkit
//! classification, bundle and icon resolution and the program listing.
//! Reading the system (the daemon socket, `/proc`, the applications
//! directories) is the caller's part: it hands the library what it read.
use vstd::prelude::*;

pub mod classify;
pub mod error;
pub mod icon;
pub mod json;
pub mod laws;
pub mod programs;
pub mod provider;
pub mod rows;
pub mod text;
pub mod types;

use crate::classify::ProcessFacts;
use crate::error::{Locale, Result};
use crate::json::Json;
use crate::provider::{
    bool_view, copy_exchange, force_quit_outcome, reply_outcome, list_outcome, ping_outcome, pid_view, request_line, rows_view,
    Command, Exchange, Request, WindowsProvider, DEFAULT_SOCKET_PATH,
};
use crate::types::{RawWindow, WindowInfo};

verus! {

/// Library version: (major, minor, patch).
pub const COREWINDOWS_VERSION: (u32, u32, u32) = (26, 1, 0);

/// Ping the window daemon at the default socket (see
/// [`WindowsProvider::ping`]).
pub fn ping(reply: Exchange) -> (r: Result<bool>)
    ensures
        bool_view(r) == ping_outcome(DEFAULT_SOCKET_PATH@, reply),
{
    WindowsProvider::new().ping(reply)
}

/// Raw window rows from the daemon at the default socket, no enrichment
/// (see [`WindowsProvider::list_raw`]).
pub fn list_raw(reply: Exchange) -> (r: Result<Vec<RawWindow>>)
    ensures
        rows_view(r) == list_outcome(DEFAULT_SOCKET_PATH@, reply),
{
    WindowsProvider::new().list_raw(reply)
}

/// Fully classified windows at the default socket (see
/// [`WindowsProvider::windows`]).
pub fn windows(reply: Exchange, facts: Vec<ProcessFacts>, locale: Locale) -> (r: Result<Vec<WindowInfo>>)
    requires
        list_outcome(DEFAULT_SOCKET_PATH@, reply) matches Ok(rows) ==> rows.len() == facts@.len(),
    ensures
        match list_outcome(DEFAULT_SOCKET_PATH@, reply) {
            Ok(rows) => r matches Ok(infos) && infos@.len() == rows.len() && forall|i: int|
                0 <= i < rows.len() ==> crate::provider::enriched(#[trigger] infos@[i], rows[i], facts@[i], locale)
                    && forall|i: int|
                    0 <= i < rows.len() ==> {
                        let info = #[trigger] infos@[i];
                        &&& info.id == rows[i].id
                        &&& crate::types::opt_text(info.app_id) == rows[i].app_id
                        &&& crate::types::opt_text(info.title) == rows[i].title
                        &&& info.pid == rows[i].pid
                        &&& info.minimized == rows[i].minimized
                    },
            Err(f) => r matches Err(e) && e@ == f,
        },
{
    WindowsProvider::new().windows(reply, facts, locale)
}

/// Fully classified windows at the default socket with the facts gathered
/// for the listed rows: none when they do not match the rows one for one
/// (see [`WindowsProvider::windows_with_facts`]).
pub fn windows_with_facts(reply: Exchange, facts: Vec<ProcessFacts>, locale: Locale) -> (r: Option<
    Result<Vec<WindowInfo>>,
>)
    ensures
        match list_outcome(DEFAULT_SOCKET_PATH@, reply) {
            Ok(rows) => if rows.len() == facts@.len() {
                r matches Some(Ok(infos)) && infos@.len() == rows.len() && forall|i: int|
                    0 <= i < rows.len() ==> crate::provider::enriched(#[trigger] infos@[i], rows[i], facts@[i], locale)
                    && forall|i: int|
                    0 <= i < rows.len() ==> {
                        let info = #[trigger] infos@[i];
                        &&& info.id == rows[i].id
                        &&& crate::types::opt_text(info.app_id) == rows[i].app_id
                        &&& crate::types::opt_text(info.title) == rows[i].title
                        &&& info.pid == rows[i].pid
                        &&& info.minimized == rows[i].minimized
                    }
            } else {
                r is None
            },
            Err(f) => r matches Some(Err(e)) && e@ == f,
        },
{
    let again = copy_exchange(&reply);
    assert(reply_outcome(DEFAULT_SOCKET_PATH@, again) == reply_outcome(DEFAULT_SOCKET_PATH@, reply));
    let count = match list_raw(reply) {
        Ok(rows) => rows.len(),
        Err(e) => return Some(Err(e)),
    };
    if count != facts.len() {
        return None;
    }
    Some(windows(again, facts, locale))
}

/// The request to minimize a window at the default socket.
pub fn minimize_window(id: u64) -> (r: Request)
    ensures
        r.socket_path@ == DEFAULT_SOCKET_PATH@,
        r.line@ == request_line(Command::MinimizeWindow(id)),
{
    WindowsProvider::new().minimize_window(id)
}

/// The request to restore a window minimized to the dock at the default
/// socket.
pub fn restore_window(id: u64) -> (r: Request)
    ensures
        r.socket_path@ == DEFAULT_SOCKET_PATH@,
        r.line@ == request_line(Command::RestoreWindow(id)),
{
    WindowsProvider::new().restore_window(id)
}

/// The request to set the fullscreen state of a window at the default
/// socket.
pub fn set_fullscreen(id: u64, fullscreen: bool) -> (r: Request)
    ensures
        r.socket_path@ == DEFAULT_SOCKET_PATH@,
        r.line@ == request_line(Command::SetFullscreen(id, fullscreen)),
{
    WindowsProvider::new().set_fullscreen(id, fullscreen)
}

/// The request to gracefully close a window at the default socket.
pub fn close_window(id: u64) -> (r: Request)
    ensures
        r.socket_path@ == DEFAULT_SOCKET_PATH@,
        r.line@ == request_line(Command::CloseWindow(id)),
{
    WindowsProvider::new().close_window(id)
}

/// The pid to force quit for a window at the default socket (see
/// [`WindowsProvider::force_quit_window`]).
pub fn force_quit_window(id: u64, reply: Exchange) -> (r: Result<i32>)
    ensures
        pid_view(r) == force_quit_outcome(DEFAULT_SOCKET_PATH@, id, reply),
{
    WindowsProvider::new().force_quit_window(id, reply)
}

} // verus!
