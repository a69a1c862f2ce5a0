//! Errors of the daemon operations and their localized messages.
use vstd::prelude::*;

use crate::text::{lowercase, owned, starts_with, str_equal, str_starts_with, to_lowercase};

verus! {

/// The two locales the built-in messages exist in.
#[derive(Debug, Clone, Copy, PartialEq, Eq, Structural)]
pub enum Locale {
    /// `en_us`, the default.
    EnUs,
    /// `de_de`.
    DeDe,
}

impl Locale {
    /// The locale key (`en_us`, `de_de`).
    pub open spec fn key(self) -> Seq<char> {
        match self {
            Locale::EnUs => "en_us"@,
            Locale::DeDe => "de_de"@,
        }
    }

    /// The locale key (`en_us`, `de_de`).
    pub fn as_str(self) -> (r: &'static str)
        ensures
            r@ == self.key(),
    {
        match self {
            Locale::EnUs => "en_us",
            Locale::DeDe => "de_de",
        }
    }
}

/// The locale a locale setting selects: `de_de` when the setting starts
/// with `de` in any case, `en_us` otherwise.
pub open spec fn locale_of_setting(setting: Seq<char>) -> Locale {
    if starts_with(lowercase(setting), "de"@) {
        Locale::DeDe
    } else {
        Locale::EnUs
    }
}

/// The locale setting in effect: `LC_ALL`, then `LC_MESSAGES`, then `LANG`,
/// the empty setting when none is set.
pub open spec fn effective_setting(
    lc_all: Option<Seq<char>>,
    lc_messages: Option<Seq<char>>,
    lang: Option<Seq<char>>,
) -> Seq<char> {
    match lc_all {
        Some(v) => v,
        None => match lc_messages {
            Some(v) => v,
            None => match lang {
                Some(v) => v,
                None => Seq::empty(),
            },
        },
    }
}

/// The view of an optional string.
pub open spec fn opt_view(s: Option<&str>) -> Option<Seq<char>> {
    match s {
        Some(v) => Some(v@),
        None => None,
    }
}

/// The locale selected by the values of `LC_ALL`, `LC_MESSAGES` and `LANG`
/// (`None` for a variable that is unset).
pub fn locale_from_env(lc_all: Option<&str>, lc_messages: Option<&str>, lang: Option<&str>) -> (r:
    Locale)
    ensures
        r == locale_of_setting(effective_setting(opt_view(lc_all), opt_view(lc_messages), opt_view(lang))),
{
    let setting: &str = match lc_all {
        Some(v) => v,
        None => match lc_messages {
            Some(v) => v,
            None => match lang {
                Some(v) => v,
                None => "",
            },
        },
    };
    proof {
        reveal_strlit("");
    }
    assert(setting@ == effective_setting(opt_view(lc_all), opt_view(lc_messages), opt_view(lang)));
    let lower = to_lowercase(setting);
    if str_starts_with(lower.as_str(), "de") {
        Locale::DeDe
    } else {
        Locale::EnUs
    }
}

/// The built-in message for `key` in `locale`, if there is one.
pub open spec fn message(locale: Locale, key: Seq<char>) -> Option<Seq<char>> {
    match locale {
        Locale::EnUs => if key == "socket_missing"@ {
            Some("Window daemon socket not found"@)
        } else if key == "connection_failed"@ {
            Some("Failed to connect to the window daemon"@)
        } else if key == "protocol_error"@ {
            Some("Window daemon protocol error"@)
        } else if key == "server_error"@ {
            Some("Window daemon reported an error"@)
        } else if key == "parse_error"@ {
            Some("Failed to parse the window daemon reply"@)
        } else {
            None
        },
        Locale::DeDe => if key == "socket_missing"@ {
            Some("Fenster-Daemon-Socket nicht gefunden"@)
        } else if key == "connection_failed"@ {
            Some("Verbindung zum Fenster-Daemon fehlgeschlagen"@)
        } else if key == "protocol_error"@ {
            Some("Fenster-Daemon-Protokollfehler"@)
        } else if key == "server_error"@ {
            Some("Fenster-Daemon meldet einen Fehler"@)
        } else if key == "parse_error"@ {
            Some("Antwort des Fenster-Daemon konnte nicht gelesen werden"@)
        } else {
            None
        },
    }
}

/// The translation of `key` in `locale`: its built-in message, or `key`
/// itself when there is none.
pub open spec fn translation(key: Seq<char>, locale: Locale) -> Seq<char> {
    match message(locale, key) {
        Some(m) => m,
        None => key,
    }
}

/// Translates `key` in `locale`; falls back to the key itself when missing.
pub fn t(key: &str, locale: Locale) -> (r: String)
    ensures
        r@ == translation(key@, locale),
{
    let en = match locale {
        Locale::EnUs => true,
        Locale::DeDe => false,
    };
    if str_equal(key, "socket_missing") {
        if en { owned("Window daemon socket not found") } else { owned("Fenster-Daemon-Socket nicht gefunden") }
    } else if str_equal(key, "connection_failed") {
        if en {
            owned("Failed to connect to the window daemon")
        } else {
            owned("Verbindung zum Fenster-Daemon fehlgeschlagen")
        }
    } else if str_equal(key, "protocol_error") {
        if en { owned("Window daemon protocol error") } else { owned("Fenster-Daemon-Protokollfehler") }
    } else if str_equal(key, "server_error") {
        if en { owned("Window daemon reported an error") } else { owned("Fenster-Daemon meldet einen Fehler") }
    } else if str_equal(key, "parse_error") {
        if en {
            owned("Failed to parse the window daemon reply")
        } else {
            owned("Antwort des Fenster-Daemon konnte nicht gelesen werden")
        }
    } else {
        owned(key)
    }
}

/// Error type for all provider operations.
#[derive(Debug)]
pub enum WindowsError {
    /// The window daemon socket path does not exist (daemon not running).
    SocketMissing(String),
    /// Transport failure while talking to the daemon.
    Connection(String),
    /// Malformed frame from the daemon.
    Protocol(String),
    /// The daemon answered with `ok: false`.
    Server(String),
    /// A well-formed reply with unusable content.
    Parse(String),
}

/// What an error says: its kind and detail.
pub enum Failure {
    SocketMissing(Seq<char>),
    Connection(Seq<char>),
    Protocol(Seq<char>),
    Server(Seq<char>),
    Parse(Seq<char>),
}

impl View for WindowsError {
    type V = Failure;

    open spec fn view(&self) -> Failure {
        match self {
            WindowsError::SocketMissing(d) => Failure::SocketMissing(d@),
            WindowsError::Connection(d) => Failure::Connection(d@),
            WindowsError::Protocol(d) => Failure::Protocol(d@),
            WindowsError::Server(d) => Failure::Server(d@),
            WindowsError::Parse(d) => Failure::Parse(d@),
        }
    }
}

impl WindowsError {
    /// The message key of the error kind.
    pub open spec fn key(&self) -> Seq<char> {
        match self {
            WindowsError::SocketMissing(_) => "socket_missing"@,
            WindowsError::Connection(_) => "connection_failed"@,
            WindowsError::Protocol(_) => "protocol_error"@,
            WindowsError::Server(_) => "server_error"@,
            WindowsError::Parse(_) => "parse_error"@,
        }
    }

    /// The detail the error carries (a path or an error text).
    pub open spec fn detail(&self) -> Seq<char> {
        match self {
            WindowsError::SocketMissing(d) => d@,
            WindowsError::Connection(d) => d@,
            WindowsError::Protocol(d) => d@,
            WindowsError::Server(d) => d@,
            WindowsError::Parse(d) => d@,
        }
    }

    /// The message of the error in `locale`: the translated kind, `": "`
    /// and the detail.
    pub open spec fn text(&self, locale: Locale) -> Seq<char> {
        translation(self.key(), locale) + ": "@ + self.detail()
    }

    /// The message of the error in `locale` (see [`WindowsError::text`]).
    pub fn to_string(&self, locale: Locale) -> (r: String)
        ensures
            r@ == self.text(locale),
    {
        let (key, detail) = match self {
            WindowsError::SocketMissing(d) => ("socket_missing", d),
            WindowsError::Connection(d) => ("connection_failed", d),
            WindowsError::Protocol(d) => ("protocol_error", d),
            WindowsError::Server(d) => ("server_error", d),
            WindowsError::Parse(d) => ("parse_error", d),
        };
        let head = t(key, locale);
        let with_sep = head.concat(": ");
        with_sep.concat(detail.as_str())
    }
}

/// Convenience alias used by every provider function.
pub type Result<T> = core::result::Result<T, WindowsError>;

/// The C status code of an action: 0 on success, -1 on error.
pub fn action_code(result: &Result<()>) -> (r: i32)
    ensures
        r == (if result is Ok { 0i32 } else { -1i32 }),
{
    match result {
        Ok(()) => 0,
        Err(_) => -1,
    }
}

} // verus!
