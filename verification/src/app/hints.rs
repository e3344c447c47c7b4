//! Small rules of the interface: hints on errors, ages, variables and URLs.

use vstd::prelude::*;
use vstd::string::*;

use crate::text;

verus! {

/// The likely cause of an error, said after it.
pub open spec fn hint_for(e: Seq<char>) -> Seq<char> {
    if text::has(e, "401"@) {
        "  (press A to reconnect)"@
    } else if text::has(e, "403"@) {
        "  (VPN down, or the token lost access? A reconnects)"@
    } else if text::has(e, "timed out"@) || text::has(e, "connect"@) {
        "  (server unreachable; r retries)"@
    } else {
        ""@
    }
}

pub fn auth_hint(e: &str) -> (r: &'static str)
    ensures
        r@ == hint_for(e@),
{
    if text::contains(e, "401") {
        "  (press A to reconnect)"
    } else if text::contains(e, "403") {
        "  (VPN down, or the token lost access? A reconnects)"
    } else if text::contains(e, "timed out") || text::contains(e, "connect") {
        "  (server unreachable; r retries)"
    } else {
        ""
    }
}

/// Whole seconds from `saved` to `now` (both in millis), none where it lies
/// ahead.
pub open spec fn seconds_since(saved: int, now: int) -> nat {
    if now <= saved {
        0
    } else {
        ((now - saved) / 1000) as nat
    }
}

pub open spec fn age_text(saved: int, now: int) -> Seq<char> {
    let secs = seconds_since(saved, now);
    if secs < 60 {
        "just now"@
    } else if secs < 3600 {
        text::dec(secs / 60) + "m ago"@
    } else if secs < 86400 {
        text::dec(secs / 3600) + "h ago"@
    } else {
        text::dec(secs / 86400) + "d ago"@
    }
}

/// How long ago something was saved.
pub fn format_age(saved_at_ms: i64, now_ms: i64) -> (r: String)
    ensures
        r@ == age_text(saved_at_ms as int, now_ms as int),
{
    let secs: u128 = if now_ms <= saved_at_ms {
        0
    } else {
        ((now_ms as i128 - saved_at_ms as i128) / 1000) as u128
    };
    if secs < 60 {
        text::owned("just now")
    } else if secs < 3600 {
        let d = text::decimal(secs / 60);
        text::cat2(d.as_str(), "m ago")
    } else if secs < 86400 {
        let d = text::decimal(secs / 3600);
        text::cat2(d.as_str(), "h ago")
    } else {
        let d = text::decimal(secs / 86400);
        text::cat2(d.as_str(), "d ago")
    }
}

/// A variable "NAME=VALUE": the name trimmed and not empty, the value as it is.
pub open spec fn env_var(entry: Seq<char>) -> Option<(Seq<char>, Seq<char>)> {
    match text::cut_at(entry, '=') {
        Some((name, value)) => if text::trimmed(name).len() > 0 {
            Some((text::trimmed(name), value))
        } else {
            None
        },
        None => None,
    }
}

/// The value may itself hold '='.
pub fn parse_env_var(entry: &str) -> (r: Option<(String, String)>)
    ensures
        r.deep_view() == env_var(entry@),
{
    match text::split_once(entry, '=') {
        Some((name, value)) => {
            let t = text::trim(name);
            if t.unicode_len() > 0 {
                Some((text::owned(t), text::owned(value)))
            } else {
                None
            }
        },
        None => None,
    }
}

/// A character of a URL that is handed to a browser. Some systems pass it through
/// a shell, and it is built from what the server sent.
pub open spec fn url_char(c: char) -> bool {
    text::is_alnum(c) || c == ':' || c == '/' || c == '.' || c == '-' || c == '_' || c == '~' || c
        == '?' || c == '=' || c == '#'
}

pub open spec fn is_plain_url(url: Seq<char>) -> bool {
    forall|i: int| 0 <= i < url.len() ==> url_char(#[trigger] url[i])
}

/// Whether a URL may be opened; where not, why.
pub fn open_url(url: &str) -> (r: Result<(), String>)
    ensures
        match r {
            Ok(_) => is_plain_url(url@),
            Err(e) => !is_plain_url(url@) && e@
                == "refusing to open a URL containing unexpected characters"@,
        },
{
    let cs = text::chars_of(url);
    let mut i: usize = 0;
    while i < cs.len()
        invariant
            cs@ == url@,
            i <= cs@.len(),
            forall|k: int| 0 <= k < i ==> url_char(#[trigger] cs@[k]),
        decreases cs@.len() - i,
    {
        let c = cs[i];
        if !(text::alnum(c) || c == ':' || c == '/' || c == '.' || c == '-' || c == '_' || c == '~'
            || c == '?' || c == '=' || c == '#') {
            return Err(text::owned("refusing to open a URL containing unexpected characters"));
        }
        i = i + 1;
    }
    Ok(())
}

} // verus!
