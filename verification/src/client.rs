//! The command-line client: its arguments, and the commands a user types.
use vstd::prelude::*;

use crate::myconnect4::{Empty, Event, Move};

verus! {

/// The client's arguments.
pub struct Args {
    /// The user name to play under.
    pub username: String,
    /// The server's address, as `scheme://ip:port`.
    pub address: String,
    /// Only ask the server for its state.
    pub query: bool,
}

/// `regex::Regex`, a compiled regular expression.
#[verifier::external_type_specification]
#[verifier::external_body]
pub struct ExRegex(regex::Regex);

/// A regular expression, with the text it was compiled from.
pub struct Pattern {
    source: String,
    re: regex::Regex,
}

impl View for Pattern {
    type V = Seq<char>;

    closed spec fn view(&self) -> Seq<char> {
        self.source@
    }
}

/// Whether `regex::Regex::new` accepts `pattern`.
pub uninterp spec fn regex_compiles(pattern: Seq<char>) -> bool;

/// Whether the regular expression `pattern` matches somewhere in `text`
/// (`regex::Regex::is_match`).
pub uninterp spec fn regex_is_match(pattern: Seq<char>, text: Seq<char>) -> bool;

/// The text of capture group `group` of the first match of `pattern` in `text`,
/// when there is a match and that group took part in it.
pub uninterp spec fn regex_group(pattern: Seq<char>, text: Seq<char>, group: usize) -> Option<Seq<char>>;

/// Calls `regex::Regex::new`: the compiled `pattern`, or `None` when it is not a
/// valid regular expression.
#[verifier::external_body]
fn compile(pattern: &str) -> (r: Option<Pattern>)
    ensures
        r is Some <==> regex_compiles(pattern@),
        r matches Some(p) ==> p@ == pattern@,
{
    match regex::Regex::new(pattern) {
        Ok(re) => Some(Pattern { source: pattern.to_string(), re }),
        Err(_) => None,
    }
}

/// Calls `regex::Regex::is_match`: whether `p` matches somewhere in `text`.
#[verifier::external_body]
fn is_match(p: &Pattern, text: &str) -> (r: bool)
    ensures
        r == regex_is_match(p@, text@),
{
    p.re.is_match(text)
}

/// Calls `regex::Regex::captures`, then `Captures::get` and `Match::as_str`: the
/// text of capture group `group` of the first match of `p` in `text`, if any.
#[verifier::external_body]
fn captured_group(p: &Pattern, text: &str, group: usize) -> (r: Option<String>)
    ensures
        match r {
            Some(s) => regex_group(p@, text@, group) == Some(s@),
            None => regex_group(p@, text@, group) is None,
        },
{
    p.re.captures(text).and_then(|caps| caps.get(group)).map(|m| m.as_str().to_string())
}

/// Whether `c` is an ASCII digit.
pub open spec fn is_digit(c: char) -> bool {
    '0' <= c <= '9'
}

/// The number written by the ASCII digits `s`.
pub open spec fn digits_value(s: Seq<char>) -> int
    decreases s.len(),
{
    if s.len() == 0 {
        0
    } else {
        digits_value(s.drop_last()) * 10 + (s.last() as int - '0' as int)
    }
}

/// What `str::parse::<u32>` gives for `s`: an optional `+` followed by at least
/// one ASCII digit, whose value fits in a `u32`.
pub open spec fn parsed_u32(s: Seq<char>) -> Option<u32> {
    let d = if s.len() > 0 && s[0] == '+' {
        s.drop_first()
    } else {
        s
    };
    if d.len() > 0 && (forall|i: int| 0 <= i < d.len() ==> is_digit(#[trigger] d[i])) && digits_value(d)
        <= u32::MAX {
        Some(digits_value(d) as u32)
    } else {
        None
    }
}

/// Calls `str::parse::<u32>`: the number written in `s`, or `None` when `s` is
/// not an optional `+` followed by decimal digits of a value that fits in a `u32`.
#[verifier::external_body]
fn parse_u32(s: &str) -> (r: Option<u32>)
    ensures
        r == parsed_u32(s@),
{
    s.parse::<u32>().ok()
}

/// The command that searches for a game: `s` or `search`.
pub const SEARCH_PATTERN: &'static str = "^s(earch)?$";

/// The command that moves: `m` or `move`, a space and the column.
pub const MOVE_PATTERN: &'static str = "^m(ove)? (\\d+)$";

/// The event for a command, from what the two patterns found in it: a search
/// when the search pattern matched; otherwise a move into the column written
/// in the move pattern's digits, when they read as a `u32`; otherwise none.
pub fn event_from_matches(search_matched: bool, move_digits: Option<String>) -> (r: Option<Event>)
    ensures
        r == (if search_matched {
            Some(Event::SearchGame(Empty {  }))
        } else {
            match move_digits {
                Some(d) => match parsed_u32(d@) {
                    Some(col) => Some(Event::Move(Move { col })),
                    None => None,
                },
                None => None,
            }
        }),
{
    if search_matched {
        Some(Event::SearchGame(Empty {  }))
    } else {
        match move_digits {
            Some(d) => match parse_u32(d.as_str()) {
                Some(col) => Some(Event::Move(Move { col })),
                None => None,
            },
            None => None,
        }
    }
}

/// The event for a command typed by the user (see `event_from_matches`);
/// `None` when it is not a command, or a pattern does not compile.
pub fn cmd_to_evt(cmd: &str) -> (r: Option<Event>)
    ensures
        r == (if regex_compiles(SEARCH_PATTERN@) && regex_compiles(MOVE_PATTERN@) {
            if regex_is_match(SEARCH_PATTERN@, cmd@) {
                Some(Event::SearchGame(Empty {  }))
            } else {
                match regex_group(MOVE_PATTERN@, cmd@, 2) {
                    Some(d) => match parsed_u32(d) {
                        Some(col) => Some(Event::Move(Move { col })),
                        None => None,
                    },
                    None => None,
                }
            }
        } else {
            None
        }),
{
    let regex_search = match compile(SEARCH_PATTERN) {
        Some(p) => p,
        None => return None,
    };
    let regex_move = match compile(MOVE_PATTERN) {
        Some(p) => p,
        None => return None,
    };
    if is_match(&regex_search, cmd) {
        event_from_matches(true, None)
    } else {
        event_from_matches(false, captured_group(&regex_move, cmd, 2))
    }
}

} // verus!
