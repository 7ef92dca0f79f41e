use vstd::prelude::*;
use vstd::utf8::is_ascii_chars;

use crate::errors::ClientError;
use crate::order_key::{get_midpoint_string, midpoint_key};

verus! {

/// The view of an optional borrowed text.
pub open spec fn opt_view(t: Option<&str>) -> Option<Seq<char>> {
    match t {
        Some(s) => Some(s@),
        None => None,
    }
}

/// The order key of a command moved next to other commands. A neighbour is
/// named by its id and found with its key; a missing neighbour stands for an
/// end of the list, but only where no id was named for it. The moved command
/// goes after `prev` when only `prev` is given, before `next` when only
/// `next` is given, and between them when both are. Anything else is a
/// command that was not found.
pub open spec fn move_order(
    command_found: bool,
    prev_id: Option<i32>,
    prev: Option<Seq<char>>,
    next_id: Option<i32>,
    next: Option<Seq<char>>,
) -> Result<Seq<char>, ClientError> {
    if !command_found {
        Err(ClientError::CommandNotFound)
    } else if prev is Some && next_id is None && next is None {
        Ok(midpoint_key(prev->0, Seq::empty()))
    } else if prev_id is None && prev is None && next is Some {
        Ok(midpoint_key(Seq::empty(), next->0))
    } else if prev is Some && next is Some {
        Ok(midpoint_key(prev->0, next->0))
    } else {
        Err(ClientError::CommandNotFound)
    }
}

/// The new order key of a moved command (see `move_order`).
pub fn order_for_move(
    command_found: bool,
    prev_command_id: Option<i32>,
    prev_order: Option<&str>,
    next_command_id: Option<i32>,
    next_order: Option<&str>,
) -> (r: Result<String, ClientError>)
    requires
        prev_order matches Some(p) ==> is_ascii_chars(p@),
        next_order matches Some(n) ==> is_ascii_chars(n@),
    ensures
        match (r, move_order(
            command_found,
            prev_command_id,
            opt_view(prev_order),
            next_command_id,
            opt_view(next_order),
        )) {
            (Ok(k), Ok(m)) => k@ == m,
            (Err(e), Err(f)) => e == f,
            _ => false,
        },
{
    proof {
        reveal_strlit("");
    }
    if !command_found {
        return Err(ClientError::CommandNotFound);
    }
    proof {
        assert(""@ =~= Seq::<char>::empty());
    }
    match (prev_order, next_command_id, next_order) {
        (Some(p), None, None) => {
            return Ok(get_midpoint_string(p, ""));
        },
        _ => {},
    }
    match (prev_command_id, prev_order, next_order) {
        (None, None, Some(n)) => Ok(get_midpoint_string("", n)),
        (_, Some(p), Some(n)) => Ok(get_midpoint_string(p, n)),
        _ => Err(ClientError::CommandNotFound),
    }
}

/// The order key of a new command: after the last command, or the first
/// key of all when there is none.
pub fn order_after_last(last_order: Option<&str>) -> (r: String)
    requires
        last_order matches Some(l) ==> is_ascii_chars(l@),
    ensures
        r@ == midpoint_key(
            match last_order {
                Some(l) => l@,
                None => Seq::empty(),
            },
            Seq::empty(),
        ),
{
    proof {
        reveal_strlit("");
    }
    match last_order {
        Some(l) => get_midpoint_string(l, ""),
        None => get_midpoint_string("", ""),
    }
}

/// How many log lines one page holds.
pub const LOG_PAGE_SIZE: i64 = 100;

/// How many newer log lines are fetched at most in one request.
pub const NEWER_LOG_LIMIT: i64 = 10000;

/// A page of a command's log, in terms of log line ids.
#[derive(Debug, Clone, Copy, PartialEq, Eq, Structural)]
pub enum LogPage {
    /// The newest lines.
    Latest,
    /// The lines just before the line with this id.
    OlderThan(i32),
    /// The lines after the line with this id.
    NewerThan(i32),
}

/// The page before the line `first_id`; `0` is no line id.
pub fn older_log_page(first_id: i32) -> (r: Result<LogPage, ClientError>)
    ensures
        first_id == 0 ==> r == Err::<LogPage, ClientError>(ClientError::InvalidCommandId),
        first_id != 0 ==> r == Ok::<LogPage, ClientError>(LogPage::OlderThan(first_id)),
{
    if first_id == 0 {
        Err(ClientError::InvalidCommandId)
    } else {
        Ok(LogPage::OlderThan(first_id))
    }
}

/// The lines after `last_id`; with `0`, no line is known yet and the newest
/// page is meant.
pub fn newer_log_page(last_id: i32) -> (r: LogPage)
    ensures
        last_id == 0 ==> r == LogPage::Latest,
        last_id != 0 ==> r == LogPage::NewerThan(last_id),
{
    if last_id == 0 {
        LogPage::Latest
    } else {
        LogPage::NewerThan(last_id)
    }
}

pub open spec fn spec_page_limit(page: LogPage) -> i64 {
    match page {
        LogPage::NewerThan(_) => NEWER_LOG_LIMIT,
        _ => LOG_PAGE_SIZE,
    }
}

/// How many lines to fetch for `page`.
pub fn page_limit(page: LogPage) -> (r: i64)
    ensures
        r == spec_page_limit(page),
{
    match page {
        LogPage::NewerThan(_) => NEWER_LOG_LIMIT,
        _ => LOG_PAGE_SIZE,
    }
}

/// Whether the lines of `page` are fetched newest first (and must be turned
/// around before they are shown).
pub fn fetched_newest_first(page: LogPage) -> (r: bool)
    ensures
        r == !(page is NewerThan),
{
    match page {
        LogPage::NewerThan(_) => false,
        _ => true,
    }
}

/// The lines in the opposite order: lines fetched newest first come out
/// oldest first.
pub fn oldest_first<T>(lines: Vec<T>) -> (r: Vec<T>)
    ensures
        r@ == lines@.reverse(),
{
    let mut rest = lines;
    let mut out: Vec<T> = Vec::new();
    let ghost all = rest@;
    while rest.len() > 0
        invariant
            all == rest@ + out@.reverse(),
        decreases rest.len(),
    {
        let ghost before = rest@;
        let ghost done = out@;
        let x = rest.pop().unwrap();
        out.push(x);
        proof {
            assert(before == rest@.push(x));
            assert(out@.reverse() =~= seq![x] + done.reverse());
            assert(all =~= rest@ + out@.reverse());
        }
    }
    proof {
        assert(rest@ =~= Seq::<T>::empty());
        assert(all =~= out@.reverse());
        assert(out@.reverse().reverse() =~= out@);
    }
    out
}

} // verus!
