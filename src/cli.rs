//! What the status and search screens show: the data they are drawn from and
//! the text of each row. Drawing them is the caller's.
use vstd::prelude::*;
use vstd::string::*;
use crate::clock::{clock_text, clock_text_of};
use crate::db::{
    Command, EventStore, StoreError, get_daemon_status, recent_spec, search_spec, views,
};
use crate::text::{trim, trim_spec};

verus! {

/// How many events the status screen lists.
pub const STATUS_ROWS: usize = 5;

/// How many events the search screen lists for an empty keyword.
pub const BROWSE_ROWS: usize = 10;

/// The label of the liveness flag.
pub fn status_label(active: bool) -> (r: &'static str)
    ensures
        r@ == (if active {
            "ON"@
        } else {
            "OFF"@
        }),
{
    if active {
        "ON"
    } else {
        "OFF"
    }
}

/// The liveness flag and the newest `STATUS_ROWS` events, newest first.
pub fn show_status(store: &EventStore) -> (r: Result<(bool, Vec<Command>), StoreError>)
    ensures
        store@.schema.status_row ==> (r matches Ok((a, v)) && a == store@.active && views(v@)
            == recent_spec(store@.events, STATUS_ROWS as int)),
        !store@.schema.status_row ==> r matches Err(StoreError::MissingStatusRow),
{
    let active = match get_daemon_status(store) {
        Ok(a) => a,
        Err(e) => {
            return Err(e);
        },
    };
    Ok((active, Command::get_last(store, STATUS_ROWS)))
}

/// The liveness flag and the events for `keyword`: the newest
/// `BROWSE_ROWS` when it is blank, else the search results.
pub fn search_commands(store: &EventStore, keyword: &str) -> (r: Result<
    (bool, Vec<Command>),
    StoreError,
>)
    ensures
        store@.schema.status_row ==> (r matches Ok((a, v)) && a == store@.active && views(v@)
            == (if trim_spec(keyword@).len() == 0 {
            recent_spec(store@.events, BROWSE_ROWS as int)
        } else {
            search_spec(store@.events, keyword@)
        })),
        !store@.schema.status_row ==> r matches Err(StoreError::MissingStatusRow),
{
    let active = match get_daemon_status(store) {
        Ok(a) => a,
        Err(e) => {
            return Err(e);
        },
    };
    let t = trim(keyword);
    if t.unicode_len() == 0 {
        Ok((active, Command::get_last(store, BROWSE_ROWS)))
    } else {
        Ok((active, Command::search(store, keyword)))
    }
}

/// `s` cut to `width` characters, the cut marked by three dots.
pub open spec fn fit_spec(s: Seq<char>, width: int) -> Seq<char> {
    if s.len() <= width {
        s
    } else {
        s.subrange(0, width - 3) + "..."@
    }
}

/// Shortens `s` to at most `width` characters, ending a cut text in `...`.
pub fn format_to_width(s: &str, width: usize) -> (r: String)
    requires
        width >= 3 || s@.len() <= width,
    ensures
        r@ == fit_spec(s@, width as int),
{
    let n = s.unicode_len();
    if n <= width {
        String::from_str(s)
    } else {
        String::from_str(s.substring_char(0, width - 3)).concat("...")
    }
}

/// One row of a listing: `stamp | command`, the command cut so that the row
/// fits in `width`.
pub fn format_entry(stamp: &str, command: &str, width: usize) -> (r: String)
    requires
        width >= 25 || (width >= 22 && command@.len() <= width - 22),
    ensures
        r@ == stamp@ + " | "@ + fit_spec(command@, width - 22),
{
    String::from_str(stamp).concat(" | ").concat(format_to_width(command, width - 22).as_str())
}

/// The row of a listing for `c`, its time written as `YYYY-MM-DD HH:MM:SS`,
/// or as `?` where the calendar cannot hold it.
pub fn format_command(c: &Command, width: usize) -> (r: String)
    requires
        width >= 25 || (width >= 22 && c.command@.len() <= width - 22),
    ensures
        r@ == clock_text_of(c.timestamp) + " | "@ + fit_spec(c.command@, width - 22) || r@ == "?"@
            + " | "@ + fit_spec(c.command@, width - 22),
{
    match clock_text(c.timestamp) {
        Some(t) => format_entry(t.as_str(), c.command.as_str(), width),
        None => format_entry("?", c.command.as_str(), width),
    }
}

} // verus!
