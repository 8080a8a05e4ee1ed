//! The recording step of the daemon: each line read from the history file is
//! filtered, classified and saved.
use vstd::prelude::*;
use crate::ai::{categorize_command, classify_spec, lower_of, labels_view};
use crate::db::{Command, CommandView, EventStore, StoreError, StoreModel, insert_pos, opt_view};
use crate::dedup::{Deduplicator, accept_spec, next_last};
use crate::text::{trim, trim_spec};

verus! {

/// The event recorded for `line`, up to its timestamp: its trimmed text and
/// the labels of the classifier, under identifier `id`.
pub open spec fn recorded_as(e: CommandView, line: Seq<char>, id: i64) -> bool {
    let t = trim_spec(line);
    &&& e.id == Some(id)
    &&& e.command == t
    &&& match classify_spec(lower_of(t)) {
        Some(l) => e.categorization == Some(l.0) && e.tags == Some(l.1) && e.context == Some(
            l.2,
        ),
        None => e.categorization is None && e.tags is None && e.context is None,
    }
}

/// `after` is `before` with the event recorded for `line` under `id`, put in
/// its place by timestamp.
pub open spec fn saved_line(before: StoreModel, after: StoreModel, line: Seq<char>, id: i64) -> bool {
    exists|e: CommandView|
        #[trigger] recorded_as(e, line, id) && after == (StoreModel {
            events: before.events.insert(insert_pos(before.events, e.timestamp), e),
            next_id: (id + 1) as i64,
            ..before
        })
}

/// Filters `raw_command` through `dedup` and, if it is accepted, saves its
/// trimmed text with the classifier's labels; returns the new identifier.
pub fn process_command(dedup: &mut Deduplicator, store: &mut EventStore, raw_command: &str) -> (r:
    Result<Option<i64>, StoreError>)
    requires
        old(store).wf(),
    ensures
        final(store).wf(),
        final(dedup)@ == next_last(old(dedup)@, raw_command@),
        !accept_spec(old(dedup)@, raw_command@) ==> r == Ok::<Option<i64>, StoreError>(None),
        accept_spec(old(dedup)@, raw_command@) && !old(store)@.schema.events_table ==> r == Err::<
            Option<i64>,
            StoreError,
        >(StoreError::MissingTable),
        accept_spec(old(dedup)@, raw_command@) && old(store)@.schema.events_table
            && old(store)@.next_id == i64::MAX ==> r == Err::<Option<i64>, StoreError>(
            StoreError::IdsExhausted,
        ),
        accept_spec(old(dedup)@, raw_command@) && old(store)@.schema.events_table
            && old(store)@.next_id < i64::MAX ==> r == Ok::<Option<i64>, StoreError>(
            Some(old(store)@.next_id),
        ),
        !(r matches Ok(Some(_))) ==> final(store)@ == old(store)@,
        r matches Ok(Some(id)) ==> final(store)@.events.len() == old(store)@.events.len() + 1
            && final(store)@.next_id == id + 1 && final(store)@.schema == old(store)@.schema,
        r matches Ok(Some(id)) ==> saved_line(old(store)@, final(store)@, raw_command@, id),
{
    if !dedup.accept(raw_command) {
        return Ok(None);
    }
    let t = trim(raw_command);
    let mut c = Command::new(t);
    let labels = categorize_command(t);
    match labels {
        Some(l) => {
            c.categorization = Some(l.0);
            c.tags = Some(l.1);
            c.context = Some(l.2);
        },
        None => {},
    }
    let ghost cv = c@;
    let ghost before = store@;
    assert(before == old(store)@);
    match c.save(store) {
        Ok(id) => {
            let ghost e = crate::db::stored(cv, id);
            assert(recorded_as(e, raw_command@, id));
            assert(id == before.next_id);
            assert(e.timestamp == cv.timestamp);
            proof {
                crate::db::lemma_insert_pos_bound(before.events, e.timestamp);
            }
            assert(store@ == (StoreModel {
                events: before.events.insert(insert_pos(before.events, e.timestamp), e),
                next_id: (id + 1) as i64,
                ..before
            }));
            assert(saved_line(old(store)@, store@, raw_command@, id));
            Ok(Some(id))
        },
        Err(e) => Err(e),
    }
}

/// The last accepted line after the first `n` of `lines`.
pub open spec fn last_after(last: Option<Seq<char>>, lines: Seq<Seq<char>>, n: int) -> Option<
    Seq<char>,
>
    decreases n,
{
    if n <= 0 {
        last
    } else {
        next_last(last_after(last, lines, n - 1), lines[n - 1])
    }
}

/// How many of the first `n` of `lines` are accepted: not empty, not denied,
/// not a repeat of the line accepted just before.
pub open spec fn accepted_count(last: Option<Seq<char>>, lines: Seq<Seq<char>>, n: int) -> nat
    decreases n,
{
    if n <= 0 {
        0
    } else {
        accepted_count(last, lines, n - 1) + if accept_spec(
            last_after(last, lines, n - 1),
            lines[n - 1],
        ) {
            1nat
        } else {
            0nat
        }
    }
}

pub open spec fn line_views(lines: Seq<String>) -> Seq<Seq<char>> {
    lines.map_values(|s: String| s@)
}

/// Records `lines` in order and returns how many were saved: exactly as many
/// as are accepted, and the store grows by that many events. Saving succeeds
/// whenever the schema is migrated and identifiers remain for every line.
pub fn process_lines(dedup: &mut Deduplicator, store: &mut EventStore, lines: &Vec<String>) -> (r:
    Result<usize, StoreError>)
    requires
        old(store).wf(),
    ensures
        final(store).wf(),
        old(store)@.schema.events_table && old(store)@.next_id + lines@.len() < i64::MAX
            ==> r is Ok,
        r matches Ok(n) ==> n == accepted_count(
            old(dedup)@,
            line_views(lines@),
            lines@.len() as int,
        ) && final(store)@.events.len() == old(store)@.events.len() + n && final(dedup)@
            == last_after(old(dedup)@, line_views(lines@), lines@.len() as int),
{
    let ghost d0 = dedup@;
    let ghost ls = line_views(lines@);
    let mut n: usize = 0;
    let mut i: usize = 0;
    while i < lines.len()
        invariant
            store.wf(),
            ls == line_views(lines@),
            i <= lines@.len(),
            n <= i,
            n == accepted_count(d0, ls, i as int),
            dedup@ == last_after(d0, ls, i as int),
            store@.events.len() == old(store)@.events.len() + n,
            store@.schema == old(store)@.schema,
            store@.next_id <= old(store)@.next_id + n,
        decreases lines@.len() - i,
    {
        assert(ls[i as int] == lines@[i as int]@);
        let r = process_command(dedup, store, lines[i].as_str());
        match r {
            Ok(Some(_)) => {
                n = n + 1;
            },
            Ok(None) => {},
            Err(e) => {
                return Err(e);
            },
        }
        i = i + 1;
    }
    Ok(n)
}

} // verus!
