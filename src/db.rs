//! The event store: recorded commands, the daemon-liveness flag and the
//! schema state, with the ordering and matching rules of its queries.
use vstd::prelude::*;
use crate::clock::now_seconds;
use vstd::string::*;
use crate::text::{chars_of, contains_seq};

verus! {

/// A recorded command line.
pub struct Command {
    /// Assigned by the store when the command is saved.
    pub id: Option<i64>,
    /// Capture time, in seconds since the Unix epoch (UTC).
    pub timestamp: i64,
    pub command: String,
    pub categorization: Option<String>,
    pub tags: Option<String>,
    pub context: Option<String>,
}

pub struct CommandView {
    pub id: Option<i64>,
    pub timestamp: i64,
    pub command: Seq<char>,
    pub categorization: Option<Seq<char>>,
    pub tags: Option<Seq<char>>,
    pub context: Option<Seq<char>>,
}

pub open spec fn opt_view(o: Option<String>) -> Option<Seq<char>> {
    match o {
        Some(s) => Some(s@),
        None => None,
    }
}

impl View for Command {
    type V = CommandView;

    open spec fn view(&self) -> CommandView {
        CommandView {
            id: self.id,
            timestamp: self.timestamp,
            command: self.command@,
            categorization: opt_view(self.categorization),
            tags: opt_view(self.tags),
            context: opt_view(self.context),
        }
    }
}

pub fn copy_text(o: &Option<String>) -> (r: Option<String>)
    ensures
        opt_view(r) == opt_view(*o),
{
    match o {
        Some(s) => Some(s.clone()),
        None => None,
    }
}

impl Command {
    /// A command captured now, not yet saved and not yet classified.
    pub fn new(command: &str) -> (r: Command)
        ensures
            r.id.is_none(),
            r.command@ == command@,
            r.categorization.is_none(),
            r.tags.is_none(),
            r.context.is_none(),
    {
        Command {
            id: None,
            timestamp: now_seconds(),
            command: String::from_str(command),
            categorization: None,
            tags: None,
            context: None,
        }
    }

    pub fn duplicate(&self) -> (r: Command)
        ensures
            r@ == self@,
    {
        Command {
            id: self.id,
            timestamp: self.timestamp,
            command: self.command.clone(),
            categorization: copy_text(&self.categorization),
            tags: copy_text(&self.tags),
            context: copy_text(&self.context),
        }
    }
}

/// The schema version this library writes.
pub const SCHEMA_VERSION: u32 = 1;

/// Which schema objects exist, and the recorded version (0 when none is).
#[derive(Clone, Copy, PartialEq, Eq, Structural)]
pub struct Schema {
    pub version: u32,
    pub version_table: bool,
    pub events_table: bool,
    pub status_row: bool,
    pub timestamp_index: bool,
    pub text_index: bool,
}

/// One step of a migration; each creates its object only if it is absent.
#[derive(Clone, Copy, PartialEq, Eq, Structural)]
pub enum MigrationStep {
    CreateVersionTable,
    CreateEventsTable,
    /// The singleton status row, inactive, with its table.
    CreateStatusRow,
    CreateTimestampIndex,
    CreateTextIndex,
    /// Records `SCHEMA_VERSION` as the schema's version.
    RecordVersion,
}

/// The steps that bring a schema of the given version up to date: the
/// version table always, the rest only below `SCHEMA_VERSION`.
pub open spec fn steps_spec(version: u32) -> Seq<MigrationStep> {
    if version < SCHEMA_VERSION {
        seq![
            MigrationStep::CreateVersionTable,
            MigrationStep::CreateEventsTable,
            MigrationStep::CreateStatusRow,
            MigrationStep::CreateTimestampIndex,
            MigrationStep::CreateTextIndex,
            MigrationStep::RecordVersion,
        ]
    } else {
        seq![MigrationStep::CreateVersionTable]
    }
}

pub open spec fn apply_step_spec(s: Schema, step: MigrationStep) -> Schema {
    match step {
        MigrationStep::CreateVersionTable => Schema { version_table: true, ..s },
        MigrationStep::CreateEventsTable => Schema { events_table: true, ..s },
        MigrationStep::CreateStatusRow => Schema { status_row: true, ..s },
        MigrationStep::CreateTimestampIndex => Schema { timestamp_index: true, ..s },
        MigrationStep::CreateTextIndex => Schema { text_index: true, ..s },
        MigrationStep::RecordVersion => Schema { version: SCHEMA_VERSION, ..s },
    }
}

/// The schema after the first `n` of `steps`.
pub open spec fn apply_steps(s: Schema, steps: Seq<MigrationStep>, n: int) -> Schema
    decreases n,
{
    if n <= 0 {
        s
    } else {
        apply_step_spec(apply_steps(s, steps, n - 1), steps[n - 1])
    }
}

/// The schema after a migration: every object present at the current
/// version, or, from a schema that is already current, only the version
/// table added.
pub open spec fn migrated(s: Schema) -> Schema {
    if s.version < SCHEMA_VERSION {
        Schema {
            version: SCHEMA_VERSION,
            version_table: true,
            events_table: true,
            status_row: true,
            timestamp_index: true,
            text_index: true,
        }
    } else {
        Schema { version_table: true, ..s }
    }
}

/// The steps that migrate a schema found at `version`.
pub fn migration_steps(version: u32) -> (r: Vec<MigrationStep>)
    ensures
        r@ == steps_spec(version),
{
    let mut r: Vec<MigrationStep> = Vec::new();
    r.push(MigrationStep::CreateVersionTable);
    if version < SCHEMA_VERSION {
        r.push(MigrationStep::CreateEventsTable);
        r.push(MigrationStep::CreateStatusRow);
        r.push(MigrationStep::CreateTimestampIndex);
        r.push(MigrationStep::CreateTextIndex);
        r.push(MigrationStep::RecordVersion);
    }
    assert(r@ =~= steps_spec(version));
    r
}

/// What one step does to the schema.
pub fn apply_step(s: Schema, step: MigrationStep) -> (r: Schema)
    ensures
        r == apply_step_spec(s, step),
{
    match step {
        MigrationStep::CreateVersionTable => Schema { version_table: true, ..s },
        MigrationStep::CreateEventsTable => Schema { events_table: true, ..s },
        MigrationStep::CreateStatusRow => Schema { status_row: true, ..s },
        MigrationStep::CreateTimestampIndex => Schema { timestamp_index: true, ..s },
        MigrationStep::CreateTextIndex => Schema { text_index: true, ..s },
        MigrationStep::RecordVersion => Schema { version: SCHEMA_VERSION, ..s },
    }
}

proof fn lemma_steps_migrate(s: Schema)
    ensures
        apply_steps(s, steps_spec(s.version), steps_spec(s.version).len() as int) == migrated(s),
{
    let st = steps_spec(s.version);
    reveal_with_fuel(apply_steps, 7);
    if s.version < SCHEMA_VERSION {
        assert(apply_steps(s, st, 6) == migrated(s));
    } else {
        assert(apply_steps(s, st, 1) == migrated(s));
    }
}

/// Brings a schema up to date.
pub fn migrate_schema(s: Schema) -> (r: Schema)
    ensures
        r == migrated(s),
{
    let steps = migration_steps(s.version);
    let mut cur = s;
    let mut i: usize = 0;
    while i < steps.len()
        invariant
            steps@ == steps_spec(s.version),
            i <= steps@.len(),
            cur == apply_steps(s, steps@, i as int),
        decreases steps@.len() - i,
    {
        cur = apply_step(cur, steps[i]);
        i = i + 1;
    }
    proof {
        lemma_steps_migrate(s);
    }
    cur
}



/// Why a store operation failed.
#[derive(Clone, Copy, PartialEq, Eq, Structural, Debug)]
pub enum StoreError {
    /// The events table does not exist: the schema has not been migrated.
    MissingTable,
    /// The singleton status row does not exist.
    MissingStatusRow,
    /// Every identifier has been given out.
    IdsExhausted,
    /// A stored row carries no identifier, or one at or below an identifier
    /// already held.
    BadRow,
}

/// The largest number of results that a search returns.
pub const SEARCH_LIMIT: usize = 50;

/// The store: events ordered oldest first by timestamp then identifier, the
/// identifier the next saved event receives, the liveness flag, the schema.
pub struct EventStore {
    events: Vec<Command>,
    next_id: i64,
    active: bool,
    schema: Schema,
}

pub struct StoreModel {
    pub events: Seq<CommandView>,
    pub next_id: i64,
    pub active: bool,
    pub schema: Schema,
}

impl View for EventStore {
    type V = StoreModel;

    closed spec fn view(&self) -> StoreModel {
        StoreModel {
            events: self.events@.map_values(|c: Command| c@),
            next_id: self.next_id,
            active: self.active,
            schema: self.schema,
        }
    }
}

pub open spec fn views(s: Seq<Command>) -> Seq<CommandView> {
    s.map_values(|c: Command| c@)
}

pub open spec fn id_of(e: CommandView) -> int {
    match e.id {
        Some(i) => i as int,
        None => 0,
    }
}

/// `a` is older than `b`: an earlier timestamp, or the same one and a
/// smaller identifier.
pub open spec fn older(a: CommandView, b: CommandView) -> bool {
    a.timestamp < b.timestamp || (a.timestamp == b.timestamp && id_of(a) < id_of(b))
}

/// The well-formed store views: every event holds an identifier below
/// `next_id`, the identifiers are distinct, the events stand oldest first,
/// and without the status row the flag is clear.
pub open spec fn store_wf(v: StoreModel) -> bool {
    &&& 0 < v.next_id
    &&& forall|i: int| 0 <= i < v.events.len() ==> v.events[i].id.is_some()
    &&& forall|i: int| 0 <= i < v.events.len() ==> 0 < id_of(#[trigger] v.events[i]) < v.next_id
    &&& forall|i: int, j: int|
        0 <= i < j < v.events.len() ==> older(v.events[i], v.events[j])
    &&& forall|i: int, j: int|
        0 <= i < v.events.len() && 0 <= j < v.events.len() && i != j
            ==> id_of(v.events[i]) != id_of(v.events[j])
    &&& (!v.schema.status_row ==> !v.active)
}

/// Where an event with timestamp `ts` and an identifier above all others
/// goes: after every event that is not newer.
pub open spec fn insert_pos(s: Seq<CommandView>, ts: i64) -> int
    decreases s.len(),
{
    if s.len() == 0 {
        0
    } else if s.last().timestamp > ts {
        insert_pos(s.drop_last(), ts)
    } else {
        s.len() as int
    }
}

/// `c` as stored under identifier `id`.
pub open spec fn stored(c: CommandView, id: i64) -> CommandView {
    CommandView { id: Some(id), ..c }
}

/// The `limit` newest events, newest first.
pub open spec fn recent_spec(s: Seq<CommandView>, limit: int) -> Seq<CommandView> {
    let k = if limit < s.len() { limit } else { s.len() as int };
    Seq::new(k as nat, |j: int| s[s.len() - 1 - j])
}

/// A character with ASCII upper case folded to lower case, as a code point.
pub open spec fn fold_code(c: char) -> u32 {
    if 'A' <= c && c <= 'Z' {
        (c as u32 + 32) as u32
    } else {
        c as u32
    }
}

pub open spec fn folded(s: Seq<char>) -> Seq<u32> {
    s.map_values(|c: char| fold_code(c))
}

/// `kw` occurs in `f`, ignoring ASCII case.
pub open spec fn text_matches(f: Seq<char>, kw: Seq<char>) -> bool {
    contains_seq(folded(f), folded(kw))
}

pub open spec fn opt_matches(f: Option<Seq<char>>, kw: Seq<char>) -> bool {
    match f {
        Some(t) => text_matches(t, kw),
        None => false,
    }
}

/// `kw` occurs, ignoring ASCII case, in the text, category, tags or context.
pub open spec fn event_matches(e: CommandView, kw: Seq<char>) -> bool {
    text_matches(e.command, kw) || opt_matches(e.categorization, kw) || opt_matches(e.tags, kw)
        || opt_matches(e.context, kw)
}

/// The events that match `kw`, newest first.
pub open spec fn newest_matching(s: Seq<CommandView>, kw: Seq<char>) -> Seq<CommandView>
    decreases s.len(),
{
    if s.len() == 0 {
        Seq::empty()
    } else {
        let rest = newest_matching(s.drop_last(), kw);
        if event_matches(s.last(), kw) {
            seq![s.last()] + rest
        } else {
            rest
        }
    }
}

/// The result of a search: the newest matching events, at most
/// `SEARCH_LIMIT` of them.
pub open spec fn search_spec(s: Seq<CommandView>, kw: Seq<char>) -> Seq<CommandView> {
    let m = newest_matching(s, kw);
    if m.len() <= SEARCH_LIMIT {
        m
    } else {
        m.take(SEARCH_LIMIT as int)
    }
}

fn fold(c: char) -> (r: u32)
    ensures
        r == fold_code(c),
{
    if 'A' <= c && c <= 'Z' {
        c as u32 + 32
    } else {
        c as u32
    }
}

fn folded_at(h: &Vec<char>, n: &Vec<char>, i: usize) -> (r: bool)
    ensures
        r == crate::text::occurs_at(folded(h@), folded(n@), i as int),
{
    if i > h.len() || n.len() > h.len() - i {
        return false;
    }
    let mut j: usize = 0;
    while j < n.len()
        invariant
            i + n@.len() <= h@.len(),
            h@.len() == h.len(),
            j <= n@.len(),
            forall|k: int| 0 <= k < j ==> fold_code(h@[i + k]) == fold_code(n@[k]),
        decreases n@.len() - j,
    {
        if fold(h[i + j]) != fold(n[j]) {
            assert(folded(h@).subrange(i as int, i + n@.len())[j as int] != folded(n@)[j as int]);
            return false;
        }
        j = j + 1;
    }
    assert(folded(h@).subrange(i as int, i + n@.len()) =~= folded(n@));
    true
}

/// Whether `n` occurs in `h`, ignoring ASCII case.
pub fn contains_folded(h: &Vec<char>, n: &Vec<char>) -> (r: bool)
    ensures
        r == contains_seq(folded(h@), folded(n@)),
{
    if n.len() > h.len() {
        return false;
    }
    let last = h.len() - n.len();
    let mut i: usize = 0;
    loop
        invariant
            last == h@.len() - n@.len(),
            i <= last,
            forall|k: int| 0 <= k < i ==> !crate::text::occurs_at(folded(h@), folded(n@), k),
        decreases last - i,
    {
        if folded_at(h, n, i) {
            return true;
        }
        if i == last {
            return false;
        }
        i = i + 1;
    }
}

fn field_matches(f: &Option<String>, kw: &Vec<char>) -> (r: bool)
    ensures
        r == opt_matches(opt_view(*f), kw@),
{
    match f {
        Some(t) => contains_folded(&chars_of(t.as_str()), kw),
        None => false,
    }
}

fn command_matches(c: &Command, kw: &Vec<char>) -> (r: bool)
    ensures
        r == event_matches(c@, kw@),
{
    contains_folded(&chars_of(c.command.as_str()), kw) || field_matches(&c.categorization, kw)
        || field_matches(&c.tags, kw) || field_matches(&c.context, kw)
}


/// The insertion point lies within the sequence.
pub proof fn lemma_insert_pos_bound(s: Seq<CommandView>, ts: i64)
    ensures
        0 <= insert_pos(s, ts) <= s.len(),
    decreases s.len(),
{
    if s.len() > 0 && s.last().timestamp > ts {
        lemma_insert_pos_bound(s.drop_last(), ts);
    }
}

impl EventStore {
    pub open spec fn wf(&self) -> bool {
        store_wf(self@)
    }

    /// An empty store with no schema at all.
    pub fn new() -> (r: EventStore)
        ensures
            r.wf(),
            r@.events.len() == 0,
            r@.next_id == 1,
            !r@.active,
            r@.schema == (Schema {
                version: 0,
                version_table: false,
                events_table: false,
                status_row: false,
                timestamp_index: false,
                text_index: false,
            }),
    {
        let r = EventStore {
            events: Vec::new(),
            next_id: 1,
            active: false,
            schema: Schema {
                version: 0,
                version_table: false,
                events_table: false,
                status_row: false,
                timestamp_index: false,
                text_index: false,
            },
        };
        assert(r@.events =~= Seq::<CommandView>::empty());
        r
    }

    /// The number of events held.
    pub fn count(&self) -> (r: usize)
        ensures
            r == self@.events.len(),
    {
        self.events.len()
    }

    /// The schema as it stands.
    pub fn schema(&self) -> (r: Schema)
        ensures
            r == self@.schema,
    {
        self.schema
    }

    /// Puts `e`, whose identifier exceeds every one held, after every event
    /// that is not newer.
    fn insert_event(&mut self, e: Command)
        requires
            old(self).wf(),
            e.id matches Some(id) && old(self)@.next_id <= id < i64::MAX,
        ensures
            final(self).wf(),
            final(self)@ == (StoreModel {
                events: old(self)@.events.insert(
                    insert_pos(old(self)@.events, e.timestamp),
                    e@,
                ),
                next_id: (id_of(e@) + 1) as i64,
                ..old(self)@
            }),
    {
        let ghost s = self@.events;
        let ts = e.timestamp;
        let id = match e.id {
            Some(i) => i,
            None => 0,
        };
        let mut i: usize = self.events.len();
        assert(s.subrange(0, i as int) =~= s);
        while i > 0 && self.events[i - 1].timestamp > ts
            invariant
                s == self@.events,
                self.events@.len() == s.len(),
                i <= s.len(),
                insert_pos(s.subrange(0, i as int), ts) == insert_pos(s, ts),
                forall|k: int| i <= k < s.len() ==> s[k].timestamp > ts,
            decreases i,
        {
            assert(s.subrange(0, i as int).drop_last() =~= s.subrange(0, i - 1));
            i = i - 1;
        }
        proof {
            assert(s.subrange(0, i as int).len() == i);
            if i > 0 {
                assert(s.subrange(0, i as int).last() == s[i - 1]);
            }
            assert(s.subrange(0, s.len() as int) =~= s);
        }
        self.events.insert(i, e);
        self.next_id = id + 1;
        proof {
            let v = self@;
            assert(v.events =~= s.insert(i as int, e@));
            let ne = e@;
            assert forall|a: int, b: int| 0 <= a < b < v.events.len() implies older(
                v.events[a],
                v.events[b],
            ) by {
                if b < i {
                } else if b == i {
                    assert(older(s[a], s[i - 1]) || a == i - 1);
                    assert(id_of(s[a]) < id_of(ne));
                } else if a < i {
                    assert(id_of(s[a]) < id_of(ne));
                    assert(v.events[b] == s[b - 1]);
                } else if a == i {
                    assert(v.events[b] == s[b - 1]);
                } else {
                    assert(v.events[a] == s[a - 1]);
                    assert(v.events[b] == s[b - 1]);
                }
            }
            assert forall|k: int| 0 <= k < v.events.len() implies 0 < id_of(
                #[trigger] v.events[k],
            ) < v.next_id by {
                if k < i {
                } else if k > i {
                    assert(v.events[k] == s[k - 1]);
                }
            }
            assert forall|a: int, b: int|
                0 <= a < v.events.len() && 0 <= b < v.events.len() && a != b implies id_of(
                v.events[a],
            ) != id_of(v.events[b]) by {
                if a != i && b != i {
                    let a0 = if a < i { a } else { a - 1 };
                    let b0 = if b < i { b } else { b - 1 };
                    assert(v.events[a] == s[a0]);
                    assert(v.events[b] == s[b0]);
                } else if a == i {
                    let b0 = if b < i { b } else { b - 1 };
                    assert(v.events[b] == s[b0]);
                } else {
                    let a0 = if a < i { a } else { a - 1 };
                    assert(v.events[a] == s[a0]);
                }
            }
        }
    }

    /// Restores an event read back from durable storage. Rows must come in
    /// increasing order of identifier.
    pub fn load(&mut self, c: Command) -> (r: Result<(), StoreError>)
        requires
            old(self).wf(),
        ensures
            final(self).wf(),
            !old(self)@.schema.events_table ==> r == Err::<(), StoreError>(
                StoreError::MissingTable,
            ),
            old(self)@.schema.events_table && !(c.id matches Some(id) && old(self)@.next_id <= id
                < i64::MAX) ==> r == Err::<(), StoreError>(StoreError::BadRow),
            r.is_err() ==> final(self)@ == old(self)@,
            r.is_ok() ==> old(self)@.schema.events_table && final(self)@ == (StoreModel {
                events: old(self)@.events.insert(insert_pos(old(self)@.events, c.timestamp), c@),
                next_id: (id_of(c@) + 1) as i64,
                ..old(self)@
            }),
    {
        if !self.schema.events_table {
            return Err(StoreError::MissingTable);
        }
        match c.id {
            Some(id) => {
                if id < self.next_id || id == i64::MAX {
                    return Err(StoreError::BadRow);
                }
            },
            None => {
                return Err(StoreError::BadRow);
            },
        }
        self.insert_event(c);
        Ok(())
    }
}

impl Command {
    /// Saves this command under the next identifier and returns it.
    pub fn save(&self, store: &mut EventStore) -> (r: Result<i64, StoreError>)
        requires
            old(store).wf(),
        ensures
            final(store).wf(),
            !old(store)@.schema.events_table ==> r == Err::<i64, StoreError>(
                StoreError::MissingTable,
            ),
            old(store)@.schema.events_table && old(store)@.next_id == i64::MAX ==> r == Err::<
                i64,
                StoreError,
            >(StoreError::IdsExhausted),
            r.is_err() ==> final(store)@ == old(store)@,
            old(store)@.schema.events_table && old(store)@.next_id < i64::MAX ==> r == Ok::<
                i64,
                StoreError,
            >(old(store)@.next_id),
            r.is_ok() ==> final(store)@ == (StoreModel {
                events: old(store)@.events.insert(
                    insert_pos(old(store)@.events, self.timestamp),
                    stored(self@, old(store)@.next_id),
                ),
                next_id: (old(store)@.next_id + 1) as i64,
                ..old(store)@
            }),
    {
        if !store.schema.events_table {
            return Err(StoreError::MissingTable);
        }
        if store.next_id == i64::MAX {
            return Err(StoreError::IdsExhausted);
        }
        let id = store.next_id;
        let mut e = self.duplicate();
        e.id = Some(id);
        assert(e@ == stored(self@, id));
        store.insert_event(e);
        Ok(id)
    }

    /// The `limit` newest events, newest first: by timestamp, then by
    /// identifier, both descending.
    pub fn get_last(store: &EventStore, limit: usize) -> (r: Vec<Command>)
        ensures
            views(r@) == recent_spec(store@.events, limit as int),
    {
        let n = store.events.len();
        let k = if limit < n {
            limit
        } else {
            n
        };
        let mut r: Vec<Command> = Vec::new();
        let mut j: usize = 0;
        while j < k
            invariant
                n == store.events@.len(),
                k <= n,
                j <= k,
                r@.len() == j,
                forall|t: int| 0 <= t < j ==> (#[trigger] r@[t])@ == store.events@[n - 1 - t]@,
            decreases k - j,
        {
            r.push(store.events[n - 1 - j].duplicate());
            j = j + 1;
        }
        assert(views(r@) =~= recent_spec(store@.events, limit as int));
        r
    }

    /// The newest events, at most `SEARCH_LIMIT`, whose text, category, tags
    /// or context contains `keyword` ignoring ASCII case. An empty keyword
    /// matches every event.
    pub fn search(store: &EventStore, keyword: &str) -> (r: Vec<Command>)
        ensures
            views(r@) == search_spec(store@.events, keyword@),
    {
        let ghost s = store@.events;
        let kw = chars_of(keyword);
        let mut r: Vec<Command> = Vec::new();
        let mut i: usize = store.events.len();
        assert(s.subrange(0, i as int) =~= s);
        assert(views(r@) + newest_matching(s, kw@) =~= newest_matching(s, kw@));
        while i > 0 && r.len() < SEARCH_LIMIT
            invariant
                s == store@.events,
                kw@ == keyword@,
                i <= s.len(),
                store.events@.len() == s.len(),
                r@.len() <= SEARCH_LIMIT,
                views(r@) + newest_matching(s.subrange(0, i as int), kw@) == newest_matching(
                    s,
                    kw@,
                ),
            decreases i,
        {
            let ghost before = views(r@);
            let ghost p = s.subrange(0, i as int);
            assert(p.drop_last() =~= s.subrange(0, i - 1));
            assert(p.last() == store.events@[i - 1]@);
            i = i - 1;
            if command_matches(&store.events[i], &kw) {
                r.push(store.events[i].duplicate());
                assert(views(r@) =~= before + seq![p.last()]);
                assert(views(r@) + newest_matching(s.subrange(0, i as int), kw@) =~= before + (
                seq![p.last()] + newest_matching(s.subrange(0, i as int), kw@)));
            }
        }
        proof {
            let m = newest_matching(s, kw@);
            if i == 0 {
                assert(s.subrange(0, 0).len() == 0);
                assert(views(r@) + newest_matching(s.subrange(0, 0), kw@) =~= views(r@));
            } else {
                assert(m.take(SEARCH_LIMIT as int) =~= views(r@));
            }
        }
        r
    }
}

/// Brings the store's schema up to date; the events are not touched.
pub fn migrate(store: &mut EventStore)
    requires
        old(store).wf(),
    ensures
        final(store).wf(),
        final(store)@ == (StoreModel { schema: migrated(old(store)@.schema), ..old(store)@ }),
{
    store.schema = migrate_schema(store.schema);
}

/// A new store, migrated: the schema complete, no events, the flag clear.
pub fn init_database() -> (r: EventStore)
    ensures
        r.wf(),
        r@.events.len() == 0,
        !r@.active,
        r@.next_id == 1,
        r@.schema == (Schema {
            version: SCHEMA_VERSION,
            version_table: true,
            events_table: true,
            status_row: true,
            timestamp_index: true,
            text_index: true,
        }),
{
    let mut s = EventStore::new();
    migrate(&mut s);
    s
}

/// Saves `raw_command` as a new event captured now, with no labels.
pub fn store_command(store: &mut EventStore, raw_command: &str) -> (r: Result<i64, StoreError>)
    requires
        old(store).wf(),
    ensures
        final(store).wf(),
        !old(store)@.schema.events_table ==> r == Err::<i64, StoreError>(StoreError::MissingTable),
        old(store)@.schema.events_table && old(store)@.next_id == i64::MAX ==> r == Err::<
            i64,
            StoreError,
        >(StoreError::IdsExhausted),
        r.is_err() ==> final(store)@ == old(store)@,
        old(store)@.schema.events_table && old(store)@.next_id < i64::MAX ==> r == Ok::<
            i64,
            StoreError,
        >(old(store)@.next_id),
        r.is_ok() ==> exists|e: CommandView|
            e.id == Some(old(store)@.next_id) && e.command == raw_command@ && e.categorization
                is None && e.tags is None && e.context is None && final(store)@ == (StoreModel {
                events: old(store)@.events.insert(insert_pos(old(store)@.events, e.timestamp), e),
                next_id: (old(store)@.next_id + 1) as i64,
                ..old(store)@
            }),
{
    let c = Command::new(raw_command);
    let r = c.save(store);
    assert(r.is_ok() ==> stored(c@, old(store)@.next_id).command == raw_command@);
    r
}

/// The `limit` newest events, newest first.
pub fn get_last_commands(store: &EventStore, limit: usize) -> (r: Vec<Command>)
    ensures
        views(r@) == recent_spec(store@.events, limit as int),
{
    Command::get_last(store, limit)
}

/// The newest events that match `keyword`, at most `SEARCH_LIMIT`.
pub fn search_commands(store: &EventStore, keyword: &str) -> (r: Vec<Command>)
    ensures
        views(r@) == search_spec(store@.events, keyword@),
{
    Command::search(store, keyword)
}

/// The liveness flag, if the status row exists.
pub fn get_daemon_status(store: &EventStore) -> (r: Result<bool, StoreError>)
    ensures
        store@.schema.status_row ==> r == Ok::<bool, StoreError>(store@.active),
        !store@.schema.status_row ==> r == Err::<bool, StoreError>(StoreError::MissingStatusRow),
{
    if store.schema.status_row {
        Ok(store.active)
    } else {
        Err(StoreError::MissingStatusRow)
    }
}

/// Sets the liveness flag, if the status row exists.
pub fn set_daemon_status(store: &mut EventStore, status: bool) -> (r: Result<(), StoreError>)
    requires
        old(store).wf(),
    ensures
        final(store).wf(),
        old(store)@.schema.status_row ==> r is Ok && final(store)@ == (StoreModel {
            active: status,
            ..old(store)@
        }),
        !old(store)@.schema.status_row ==> r == Err::<(), StoreError>(StoreError::MissingStatusRow)
            && final(store)@ == old(store)@,
{
    if store.schema.status_row {
        store.active = status;
        Ok(())
    } else {
        Err(StoreError::MissingStatusRow)
    }
}


/// An event saved with known fields, when no held event is newer, is what
/// `get_last` with a limit of one returns, every field as given and the
/// identifier as assigned.
pub proof fn lemma_round_trip(before: StoreModel, c: CommandView)
    requires
        store_wf(before),
        forall|i: int| 0 <= i < before.events.len() ==> before.events[i].timestamp <= c.timestamp,
    ensures
        ({
            let e = stored(c, before.next_id);
            let after = before.events.insert(insert_pos(before.events, c.timestamp), e);
            recent_spec(after, 1) == seq![e] && e.command == c.command && e.categorization
                == c.categorization && e.tags == c.tags && e.context == c.context && e.timestamp
                == c.timestamp
        }),
{
    let s = before.events;
    let e = stored(c, before.next_id);
    if s.len() > 0 {
        assert(s.last().timestamp <= c.timestamp);
    }
    assert(insert_pos(s, c.timestamp) == s.len());
    let after = s.insert(s.len() as int, e);
    assert(after[after.len() - 1] == e);
    assert(recent_spec(after, 1) =~= seq![e]);
}

/// Migrating a second time changes nothing, and neither migration touches
/// the events, the identifiers or the flag.
pub proof fn lemma_migrate_idempotent(v: StoreModel)
    ensures
        ({
            let once = StoreModel { schema: migrated(v.schema), ..v };
            let twice = StoreModel { schema: migrated(once.schema), ..once };
            twice == once && once.events == v.events && once.next_id == v.next_id
                && once.active == v.active
        }),
{
}

} // verus!
