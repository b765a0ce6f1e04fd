use vstd::prelude::*;

verus! {

/// What is kept of a file at its most recent accepted change.
///
/// `last_modified` is the file's modification time in nanoseconds relative to
/// the Unix epoch; `last_processed` is a monotonic instant in nanoseconds.
#[derive(Debug, Clone, Copy, PartialEq, Eq, Structural)]
pub struct FileState {
    pub last_modified: i128,
    pub last_processed: u128,
}

#[derive(Debug)]
struct TrackedFile {
    path: String,
    state: FileState,
}

/// The per-path debounce records.
#[derive(Debug)]
pub struct FileStateManager {
    entries: Vec<TrackedFile>,
    debounce_time: Option<u64>,
}

/// Time from `since` to `now` in nanoseconds; zero when `now` is not later.
pub open spec fn elapsed_nanos(now: u128, since: u128) -> nat {
    if now >= since {
        (now - since) as nat
    } else {
        0
    }
}

/// Whether the debounce window, given in milliseconds, has passed.
pub open spec fn debounce_passed(window_ms: Option<u64>, now: u128, since: u128) -> bool {
    match window_ms {
        Some(ms) => elapsed_nanos(now, since) > ms as nat * 1_000_000,
        None => true,
    }
}

/// Whether a change of a file observed with modification time `modified` at
/// instant `now` is actionable, given the file's record.
pub open spec fn is_actionable(
    record: Option<FileState>,
    window_ms: Option<u64>,
    modified: i128,
    now: u128,
) -> bool {
    match record {
        None => true,
        Some(s) => modified > s.last_modified && debounce_passed(window_ms, now, s.last_processed),
    }
}

/// The records after a check: an actionable change overwrites the record,
/// any other leaves the records as they were.
pub open spec fn records_after(
    records: Map<Seq<char>, FileState>,
    window_ms: Option<u64>,
    path: Seq<char>,
    modified: i128,
    now: u128,
) -> Map<Seq<char>, FileState> {
    if is_actionable(
        if records.contains_key(path) { Some(records[path]) } else { None },
        window_ms,
        modified,
        now,
    ) {
        records.insert(path, FileState { last_modified: modified, last_processed: now })
    } else {
        records
    }
}

/// The record of `path` in `records`, if any.
pub open spec fn record_of(records: Map<Seq<char>, FileState>, path: Seq<char>) -> Option<FileState> {
    if records.contains_key(path) {
        Some(records[path])
    } else {
        None
    }
}

spec fn map_of(entries: Seq<TrackedFile>) -> Map<Seq<char>, FileState>
    decreases entries.len(),
{
    if entries.len() == 0 {
        Map::empty()
    } else {
        map_of(entries.drop_last()).insert(entries.last().path@, entries.last().state)
    }
}

spec fn keys_unique(entries: Seq<TrackedFile>) -> bool {
    forall|i: int, j: int|
        0 <= i < entries.len() && 0 <= j < entries.len() && i != j ==> entries[i].path@
            != entries[j].path@
}

proof fn lemma_map_of_found(entries: Seq<TrackedFile>, i: int)
    requires
        keys_unique(entries),
        0 <= i < entries.len(),
    ensures
        map_of(entries).contains_key(entries[i].path@),
        map_of(entries)[entries[i].path@] == entries[i].state,
    decreases entries.len(),
{
    if i < entries.len() - 1 {
        let prefix = entries.drop_last();
        assert(prefix[i] == entries[i]);
        assert(keys_unique(prefix));
        lemma_map_of_found(prefix, i);
        assert(entries.last() == entries[entries.len() - 1]);
    }
}

proof fn lemma_map_of_absent(entries: Seq<TrackedFile>, path: Seq<char>)
    requires
        forall|j: int| 0 <= j < entries.len() ==> entries[j].path@ != path,
    ensures
        !map_of(entries).contains_key(path),
    decreases entries.len(),
{
    if entries.len() > 0 {
        let prefix = entries.drop_last();
        assert forall|j: int| 0 <= j < prefix.len() implies prefix[j].path@ != path by {
            assert(prefix[j] == entries[j]);
        }
        lemma_map_of_absent(prefix, path);
        assert(entries.last() == entries[entries.len() - 1]);
    }
}

proof fn lemma_map_of_update(entries: Seq<TrackedFile>, i: int, e: TrackedFile)
    requires
        keys_unique(entries),
        0 <= i < entries.len(),
        e.path@ == entries[i].path@,
    ensures
        keys_unique(entries.update(i, e)),
        map_of(entries.update(i, e)) == map_of(entries).insert(e.path@, e.state),
    decreases entries.len(),
{
    let updated = entries.update(i, e);
    assert(keys_unique(updated)) by {
        assert forall|a: int, b: int|
            0 <= a < updated.len() && 0 <= b < updated.len() && a != b implies updated[a].path@
            != updated[b].path@ by {
            assert(updated[a].path@ == entries[a].path@);
            assert(updated[b].path@ == entries[b].path@);
        }
    }
    if i == entries.len() - 1 {
        assert(updated.drop_last() == entries.drop_last());
        assert(map_of(updated) =~= map_of(entries).insert(e.path@, e.state));
    } else {
        let prefix = entries.drop_last();
        assert(keys_unique(prefix));
        assert(updated.drop_last() == prefix.update(i, e));
        lemma_map_of_update(prefix, i, e);
        let last = entries.last();
        assert(last == entries[entries.len() - 1]);
        assert(updated.last() == last);
        assert(last.path@ != e.path@);
        assert(map_of(updated) =~= map_of(entries).insert(e.path@, e.state));
    }
}

impl FileStateManager {
    /// The record of each path accepted so far.
    pub closed spec fn records(&self) -> Map<Seq<char>, FileState> {
        map_of(self.entries@)
    }

    /// The debounce window in milliseconds, if one is set.
    pub closed spec fn window(&self) -> Option<u64> {
        self.debounce_time
    }

    /// The records are consistent: one entry per path.
    pub closed spec fn wf(&self) -> bool {
        keys_unique(self.entries@)
    }

    /// A tracker with no records and the given debounce window.
    pub fn new(debounce_time: Option<u64>) -> (r: Self)
        ensures
            r.wf(),
            r.records() == Map::<Seq<char>, FileState>::empty(),
            r.window() == debounce_time,
    {
        let r = FileStateManager { entries: Vec::new(), debounce_time };
        assert(r.entries@ =~= Seq::<TrackedFile>::empty());
        r
    }

    /// The record of `path`, if it has been accepted before.
    pub fn state_of(&self, path: &String) -> (r: Option<FileState>)
        requires
            self.wf(),
        ensures
            r == record_of(self.records(), path@),
    {
        match self.find(path) {
            Some(i) => Some(self.entries[i].state),
            None => None,
        }
    }

    fn find(&self, path: &String) -> (r: Option<usize>)
        requires
            self.wf(),
        ensures
            match r {
                Some(i) => {
                    &&& i < self.entries@.len()
                    &&& self.entries@[i as int].path@ == path@
                    &&& self.records().contains_key(path@)
                    &&& self.records()[path@] == self.entries@[i as int].state
                },
                None => {
                    &&& !self.records().contains_key(path@)
                    &&& forall|j: int|
                        0 <= j < self.entries@.len() ==> self.entries@[j].path@ != path@
                },
            },
    {
        let mut i: usize = 0;
        while i < self.entries.len()
            invariant
                self.wf(),
                i <= self.entries@.len(),
                forall|j: int| 0 <= j < i ==> self.entries@[j].path@ != path@,
            decreases self.entries@.len() - i,
        {
            if self.entries[i].path == *path {
                proof {
                    lemma_map_of_found(self.entries@, i as int);
                }
                return Some(i);
            }
            i += 1;
        }
        proof {
            lemma_map_of_absent(self.entries@, path@);
        }
        None
    }

    /// Decides whether a change of `path`, whose modification time the file
    /// system reports as `modified` at the monotonic instant `now`, is
    /// actionable, and records it when it is.
    ///
    /// A path never seen before is always actionable. A path seen before is
    /// actionable only when its modification time is strictly later than the
    /// recorded one and, with a window set, strictly more than the window has
    /// passed since the recorded instant. A change that is not actionable
    /// leaves the records untouched.
    pub fn check_changed(&mut self, path: &String, modified: i128, now: u128) -> (r: bool)
        requires
            old(self).wf(),
        ensures
            final(self).wf(),
            final(self).window() == old(self).window(),
            r == is_actionable(record_of(old(self).records(), path@), old(self).window(), modified, now),
            final(self).records() == records_after(
                old(self).records(),
                old(self).window(),
                path@,
                modified,
                now,
            ),
    {
        let found = self.find(path);
        let changed = match found {
            Some(i) => {
                let state = self.entries[i].state;
                let content_changed = modified > state.last_modified;
                let window_passed = match self.debounce_time {
                    Some(ms) => {
                        let elapsed: u128 = if now >= state.last_processed {
                            now - state.last_processed
                        } else {
                            0
                        };
                        elapsed > (ms as u128) * 1_000_000
                    },
                    None => true,
                };
                content_changed && window_passed
            },
            None => true,
        };
        if changed {
            let fresh = FileState { last_modified: modified, last_processed: now };
            match found {
                Some(i) => {
                    let ghost before = self.entries@;
                    self.entries[i].state = fresh;
                    proof {
                        let e = self.entries@[i as int];
                        assert(self.entries@ == before.update(i as int, e));
                        lemma_map_of_update(before, i as int, e);
                    }
                },
                None => {
                    let ghost before = self.entries@;
                    self.entries.push(TrackedFile { path: path.clone(), state: fresh });
                    proof {
                        assert(self.entries@.drop_last() == before);
                        assert forall|a: int, b: int|
                            0 <= a < self.entries@.len() && 0 <= b < self.entries@.len() && a
                                != b implies self.entries@[a].path@ != self.entries@[b].path@ by {
                            if a < before.len() && b < before.len() {
                                assert(self.entries@[a] == before[a]);
                                assert(self.entries@[b] == before[b]);
                            } else if a < before.len() {
                                assert(self.entries@[a] == before[a]);
                                assert(before[a].path@ != path@);
                            } else {
                                assert(self.entries@[b] == before[b]);
                                assert(before[b].path@ != path@);
                            }
                        }
                    }
                },
            }
        }
        changed
    }
}
impl Default for FileStateManager {
    /// A tracker with no records and no debounce window.
    fn default() -> (r: Self)
        ensures
            r.wf(),
            r.records() == Map::<Seq<char>, FileState>::empty(),
            r.window() == None::<u64>,
    {
        FileStateManager::new(None)
    }
}

/// A path seen for the first time is actionable whatever the window, and its
/// record then holds the observed modification time and instant.
pub proof fn lemma_first_sight_actionable(
    records: Map<Seq<char>, FileState>,
    window_ms: Option<u64>,
    path: Seq<char>,
    modified: i128,
    now: u128,
)
    requires
        !records.contains_key(path),
    ensures
        is_actionable(record_of(records, path), window_ms, modified, now),
        records_after(records, window_ms, path, modified, now)[path] == (FileState {
            last_modified: modified,
            last_processed: now,
        }),
{
}

/// Once a change of a path has been accepted, a second check of that path with
/// the same modification time is not actionable, at any later or earlier instant,
/// and leaves the records as they were.
pub proof fn lemma_same_timestamp_not_actionable(
    records: Map<Seq<char>, FileState>,
    window_ms: Option<u64>,
    path: Seq<char>,
    modified: i128,
    first: u128,
    second: u128,
)
    requires
        is_actionable(record_of(records, path), window_ms, modified, first),
    ensures
        ({
            let after = records_after(records, window_ms, path, modified, first);
            &&& !is_actionable(record_of(after, path), window_ms, modified, second)
            &&& records_after(after, window_ms, path, modified, second) == after
        }),
{
}

/// With a window of `ms` milliseconds: a newer modification time within the window
/// of the last accepted change is not actionable and changes no record; a
/// modification time that has not advanced is not actionable however much time
/// has passed; a newer modification time once the window has passed is actionable.
pub proof fn lemma_debounce_window(
    records: Map<Seq<char>, FileState>,
    ms: u64,
    path: Seq<char>,
    modified: i128,
    now: u128,
)
    requires
        records.contains_key(path),
    ensures
        ({
            let last = records[path];
            let window = Some(ms);
            let within = elapsed_nanos(now, last.last_processed) <= ms as nat * 1_000_000;
            &&& (modified > last.last_modified && within) ==> !is_actionable(
                record_of(records, path),
                window,
                modified,
                now,
            ) && records_after(records, window, path, modified, now) == records
            &&& modified <= last.last_modified ==> !is_actionable(
                record_of(records, path),
                window,
                modified,
                now,
            )
            &&& (modified > last.last_modified && !within) ==> is_actionable(
                record_of(records, path),
                window,
                modified,
                now,
            )
        }),
{
}

} // verus!
