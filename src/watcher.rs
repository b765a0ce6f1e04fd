use vstd::prelude::*;
use crate::config::Config;
use crate::file_state::{is_actionable, record_of, records_after, FileState, FileStateManager};
use crate::path::{extension, file_name, file_name_range, DOT};
use crate::text::{bytes_occur_at, bytes_of, rfind_byte, starts_with};

verus! {

/// The kind of a file-system change.
#[derive(Debug, Clone, Copy, PartialEq, Eq, Structural)]
pub enum ChangeKind {
    Create,
    Modify,
    /// Removal, access, rename, metadata-only and any other change.
    Other,
}

/// A change reported by the notification source: its kind and the paths it concerns.
#[derive(Debug)]
pub struct RawEvent {
    pub kind: ChangeKind,
    pub paths: Vec<String>,
}

/// What reading a candidate file's metadata gave.
#[derive(Debug, Clone, Copy, PartialEq, Eq, Structural)]
pub enum Observation {
    /// The metadata could not be read (the file may be gone).
    Unreadable,
    /// The file's modification time, read at the monotonic instant `at`.
    Seen { modified: i128, at: u128 },
}

/// The watch pipeline: the configuration and the debounce records.
#[derive(Debug)]
pub struct FileWatcher {
    config: Config,
    state_manager: FileStateManager,
}

pub open spec fn extension_matches(path: Seq<u8>, extensions: Seq<String>) -> bool {
    match extension(path) {
        Some(e) => exists|i: int| 0 <= i < extensions.len() && bytes_of(extensions[i]@) == e,
        None => false,
    }
}

pub open spec fn prefix_matches(path: Seq<u8>, prefixes: Seq<String>) -> bool {
    prefixes.len() == 0 || match file_name(path) {
        Some(name) => exists|i: int|
            0 <= i < prefixes.len() && starts_with(name, bytes_of(prefixes[i]@)),
        None => false,
    }
}

/// Whether a changed path is relevant: its extension is one of the configured
/// ones and, when prefixes are configured, its file name starts with one of them.
pub open spec fn is_relevant(path: Seq<char>, config: Config) -> bool {
    extension_matches(bytes_of(path), config.file_extensions@) && prefix_matches(
        bytes_of(path),
        config.file_prefixes@,
    )
}

/// Whether an event's kind makes its paths candidates at all.
pub open spec fn is_content_change(kind: ChangeKind) -> bool {
    kind == ChangeKind::Create || kind == ChangeKind::Modify
}

/// The relevant paths among `paths`, in their order.
pub open spec fn relevant_paths(paths: Seq<String>, config: Config) -> Seq<Seq<char>>
    decreases paths.len(),
{
    if paths.len() == 0 {
        Seq::empty()
    } else {
        let rest = relevant_paths(paths.drop_last(), config);
        if is_relevant(paths.last()@, config) {
            rest.push(paths.last()@)
        } else {
            rest
        }
    }
}

/// The candidates of an event: none unless it creates or modifies files and at
/// least one of its paths is relevant.
pub open spec fn candidates(event: RawEvent, config: Config) -> Option<Seq<Seq<char>>> {
    let kept = relevant_paths(event.paths@, config);
    if is_content_change(event.kind) && kept.len() > 0 {
        Some(kept)
    } else {
        None
    }
}

/// The texts held by a sequence of strings.
pub open spec fn views(v: Seq<String>) -> Seq<Seq<char>> {
    v.map_values(|s: String| s@)
}

/// Checks `paths` in order against `records`: the batch of the accepted ones,
/// and the records afterwards. An unreadable path is dropped and changes nothing.
pub open spec fn batch_and_records(
    records: Map<Seq<char>, FileState>,
    window_ms: Option<u64>,
    paths: Seq<Seq<char>>,
    observed: Seq<Observation>,
) -> (Seq<Seq<char>>, Map<Seq<char>, FileState>)
    decreases paths.len(),
{
    if paths.len() == 0 || observed.len() == 0 {
        (Seq::empty(), records)
    } else {
        let (batch, recs) = batch_and_records(
            records,
            window_ms,
            paths.drop_last(),
            observed.drop_last(),
        );
        let path = paths.last();
        match observed.last() {
            Observation::Unreadable => (batch, recs),
            Observation::Seen { modified, at } => if is_actionable(
                record_of(recs, path),
                window_ms,
                modified,
                at,
            ) {
                (batch.push(path), records_after(recs, window_ms, path, modified, at))
            } else {
                (batch, recs)
            },
        }
    }
}

impl FileWatcher {
    pub closed spec fn config(&self) -> Config {
        self.config
    }

    pub closed spec fn records(&self) -> Map<Seq<char>, FileState> {
        self.state_manager.records()
    }

    pub closed spec fn wf(&self) -> bool {
        &&& self.state_manager.wf()
        &&& self.state_manager.window() == self.config.debounce_time
    }

    /// A watcher with the given configuration and no records.
    pub fn new(config: Config) -> (r: Self)
        ensures
            r.wf(),
            r.config() == config,
            r.records() == Map::<Seq<char>, FileState>::empty(),
    {
        FileWatcher { state_manager: FileStateManager::new(config.debounce_time), config }
    }

    /// The configuration the watcher runs with.
    pub fn config_ref(&self) -> (r: &Config)
        ensures
            *r == self.config(),
    {
        &self.config
    }

    /// The debounce record of `path`, if it has been accepted before.
    pub fn state_of(&self, path: &String) -> (r: Option<FileState>)
        requires
            self.wf(),
        ensures
            r == record_of(self.records(), path@),
    {
        self.state_manager.state_of(path)
    }

    fn extension_listed(&self, bytes: &[u8], from: usize, to: usize) -> (r: bool)
        requires
            from <= to <= bytes@.len(),
        ensures
            r == exists|i: int|
                0 <= i < self.config.file_extensions@.len() && bytes_of(
                    self.config.file_extensions@[i]@,
                ) == bytes@.subrange(from as int, to as int),
    {
        let exts = &self.config.file_extensions;
        let ghost tail = bytes@.subrange(from as int, to as int);
        let mut i: usize = 0;
        while i < exts.len()
            invariant
                from <= to <= bytes@.len(),
                i <= exts@.len(),
                exts == &self.config.file_extensions,
                tail == bytes@.subrange(from as int, to as int),
                forall|k: int| 0 <= k < i ==> bytes_of(exts@[k]@) != tail,
            decreases exts@.len() - i,
        {
            let e = exts[i].as_str().as_bytes();
            if e.len() == to - from && bytes_occur_at(bytes, from, e) {
                assert(bytes_of(exts@[i as int]@) == tail);
                return true;
            }
            proof {
                if bytes_of(exts@[i as int]@) == tail {
                    assert(bytes@.subrange(from as int, from + e@.len()) =~= tail);
                }
            }
            i += 1;
        }
        false
    }

    fn prefix_listed(&self, bytes: &[u8], from: usize, to: usize) -> (r: bool)
        requires
            from <= to <= bytes@.len(),
        ensures
            r == exists|i: int|
                0 <= i < self.config.file_prefixes@.len() && starts_with(
                    bytes@.subrange(from as int, to as int),
                    bytes_of(self.config.file_prefixes@[i]@),
                ),
    {
        let prefixes = &self.config.file_prefixes;
        let ghost name = bytes@.subrange(from as int, to as int);
        let mut i: usize = 0;
        while i < prefixes.len()
            invariant
                from <= to <= bytes@.len(),
                i <= prefixes@.len(),
                prefixes == &self.config.file_prefixes,
                name == bytes@.subrange(from as int, to as int),
                forall|k: int| 0 <= k < i ==> !starts_with(name, bytes_of(prefixes@[k]@)),
            decreases prefixes@.len() - i,
        {
            let p = prefixes[i].as_str().as_bytes();
            let hit = p.len() <= to - from && bytes_occur_at(bytes, from, p);
            proof {
                if from + p@.len() <= to {
                    assert(name.subrange(0, p@.len() as int) =~= bytes@.subrange(
                        from as int,
                        from + p@.len(),
                    ));
                }
            }
            if hit {
                return true;
            }
            i += 1;
        }
        false
    }

    /// Whether a changed path is relevant under the configuration.
    pub fn is_relevant_path(&self, path: &String) -> (r: bool)
        ensures
            r == is_relevant(path@, self.config()),
    {
        let bytes = path.as_str().as_bytes();
        let (start, end) = match file_name_range(bytes) {
            Some(range) => range,
            None => {
                return false;
            },
        };
        let ghost name = bytes@.subrange(start as int, end as int);
        let ext_ok = match rfind_byte(bytes, start, end, DOT) {
            Some(d) => {
                if d > start {
                    assert(name.subrange(d - start + 1, name.len() as int) =~= bytes@.subrange(
                        d + 1,
                        end as int,
                    ));
                    self.extension_listed(bytes, d + 1, end)
                } else {
                    false
                }
            },
            None => false,
        };
        if !ext_ok {
            return false;
        }
        if self.config.file_prefixes.len() == 0 {
            return true;
        }
        self.prefix_listed(bytes, start, end)
    }

    /// The candidate paths of an event: `None` when the event neither creates
    /// nor modifies files, or when none of its paths is relevant; otherwise the
    /// relevant paths, in the event's order.
    pub fn filter_relevant_changes(&self, event: &RawEvent) -> (r: Option<Vec<String>>)
        ensures
            match candidates(*event, self.config()) {
                Some(kept) => r is Some && views(r->0@) == kept,
                None => r is None,
            },
    {
        if event.kind != ChangeKind::Create && event.kind != ChangeKind::Modify {
            return None;
        }
        let mut kept: Vec<String> = Vec::new();
        let mut i: usize = 0;
        while i < event.paths.len()
            invariant
                i <= event.paths@.len(),
                views(kept@) == relevant_paths(event.paths@.subrange(0, i as int), self.config()),
            decreases event.paths@.len() - i,
        {
            let ghost upto = event.paths@.subrange(0, i as int + 1);
            assert(upto.drop_last() =~= event.paths@.subrange(0, i as int));
            assert(upto.last() == event.paths@[i as int]);
            let path = &event.paths[i];
            if self.is_relevant_path(path) {
                let copy = path.clone();
                kept.push(copy);
                assert(views(kept@) =~= relevant_paths(upto, self.config()));
            }
            i += 1;
        }
        assert(event.paths@.subrange(0, event.paths@.len() as int) =~= event.paths@);
        if kept.len() == 0 {
            None
        } else {
            Some(kept)
        }
    }

    /// Checks each candidate, in order, against the debounce records, given
    /// what reading its metadata gave, and returns the batch of accepted
    /// paths. An unreadable candidate is dropped without affecting the others.
    pub fn collect_changed(&mut self, paths: &Vec<String>, observed: &Vec<Observation>) -> (r:
        Vec<String>)
        requires
            old(self).wf(),
            paths@.len() == observed@.len(),
        ensures
            final(self).wf(),
            final(self).config() == old(self).config(),
            ({
                let (batch, recs) = batch_and_records(
                    old(self).records(),
                    old(self).config().debounce_time,
                    views(paths@),
                    observed@,
                );
                views(r@) == batch && final(self).records() == recs
            }),
    {
        let mut batch: Vec<String> = Vec::new();
        let mut i: usize = 0;
        let ghost start = self.records();
        while i < paths.len()
            invariant
                self.wf(),
                self.config() == old(self).config(),
                start == old(self).records(),
                paths@.len() == observed@.len(),
                i <= paths@.len(),
                ({
                    let (b, recs) = batch_and_records(
                        start,
                        self.config().debounce_time,
                        views(paths@.subrange(0, i as int)),
                        observed@.subrange(0, i as int),
                    );
                    views(batch@) == b && self.records() == recs
                }),
            decreases paths@.len() - i,
        {
            let ghost next_paths = views(paths@.subrange(0, i as int + 1));
            let ghost next_obs = observed@.subrange(0, i as int + 1);
            assert(next_paths.drop_last() =~= views(paths@.subrange(0, i as int)));
            assert(next_obs.drop_last() =~= observed@.subrange(0, i as int));
            assert(next_paths.last() == paths@[i as int]@);
            assert(next_obs.last() == observed@[i as int]);
            match observed[i] {
                Observation::Unreadable => {},
                Observation::Seen { modified, at } => {
                    let path = &paths[i];
                    if self.state_manager.check_changed(path, modified, at) {
                        batch.push(path.clone());
                        assert(views(batch@) =~= views(batch@).drop_last().push(path@));
                    }
                },
            }
            i += 1;
        }
        assert(paths@.subrange(0, paths@.len() as int) =~= paths@);
        assert(observed@.subrange(0, observed@.len() as int) =~= observed@);
        batch
    }
}

/// A path is kept by the filter exactly when it is one of the event's paths and
/// it is relevant; a path whose extension is not configured is never relevant,
/// nor, with prefixes configured, one whose file name starts with none of them;
/// with no prefixes configured every path with a configured extension is relevant.
pub proof fn lemma_relevance_rules(paths: Seq<String>, config: Config)
    ensures
        forall|q: Seq<char>|
            #[trigger] relevant_paths(paths, config).contains(q) <==> (exists|i: int|
                0 <= i < paths.len() && paths[i]@ == q) && is_relevant(q, config),
        forall|q: Seq<char>|
            !extension_matches(bytes_of(q), config.file_extensions@) ==> !is_relevant(q, config),
        forall|q: Seq<char>|
            config.file_prefixes@.len() > 0 && !(match file_name(bytes_of(q)) {
                Some(name) => exists|i: int|
                    0 <= i < config.file_prefixes@.len() && starts_with(
                        name,
                        bytes_of(config.file_prefixes@[i]@),
                    ),
                None => false,
            }) ==> !is_relevant(q, config),
        forall|q: Seq<char>|
            config.file_prefixes@.len() == 0 ==> (is_relevant(q, config) <==> extension_matches(
                bytes_of(q),
                config.file_extensions@,
            )),
    decreases paths.len(),
{
    if paths.len() > 0 {
        let rest = paths.drop_last();
        lemma_relevance_rules(rest, config);
        assert forall|q: Seq<char>|
            relevant_paths(paths, config).contains(q) <==> (exists|i: int|
                0 <= i < paths.len() && paths[i]@ == q) && is_relevant(q, config) by {
            if relevant_paths(paths, config).contains(q) {
                if relevant_paths(rest, config).contains(q) {
                    assert(exists|i: int| 0 <= i < rest.len() && rest[i]@ == q);
                    let i = choose|i: int| 0 <= i < rest.len() && rest[i]@ == q;
                    assert(paths[i] == rest[i]);
                } else {
                    assert(paths[paths.len() - 1] == paths.last());
                }
            }
            if (exists|i: int| 0 <= i < paths.len() && paths[i]@ == q) && is_relevant(q, config) {
                let i = choose|i: int| 0 <= i < paths.len() && paths[i]@ == q;
                if i < paths.len() - 1 {
                    assert(rest[i] == paths[i]);
                    let kept = relevant_paths(rest, config);
                    assert(kept.contains(q));
                    if is_relevant(paths.last()@, config) {
                        let j = choose|j: int| 0 <= j < kept.len() && kept[j] == q;
                        assert(kept.push(paths.last()@)[j] == q);
                    }
                } else {
                    assert(paths.last() == paths[i]);
                    let kept = relevant_paths(rest, config);
                    assert(kept.push(paths.last()@)[kept.len() as int] == q);
                }
            }
        }
    }
}

/// An event none of whose paths is relevant has no candidates: the filter
/// returns `None`, so nothing is checked against the records and nothing is launched.
pub proof fn lemma_irrelevant_event_has_no_candidates(event: RawEvent, config: Config)
    requires
        forall|i: int| 0 <= i < event.paths@.len() ==> !is_relevant(#[trigger] event.paths@[i]@, config),
    ensures
        candidates(event, config) is None,
{
    lemma_relevance_rules(event.paths@, config);
    let kept = relevant_paths(event.paths@, config);
    if kept.len() > 0 {
        assert(kept.contains(kept[0]));
    }
}

} // verus!
