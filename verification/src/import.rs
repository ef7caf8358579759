//! The course of one import: which files are taken, which of them the
//! catalog already holds, what is left to process, and what is handed back.
//! The host does the work of each step (listing, catalog calls, image
//! work) and reports its outcome; the flow decides what follows.

use vstd::prelude::*;
use vstd::seq_lib::*;
use crate::vectors::reversed;
use crate::formats::{_is_supported_image, is_supported_path};
use crate::media::MediaRecord;
use crate::ordering::{is_recency_sort_of, sort_by_recency};
use crate::progress::{ImagesDealProgressEvent, ProgressCounter, Step, step_name};

verus! {

/// One entry of a directory listing.
#[derive(Debug, Clone, PartialEq, Eq)]
pub struct ScannedEntry {
    pub path: String,
    /// Whether the entry is a regular file.
    pub is_file: bool,
}

/// What the catalog answered when asked for the record of one path.
#[derive(Debug, Clone, PartialEq, Eq)]
pub enum Lookup {
    /// The catalog holds this record for the path.
    Found(MediaRecord),
    /// The catalog holds nothing for the path.
    NotFound,
    /// The catalog could not be asked. The path is then processed as if the
    /// catalog held nothing for it.
    Failed,
}

/// The three ways to start an import.
#[derive(Debug, Clone, Copy, PartialEq, Eq, Structural)]
pub enum ImportKind {
    /// Scan a directory, skip what the catalog holds, store what is new,
    /// return all in order of recency.
    Directory,
    /// Process the given paths and return their records as they come.
    Paths,
    /// As `Directory`, for given paths in place of a scan.
    PathsDeduped,
}

/// What the host reports when it has done the work of a step.
#[derive(Debug, Clone, PartialEq, Eq)]
pub enum ImportEvent {
    /// The directory's entries, in the order in which it was read; none
    /// where it could not be read.
    Listed(Vec<ScannedEntry>),
    /// The catalog's answer for each candidate, in the candidates' order.
    Checked(Vec<Lookup>),
    /// The thumbnail of each pending path, in the paths' order.
    ThumbnailsReady(Vec<Option<String>>),
    /// The record of each pending path, in the paths' order; none where the
    /// file could not be read.
    MetadataReady(Vec<Option<MediaRecord>>),
    /// The new records were handed to the catalog.
    Saved,
}

/// The paths of the entries that are regular files of a supported format,
/// in the order of the listing.
pub open spec fn supported_files(entries: Seq<ScannedEntry>) -> Seq<String> {
    entries.filter(|e: ScannedEntry| e.is_file && is_supported_path(e.path@)).map_values(
        |e: ScannedEntry| e.path,
    )
}

/// The record that a lookup found.
pub open spec fn found_record(lookup: Lookup) -> Option<MediaRecord> {
    match lookup {
        Lookup::Found(record) => Some(record),
        _ => None,
    }
}

/// The records that the lookups found, in the lookups' order.
pub open spec fn found_records(lookups: Seq<Lookup>) -> Seq<MediaRecord> {
    lookups.filter_map(|l: Lookup| found_record(l))
}

/// Whether the path at `index` is left to process: its lookup found
/// nothing, failed, or is missing.
pub open spec fn is_unfound(lookups: Seq<Lookup>, index: int) -> bool {
    !(0 <= index < lookups.len() && lookups[index] is Found)
}

/// The paths that are left to process, in the paths' order.
pub open spec fn unfound_paths(paths: Seq<String>, lookups: Seq<Lookup>) -> Seq<String>
    decreases paths.len(),
{
    if paths.len() == 0 {
        Seq::empty()
    } else {
        let before = unfound_paths(paths.drop_last(), lookups);
        if is_unfound(lookups, paths.len() - 1) {
            before.push(paths.last())
        } else {
            before
        }
    }
}

/// The values that are present, in order.
pub open spec fn present<T>(items: Seq<Option<T>>) -> Seq<T> {
    items.filter_map(|item: Option<T>| item)
}

/// The Directory Scanner's choice among the entries of a listing.
pub fn select_supported(entries: &Vec<ScannedEntry>) -> (paths: Vec<String>)
    ensures
        paths@ == supported_files(entries@),
{
    let ghost keep = |e: ScannedEntry| e.is_file && is_supported_path(e.path@);
    let ghost path_of = |e: ScannedEntry| e.path;
    let mut paths: Vec<String> = Vec::new();
    let mut i: usize = 0;
    proof {
        assert(entries@.take(0).filter(keep) =~= Seq::<ScannedEntry>::empty()) by {
            reveal(Seq::filter);
        }
    }
    while i < entries.len()
        invariant
            i <= entries@.len(),
            keep == |e: ScannedEntry| e.is_file && is_supported_path(e.path@),
            path_of == |e: ScannedEntry| e.path,
            paths@ == entries@.take(i as int).filter(keep).map_values(path_of),
        decreases entries@.len() - i,
    {
        let entry = &entries[i];
        proof {
            entries@.lemma_take_succ_push(i as int);
            entries@.take(i as int).lemma_filter_push(entries@[i as int], keep);
            entries@.take(i as int).filter(keep).lemma_push_map_commute(path_of, entries@[i as int]);
        }
        if entry.is_file && _is_supported_image(entry.path.as_str()) {
            paths.push(entry.path.clone());
        }
        i += 1;
    }
    proof {
        entries@.lemma_take_len();
    }
    paths
}

/// The values of `items` that are present, in order.
pub fn collect_present<T>(items: Vec<Option<T>>) -> (r: Vec<T>)
    ensures
        r@ == present(items@),
{
    let ghost given = items@;
    let ghost keep = |item: Option<T>| item;
    let mut rest = reversed(items);
    let mut r: Vec<T> = Vec::new();
    let mut i: usize = 0;
    let n = rest.len();
    while i < n
        invariant
            i <= n,
            n == given.len(),
            rest@.len() == n - i,
            rest@ == given.reverse().take(n - i),
            keep == |item: Option<T>| item,
            r@ == given.take(i as int).filter_map(keep),
        decreases n - i,
    {
        proof {
            given.lemma_filter_map_take_succ(keep, i as int);
            assert(given.reverse()[n - i - 1] == given[i as int]);
        }
        let item = rest.pop().unwrap();
        match item {
            Some(x) => {
                r.push(x);
            },
            None => {},
        }
        i += 1;
        assert(rest@ =~= given.reverse().take(n - i));
    }
    proof {
        given.lemma_take_len();
    }
    r
}

/// Splits the candidates by what the catalog answered for each.
pub fn split_by_catalog(paths: &Vec<String>, lookups: Vec<Lookup>) -> (r: (
    Vec<MediaRecord>,
    Vec<String>,
))
    ensures
        r.0@ == found_records(lookups@),
        r.1@ == unfound_paths(paths@, lookups@),
{
    let ghost answers = lookups@;
    let mut pending: Vec<String> = Vec::new();
    let mut i: usize = 0;
    while i < paths.len()
        invariant
            i <= paths@.len(),
            lookups@ == answers,
            pending@ == unfound_paths(paths@.take(i as int), answers),
        decreases paths@.len() - i,
    {
        proof {
            assert(paths@.take(i + 1).drop_last() =~= paths@.take(i as int));
        }
        let found = i < lookups.len() && match &lookups[i] {
            Lookup::Found(_) => true,
            _ => false,
        };
        if !found {
            pending.push(paths[i].clone());
        }
        i += 1;
    }
    proof {
        paths@.lemma_take_len();
    }
    let ghost pick = |l: Lookup| found_record(l);
    let mut rest = reversed(lookups);
    let mut existing: Vec<MediaRecord> = Vec::new();
    let n = rest.len();
    let mut k: usize = 0;
    while k < n
        invariant
            k <= n,
            n == answers.len(),
            rest@ == answers.reverse().take(n - k),
            pick == |l: Lookup| found_record(l),
            existing@ == answers.take(k as int).filter_map(pick),
        decreases n - k,
    {
        proof {
            answers.lemma_filter_map_take_succ(pick, k as int);
            assert(answers.reverse()[n - k - 1] == answers[k as int]);
        }
        let answer = rest.pop().unwrap();
        match answer {
            Lookup::Found(record) => {
                existing.push(record);
            },
            _ => {},
        }
        k += 1;
        assert(rest@ =~= answers.reverse().take(n - k));
    }
    proof {
        answers.lemma_take_len();
    }
    (existing, pending)
}

/// What a flow holds, as contracts see it.
pub struct FlowState {
    pub kind: ImportKind,
    /// The step whose work the host is to do next.
    pub step: Step,
    /// The paths under consideration: the supported files of the listing,
    /// or the paths that the import was started with.
    pub candidates: Seq<String>,
    /// The records that the catalog already held.
    pub existing: Seq<MediaRecord>,
    /// The paths that are left to process.
    pub pending: Seq<String>,
    /// The thumbnails made for the pending paths.
    pub thumbnails: Seq<Option<String>>,
    /// The records made for the pending paths.
    pub fresh: Seq<MediaRecord>,
}

/// Whether an import of this kind asks the catalog and stores what is new.
pub open spec fn uses_catalog(kind: ImportKind) -> bool {
    kind != ImportKind::Paths
}

/// The step that follows the choice of candidates: with none, the import
/// is complete.
pub open spec fn step_after_selection(kind: ImportKind, candidates: nat) -> Step {
    if candidates == 0 {
        Step::Completed
    } else if uses_catalog(kind) {
        Step::CheckingDatabase
    } else {
        Step::GeneratingThumbnails
    }
}

/// The state in which an import of `kind` over `paths` starts. A directory
/// import starts without paths, by scanning.
pub open spec fn initial_state(kind: ImportKind, paths: Seq<String>) -> FlowState {
    FlowState {
        kind,
        step: if kind == ImportKind::Directory {
            Step::Scanning
        } else {
            step_after_selection(kind, paths.len())
        },
        candidates: if kind == ImportKind::Directory {
            Seq::empty()
        } else {
            paths
        },
        existing: Seq::empty(),
        pending: if kind == ImportKind::Paths {
            paths
        } else {
            Seq::empty()
        },
        thumbnails: Seq::empty(),
        fresh: Seq::empty(),
    }
}

/// The state that follows `pre` when the host reports `event`. A step with
/// nothing to work on is passed over, and a report that does not answer the
/// step in course changes nothing.
pub open spec fn state_after(pre: FlowState, event: ImportEvent) -> FlowState {
    match (pre.step, event) {
        (Step::Scanning, ImportEvent::Listed(entries)) => {
            let candidates = supported_files(entries@);
            FlowState {
                step: step_after_selection(pre.kind, candidates.len()),
                candidates,
                pending: if uses_catalog(pre.kind) {
                    pre.pending
                } else {
                    candidates
                },
                ..pre
            }
        },
        (Step::CheckingDatabase, ImportEvent::Checked(lookups)) => {
            let pending = unfound_paths(pre.candidates, lookups@);
            FlowState {
                step: if pending.len() == 0 {
                    Step::Completed
                } else {
                    Step::GeneratingThumbnails
                },
                existing: found_records(lookups@),
                pending,
                ..pre
            }
        },
        (Step::GeneratingThumbnails, ImportEvent::ThumbnailsReady(thumbnails)) => FlowState {
            step: Step::ExtractingMetadata,
            thumbnails: thumbnails@,
            ..pre
        },
        (Step::ExtractingMetadata, ImportEvent::MetadataReady(records)) => {
            let fresh = present(records@);
            FlowState {
                step: if uses_catalog(pre.kind) && fresh.len() > 0 {
                    Step::SavingToDatabase
                } else {
                    Step::Completed
                },
                fresh,
                ..pre
            }
        },
        (Step::SavingToDatabase, ImportEvent::Saved) => FlowState { step: Step::Completed, ..pre },
        _ => pre,
    }
}

/// The number of items that the step in course works on. For the final
/// step it is the number of candidates.
pub open spec fn step_total(state: FlowState) -> nat {
    match state.step {
        Step::Scanning => 0,
        Step::CheckingDatabase => state.candidates.len(),
        Step::GeneratingThumbnails => state.pending.len(),
        Step::ExtractingMetadata => state.pending.len(),
        Step::SavingToDatabase => state.fresh.len(),
        Step::Completed => state.candidates.len(),
    }
}

/// The records that an import in `state` hands back, before they are put
/// in order: those that the catalog held, then the new ones.
pub open spec fn gathered(state: FlowState) -> Seq<MediaRecord> {
    state.existing + state.fresh
}

/// One import under way.
pub struct ImportFlow {
    kind: ImportKind,
    step: Step,
    candidates: Vec<String>,
    existing: Vec<MediaRecord>,
    pending: Vec<String>,
    thumbnails: Vec<Option<String>>,
    fresh: Vec<MediaRecord>,
}

impl View for ImportFlow {
    type V = FlowState;

    closed spec fn view(&self) -> FlowState {
        FlowState {
            kind: self.kind,
            step: self.step,
            candidates: self.candidates@,
            existing: self.existing@,
            pending: self.pending@,
            thumbnails: self.thumbnails@,
            fresh: self.fresh@,
        }
    }
}

fn copy_paths(paths: &Vec<String>) -> (r: Vec<String>)
    ensures
        r@ == paths@,
{
    let mut r: Vec<String> = Vec::new();
    let mut i: usize = 0;
    while i < paths.len()
        invariant
            i <= paths@.len(),
            r@ == paths@.take(i as int),
        decreases paths@.len() - i,
    {
        r.push(paths[i].clone());
        proof {
            paths@.lemma_take_succ_push(i as int);
        }
        i += 1;
    }
    proof {
        paths@.lemma_take_len();
    }
    r
}

impl ImportFlow {
    /// Starts an import of `kind` over `paths`. A directory import takes
    /// its paths from the listing and starts with none.
    pub fn start(kind: ImportKind, paths: Vec<String>) -> (flow: ImportFlow)
        ensures
            flow@ == initial_state(kind, paths@),
    {
        let directory = match kind {
            ImportKind::Directory => true,
            _ => false,
        };
        let plain = match kind {
            ImportKind::Paths => true,
            _ => false,
        };
        let step = if directory {
            Step::Scanning
        } else if paths.len() == 0 {
            Step::Completed
        } else if plain {
            Step::GeneratingThumbnails
        } else {
            Step::CheckingDatabase
        };
        let pending = if plain {
            copy_paths(&paths)
        } else {
            Vec::new()
        };
        let candidates = if directory {
            Vec::new()
        } else {
            paths
        };
        ImportFlow {
            kind,
            step,
            candidates,
            existing: Vec::new(),
            pending,
            thumbnails: Vec::new(),
            fresh: Vec::new(),
        }
    }

    /// The step whose work the host is to do next.
    pub fn step(&self) -> (step: Step)
        ensures
            step == self@.step,
    {
        self.step
    }

    /// The number of items of the step in course.
    pub fn total(&self) -> (n: usize)
        ensures
            n == step_total(self@),
    {
        match self.step {
            Step::Scanning => 0,
            Step::CheckingDatabase => self.candidates.len(),
            Step::GeneratingThumbnails => self.pending.len(),
            Step::ExtractingMetadata => self.pending.len(),
            Step::SavingToDatabase => self.fresh.len(),
            Step::Completed => self.candidates.len(),
        }
    }

    /// The paths under consideration; while the catalog is checked, the
    /// paths to ask it for.
    pub fn candidates(&self) -> (paths: &Vec<String>)
        ensures
            paths@ == self@.candidates,
    {
        &self.candidates
    }

    /// The paths to make thumbnails and records for.
    pub fn pending(&self) -> (paths: &Vec<String>)
        ensures
            paths@ == self@.pending,
    {
        &self.pending
    }

    /// The thumbnails made, one for each pending path.
    pub fn thumbnails(&self) -> (thumbnails: &Vec<Option<String>>)
        ensures
            thumbnails@ == self@.thumbnails,
    {
        &self.thumbnails
    }

    /// The thumbnail made for the pending path at `index`, if one was made.
    pub fn thumbnail_for(&self, index: usize) -> (thumbnail: Option<String>)
        ensures
            thumbnail == if index < self@.thumbnails.len() {
                self@.thumbnails[index as int]
            } else {
                None
            },
    {
        if index < self.thumbnails.len() {
            match &self.thumbnails[index] {
                Some(path) => Some(path.clone()),
                None => None,
            }
        } else {
            None
        }
    }

    /// The new records; while they are saved, the records to store.
    pub fn fresh(&self) -> (records: &Vec<MediaRecord>)
        ensures
            records@ == self@.fresh,
    {
        &self.fresh
    }

    /// Takes the host's report on the step in course and moves on.
    /// Returns the step that follows.
    pub fn advance(&mut self, event: ImportEvent) -> (next: Step)
        ensures
            final(self)@ == state_after(old(self)@, event),
            next == final(self)@.step,
    {
        let catalog = match self.kind {
            ImportKind::Paths => false,
            _ => true,
        };
        match (self.step, event) {
            (Step::Scanning, ImportEvent::Listed(entries)) => {
                let candidates = select_supported(&entries);
                if !catalog {
                    self.pending = copy_paths(&candidates);
                }
                self.step = if candidates.len() == 0 {
                    Step::Completed
                } else if catalog {
                    Step::CheckingDatabase
                } else {
                    Step::GeneratingThumbnails
                };
                self.candidates = candidates;
            },
            (Step::CheckingDatabase, ImportEvent::Checked(lookups)) => {
                let (existing, pending) = split_by_catalog(&self.candidates, lookups);
                self.step = if pending.len() == 0 {
                    Step::Completed
                } else {
                    Step::GeneratingThumbnails
                };
                self.existing = existing;
                self.pending = pending;
            },
            (Step::GeneratingThumbnails, ImportEvent::ThumbnailsReady(thumbnails)) => {
                self.thumbnails = thumbnails;
                self.step = Step::ExtractingMetadata;
            },
            (Step::ExtractingMetadata, ImportEvent::MetadataReady(records)) => {
                let fresh = collect_present(records);
                self.step = if catalog && fresh.len() > 0 {
                    Step::SavingToDatabase
                } else {
                    Step::Completed
                };
                self.fresh = fresh;
            },
            (Step::SavingToDatabase, ImportEvent::Saved) => {
                self.step = Step::Completed;
            },
            _ => {},
        }
        self.step
    }

    /// The report that opens the step in course: nothing done yet of its
    /// items. The final step has one report only, with all candidates done.
    pub fn opening_event(&self) -> (event: ImagesDealProgressEvent)
        ensures
            event.step@ == step_name(self@.step),
            event.total == step_total(self@),
            event.current == if self@.step == Step::Completed {
                step_total(self@)
            } else {
                0
            },
            event.current_file.is_none(),
    {
        let total = self.total();
        let current = match self.step {
            Step::Completed => total,
            _ => 0,
        };
        ImagesDealProgressEvent { current, total, current_file: None, step: self.step.name() }
    }

    /// The report that `current` items of the step in course are done, the
    /// last of them `current_file`.
    pub fn progress_event(&self, current: usize, current_file: Option<String>) -> (event:
        ImagesDealProgressEvent)
        ensures
            event.step@ == step_name(self@.step),
            event.total == step_total(self@),
            event.current == current,
            event.current_file == current_file,
    {
        ImagesDealProgressEvent { current, total: self.total(), current_file, step: self.step.name() }
    }

    /// A counter for the items of the step in course; it reports every
    /// tenth item and the last.
    pub fn counter(&self) -> (counter: ProgressCounter)
        ensures
            counter.wf(),
            counter.total() == step_total(self@),
            counter.every() == 10,
            counter.done() == 0,
    {
        ProgressCounter::new(self.total(), 10)
    }

    /// Ends the import and hands its records back: those that the catalog
    /// held and the new ones. An import that uses the catalog returns them
    /// in order of recency; one that does not, as they came.
    pub fn finish(self) -> (records: Vec<MediaRecord>)
        ensures
            uses_catalog(self@.kind) ==> is_recency_sort_of(records@, gathered(self@)),
            !uses_catalog(self@.kind) ==> records@ == gathered(self@),
    {
        let catalog = match self.kind {
            ImportKind::Paths => false,
            _ => true,
        };
        let mut records = self.existing;
        let mut fresh = self.fresh;
        records.append(&mut fresh);
        if catalog {
            sort_by_recency(records)
        } else {
            records
        }
    }
}

/// Starts the import of a directory: scan, skip what the catalog holds,
/// process and store what is new, return all in order of recency.
pub fn read_images_in_dir() -> (flow: ImportFlow)
    ensures
        flow@ == initial_state(ImportKind::Directory, Seq::empty()),
{
    ImportFlow::start(ImportKind::Directory, Vec::new())
}

/// Starts the import of the given paths without the catalog: every path is
/// processed, and the records are returned as they come.
pub fn get_media_records(paths: Vec<String>) -> (flow: ImportFlow)
    ensures
        flow@ == initial_state(ImportKind::Paths, paths@),
{
    ImportFlow::start(ImportKind::Paths, paths)
}

/// Starts the import of the given paths with the catalog: paths that it
/// holds are skipped, the others processed and stored, and all records
/// returned in order of recency.
pub fn get_media_records_with_db(paths: Vec<String>) -> (flow: ImportFlow)
    ensures
        flow@ == initial_state(ImportKind::PathsDeduped, paths@),
{
    ImportFlow::start(ImportKind::PathsDeduped, paths)
}

/// Every record that a lookup found is among the records found.
pub proof fn lemma_found_is_kept(lookups: Seq<Lookup>, i: int)
    requires
        0 <= i < lookups.len(),
        lookups[i] is Found,
    ensures
        found_records(lookups).contains(lookups[i]->Found_0),
    decreases lookups.len(),
{
    let pick = |l: Lookup| found_record(l);
    let before = lookups.drop_last();
    if i == lookups.len() - 1 {
        let all = found_records(lookups);
        assert(all == before.filter_map(pick) + seq![lookups[i]->Found_0]);
        assert(all[all.len() - 1] == lookups[i]->Found_0);
    } else {
        lemma_found_is_kept(before, i);
        let record = lookups[i]->Found_0;
        assert(before[i] == lookups[i]);
        let at = choose|k: int| 0 <= k < found_records(before).len() && found_records(before)[k] == record;
        match found_record(lookups.last()) {
            Some(r) => {
                assert(found_records(lookups) == found_records(before) + seq![r]);
                assert(found_records(lookups)[at] == record);
            },
            None => {
                assert(found_records(lookups) == found_records(before));
            },
        }
    }
}

/// Every path left to process is a candidate for which the catalog had no
/// record.
pub proof fn lemma_pending_is_unfound(paths: Seq<String>, lookups: Seq<Lookup>, k: int)
    requires
        0 <= k < unfound_paths(paths, lookups).len(),
    ensures
        exists|j: int|
            0 <= j < paths.len() && is_unfound(lookups, j) && #[trigger] paths[j] == unfound_paths(
                paths,
                lookups,
            )[k],
    decreases paths.len(),
{
    let before = unfound_paths(paths.drop_last(), lookups);
    let last = paths.len() - 1;
    if k < before.len() {
        lemma_pending_is_unfound(paths.drop_last(), lookups, k);
        let j = choose|j: int|
            0 <= j < paths.drop_last().len() && is_unfound(lookups, j) && #[trigger] paths.drop_last()[j]
                == before[k];
        assert(paths[j] == unfound_paths(paths, lookups)[k]);
    } else {
        assert(is_unfound(lookups, last));
        assert(paths[last] == unfound_paths(paths, lookups)[k]);
    }
}

/// A candidate for which the catalog holds a record is not processed
/// again, and the record is taken over as the catalog gave it: if the path
/// at `i` occurs but once among the candidates and its lookup found a
/// record, then no pending path is that path, and the record is among the
/// existing ones.
pub proof fn lemma_cataloged_path_is_reused(pre: FlowState, lookups: Vec<Lookup>, i: int)
    requires
        pre.step == Step::CheckingDatabase,
        0 <= i < pre.candidates.len(),
        i < lookups@.len(),
        lookups@[i] is Found,
        forall|j: int|
            0 <= j < pre.candidates.len() && j != i ==> (#[trigger] pre.candidates[j])@
                != pre.candidates[i]@,
    ensures
        ({
            let post = state_after(pre, ImportEvent::Checked(lookups));
            &&& forall|k: int|
                0 <= k < post.pending.len() ==> (#[trigger] post.pending[k])@ != pre.candidates[i]@
            &&& post.existing.contains(lookups@[i]->Found_0)
            &&& gathered(post).contains(lookups@[i]->Found_0)
        }),
{
    let post = state_after(pre, ImportEvent::Checked(lookups));
    assert forall|k: int| 0 <= k < post.pending.len() implies (#[trigger] post.pending[k])@
        != pre.candidates[i]@ by {
        lemma_pending_is_unfound(pre.candidates, lookups@, k);
    }
    lemma_found_is_kept(lookups@, i);
    let record = lookups@[i]->Found_0;
    let at = choose|k: int| 0 <= k < post.existing.len() && post.existing[k] == record;
    assert(gathered(post)[at] == record);
}

/// Where the catalog has a record for every candidate, nothing is left to
/// process and the records found are those of the lookups, one for one.
pub proof fn lemma_all_found(paths: Seq<String>, lookups: Seq<Lookup>)
    requires
        lookups.len() == paths.len(),
        forall|i: int| 0 <= i < lookups.len() ==> #[trigger] lookups[i] is Found,
    ensures
        unfound_paths(paths, lookups).len() == 0,
        found_records(lookups) == lookups.map_values(|l: Lookup| l->Found_0),
    decreases paths.len(),
{
    let pick = |l: Lookup| found_record(l);
    if paths.len() > 0 {
        let fewer = lookups.drop_last();
        lemma_all_found(paths.drop_last(), fewer);
        assert(unfound_paths(paths.drop_last(), lookups).len() == 0) by {
            lemma_unfound_ignores_rest(paths.drop_last(), lookups, fewer);
        }
        assert(lookups[lookups.len() - 1] is Found);
        assert(found_records(lookups) =~= lookups.map_values(|l: Lookup| l->Found_0));
    } else {
        assert(found_records(lookups) =~= lookups.map_values(|l: Lookup| l->Found_0));
    }
}

/// What is left to process of `paths` depends on the lookups for those
/// paths alone.
pub proof fn lemma_unfound_ignores_rest(paths: Seq<String>, a: Seq<Lookup>, b: Seq<Lookup>)
    requires
        paths.len() <= a.len(),
        paths.len() <= b.len(),
        forall|i: int| 0 <= i < paths.len() ==> a[i] == b[i],
    ensures
        unfound_paths(paths, a) == unfound_paths(paths, b),
    decreases paths.len(),
{
    if paths.len() > 0 {
        lemma_unfound_ignores_rest(paths.drop_last(), a, b);
    }
}

/// An import whose candidates the catalog all holds, as it does after an
/// import of the same files that stored them all, passes over the making
/// of thumbnails and records and the saving: it is complete once the
/// catalog is checked, and what it hands back are the catalog's records as
/// they are.
pub proof fn lemma_repeated_import_is_idle(pre: FlowState, lookups: Vec<Lookup>)
    requires
        pre.step == Step::CheckingDatabase,
        pre.fresh.len() == 0,
        lookups@.len() == pre.candidates.len(),
        forall|i: int| 0 <= i < lookups@.len() ==> #[trigger] lookups@[i] is Found,
    ensures
        ({
            let post = state_after(pre, ImportEvent::Checked(lookups));
            &&& post.step == Step::Completed
            &&& post.pending.len() == 0
            &&& gathered(post) == lookups@.map_values(|l: Lookup| l->Found_0)
        }),
{
    lemma_all_found(pre.candidates, lookups@);
    let post = state_after(pre, ImportEvent::Checked(lookups));
    assert(gathered(post) =~= post.existing);
}

/// Once an import is complete no report changes it.
pub proof fn lemma_completed_is_final(pre: FlowState, event: ImportEvent)
    requires
        pre.step == Step::Completed,
    ensures
        state_after(pre, event) == pre,
{
}

/// The steps of an import only move forward.
pub open spec fn step_rank(step: Step) -> nat {
    match step {
        Step::Scanning => 0,
        Step::CheckingDatabase => 1,
        Step::GeneratingThumbnails => 2,
        Step::ExtractingMetadata => 3,
        Step::SavingToDatabase => 4,
        Step::Completed => 5,
    }
}

/// A report either leaves the import where it is or takes it to a later
/// step.
pub proof fn lemma_steps_move_forward(pre: FlowState, event: ImportEvent)
    ensures
        state_after(pre, event) == pre || step_rank(state_after(pre, event).step) > step_rank(
            pre.step,
        ),
{
}

/// A step without items is passed over: when a report takes the import to
/// the checking of the catalog, the making of thumbnails or the saving,
/// that step has work to do.
pub proof fn lemma_empty_steps_are_skipped(pre: FlowState, event: ImportEvent)
    ensures
        ({
            let post = state_after(pre, event);
            post.step != pre.step && (post.step == Step::CheckingDatabase || post.step
                == Step::GeneratingThumbnails || post.step == Step::SavingToDatabase)
                ==> step_total(post) > 0
        }),
{
}

} // verus!
