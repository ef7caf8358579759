//! Catalog maintenance: finding a record by its identifier, and the course
//! of a deletion of selected records or of all.

use vstd::prelude::*;
use vstd::seq_lib::*;
use crate::ids::{id_text, id_to_text};
use crate::media::MediaRecord;
use crate::progress::{
    DeleteStep, ImagesDeleteProgressEvent, ProgressCounter, delete_step_name, reports_at,
};

verus! {

/// Whether `record` is the one that the text `id` names.
pub open spec fn has_id(record: MediaRecord, id: Seq<char>) -> bool {
    id_text(record.id) == id
}

/// The first of `records` that `id` names.
pub open spec fn first_with_id(records: Seq<MediaRecord>, id: Seq<char>) -> Option<MediaRecord>
    decreases records.len(),
{
    if records.len() == 0 {
        None
    } else if has_id(records.first(), id) {
        Some(records.first())
    } else {
        first_with_id(records.drop_first(), id)
    }
}

/// The path of the record that `id` names; where several records bear the
/// identifier, that of the last.
pub open spec fn path_of_id(records: Seq<MediaRecord>, id: Seq<char>) -> Option<String>
    decreases records.len(),
{
    if records.len() == 0 {
        None
    } else if has_id(records.last(), id) {
        Some(records.last().path)
    } else {
        path_of_id(records.drop_last(), id)
    }
}

/// The identifiers of `records` as they are written.
fn id_texts(records: &Vec<MediaRecord>) -> (texts: Vec<String>)
    ensures
        texts@.len() == records@.len(),
        forall|j: int| 0 <= j < records@.len() ==> (#[trigger] texts@[j])@ == id_text(records@[j].id),
{
    let mut texts: Vec<String> = Vec::new();
    let mut j: usize = 0;
    while j < records.len()
        invariant
            j <= records@.len(),
            texts@.len() == j,
            forall|k: int| 0 <= k < j ==> (#[trigger] texts@[k])@ == id_text(records@[k].id),
        decreases records@.len() - j,
    {
        texts.push(id_to_text(records[j].id));
        j += 1;
    }
    texts
}

/// Picks from the catalog's records the one that `media_id` names: the
/// first that bears the identifier, or none.
pub fn get_media_detail(records: Vec<MediaRecord>, media_id: &str) -> (found: Option<MediaRecord>)
    ensures
        found == first_with_id(records@, media_id@),
{
    let ghost given = records@;
    let mut rest = records;
    let wanted = media_id.to_owned();
    let mut j: usize = 0;
    assert(given.skip(0) =~= given);
    while j < rest.len()
        invariant
            rest@ == given,
            given == records@,
            wanted@ == media_id@,
            j <= given.len(),
            first_with_id(given, media_id@) == first_with_id(given.skip(j as int), media_id@),
        decreases given.len() - j,
    {
        let text = id_to_text(rest[j].id);
        proof {
            assert(given.skip(j as int).first() == given[j as int]);
            assert(given.skip(j as int).drop_first() =~= given.skip(j + 1));
        }
        if text == wanted {
            assert(first_with_id(given.skip(j as int), media_id@) == Some(given[j as int]));
            return Some(rest.remove(j));
        }
        j += 1;
    }
    None
}

/// For each identifier asked for, the path to delete from the catalog;
/// none where the catalog holds no record with the identifier.
pub open spec fn targets_of(records: Seq<MediaRecord>, ids: Seq<String>) -> Seq<Option<String>> {
    Seq::new(ids.len(), |i: int| path_of_id(records, ids[i]@))
}

/// The number of records that left the catalog: the items done whose
/// identifier named a record and whose removal succeeded.
pub open spec fn removed_count(targets: Seq<Option<String>>, outcomes: Seq<bool>) -> nat
    decreases outcomes.len(),
{
    if outcomes.len() == 0 {
        0
    } else {
        let before = removed_count(targets, outcomes.drop_last());
        let i = outcomes.len() - 1;
        if i < targets.len() && targets[i].is_some() && outcomes.last() {
            before + 1
        } else {
            before
        }
    }
}

/// The deletion of selected records under way.
pub struct DeletionRun {
    targets: Vec<Option<String>>,
    counter: ProgressCounter,
    removed: usize,
    outcomes: Ghost<Seq<bool>>,
}

impl DeletionRun {
    pub closed spec fn wf(&self) -> bool {
        &&& self.counter.wf()
        &&& self.counter.total() == self.targets@.len()
        &&& self.counter.every() == 5
        &&& self.outcomes@.len() == self.counter.done()
        &&& self.removed == removed_count(self.targets@, self.outcomes@)
        &&& self.removed <= self.counter.done()
    }

    /// The path to delete for each identifier asked for.
    pub closed spec fn targets(&self) -> Seq<Option<String>> {
        self.targets@
    }

    /// For each item done, whether the host removed its record.
    pub closed spec fn outcomes(&self) -> Seq<bool> {
        self.outcomes@
    }

    /// The number of records removed so far.
    pub closed spec fn removed(&self) -> nat {
        self.removed as nat
    }

    /// The run's count is the number of removals that succeeded.
    pub proof fn lemma_removed(&self)
        requires
            self.wf(),
        ensures
            self.removed() == removed_count(self.targets(), self.outcomes()),
            self.outcomes().len() <= self.targets().len(),
    {
        self.counter.lemma_reported();
    }

    /// The path to delete for the next identifier; `None` where all are
    /// done, `Some(None)` where the catalog holds no record with it.
    pub fn next_target(&self) -> (target: Option<&Option<String>>)
        requires
            self.wf(),
        ensures
            self.outcomes().len() >= self.targets().len() ==> target.is_none(),
            self.outcomes().len() < self.targets().len() ==> target == Some(
                &self.targets()[self.outcomes().len() as int],
            ),
    {
        proof {
            self.counter.lemma_reported();
        }
        let done = self.counter.completed();
        if done < self.targets.len() {
            Some(&self.targets[done])
        } else {
            None
        }
    }

    /// The report that opens the deletion.
    pub fn opening_event(&self) -> (event: ImagesDeleteProgressEvent)
        ensures
            event.current == 0,
            event.total == self.targets().len(),
            event.current_file.is_none(),
            event.step@ == delete_step_name(DeleteStep::DeletingSelected),
    {
        ImagesDeleteProgressEvent {
            current: 0,
            total: self.targets.len(),
            current_file: None,
            step: DeleteStep::DeletingSelected.name(),
        }
    }

    /// Takes the outcome of the next item: whether the host removed the
    /// record at the item's path. For an item without a path the outcome
    /// counts as a failure. Returns the report to send, which is due at
    /// every fifth item and at the last. Once all items are done, nothing
    /// changes.
    pub fn record(&mut self, removed: bool) -> (event: Option<ImagesDeleteProgressEvent>)
        requires
            old(self).wf(),
        ensures
            final(self).wf(),
            final(self).targets() == old(self).targets(),
            old(self).outcomes().len() < old(self).targets().len() ==> {
                &&& final(self).outcomes() == old(self).outcomes().push(removed)
                &&& event.is_some() == reports_at(
                    final(self).outcomes().len(),
                    final(self).targets().len(),
                    5,
                )
            },
            old(self).outcomes().len() >= old(self).targets().len() ==> {
                &&& final(self).outcomes() == old(self).outcomes()
                &&& event.is_none()
            },
            final(self).removed() == removed_count(final(self).targets(), final(self).outcomes()),
            event matches Some(e) ==> {
                &&& e.current == final(self).outcomes().len()
                &&& e.total == final(self).targets().len()
                &&& e.current_file.is_none()
                &&& e.step@ == delete_step_name(DeleteStep::DeletingSelected)
            },
    {
        proof {
            self.counter.lemma_reported();
        }
        let done = self.counter.completed();
        if done >= self.targets.len() {
            return None;
        }
        let counts = removed && self.targets[done].is_some();
        let report = self.counter.advance();
        proof {
            self.counter.lemma_reported();
            let longer = self.outcomes@.push(removed);
            assert(longer.drop_last() =~= self.outcomes@);
        }
        self.outcomes = Ghost(self.outcomes@.push(removed));
        if counts {
            self.removed = self.removed + 1;
        }
        match report {
            Some(current) => Some(
                ImagesDeleteProgressEvent {
                    current,
                    total: self.targets.len(),
                    current_file: None,
                    step: DeleteStep::DeletingSelected.name(),
                },
            ),
            None => None,
        }
    }

    /// Ends the deletion: the number of records removed, and the report
    /// that closes it.
    pub fn finish(&self) -> (r: (usize, ImagesDeleteProgressEvent))
        requires
            self.wf(),
        ensures
            r.0 == self.removed(),
            r.1.current == self.targets().len(),
            r.1.total == self.targets().len(),
            r.1.current_file.is_none(),
            r.1.step@ == delete_step_name(DeleteStep::Completed),
    {
        let total = self.targets.len();
        (
            self.removed,
            ImagesDeleteProgressEvent {
                current: total,
                total,
                current_file: None,
                step: DeleteStep::Completed.name(),
            },
        )
    }
}

/// Starts the deletion of the records that `media_ids` name. `records` is
/// what the catalog holds.
pub fn delete_selected_media(records: &Vec<MediaRecord>, media_ids: &Vec<String>) -> (run:
    DeletionRun)
    ensures
        run.wf(),
        run.targets() == targets_of(records@, media_ids@),
        run.outcomes().len() == 0,
        run.removed() == 0,
{
    let texts = id_texts(records);
    let mut targets: Vec<Option<String>> = Vec::new();
    let mut i: usize = 0;
    while i < media_ids.len()
        invariant
            i <= media_ids@.len(),
            texts@.len() == records@.len(),
            forall|j: int| 0 <= j < records@.len() ==> (#[trigger] texts@[j])@ == id_text(records@[j].id),
            targets@.len() == i,
            forall|k: int| 0 <= k < i ==> targets@[k] == path_of_id(records@, media_ids@[k]@),
        decreases media_ids@.len() - i,
    {
        let wanted = &media_ids[i];
        let mut j: usize = records.len();
        let mut target: Option<String> = None;
        proof {
            records@.lemma_take_len();
        }
        while j > 0 && target.is_none()
            invariant
                j <= records@.len(),
                texts@.len() == records@.len(),
                forall|k: int| 0 <= k < records@.len() ==> (#[trigger] texts@[k])@ == id_text(records@[k].id),
                target.is_none() ==> path_of_id(records@, wanted@) == path_of_id(
                    records@.take(j as int),
                    wanted@,
                ),
                target.is_some() ==> target == path_of_id(records@, wanted@),
            decreases j + if target.is_none() { 1int } else { 0int },
        {
            proof {
                assert(records@.take(j as int).last() == records@[j - 1]);
                assert(records@.take(j as int).drop_last() =~= records@.take(j - 1));
            }
            if texts[j - 1] == *wanted {
                target = Some(records[j - 1].path.clone());
            } else {
                j -= 1;
            }
        }
        targets.push(target);
        i += 1;
    }
    assert(targets@ =~= targets_of(records@, media_ids@));
    let counter = ProgressCounter::new(targets.len(), 5);
    let outcomes: Ghost<Seq<bool>> = Ghost(Seq::empty());
    DeletionRun { targets, counter, removed: 0, outcomes }
}

/// The report that opens the deletion of all records.
pub fn delete_all_media() -> (event: ImagesDeleteProgressEvent)
    ensures
        event.current == 0,
        event.total == 1,
        event.current_file.is_none(),
        event.step@ == delete_step_name(DeleteStep::DeletingAll),
{
    ImagesDeleteProgressEvent {
        current: 0,
        total: 1,
        current_file: None,
        step: DeleteStep::DeletingAll.name(),
    }
}

/// The report that closes the deletion of all records; due only where the
/// catalog was cleared.
pub fn all_media_deleted(cleared: bool) -> (event: Option<ImagesDeleteProgressEvent>)
    ensures
        event.is_some() == cleared,
        event matches Some(e) ==> {
            &&& e.current == 1
            &&& e.total == 1
            &&& e.current_file.is_none()
            &&& e.step@ == delete_step_name(DeleteStep::Completed)
        },
{
    if cleared {
        Some(
            ImagesDeleteProgressEvent {
                current: 1,
                total: 1,
                current_file: None,
                step: DeleteStep::Completed.name(),
            },
        )
    } else {
        None
    }
}

} // verus!
