//! Progress reports: the named steps of an import or a deletion, the events
//! that announce them, and the counter that decides which items of a step
//! are worth a report.

use vstd::prelude::*;

verus! {

/// The name under which the events of an import are sent.
pub const IMPORT_PROGRESS_EVENT: &'static str = "images-deal-progress";

/// The name under which the events of a deletion are sent.
pub const DELETE_PROGRESS_EVENT: &'static str = "images-delete-progress";

/// One report on an import.
#[derive(Debug, Clone, PartialEq, Eq)]
pub struct ImagesDealProgressEvent {
    /// Items of the step that are done.
    pub current: usize,
    /// Items that the step has in all.
    pub total: usize,
    /// The file that was worked on last, where the step tells.
    pub current_file: Option<String>,
    /// The step's name.
    pub step: String,
}

/// One report on a deletion.
#[derive(Debug, Clone, PartialEq, Eq)]
pub struct ImagesDeleteProgressEvent {
    pub current: usize,
    pub total: usize,
    pub current_file: Option<String>,
    pub step: String,
}

/// The steps of an import, in the order in which a run passes through them.
#[derive(Debug, Clone, Copy, PartialEq, Eq, Structural)]
pub enum Step {
    Scanning,
    CheckingDatabase,
    GeneratingThumbnails,
    ExtractingMetadata,
    SavingToDatabase,
    Completed,
}

/// The steps of a deletion.
#[derive(Debug, Clone, Copy, PartialEq, Eq, Structural)]
pub enum DeleteStep {
    DeletingSelected,
    DeletingAll,
    Completed,
}

pub open spec fn step_name(step: Step) -> Seq<char> {
    match step {
        Step::Scanning => "scanning"@,
        Step::CheckingDatabase => "checking_database"@,
        Step::GeneratingThumbnails => "generating_thumbnails"@,
        Step::ExtractingMetadata => "extracting_metadata"@,
        Step::SavingToDatabase => "saving_to_database"@,
        Step::Completed => "completed"@,
    }
}

pub open spec fn delete_step_name(step: DeleteStep) -> Seq<char> {
    match step {
        DeleteStep::DeletingSelected => "deleting_selected"@,
        DeleteStep::DeletingAll => "deleting_all"@,
        DeleteStep::Completed => "completed"@,
    }
}

impl Step {
    /// The step's name as events carry it.
    pub fn name(&self) -> (r: String)
        ensures
            r@ == step_name(*self),
    {
        match self {
            Step::Scanning => "scanning".to_owned(),
            Step::CheckingDatabase => "checking_database".to_owned(),
            Step::GeneratingThumbnails => "generating_thumbnails".to_owned(),
            Step::ExtractingMetadata => "extracting_metadata".to_owned(),
            Step::SavingToDatabase => "saving_to_database".to_owned(),
            Step::Completed => "completed".to_owned(),
        }
    }
}

impl DeleteStep {
    /// The step's name as events carry it.
    pub fn name(&self) -> (r: String)
        ensures
            r@ == delete_step_name(*self),
    {
        match self {
            DeleteStep::DeletingSelected => "deleting_selected".to_owned(),
            DeleteStep::DeletingAll => "deleting_all".to_owned(),
            DeleteStep::Completed => "completed".to_owned(),
        }
    }
}

/// Whether a step of `total` items reports when `done` of them are done:
/// at its start, at its end, and at every `every`-th item between.
pub open spec fn reports_at(done: nat, total: nat, every: nat) -> bool {
    done == 0 || done == total || (every > 0 && done % every == 0)
}

/// The counts that a step of `total` items has reported, in order, when
/// `done` of its items are done.
pub open spec fn reported_upto(done: nat, total: nat, every: nat) -> Seq<nat>
    decreases done,
{
    if done == 0 {
        seq![0nat]
    } else {
        let before = reported_upto((done - 1) as nat, total, every);
        if reports_at(done, total, every) {
            before.push(done)
        } else {
            before
        }
    }
}

/// The reports of a step never go back: each count reported is greater
/// than the one before it, the first is 0, none exceeds the number of items
/// done, and once every item is done the last one reported is `total`.
pub proof fn lemma_reports_increase(done: nat, total: nat, every: nat)
    requires
        done <= total,
    ensures
        reported_upto(done, total, every).len() >= 1,
        reported_upto(done, total, every)[0] == 0,
        forall|i: int| 0 <= i < reported_upto(done, total, every).len() ==> #[trigger] reported_upto(done, total, every)[i] <= done,
        forall|i: int, j: int|
            0 <= i < j < reported_upto(done, total, every).len() ==> #[trigger] reported_upto(
                done,
                total,
                every,
            )[i] < #[trigger] reported_upto(done, total, every)[j],
        done == total ==> reported_upto(done, total, every).last() == total,
    decreases done,
{
    if done > 0 {
        lemma_reports_increase((done - 1) as nat, total, every);
    }
}

/// Counts the items of one step and says which of them to report.
pub struct ProgressCounter {
    total: usize,
    every: usize,
    done: usize,
    reported: Ghost<Seq<nat>>,
}

impl ProgressCounter {
    /// The counter has not run past its total, and what it has reported is
    /// what a step of its size reports up to the items done.
    pub closed spec fn wf(&self) -> bool {
        &&& self.every > 0
        &&& self.done <= self.total
        &&& self.reported@ == reported_upto(self.done as nat, self.total as nat, self.every as nat)
    }

    pub closed spec fn total(&self) -> nat {
        self.total as nat
    }

    pub closed spec fn every(&self) -> nat {
        self.every as nat
    }

    pub closed spec fn done(&self) -> nat {
        self.done as nat
    }

    /// The counts reported so far, the opening report of 0 included.
    pub closed spec fn reported(&self) -> Seq<nat> {
        self.reported@
    }

    /// What a well-formed counter has reported is fixed by its position.
    pub proof fn lemma_reported(&self)
        requires
            self.wf(),
        ensures
            self.done() <= self.total(),
            self.every() > 0,
            self.reported() == reported_upto(self.done(), self.total(), self.every()),
    {
    }

    /// A counter for a step of `total` items that reports every
    /// `every`-th item; an `every` of 0 is taken as 1. The step's opening
    /// report, at 0, counts as made.
    pub fn new(total: usize, every: usize) -> (c: ProgressCounter)
        ensures
            c.wf(),
            c.total() == total,
            c.every() == if every == 0 { 1 } else { every as nat },
            c.done() == 0,
    {
        let every = if every == 0 { 1 } else { every };
        let reported: Ghost<Seq<nat>> = Ghost(Seq::<nat>::empty().push(0));
        ProgressCounter { total, every, done: 0, reported }
    }

    /// Items done so far.
    pub fn completed(&self) -> (n: usize)
        ensures
            n == self.done(),
    {
        self.done
    }

    /// Items in all.
    pub fn size(&self) -> (n: usize)
        ensures
            n == self.total(),
    {
        self.total
    }

    /// Counts one more item as done and returns the new count if it is to
    /// be reported. Once every item is done the counter stays as it is.
    pub fn advance(&mut self) -> (r: Option<usize>)
        requires
            old(self).wf(),
        ensures
            final(self).wf(),
            final(self).total() == old(self).total(),
            final(self).every() == old(self).every(),
            old(self).done() < old(self).total() ==> {
                &&& final(self).done() == old(self).done() + 1
                &&& r.is_some() == reports_at(
                    final(self).done(),
                    final(self).total(),
                    final(self).every(),
                )
                &&& r matches Some(n) ==> n == final(self).done()
            },
            old(self).done() >= old(self).total() ==> *final(self) == *old(self) && r.is_none(),
            r matches Some(n) ==> final(self).reported() == old(self).reported().push(n as nat),
            r.is_none() ==> final(self).reported() == old(self).reported(),
    {
        if self.done >= self.total {
            return None;
        }
        self.done = self.done + 1;
        if self.done % self.every == 0 || self.done == self.total {
            let ghost longer = self.reported@.push(self.done as nat);
            self.reported = Ghost(longer);
            Some(self.done)
        } else {
            None
        }
    }
}

} // verus!
