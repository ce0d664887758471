//! The run as a whole: which step follows which, and how it ends.
//!
//! A run tries the session, reads the course page, creates the lab's
//! directory and downloads the exercises, in that order. The requests and the
//! file system are the caller's business; this module decides, from the stage
//! a run is in and from what the caller reports, what is to be done next.

use crate::lab::{directory_path, lab_directory};
use crate::links::{lab_links, page_links, LinksError};
use crate::text::texts;
use vstd::prelude::*;

verus! {

/// How a run ended.
#[derive(Clone, Copy, Debug, PartialEq, Eq)]
pub enum Outcome {
    /// Every stage was passed; `failures` of the downloads did not succeed.
    Completed { failures: usize },
    /// The server did not accept the session.
    SessionRejected,
    /// The course page could not be fetched.
    IndexUnavailable,
    /// The course page did not yield the lab's links.
    Links { error: LinksError },
    /// The lab's directory could not be created, as when it exists already.
    DirectoryFailed,
    /// The caller reported something that the stage was not waiting for.
    OutOfTurn,
}

/// One download: a link and its number, counted from one.
#[derive(Clone, Debug, PartialEq, Eq)]
pub struct WorkItem {
    pub ordinal: usize,
    pub link: String,
}

/// The mathematical content of a [`WorkItem`].
pub struct WorkItemView {
    pub ordinal: nat,
    pub link: Seq<char>,
}

/// What a run is waiting for.
#[derive(Clone, Debug, PartialEq, Eq)]
pub enum Stage {
    /// The answer to the session check.
    Session,
    /// The text of the course page.
    Index,
    /// The creation of the directory that will receive these links' files.
    Directory { links: Vec<String> },
    /// The end of the downloads.
    Downloads,
    /// Nothing: the run is over.
    Finished { outcome: Outcome },
}

/// What the caller reports.
#[derive(Clone, Debug, PartialEq, Eq)]
pub enum Event {
    /// The session was tried: the request went through, or it did not.
    Session { accepted: bool },
    /// The course page was requested: its text, or nothing where the request
    /// failed.
    Index { page: Option<String> },
    /// The directory was created, or could not be.
    Directory { created: bool },
    /// Every download has ended: for each item, in any order, whether it
    /// succeeded.
    Downloads { outcomes: Vec<bool> },
}

/// What the caller is to do next.
#[derive(Clone, Debug, PartialEq, Eq)]
pub enum Action {
    /// Try the session with one request.
    CheckSession,
    /// Fetch the course page.
    FetchIndex,
    /// Create this directory, which must not exist yet.
    CreateDirectory { path: String },
    /// Download all of these items, none waiting for another.
    Download { items: Vec<WorkItem> },
    /// End the run.
    Exit { outcome: Outcome },
}

/// The mathematical content of a [`Stage`].
pub enum StageView {
    Session,
    Index,
    Directory { links: Seq<Seq<char>> },
    Downloads,
    Finished { outcome: Outcome },
}

/// The mathematical content of an [`Event`].
pub enum EventView {
    Session { accepted: bool },
    Index { page: Option<Seq<char>> },
    Directory { created: bool },
    Downloads { outcomes: Seq<bool> },
}

/// The mathematical content of an [`Action`].
pub enum ActionView {
    CheckSession,
    FetchIndex,
    CreateDirectory { path: Seq<char> },
    Download { items: Seq<WorkItemView> },
    Exit { outcome: Outcome },
}

impl View for WorkItem {
    type V = WorkItemView;

    open spec fn view(&self) -> WorkItemView {
        WorkItemView { ordinal: self.ordinal as nat, link: self.link@ }
    }
}

impl View for Stage {
    type V = StageView;

    open spec fn view(&self) -> StageView {
        match *self {
            Stage::Session => StageView::Session,
            Stage::Index => StageView::Index,
            Stage::Directory { links } => StageView::Directory { links: texts(links@) },
            Stage::Downloads => StageView::Downloads,
            Stage::Finished { outcome } => StageView::Finished { outcome },
        }
    }
}

impl View for Event {
    type V = EventView;

    open spec fn view(&self) -> EventView {
        match *self {
            Event::Session { accepted } => EventView::Session { accepted },
            Event::Index { page } => EventView::Index {
                page: match page {
                    Some(text) => Some(text@),
                    None => None,
                },
            },
            Event::Directory { created } => EventView::Directory { created },
            Event::Downloads { outcomes } => EventView::Downloads { outcomes: outcomes@ },
        }
    }
}

impl View for Action {
    type V = ActionView;

    open spec fn view(&self) -> ActionView {
        match *self {
            Action::CheckSession => ActionView::CheckSession,
            Action::FetchIndex => ActionView::FetchIndex,
            Action::CreateDirectory { path } => ActionView::CreateDirectory { path: path@ },
            Action::Download { items } => ActionView::Download { items: item_views(items@) },
            Action::Exit { outcome } => ActionView::Exit { outcome },
        }
    }
}

/// The contents of a sequence of work items, in order.
pub open spec fn item_views(items: Seq<WorkItem>) -> Seq<WorkItemView> {
    items.map_values(|item: WorkItem| item@)
}

/// Whether a run that ended this way is reported as a success: it is when
/// every stage was passed, whatever became of the single downloads.
pub open spec fn succeeded(outcome: Outcome) -> bool {
    outcome is Completed
}

/// The links as work items: one item for each link, in the links' order,
/// numbered from one.
pub open spec fn numbered(links: Seq<Seq<char>>) -> Seq<WorkItemView> {
    Seq::new(links.len(), |i: int| WorkItemView { ordinal: (i + 1) as nat, link: links[i] })
}

/// The number of downloads that did not succeed.
pub open spec fn failures(outcomes: Seq<bool>) -> nat
    decreases outcomes.len(),
{
    if outcomes.len() == 0 {
        0
    } else {
        failures(outcomes.drop_last()) + if outcomes.last() {
            0nat
        } else {
            1nat
        }
    }
}

/// The end of a run: nothing is waited for, and the caller is told to exit.
pub open spec fn stop(outcome: Outcome) -> (StageView, ActionView) {
    (StageView::Finished { outcome }, ActionView::Exit { outcome })
}

/// The stage and the action that follow when `event` is reported in `stage`,
/// in a run for the lab `lab`.
pub open spec fn advance(stage: StageView, event: EventView, lab: Seq<char>) -> (
    StageView,
    ActionView,
) {
    match (stage, event) {
        (StageView::Finished { outcome }, _) => stop(outcome),
        (StageView::Session, EventView::Session { accepted }) => if accepted {
            (StageView::Index, ActionView::FetchIndex)
        } else {
            stop(Outcome::SessionRejected)
        },
        (StageView::Index, EventView::Index { page }) => match page {
            None => stop(Outcome::IndexUnavailable),
            Some(text) => match page_links(text, lab) {
                Ok(links) => (
                    StageView::Directory { links },
                    ActionView::CreateDirectory { path: lab_directory(lab) },
                ),
                Err(error) => stop(Outcome::Links { error }),
            },
        },
        (StageView::Directory { links }, EventView::Directory { created }) => if created {
            (StageView::Downloads, ActionView::Download { items: numbered(links) })
        } else {
            stop(Outcome::DirectoryFailed)
        },
        (StageView::Downloads, EventView::Downloads { outcomes }) => stop(
            Outcome::Completed { failures: failures(outcomes) as usize },
        ),
        _ => stop(Outcome::OutOfTurn),
    }
}

/// The number of failures is at most the number of downloads.
pub proof fn failures_bounded(outcomes: Seq<bool>)
    ensures
        failures(outcomes) <= outcomes.len(),
    decreases outcomes.len(),
{
    if outcomes.len() > 0 {
        failures_bounded(outcomes.drop_last());
    }
}

/// The number of failures is the number of times that `false` occurs among
/// the outcomes.
pub proof fn failures_count_false(outcomes: Seq<bool>)
    ensures
        failures(outcomes) == outcomes.to_multiset().count(false),
    decreases outcomes.len(),
{
    if outcomes.len() == 0 {
        outcomes.to_multiset_ensures();
    } else {
        let rest = outcomes.drop_last();
        failures_count_false(rest);
        rest.to_multiset_ensures();
        assert(outcomes == rest.push(outcomes.last()));
    }
}

/// The order in which the downloads end does not matter: two reports of the
/// same outcomes in different orders count the same failures.
pub proof fn failures_ignore_order(first: Seq<bool>, second: Seq<bool>)
    requires
        first.to_multiset() == second.to_multiset(),
    ensures
        failures(first) == failures(second),
{
    failures_count_false(first);
    failures_count_false(second);
}

/// Downloads start only after the directory has been created: a failed
/// creation ends the run, and in no other stage is a download ordered.
pub proof fn downloads_need_directory(stage: StageView, event: EventView, lab: Seq<char>)
    ensures
        advance(stage, event, lab).1 is Download ==> stage is Directory && event
            == (EventView::Directory { created: true }),
        stage is Directory && event == (EventView::Directory { created: false }) ==> advance(
            stage,
            event,
            lab,
        ) == stop(Outcome::DirectoryFailed),
{
}

/// A run is reported as a success only from the download stage, and there it
/// always is: no single failure, and no number of them, turns it into a
/// failure.
pub proof fn success_comes_with_downloads(stage: StageView, event: EventView, lab: Seq<char>)
    requires
        !(stage is Finished),
    ensures
        (advance(stage, event, lab).0 matches StageView::Finished { outcome } && succeeded(outcome))
            <==> (stage is Downloads && event is Downloads),
{
}

/// Every link becomes exactly one download, in the links' order, and the
/// downloads are numbered 1, 2, 3 and so on.
pub proof fn every_link_is_numbered(links: Seq<Seq<char>>, i: int)
    requires
        0 <= i < links.len(),
    ensures
        numbered(links).len() == links.len(),
        numbered(links)[i].link == links[i],
        numbered(links)[i].ordinal == i + 1,
{
}

/// A run that is over stays over, with the outcome it had.
pub proof fn finished_is_final(outcome: Outcome, event: EventView, lab: Seq<char>)
    ensures
        advance(StageView::Finished { outcome }, event, lab) == stop(outcome),
{
}

/// Gives each link its number.
pub fn number_links(links: &Vec<String>) -> (items: Vec<WorkItem>)
    ensures
        item_views(items@) == numbered(texts(links@)),
{
    let mut items: Vec<WorkItem> = Vec::new();
    let mut i: usize = 0;
    while i < links.len()
        invariant
            i <= links.len(),
            items@.len() == i,
            forall|k: int| 0 <= k < i ==> (#[trigger] items@[k])@ == (WorkItemView {
                ordinal: (k + 1) as nat,
                link: links@[k]@,
            }),
        decreases links.len() - i,
    {
        items.push(WorkItem { ordinal: i + 1, link: links[i].clone() });
        i = i + 1;
    }
    proof {
        assert(item_views(items@) =~= numbered(texts(links@)));
    }
    items
}

/// Counts the downloads that did not succeed.
pub fn count_failures(outcomes: &Vec<bool>) -> (count: usize)
    ensures
        count == failures(outcomes@),
{
    let mut count: usize = 0;
    let mut i: usize = 0;
    while i < outcomes.len()
        invariant
            i <= outcomes.len(),
            count == failures(outcomes@.take(i as int)),
            count <= i,
        decreases outcomes.len() - i,
    {
        proof {
            assert(outcomes@.take(i + 1).drop_last() == outcomes@.take(i as int));
        }
        if !outcomes[i] {
            count = count + 1;
        }
        i = i + 1;
    }
    proof {
        assert(outcomes@.take(outcomes.len() as int) == outcomes@);
    }
    count
}

/// Decides whether a run that ended with `outcome` is reported as a success.
pub fn run_succeeded(outcome: Outcome) -> (success: bool)
    ensures
        success == succeeded(outcome),
{
    match outcome {
        Outcome::Completed { .. } => true,
        _ => false,
    }
}

/// The beginning of a run: the session is tried first.
pub fn start() -> (first: (Stage, Action))
    ensures
        first.0@ == StageView::Session,
        first.1@ == ActionView::CheckSession,
{
    (Stage::Session, Action::CheckSession)
}

/// Ends a run.
fn finish(outcome: Outcome) -> (last: (Stage, Action))
    ensures
        (last.0@, last.1@) == stop(outcome),
{
    (Stage::Finished { outcome }, Action::Exit { outcome })
}

/// Takes a run one step further: from the stage it is in and from what the
/// caller reports to the next stage and to what the caller is to do.
pub fn step(stage: Stage, event: Event, lab: &str) -> (next: (Stage, Action))
    ensures
        (next.0@, next.1@) == advance(stage@, event@, lab@),
{
    match (stage, event) {
        (Stage::Finished { outcome }, _) => finish(outcome),
        (Stage::Session, Event::Session { accepted }) => {
            if accepted {
                (Stage::Index, Action::FetchIndex)
            } else {
                finish(Outcome::SessionRejected)
            }
        },
        (Stage::Index, Event::Index { page }) => match page {
            None => finish(Outcome::IndexUnavailable),
            Some(text) => match lab_links(text.as_str(), lab) {
                Ok(links) => {
                    let path = directory_path(lab);
                    (Stage::Directory { links }, Action::CreateDirectory { path })
                },
                Err(error) => finish(Outcome::Links { error }),
            },
        },
        (Stage::Directory { links }, Event::Directory { created }) => {
            if created {
                let items = number_links(&links);
                (Stage::Downloads, Action::Download { items })
            } else {
                finish(Outcome::DirectoryFailed)
            }
        },
        (Stage::Downloads, Event::Downloads { outcomes }) => {
            let count: usize = count_failures(&outcomes);
            finish(Outcome::Completed { failures: count })
        },
        _ => finish(Outcome::OutOfTurn),
    }
}

} // verus!
