//! The organiser: from a notification that a file has changed to what is to
//! be done with the file.
//!
//! Only two kinds of notification are looked at: a file that was open for
//! writing was closed, and a file was moved into the watched directory. The
//! rule that applies to the file is then chosen, and the first of its actions
//! is the one task for this notification. Later actions of the rule, and
//! later rules, are not considered.

use crate::archive::{Unpacking, UnpackingView};
use crate::moves::{Relocation, RelocationView};
use crate::place::{Place, PlaceView};
use crate::rules::{
    all_pass, law_no_pattern_no_rule, law_selection_is_first, select, selection, Action,
    ActionView, Rule, SelectError, SelectFault,
};
use crate::size::SizeMatcher;
use vstd::prelude::*;

verus! {

/// The mask of a notification that a file opened for writing was closed.
pub const CLOSE_WRITE: u32 = 0x0000_0008;

/// The mask of a notification that a file was moved into the directory.
pub const MOVED_TO: u32 = 0x0000_0080;

/// Whether a notification with the mask `mask` is looked at. The mask has to
/// be one of the two, with no other bit set.
pub open spec fn relevant(mask: u32) -> bool {
    mask == CLOSE_WRITE || mask == MOVED_TO
}

/// Whether a notification with the mask `mask` is looked at.
pub fn is_relevant(mask: u32) -> (r: bool)
    ensures
        r == relevant(mask),
{
    mask == CLOSE_WRITE || mask == MOVED_TO
}

/// A notification from the watched directory.
#[derive(Debug, PartialEq, Eq)]
pub struct Event {
    pub mask: u32,
    /// The name of the file, within the watched directory.
    pub name: Option<String>,
}

/// What was found at the place of the file when the notification came.
#[derive(Clone, Copy, Debug, PartialEq, Eq)]
pub enum Probe {
    /// Nothing is there.
    Absent,
    /// The file is there; `size` is its size in bytes, where that could be
    /// read.
    Present { size: Option<u64> },
}

/// Why nothing is done for a notification.
#[derive(Clone, Copy, Debug, PartialEq, Eq, Structural)]
pub enum Idle {
    /// The notification is of a kind that is not looked at.
    Irrelevant,
    /// The notification names no file.
    Unnamed,
    /// The file is no longer there: an earlier notification took care of it.
    Vanished,
    /// No rule applies to the file.
    Unmatched,
}

/// The one thing that is done with a file.
#[derive(Debug, PartialEq, Eq)]
pub enum Task {
    /// The file is moved; what that takes depends on whether a file is at the
    /// target.
    Move(Relocation),
    /// The file is an archive, and its entries are unpacked. The archive
    /// stays where it is.
    Unzip(Unpacking),
    /// The file at `source` is removed.
    Delete { source: Place },
}

/// A `Task`, its places as sequences of characters.
pub enum TaskView {
    Move(RelocationView),
    Unzip(UnpackingView),
    Delete { source: PlaceView },
}

impl View for Task {
    type V = TaskView;

    open spec fn view(&self) -> TaskView {
        match self {
            Task::Move(relocation) => TaskView::Move(relocation@),
            Task::Unzip(unpacking) => TaskView::Unzip(unpacking@),
            Task::Delete { source } => TaskView::Delete { source: source@ },
        }
    }
}

/// What a notification leads to.
#[derive(Debug, PartialEq, Eq)]
pub enum Decision {
    Ignore(Idle),
    /// `task` is done, by the rule at index `rule`.
    Act { rule: usize, task: Task },
}

/// A `Decision`, with the index of the rule as a whole number.
pub enum DecisionView {
    Ignore(Idle),
    Act { rule: int, task: TaskView },
}

impl View for Decision {
    type V = DecisionView;

    open spec fn view(&self) -> DecisionView {
        match self {
            Decision::Ignore(idle) => DecisionView::Ignore(*idle),
            Decision::Act { rule, task } => DecisionView::Act { rule: *rule as int, task: task@ },
        }
    }
}

/// A watched directory and the rules for the files that arrive in it. Both
/// `watch_dir` and the directories that the rules name are relative to
/// `base_dir`.
pub struct Organiser {
    pub base_dir: String,
    pub watch_dir: String,
    pub rules: Vec<Rule>,
    pub size_matcher: SizeMatcher,
}

impl Organiser {
    /// The place of the file `name` in the watched directory.
    pub open spec fn source(&self, name: Seq<char>) -> PlaceView {
        PlaceView { root: self.base_dir@, dir: self.watch_dir@, name }
    }

    /// What `action` asks for the file `name`.
    pub open spec fn task(&self, action: ActionView, name: Seq<char>) -> TaskView {
        match action {
            ActionView::Move { dest, duplicate } => TaskView::Move(
                RelocationView {
                    source: self.source(name),
                    target: PlaceView { root: self.base_dir@, dir: dest, name },
                    duplicate,
                },
            ),
            ActionView::Unzip { dest } => TaskView::Unzip(
                UnpackingView { archive: self.source(name), root: self.base_dir@, dest },
            ),
            ActionView::Delete => TaskView::Delete { source: self.source(name) },
        }
    }

    /// What the notification `event` leads to, `probe` saying what was found
    /// at the place of the file.
    pub open spec fn decision(&self, event: Event, probe: Probe) -> Result<
        DecisionView,
        SelectFault,
    > {
        if !relevant(event.mask) {
            Ok(DecisionView::Ignore(Idle::Irrelevant))
        } else {
            match event.name {
                None => Ok(DecisionView::Ignore(Idle::Unnamed)),
                Some(name) => match probe {
                    Probe::Absent => Ok(DecisionView::Ignore(Idle::Vanished)),
                    Probe::Present { size } => match selection(self.rules@, name@, size) {
                        Err(fault) => Err(fault),
                        Ok(None) => Ok(DecisionView::Ignore(Idle::Unmatched)),
                        Ok(Some(i)) => Ok(
                            DecisionView::Act {
                                rule: i,
                                task: self.task(self.rules@[i].actions@[0]@, name@),
                            },
                        ),
                    },
                },
            }
        }
    }

    /// An organiser for the directory `watch_dir` below `base_dir`, with `rules`
    /// in the order in which they are tried.
    pub fn new(
        base_dir: String,
        watch_dir: String,
        rules: Vec<Rule>,
        size_matcher: SizeMatcher,
    ) -> (organiser: Organiser)
        ensures
            organiser.base_dir == base_dir,
            organiser.watch_dir == watch_dir,
            organiser.rules == rules,
            organiser.size_matcher == size_matcher,
    {
        Organiser { base_dir, watch_dir, rules, size_matcher }
    }

    /// The place of the file that `event` is about, if the notification is
    /// looked at and names a file. This is the place to probe before the event
    /// is processed.
    pub fn subject(&self, event: &Event) -> (place: Option<Place>)
        ensures
            match place {
                Some(p) => {
                    &&& relevant(event.mask)
                    &&& event.name matches Some(name)
                    &&& p@ == self.source(name@)
                },
                None => !relevant(event.mask) || event.name is None,
            },
    {
        if !is_relevant(event.mask) {
            None
        } else {
            match &event.name {
                None => None,
                Some(name) => Some(
                    Place::new(self.base_dir.as_str(), self.watch_dir.as_str(), name.as_str()),
                ),
            }
        }
    }

    /// The task that `action` asks for the file `name`.
    pub fn task_for(&self, action: &Action, name: &str) -> (task: Task)
        ensures
            task@ == self.task(action@, name@),
    {
        let source = Place::new(self.base_dir.as_str(), self.watch_dir.as_str(), name);
        match action {
            Action::Move { dest, duplicate } => Task::Move(
                Relocation {
                    source,
                    target: Place::new(self.base_dir.as_str(), dest.as_str(), name),
                    duplicate: *duplicate,
                },
            ),
            Action::Unzip { dest } => Task::Unzip(
                Unpacking { archive: source, root: self.base_dir.clone(), dest: dest.clone() },
            ),
            Action::Delete => Task::Delete { source },
        }
    }

    /// Decides what is done for the notification `event`. `probe` says what was
    /// found at the place that `subject` gives for the event; where `subject`
    /// gives none, `probe` is not looked at.
    pub fn process_event(&self, event: &Event, probe: &Probe) -> (r: Result<Decision, SelectError>)
        ensures
            match self.decision(*event, *probe) {
                Ok(decision) => r matches Ok(d) && d@ == decision,
                Err(fault) => r matches Err(e) && e@ == fault,
            },
    {
        if !is_relevant(event.mask) {
            return Ok(Decision::Ignore(Idle::Irrelevant));
        }
        match &event.name {
            None => Ok(Decision::Ignore(Idle::Unnamed)),
            Some(name) => match probe {
                Probe::Absent => Ok(Decision::Ignore(Idle::Vanished)),
                Probe::Present { size } => match select(
                    &self.rules,
                    &self.size_matcher,
                    name.as_str(),
                    *size,
                ) {
                    Err(e) => Err(e),
                    Ok(None) => Ok(Decision::Ignore(Idle::Unmatched)),
                    Ok(Some(i)) => Ok(
                        Decision::Act {
                            rule: i,
                            task: self.task_for(&self.rules[i].actions[0], name.as_str()),
                        },
                    ),
                },
            },
        }
    }
}

/// Where the pattern of no rule is found in the name of the file, nothing is
/// done for the notification: the file is left where it is.
pub proof fn law_unmatched_file_is_left(organiser: Organiser, event: Event, probe: Probe)
    requires
        event.name matches Some(name) ==> forall|i: int|
            0 <= i < organiser.rules@.len() ==> !(#[trigger] organiser.rules@[i]).matches_name(
                name@,
            ),
    ensures
        organiser.decision(event, probe) matches Ok(DecisionView::Ignore(_)),
{
    if let Some(name) = event.name {
        if let Probe::Present { size } = probe {
            law_no_pattern_no_rule(organiser.rules@, name@, size);
        }
    }
}

/// Where something is done for a notification, it is the first action of the
/// first rule that applies to the file, and the rules before it all pass.
pub proof fn law_first_action_of_first_rule(organiser: Organiser, event: Event, probe: Probe)
    ensures
        organiser.decision(event, probe) matches Ok(DecisionView::Act { rule, task }) ==> {
            &&& event.name matches Some(name)
            &&& probe matches Probe::Present { size }
            &&& 0 <= rule < organiser.rules@.len()
            &&& organiser.rules@[rule].verdict(name@, size) is Take
            &&& all_pass(organiser.rules@, name@, size, 0, rule)
            &&& task == organiser.task(organiser.rules@[rule].actions@[0]@, name@)
        },
{
    if let Some(name) = event.name {
        if let Probe::Present { size } = probe {
            law_selection_is_first(organiser.rules@, name@, size);
        }
    }
}

} // verus!
