//! Moving a file, and what happens when a file is already at the target.

use crate::place::{Place, PlaceView};
use crate::rules::DuplicateAction;
use vstd::prelude::*;

verus! {

/// The layout of the time in a name made to avoid a duplicate: year, month
/// and day, the letter `T`, then hour, minute and second. The time is the
/// local time at which the move is carried out; whoever reads the clock
/// writes it in this layout.
pub const STAMP_LAYOUT: &'static str = "%Y-%m-%dT%H_%M_%S";

/// The name that `name` gets beside a duplicate, at the time written `stamp`.
pub open spec fn stamped(stamp: Seq<char>, name: Seq<char>) -> Seq<char> {
    stamp + seq!['_', '_'] + name
}

/// The name that `name` gets beside a duplicate: `stamp`, two underscores,
/// and `name`.
pub fn stamped_name(stamp: &str, name: &str) -> (r: String)
    ensures
        r@ == stamped(stamp@, name@),
{
    let mut r = String::from_str(stamp);
    proof {
        reveal_strlit("__");
    }
    r.append("__");
    r.append(name);
    r
}

/// What is to be done to carry out a move.
#[derive(Debug, PartialEq, Eq)]
pub enum Step {
    /// Nothing: the file stays where it is.
    Leave,
    /// The file at `from` is renamed to `to`, replacing what is there.
    Rename { from: Place, to: Place },
}

/// A `Step`, its places as sequences of characters.
pub enum StepView {
    Leave,
    Rename { from: PlaceView, to: PlaceView },
}

impl View for Step {
    type V = StepView;

    open spec fn view(&self) -> StepView {
        match self {
            Step::Leave => StepView::Leave,
            Step::Rename { from, to } => StepView::Rename { from: from@, to: to@ },
        }
    }
}

/// A file at `source` that is to go to `target`.
#[derive(Debug, PartialEq, Eq)]
pub struct Relocation {
    pub source: Place,
    pub target: Place,
    pub duplicate: DuplicateAction,
}

/// A `Relocation`, its places as sequences of characters.
pub struct RelocationView {
    pub source: PlaceView,
    pub target: PlaceView,
    pub duplicate: DuplicateAction,
}

impl View for Relocation {
    type V = RelocationView;

    open spec fn view(&self) -> RelocationView {
        RelocationView { source: self.source@, target: self.target@, duplicate: self.duplicate }
    }
}

impl RelocationView {
    /// The place beside the target that the file gets at the time `stamp`.
    pub open spec fn beside(self, stamp: Seq<char>) -> PlaceView {
        PlaceView {
            root: self.target.root,
            dir: self.target.dir,
            name: stamped(stamp, self.target.name),
        }
    }

    /// Whether the step depends on the time: whether the file is moved beside
    /// a duplicate.
    pub open spec fn needs_stamp(self, occupied: bool) -> bool {
        occupied && self.duplicate == DuplicateAction::RenameDate
    }

    /// The step that carries out the move, `occupied` saying whether a file is
    /// at the target. `stamp` is the time, which only a move beside a
    /// duplicate makes use of.
    pub open spec fn step(self, occupied: bool, stamp: Seq<char>) -> StepView {
        if !occupied {
            StepView::Rename { from: self.source, to: self.target }
        } else {
            match self.duplicate {
                DuplicateAction::Skip => StepView::Leave,
                DuplicateAction::Overwrite => StepView::Rename { from: self.source, to: self.target },
                DuplicateAction::RenameDate => StepView::Rename {
                    from: self.source,
                    to: self.beside(stamp),
                },
            }
        }
    }
}

impl Relocation {
    /// The step that carries out the move at the time written `stamp`. The
    /// time is looked at only where `needs_stamp` says so.
    pub fn resolve_at(&self, occupied: bool, stamp: &str) -> (step: Step)
        ensures
            step@ == self@.step(occupied, stamp@),
    {
        if !occupied {
            Step::Rename { from: self.source.clone(), to: self.target.clone() }
        } else {
            match self.duplicate {
                DuplicateAction::Skip => Step::Leave,
                DuplicateAction::Overwrite => Step::Rename {
                    from: self.source.clone(),
                    to: self.target.clone(),
                },
                DuplicateAction::RenameDate => Step::Rename {
                    from: self.source.clone(),
                    to: Place {
                        root: self.target.root.clone(),
                        dir: self.target.dir.clone(),
                        name: stamped_name(stamp, self.target.name.as_str()),
                    },
                },
            }
        }
    }

    /// Whether the step depends on the time: whether the file is to be moved
    /// beside a duplicate. Only then need the clock be read.
    pub fn needs_stamp(&self, occupied: bool) -> (r: bool)
        ensures
            r == self@.needs_stamp(occupied),
    {
        occupied && self.duplicate == DuplicateAction::RenameDate
    }
}

/// A move that does not go beside a duplicate is the same step at every time.
pub proof fn law_stamp_only_beside_duplicate(
    relocation: RelocationView,
    occupied: bool,
    one: Seq<char>,
    other: Seq<char>,
)
    requires
        !relocation.needs_stamp(occupied),
    ensures
        relocation.step(occupied, one) == relocation.step(occupied, other),
{
}

} // verus!
