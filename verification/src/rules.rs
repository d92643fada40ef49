//! Rules, and the choice of the rule that applies to a file.
//!
//! Rules are tried in the order in which they were declared, and the first
//! that applies wins. A rule applies to a file when its pattern is found
//! somewhere in the file's name, the file is larger than the rule's
//! threshold, where it has one, and the rule has an action to offer.

use crate::pattern::{found_in, matched_texts};
use crate::size::{exceeds, threshold, SizeError, SizeFault, SizeMatcher};
use regex::Regex;
use vstd::prelude::*;

verus! {

/// What to do when a file is moved to a place where a file already is.
#[derive(Clone, Copy, Debug, PartialEq, Eq, Structural)]
pub enum DuplicateAction {
    /// Move the file beside the other, under a name that starts with the time.
    RenameDate,
    /// Leave the file where it is.
    Skip,
    /// Replace the other file.
    Overwrite,
}

/// What a rule does with a file. Directories are relative to the base
/// directory.
#[derive(Debug, PartialEq, Eq)]
pub enum Action {
    Move { dest: String, duplicate: DuplicateAction },
    Unzip { dest: String },
    Delete,
}

/// An `Action`, its directory as a sequence of characters.
pub enum ActionView {
    Move { dest: Seq<char>, duplicate: DuplicateAction },
    Unzip { dest: Seq<char> },
    Delete,
}

impl View for Action {
    type V = ActionView;

    open spec fn view(&self) -> ActionView {
        match self {
            Action::Move { dest, duplicate } => ActionView::Move {
                dest: dest@,
                duplicate: *duplicate,
            },
            Action::Unzip { dest } => ActionView::Unzip { dest: dest@ },
            Action::Delete => ActionView::Delete,
        }
    }
}

/// A pattern for file names, an optional threshold that the file's size must
/// exceed, and the actions for the files to which the rule applies.
pub struct Rule {
    pub regex: Regex,
    pub min_size: Option<String>,
    pub actions: Vec<Action>,
}

/// Why no rule could be chosen.
#[derive(Debug, PartialEq, Eq)]
pub enum SelectError {
    /// A rule asked for the file's size, and the size is not known.
    SizeUnknown,
    /// A rule's threshold could not be resolved.
    Threshold(SizeError),
}

/// What a `SelectError` says.
pub enum SelectFault {
    SizeUnknown,
    Threshold(SizeFault),
}

impl View for SelectError {
    type V = SelectFault;

    open spec fn view(&self) -> SelectFault {
        match self {
            SelectError::SizeUnknown => SelectFault::SizeUnknown,
            SelectError::Threshold(e) => SelectFault::Threshold(e@),
        }
    }
}

/// What one rule says of a file.
pub enum Verdict {
    /// The rule does not apply; the next rule is tried.
    Pass,
    /// The rule applies.
    Take,
    /// The rule cannot be judged, and no later rule is tried.
    Fail(SelectFault),
}

impl Rule {
    /// Whether the rule's pattern is found in `name`.
    pub open spec fn matches_name(&self, name: Seq<char>) -> bool {
        matched_texts(self.regex).contains(name)
    }

    /// Whether a file of size `size`, if that is known, is large enough for the
    /// rule. For a rule without a threshold every file is, whatever is known of
    /// its size.
    pub open spec fn large_enough(&self, size: Option<u64>) -> Result<bool, SelectFault> {
        match self.min_size {
            None => Ok(true),
            Some(text) => match size {
                None => Err(SelectFault::SizeUnknown),
                Some(bytes) => match exceeds(bytes, text@) {
                    Ok(larger) => Ok(larger),
                    Err(fault) => Err(SelectFault::Threshold(fault)),
                },
            },
        }
    }

    /// What the rule says of the file `name` of size `size`.
    pub open spec fn verdict(&self, name: Seq<char>, size: Option<u64>) -> Verdict {
        if !self.matches_name(name) {
            Verdict::Pass
        } else {
            match self.large_enough(size) {
                Err(fault) => Verdict::Fail(fault),
                Ok(false) => Verdict::Pass,
                Ok(true) => if self.actions@.len() == 0 {
                    Verdict::Pass
                } else {
                    Verdict::Take
                },
            }
        }
    }
}

/// Whether the rules from index `from` up to, and without, index `to` all pass
/// on the file.
pub open spec fn all_pass(
    rules: Seq<Rule>,
    name: Seq<char>,
    size: Option<u64>,
    from: int,
    to: int,
) -> bool {
    forall|j: int| from <= j < to ==> (#[trigger] rules[j]).verdict(name, size) is Pass
}

/// The choice among `rules` for the file `name` of size `size`: the index of
/// the first rule that does not pass, if it applies; the fault, if it cannot be
/// judged; nothing, if every rule passes.
pub open spec fn selection(rules: Seq<Rule>, name: Seq<char>, size: Option<u64>) -> Result<
    Option<int>,
    SelectFault,
> {
    scan(rules, name, size, 0)
}

/// The choice among the rules from index `from` on.
pub open spec fn scan(rules: Seq<Rule>, name: Seq<char>, size: Option<u64>, from: int) -> Result<
    Option<int>,
    SelectFault,
>
    decreases rules.len() - from,
{
    if from < 0 || from >= rules.len() {
        Ok(None)
    } else {
        match rules[from].verdict(name, size) {
            Verdict::Take => Ok(Some(from)),
            Verdict::Fail(fault) => Err(fault),
            Verdict::Pass => scan(rules, name, size, from + 1),
        }
    }
}

/// Whether `r` is the choice `choice`.
pub open spec fn is_selection(
    r: Result<Option<usize>, SelectError>,
    choice: Result<Option<int>, SelectFault>,
) -> bool {
    match choice {
        Ok(None) => r matches Ok(None),
        Ok(Some(i)) => r matches Ok(Some(k)) && k == i,
        Err(fault) => r matches Err(e) && e@ == fault,
    }
}

/// Chooses among `rules` the rule for the file `name`. `size` is the file's
/// size in bytes, or nothing where it could not be had; it is looked at only
/// when a rule whose pattern is found in the name has a threshold.
pub fn select(rules: &Vec<Rule>, size_matcher: &SizeMatcher, name: &str, size: Option<u64>) -> (r:
    Result<Option<usize>, SelectError>)
    ensures
        is_selection(r, selection(rules@, name@, size)),
        r matches Ok(Some(i)) ==> i < rules@.len() && rules@[i as int].actions@.len() > 0,
{
    let mut i: usize = 0;
    while i < rules.len()
        invariant
            i <= rules@.len(),
            scan(rules@, name@, size, 0) == scan(rules@, name@, size, i as int),
        decreases rules@.len() - i,
    {
        let rule = &rules[i];
        if found_in(&rule.regex, name) {
            let passes = match &rule.min_size {
                None => true,
                Some(text) => match size {
                    None => {
                        return Err(SelectError::SizeUnknown);
                    },
                    Some(bytes) => match size_matcher.is_gteq(bytes, text.as_str()) {
                        Ok(larger) => larger,
                        Err(e) => {
                            return Err(SelectError::Threshold(e));
                        },
                    },
                },
            };
            if passes && rule.actions.len() > 0 {
                return Ok(Some(i));
            }
        }
        i = i + 1;
    }
    Ok(None)
}

/// The choice from `from` on is the verdict of the first rule, from `from` on,
/// that does not pass.
pub proof fn lemma_scan_is_first(rules: Seq<Rule>, name: Seq<char>, size: Option<u64>, from: int)
    requires
        0 <= from <= rules.len(),
    ensures
        match scan(rules, name, size, from) {
            Ok(Some(k)) => {
                &&& from <= k < rules.len()
                &&& rules[k].verdict(name, size) is Take
                &&& all_pass(rules, name, size, from, k)
            },
            Ok(None) => all_pass(rules, name, size, from, rules.len() as int),
            Err(fault) => exists|k: int|
                {
                    &&& from <= k < rules.len()
                    &&& #[trigger] rules[k].verdict(name, size) == Verdict::Fail(fault)
                    &&& all_pass(rules, name, size, from, k)
                },
        },
    decreases rules.len() - from,
{
    if from < rules.len() && rules[from].verdict(name, size) is Pass {
        lemma_scan_is_first(rules, name, size, from + 1);
    }
}

/// The rule chosen is the first that does not pass, and it applies; no rule is
/// chosen exactly when all pass; and the choice fails exactly as the first rule
/// that does not pass fails.
pub proof fn law_selection_is_first(rules: Seq<Rule>, name: Seq<char>, size: Option<u64>)
    ensures
        match selection(rules, name, size) {
            Ok(Some(k)) => {
                &&& 0 <= k < rules.len()
                &&& rules[k].verdict(name, size) is Take
                &&& all_pass(rules, name, size, 0, k)
            },
            Ok(None) => all_pass(rules, name, size, 0, rules.len() as int),
            Err(fault) => exists|k: int|
                {
                    &&& 0 <= k < rules.len()
                    &&& #[trigger] rules[k].verdict(name, size) == Verdict::Fail(fault)
                    &&& all_pass(rules, name, size, 0, k)
                },
        },
{
    lemma_scan_is_first(rules, name, size, 0);
}

/// Where the pattern of no rule is found in the name of a file, no rule is
/// chosen for it, whatever its size.
pub proof fn law_no_pattern_no_rule(rules: Seq<Rule>, name: Seq<char>, size: Option<u64>)
    requires
        forall|i: int| 0 <= i < rules.len() ==> !(#[trigger] rules[i]).matches_name(name),
    ensures
        selection(rules, name, size) == Ok::<Option<int>, SelectFault>(None),
{
    lemma_scan_is_first(rules, name, size, 0);
}

/// A file that is not larger than the threshold of a rule passes that rule by:
/// the rule is not chosen, and the choice from that rule on is the choice from
/// the next rule on.
pub proof fn law_small_file_skips_rule(rules: Seq<Rule>, name: Seq<char>, bytes: u64, i: int)
    requires
        0 <= i < rules.len(),
        rules[i].min_size matches Some(text) && threshold(text@) matches Ok(limit) && bytes
            <= limit,
    ensures
        rules[i].verdict(name, Some(bytes)) is Pass,
        scan(rules, name, Some(bytes), i) == scan(rules, name, Some(bytes), i + 1),
        selection(rules, name, Some(bytes)) != Ok::<Option<int>, SelectFault>(Some(i)),
{
    lemma_scan_is_first(rules, name, Some(bytes), 0);
}

/// Where a rule applies to a file, no rule declared after it is chosen.
pub proof fn law_first_match_wins(
    rules: Seq<Rule>,
    name: Seq<char>,
    size: Option<u64>,
    earlier: int,
    later: int,
)
    requires
        0 <= earlier < later < rules.len(),
        rules[earlier].verdict(name, size) is Take,
    ensures
        selection(rules, name, size) != Ok::<Option<int>, SelectFault>(Some(later)),
        all_pass(rules, name, size, 0, earlier) ==> selection(rules, name, size) == Ok::<
            Option<int>,
            SelectFault,
        >(Some(earlier)),
{
    lemma_scan_is_first(rules, name, size, 0);
}

} // verus!
