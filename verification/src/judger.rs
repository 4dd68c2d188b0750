//! The judger's state between refreshes: the number being edited, the last
//! verdict and whether that verdict still belongs to the number on screen.

use vstd::prelude::*;
use vstd::string::*;
use crate::verdict::{judge, lemma_verdict_classes, verdict_of, Verdict, VerdictModel};

verus! {

/// The number a fresh judger offers for editing.
pub const DEFAULT_INPUT: i64 = 1024;

/// The judger's state as a mathematical value.
pub struct JudgmentState {
    /// The number currently in the input control.
    pub input: int,
    /// The number that the last judgment was made on.
    pub last_judged_input: int,
    /// The result of the last judgment.
    pub verdict: VerdictModel,
    /// Whether a judgment was made and the input has not changed since.
    pub has_judged: bool,
    /// The address shown in the footer.
    pub project_address: Seq<char>,
}

impl JudgmentState {
    /// The stored verdict is none or that of the last judged input, and the
    /// flag is only up over a real verdict on the number in the input
    /// control.
    pub open spec fn consistent(self) -> bool {
        &&& self.verdict is Unjudged || self.verdict == verdict_of(self.last_judged_input)
        &&& self.has_judged ==> self.verdict == verdict_of(self.last_judged_input)
        &&& self.has_judged ==> self.input == self.last_judged_input
    }

    /// The state after the input control was set to `value`: the flag goes
    /// down when `value` is not the last judged input.
    pub open spec fn edited(self, value: int) -> JudgmentState {
        JudgmentState {
            input: value,
            has_judged: self.has_judged && value == self.last_judged_input,
            ..self
        }
    }

    /// The state after a refresh compared the input with the last judged one.
    pub open spec fn refreshed(self) -> JudgmentState {
        JudgmentState {
            has_judged: self.has_judged && self.input == self.last_judged_input,
            ..self
        }
    }

    /// The state after the current input was judged.
    pub open spec fn judged(self) -> JudgmentState {
        JudgmentState {
            last_judged_input: self.input,
            verdict: verdict_of(self.input),
            has_judged: true,
            ..self
        }
    }

    /// The state after one frame: a refresh, the frame's edit of the input
    /// and, when asked for, a judgment.
    pub open spec fn updated(self, input: int, judge_requested: bool) -> JudgmentState {
        let edited = self.refreshed().edited(input);
        if judge_requested {
            edited.judged()
        } else {
            edited
        }
    }

    /// What the display shows: the stored verdict while the flag is up, else
    /// nothing.
    pub open spec fn shown(self) -> VerdictModel {
        if self.has_judged {
            self.verdict
        } else {
            VerdictModel::Unjudged
        }
    }
}

/// Every step keeps a consistent state consistent.
pub proof fn lemma_consistency_kept(state: JudgmentState, value: int, judge_requested: bool)
    requires
        state.consistent(),
    ensures
        state.edited(value).consistent(),
        state.refreshed().consistent(),
        state.judged().consistent(),
        state.updated(value, judge_requested).consistent(),
{
}

/// While the flag is up the input is the last judged one, so a refresh finds
/// nothing to clear; and a frame ends as if the input had been compared once
/// more after its edit.
pub proof fn lemma_flag_follows_input(state: JudgmentState, value: int, judge_requested: bool)
    ensures
        state.consistent() ==> state.refreshed() == state,
        state.edited(value).refreshed() == state.edited(value),
        state.edited(value).has_judged ==> value == state.last_judged_input,
        state.updated(value, judge_requested).has_judged ==> state.updated(
            value,
            judge_requested,
        ).input == state.updated(value, judge_requested).last_judged_input,
        state.updated(value, false) == state.refreshed().edited(value).refreshed(),
        state.updated(value, true) == state.refreshed().edited(value).refreshed().judged(),
{
}

/// The display shows the prompt exactly when the flag is down, and never a
/// verdict on another number than the one in the input control: it shows
/// nothing or the verdict of the current input, and right after a judgment it
/// shows that verdict.
pub proof fn lemma_shown_is_current(state: JudgmentState)
    requires
        state.consistent(),
    ensures
        state.shown() is Unjudged <==> !state.has_judged,
        state.shown() is Unjudged || state.shown() == verdict_of(state.input),
        state.judged().shown() == verdict_of(state.input),
        state.judged().shown() !is Unjudged,
{
    lemma_verdict_classes(state.input);
    lemma_verdict_classes(state.last_judged_input);
}

/// Setting the input to another number than the last judged one clears the
/// flag and empties the display at once, by an edit alone or within a frame.
/// In particular an edit that follows a judgment does.
pub proof fn lemma_edit_makes_stale(state: JudgmentState, value: int)
    requires
        state.consistent(),
    ensures
        value != state.last_judged_input ==> {
            &&& !state.edited(value).has_judged
            &&& state.edited(value).shown() is Unjudged
            &&& !state.updated(value, false).has_judged
            &&& state.updated(value, false).shown() is Unjudged
        },
        value != state.input ==> {
            &&& !state.judged().edited(value).has_judged
            &&& state.judged().edited(value).shown() is Unjudged
            &&& !state.judged().updated(value, false).has_judged
            &&& state.judged().updated(value, false).shown() is Unjudged
        },
{
}

/// A cleared flag stays cleared, and the display empty, through every edit
/// and refresh; only a judgment sets the flag again.
pub proof fn lemma_stale_until_judged(state: JudgmentState, value: int)
    requires
        state.consistent(),
        !state.has_judged,
    ensures
        state.shown() is Unjudged,
        !state.edited(value).has_judged,
        !state.refreshed().has_judged,
        !state.updated(value, false).has_judged,
        state.updated(value, false).shown() is Unjudged,
        state.judged().has_judged,
        state.updated(value, true).has_judged,
        state.updated(value, true).shown() == verdict_of(value),
{
}

/// Holds the number being edited and the last verdict.
pub struct PrimeNumberJudger {
    input_number: i64,
    previous_input: i64,
    verdict: Verdict,
    has_judged: bool,
    project_address: String,
}

impl View for PrimeNumberJudger {
    type V = JudgmentState;

    closed spec fn view(&self) -> JudgmentState {
        JudgmentState {
            input: self.input_number as int,
            last_judged_input: self.previous_input as int,
            verdict: self.verdict@,
            has_judged: self.has_judged,
            project_address: self.project_address@,
        }
    }
}

impl Default for PrimeNumberJudger {
    fn default() -> (judger: Self)
        ensures
            judger@ == (JudgmentState {
                input: DEFAULT_INPUT as int,
                last_judged_input: 0,
                verdict: VerdictModel::Unjudged,
                has_judged: false,
                project_address: "https://github.com/Daihongyi/prime-number-judger"@,
            }),
            judger@.consistent(),
    {
        PrimeNumberJudger {
            input_number: DEFAULT_INPUT,
            previous_input: 0,
            verdict: Verdict::Unjudged,
            has_judged: false,
            project_address: "https://github.com/Daihongyi/prime-number-judger".to_owned(),
        }
    }
}

impl PrimeNumberJudger {
    #[verifier::type_invariant]
    spec fn well_formed(self) -> bool {
        self@.consistent()
    }

    /// The number currently in the input control.
    pub fn input(&self) -> (value: i64)
        ensures
            value == self@.input,
    {
        self.input_number
    }

    /// The number that the last judgment was made on.
    pub fn previous_input(&self) -> (value: i64)
        ensures
            value == self@.last_judged_input,
    {
        self.previous_input
    }

    /// Whether a judgment was made and the input has not changed since.
    pub fn has_judged(&self) -> (flag: bool)
        ensures
            flag == self@.has_judged,
            self@.consistent(),
    {
        proof {
            use_type_invariant(self);
        }
        self.has_judged
    }

    /// The address shown in the footer.
    pub fn project_address(&self) -> (address: &str)
        ensures
            address@ == self@.project_address,
    {
        self.project_address.as_str()
    }

    /// Puts `value` in the input control. The stored verdict stays as it is;
    /// the flag goes down when `value` is not the last judged input.
    pub fn set_input(&mut self, value: i64)
        ensures
            final(self)@ == old(self)@.edited(value as int),
            final(self)@.consistent(),
    {
        proof {
            use_type_invariant(&*self);
        }
        if value != self.previous_input {
            self.has_judged = false;
        }
        self.input_number = value;
    }

    /// Compares the input with the last judged one and clears the flag when
    /// they differ.
    pub fn refresh(&mut self)
        ensures
            final(self)@ == old(self)@.refreshed(),
            final(self)@.consistent(),
    {
        proof {
            use_type_invariant(&*self);
        }
        if self.input_number != self.previous_input {
            self.has_judged = false;
        }
    }

    /// Judges the current input and stores the verdict.
    pub fn judge(&mut self)
        ensures
            final(self)@ == old(self)@.judged(),
            final(self)@.consistent(),
    {
        proof {
            use_type_invariant(&*self);
        }
        self.has_judged = false;
        self.verdict = Verdict::Unjudged;
        let verdict = judge(self.input_number);
        self.previous_input = self.input_number;
        self.verdict = verdict;
        self.has_judged = true;
    }

    /// The verdict to display: the stored one while the flag is up, which it
    /// only is over the verdict of the current input; else `Unjudged`.
    pub fn shown(&self) -> (verdict: Verdict)
        ensures
            verdict@ == self@.shown(),
            verdict@ is Unjudged <==> !self@.has_judged,
            verdict@ is Unjudged || verdict@ == verdict_of(self@.input),
            self@.consistent(),
    {
        proof {
            use_type_invariant(self);
            lemma_shown_is_current(self@);
        }
        if self.has_judged {
            self.verdict.clone()
        } else {
            Verdict::Unjudged
        }
    }

    /// One frame of the front end: refreshes, takes the frame's value of the
    /// input control, judges when asked to, and returns what to display.
    pub fn update(&mut self, input: i64, judge_requested: bool) -> (verdict: Verdict)
        ensures
            final(self)@ == old(self)@.updated(input as int, judge_requested),
            final(self)@.consistent(),
            verdict@ == final(self)@.shown(),
            verdict@ is Unjudged <==> !final(self)@.has_judged,
            verdict@ is Unjudged || verdict@ == verdict_of(input as int),
    {
        self.refresh();
        self.set_input(input);
        if judge_requested {
            self.judge();
        }
        self.shown()
    }
}

} // verus!
