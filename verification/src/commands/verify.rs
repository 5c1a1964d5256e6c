//! Checking the whole chain: the page and the three streams, each tried a few times.

use crate::commands::open::{
    probe_step, probe_verdict, Checked, ProbeStep, CHANNEL_ATTEMPTS, PAGE_ATTEMPTS,
};
use vstd::prelude::*;

verus! {

/// What is checked, in this order.
#[derive(Clone, Copy, PartialEq, Eq, Structural, Debug)]
pub enum Target {
    Page,
    Video,
    Audio,
    Input,
}

/// How an attempt went.
#[derive(Clone, Copy, PartialEq, Eq, Structural, Debug)]
pub enum Outcome {
    Reached,
    NotReached,
    /// It cannot be attempted at all.
    Unusable,
}

/// What to do next.
#[derive(Clone, Copy, PartialEq, Eq, Structural, Debug)]
pub enum VerifyStep {
    /// Attempt this after so many seconds.
    Probe { target: Target, delay: u64 },
    Done(Checked),
}

/// A check under way: what is attempted, for the how many-th time, and what answered so far.
#[derive(Clone, Copy, PartialEq, Eq, Structural, Debug)]
pub struct Verification {
    pub target: Target,
    pub attempt: u32,
    pub checked: Checked,
}

/// The number of attempts at a target.
pub open spec fn attempts_for(t: Target) -> u32 {
    if t == Target::Page {
        PAGE_ATTEMPTS
    } else {
        CHANNEL_ATTEMPTS
    }
}

/// What is checked after a target.
pub open spec fn target_after(t: Target) -> Option<Target> {
    match t {
        Target::Page => Some(Target::Video),
        Target::Video => Some(Target::Audio),
        Target::Audio => Some(Target::Input),
        Target::Input => None,
    }
}

/// Whether a target answered.
pub open spec fn answered_at(c: Checked, t: Target) -> bool {
    match t {
        Target::Page => c.page,
        Target::Video => c.video,
        Target::Audio => c.audio,
        Target::Input => c.input,
    }
}

/// What answered, with one target more.
pub open spec fn with_answer(c: Checked, t: Target) -> Checked {
    match t {
        Target::Page => Checked { page: true, ..c },
        Target::Video => Checked { video: true, ..c },
        Target::Audio => Checked { audio: true, ..c },
        Target::Input => Checked { input: true, ..c },
    }
}

/// A check that nothing was attempted of.
pub open spec fn fresh() -> Verification {
    Verification {
        target: Target::Page,
        attempt: 0,
        checked: Checked { page: false, video: false, audio: false, input: false },
    }
}

/// The check after what it was about is settled.
pub open spec fn settled(v: Verification, answered: bool) -> Verification {
    let checked = if answered {
        with_answer(v.checked, v.target)
    } else {
        v.checked
    };
    match target_after(v.target) {
        Some(t) => Verification { target: t, attempt: 0, checked },
        None => Verification { checked, ..v },
    }
}

/// What to do once what it was about is settled.
pub open spec fn step_when_settled(v: Verification, answered: bool) -> VerifyStep {
    match target_after(v.target) {
        Some(t) => VerifyStep::Probe { target: t, delay: 0 },
        None => VerifyStep::Done(settled(v, answered).checked),
    }
}

/// The check after an attempt, and what to do next.
pub open spec fn after_attempt(v: Verification, o: Outcome) -> (Verification, VerifyStep) {
    if o == Outcome::Unusable {
        (settled(v, false), step_when_settled(v, false))
    } else {
        match probe_verdict(v.attempt, attempts_for(v.target), o == Outcome::Reached) {
            ProbeStep::Passed => (settled(v, true), step_when_settled(v, true)),
            ProbeStep::Failed => (settled(v, false), step_when_settled(v, false)),
            ProbeStep::Retry { delay } => (
                Verification { attempt: (v.attempt + 1) as u32, ..v },
                VerifyStep::Probe { target: v.target, delay },
            ),
        }
    }
}

impl Verification {
    /// Starts a check with the page.
    pub fn new() -> (r: (Verification, VerifyStep))
        ensures
            r.0 == fresh(),
            r.1 == (VerifyStep::Probe { target: Target::Page, delay: 0 }),
    {
        (
            Verification {
                target: Target::Page,
                attempt: 0,
                checked: Checked { page: false, video: false, audio: false, input: false },
            },
            VerifyStep::Probe { target: Target::Page, delay: 0 },
        )
    }

    /// Goes on to the next target.
    fn settle(&mut self, answered: bool) -> (r: VerifyStep)
        ensures
            *final(self) == settled(*old(self), answered),
            r == step_when_settled(*old(self), answered),
    {
        if answered {
            match self.target {
                Target::Page => {
                    self.checked.page = true;
                },
                Target::Video => {
                    self.checked.video = true;
                },
                Target::Audio => {
                    self.checked.audio = true;
                },
                Target::Input => {
                    self.checked.input = true;
                },
            }
        }
        let next = match self.target {
            Target::Page => Target::Video,
            Target::Video => Target::Audio,
            Target::Audio => Target::Input,
            Target::Input => {
                return VerifyStep::Done(self.checked);
            },
        };
        self.target = next;
        self.attempt = 0;
        VerifyStep::Probe { target: next, delay: 0 }
    }

    /// Takes note of how an attempt went, and says what to do next.
    pub fn report(&mut self, outcome: Outcome) -> (r: VerifyStep)
        ensures
            (*final(self), r) == after_attempt(*old(self), outcome),
    {
        if outcome == Outcome::Unusable {
            return self.settle(false);
        }
        let limit: u32 = if self.target == Target::Page {
            PAGE_ATTEMPTS
        } else {
            CHANNEL_ATTEMPTS
        };
        match probe_step(self.attempt, limit, outcome == Outcome::Reached) {
            ProbeStep::Passed => self.settle(true),
            ProbeStep::Failed => self.settle(false),
            ProbeStep::Retry { delay } => {
                self.attempt = self.attempt + 1;
                VerifyStep::Probe { target: self.target, delay }
            },
        }
    }
}

/// The most attempts that are left.
pub open spec fn attempts_left(v: Verification) -> int {
    let here = if v.attempt < attempts_for(v.target) {
        attempts_for(v.target) - v.attempt
    } else {
        1
    };
    let later = match v.target {
        Target::Page => 3 * CHANNEL_ATTEMPTS,
        Target::Video => 2 * CHANNEL_ATTEMPTS,
        Target::Audio => 1 * CHANNEL_ATTEMPTS,
        Target::Input => 0,
    };
    here + later
}

/// A check comes to an end: every attempt leaves fewer than there were before, or was the
/// last.
pub proof fn law_checks_end(v: Verification, o: Outcome)
    ensures
        ({
            let (next, step) = after_attempt(v, o);
            step is Probe ==> 0 < attempts_left(next) < attempts_left(v)
        }),
{
}

/// What is attempted next is what the check is about, and nothing that answered is attempted
/// again.
pub proof fn law_checks_go_on_in_order(v: Verification, o: Outcome)
    ensures
        ({
            let (next, step) = after_attempt(v, o);
            &&& step matches VerifyStep::Probe { target, .. } ==> target == next.target
            &&& o == Outcome::Reached && step is Probe ==> next.target != v.target
        }),
{
}

/// The check after a run of attempts, and what to do next.
pub open spec fn after_attempts(outcomes: Seq<Outcome>) -> (Verification, VerifyStep)
    decreases outcomes.len(),
{
    if outcomes.len() == 0 {
        (fresh(), VerifyStep::Probe { target: Target::Page, delay: 0 })
    } else {
        after_attempt(after_attempts(outcomes.drop_last()).0, outcomes.last())
    }
}

/// The target that an attempt of a run was about.
pub open spec fn attempted(outcomes: Seq<Outcome>, i: int) -> Target {
    after_attempts(outcomes.take(i)).0.target
}

/// Whether an attempt of a run reached its target.
pub open spec fn reached_in(outcomes: Seq<Outcome>, t: Target, i: int) -> bool {
    0 <= i < outcomes.len() && attempted(outcomes, i) == t && outcomes[i] == Outcome::Reached
}

/// What counts as having answered is exactly what an attempt reached, and nothing else: a
/// check that is done tells the truth about the run.
pub proof fn law_checks_tell_the_truth(outcomes: Seq<Outcome>, t: Target)
    ensures
        answered_at(after_attempts(outcomes).0.checked, t) <==> exists|i: int| #[trigger]
            reached_in(outcomes, t, i),
    decreases outcomes.len(),
{
    if outcomes.len() > 0 {
        let init = outcomes.drop_last();
        let n = outcomes.len() - 1;
        law_checks_tell_the_truth(init, t);
        assert(outcomes.take(n) =~= init);
        assert forall|i: int| 0 <= i < n implies #[trigger] reached_in(outcomes, t, i)
            == reached_in(init, t, i) by {
            assert(outcomes.take(i) =~= init.take(i));
        }
        let now = after_attempts(outcomes).0.checked;
        if answered_at(now, t) {
            if answered_at(after_attempts(init).0.checked, t) {
                let i = choose|i: int| #[trigger] reached_in(init, t, i);
                assert(reached_in(outcomes, t, i));
            } else {
                assert(reached_in(outcomes, t, n));
            }
        }
        if exists|i: int| #[trigger] reached_in(outcomes, t, i) {
            let i = choose|i: int| #[trigger] reached_in(outcomes, t, i);
            if i < n {
                assert(reached_in(init, t, i));
            }
        }
    }
}

/// A check goes through the page and then the video, the audio and the input, and is done
/// after the last. What does not answer is tried five times, if it is the page, or six; what
/// answered, cannot be tried, or was tried so often is left for the next.
pub proof fn law_checks_try_everything(v: Verification, o: Outcome)
    ensures
        ({
            let (next, step) = after_attempt(v, o);
            let limit: int = if v.target == Target::Page {
                5
            } else {
                6
            };
            let again = o == Outcome::NotReached && v.attempt + 1 < limit;
            &&& again ==> next.target == v.target && next.attempt == v.attempt + 1 && next.checked
                == v.checked && step is Probe
            &&& !again && v.target == Target::Input ==> step == VerifyStep::Done(next.checked)
            &&& !again && v.target != Target::Input ==> next.attempt == 0 && step == (
            VerifyStep::Probe {
                target: match v.target {
                    Target::Page => Target::Video,
                    Target::Video => Target::Audio,
                    _ => Target::Input,
                },
                delay: 0,
            }) && (step matches VerifyStep::Probe { target, .. } && next.target == target)
        }),
{
}

/// An attempt that reaches its target is noted for that target, and no attempt changes what is
/// noted for another.
pub proof fn law_answers_are_noted(v: Verification, o: Outcome)
    ensures
        ({
            let (next, step) = after_attempt(v, o);
            let hit = |t: Target| o == Outcome::Reached && v.target == t;
            &&& next.checked.page == (v.checked.page || hit(Target::Page))
            &&& next.checked.video == (v.checked.video || hit(Target::Video))
            &&& next.checked.audio == (v.checked.audio || hit(Target::Audio))
            &&& next.checked.input == (v.checked.input || hit(Target::Input))
        }),
{
}

/// A target that does not answer is tried again after two, four, and then eight seconds.
pub proof fn law_attempts_are_spaced(v: Verification)
    requires
        v.attempt + 1 < 5,
    ensures
        after_attempt(v, Outcome::NotReached).1 == (VerifyStep::Probe {
            target: v.target,
            delay: if v.attempt == 0 {
                2
            } else if v.attempt == 1 {
                4
            } else {
                8
            },
        }),
{
}

/// A check starts with the page, with no attempt made and nothing found to answer.
pub proof fn law_checks_start_from_nothing()
    ensures
        fresh().target == Target::Page,
        fresh().attempt == 0,
        !fresh().checked.page && !fresh().checked.video && !fresh().checked.audio
            && !fresh().checked.input,
{
}

} // verus!
