//! Waiting for a state.

use crate::text::{opt_str, same, texts};
use vstd::prelude::*;

verus! {

/// How often to ask, and when to give up, in milliseconds.
#[derive(Clone, Copy, PartialEq, Eq, Structural, Debug)]
pub struct PollOpts {
    pub interval: u64,
    pub timeout: u64,
}

impl Default for PollOpts {
    fn default() -> (r: PollOpts)
        ensures
            r == (PollOpts { interval: 10_000, timeout: 900_000 }),
    {
        PollOpts { interval: 10_000, timeout: 900_000 }
    }
}

/// What to do about a state that was just asked for.
#[derive(Clone, Copy, PartialEq, Eq, Structural, Debug)]
pub enum PollStep {
    /// It is one of those waited for.
    Reached,
    /// Time is up.
    TimedOut,
    /// Ask again after the interval.
    Wait,
}

/// What to do about a state, `elapsed` milliseconds after the first question. A state that is
/// waited for counts even when time is up.
pub open spec fn poll_verdict(
    state: Seq<char>,
    terminal: Seq<Seq<char>>,
    elapsed: u64,
    opts: PollOpts,
) -> PollStep {
    if terminal.contains(state) {
        PollStep::Reached
    } else if elapsed >= opts.timeout {
        PollStep::TimedOut
    } else {
        PollStep::Wait
    }
}

/// Whether a text is among others.
pub fn is_one_of(text: &str, list: &[&str]) -> (r: bool)
    ensures
        r == texts(list@).contains(text@),
{
    let n: usize = list.len();
    let mut i: usize = 0;
    while i < n
        invariant
            n == list@.len(),
            i <= n,
            forall|k: int| 0 <= k < i ==> texts(list@)[k] != text@,
        decreases n - i,
    {
        if same(list[i], text) {
            assert(texts(list@)[i as int] == text@);
            return true;
        }
        i += 1;
    }
    false
}

/// What to do about a state.
pub fn poll_step(state: &str, terminal: &[&str], elapsed: u64, opts: PollOpts) -> (r: PollStep)
    ensures
        r == poll_verdict(state@, texts(terminal@), elapsed, opts),
{
    if is_one_of(state, terminal) {
        PollStep::Reached
    } else if elapsed >= opts.timeout {
        PollStep::TimedOut
    } else {
        PollStep::Wait
    }
}

/// Whether a state is news.
pub fn changed(last: Option<&str>, state: &str) -> (r: bool)
    ensures
        r == (opt_str(last) != Some(state@)),
{
    match last {
        Some(l) => !same(l, state),
        None => true,
    }
}

/// One answer: the state, and when it came.
pub ghost struct Answer {
    pub state: Seq<char>,
    pub elapsed: u64,
}

/// Where waiting ends over a run of answers: the position of the answer that ended it, and
/// whether it was one waited for. None where the run ends first.
pub open spec fn wait_end(
    answers: Seq<Answer>,
    terminal: Seq<Seq<char>>,
    opts: PollOpts,
) -> Option<(int, bool)>
    decreases answers.len(),
{
    if answers.len() == 0 {
        None
    } else {
        match poll_verdict(answers[0].state, terminal, answers[0].elapsed, opts) {
            PollStep::Reached => Some((0, true)),
            PollStep::TimedOut => Some((0, false)),
            PollStep::Wait => match wait_end(answers.skip(1), terminal, opts) {
                Some((i, reached)) => Some((i + 1, reached)),
                None => None,
            },
        }
    }
}

/// Waiting ends at the first answer that is waited for, or with the first that comes when
/// time is up, whichever is earlier; and what it ends with is one of the states waited for
/// unless time was up.
pub proof fn law_waiting_ends_at_the_first(
    answers: Seq<Answer>,
    terminal: Seq<Seq<char>>,
    opts: PollOpts,
)
    ensures
        match wait_end(answers, terminal, opts) {
            Some((i, reached)) => {
                &&& 0 <= i < answers.len()
                &&& reached == terminal.contains(answers[i].state)
                &&& !reached ==> answers[i].elapsed >= opts.timeout
                &&& forall|k: int|
                    0 <= k < i ==> !terminal.contains((#[trigger] answers[k]).state)
                        && answers[k].elapsed < opts.timeout
            },
            None => forall|k: int|
                0 <= k < answers.len() ==> !terminal.contains((#[trigger] answers[k]).state)
                    && answers[k].elapsed < opts.timeout,
        },
    decreases answers.len(),
{
    if answers.len() > 0 && poll_verdict(answers[0].state, terminal, answers[0].elapsed, opts)
        == PollStep::Wait {
        let rest = answers.skip(1);
        law_waiting_ends_at_the_first(rest, terminal, opts);
        assert forall|k: int| 1 <= k < answers.len() implies rest[k - 1] == #[trigger] answers[k] by {
        }
    }
}

} // verus!
