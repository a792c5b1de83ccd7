//! The classification loop as a state machine: the driver asks which
//! candidate to show, shows it, and hands back the operator's answer; the
//! session says what to record.

use vstd::prelude::*;
use crate::config::{Config, menu_label};
use crate::dispatch::{dispatch, effect_of};
use crate::sink::{Effect, Out};

verus! {

/// What the operator did at one prompt.
#[derive(Clone, Copy, Debug, PartialEq, Eq, Structural)]
pub enum Answer {
    /// Confirmed the menu entry at this position (0 is left, 1 is right).
    Chose(usize),
    /// Cancelled the prompt.
    Cancelled,
}

pub open spec fn cancel_text() -> Seq<char> {
    "No input\n"@
}

pub open spec fn gui_text() -> Seq<char> {
    "GUI not implemented yet, check back soon!\n"@
}

/// The effect of answering the prompt for `cand` with `a`.
pub open spec fn step_out(cfg: Config, cand: Seq<char>, a: Answer) -> Out {
    match a {
        Answer::Chose(i) => effect_of(cfg, cand, menu_label(cfg, i as int)),
        Answer::Cancelled => Out::Print { text: cancel_text() },
    }
}

/// The effects of a run in which the prompt for `cands[j]` got `answers[j]`.
pub open spec fn run(cfg: Config, cands: Seq<Seq<char>>, answers: Seq<Answer>) -> Seq<Out> {
    Seq::new(answers.len(), |j: int| step_out(cfg, cands[j], answers[j]))
}

/// Whether a run that got `answers` for `cands` asks nothing more: every
/// candidate was answered, or the last answer was a cancellation.
pub open spec fn is_finished(cands: Seq<Seq<char>>, answers: Seq<Answer>) -> bool {
    answers.len() >= cands.len() || (answers.len() > 0 && answers.last() is Cancelled)
}

/// Answers that a run can get: at most one per candidate, each a menu
/// position, except that the last may be a cancellation.
pub open spec fn valid_answers(cands: Seq<Seq<char>>, answers: Seq<Answer>) -> bool {
    &&& answers.len() <= cands.len()
    &&& forall|j: int|
        0 <= j < answers.len() ==> match #[trigger] answers[j] {
            Answer::Chose(i) => i < 2,
            Answer::Cancelled => j == answers.len() - 1,
        }
}

pub open spec fn views(v: Seq<String>) -> Seq<Seq<char>> {
    v.map_values(|s: String| s@)
}

/// A classification run in progress.
pub struct Session {
    config: Config,
    candidates: Vec<String>,
    next: usize,
    stopped: bool,
    answers: Ghost<Seq<Answer>>,
}

impl Session {
    pub closed spec fn config(&self) -> Config {
        self.config
    }

    pub closed spec fn candidates(&self) -> Seq<Seq<char>> {
        views(self.candidates@)
    }

    /// The answers received so far, in order.
    pub closed spec fn answers(&self) -> Seq<Answer> {
        self.answers@
    }

    pub closed spec fn wf(&self) -> bool {
        &&& self.next == self.answers@.len()
        &&& valid_answers(views(self.candidates@), self.answers@)
        &&& self.stopped == (self.answers@.len() > 0 && self.answers@.last() is Cancelled)
    }

    /// Starts a run over `candidates`, with no answer yet.
    pub fn new(config: Config, candidates: Vec<String>) -> (r: Session)
        ensures
            r.wf(),
            r.config() == config,
            r.candidates() == views(candidates@),
            r.answers() == Seq::<Answer>::empty(),
    {
        Session { config, candidates, next: 0, stopped: false, answers: Ghost(Seq::empty()) }
    }

    /// The candidate to show next, or `None` when the run is over.
    pub fn pending(&self) -> (r: Option<String>)
        requires
            self.wf(),
        ensures
            r is None <==> is_finished(self.candidates(), self.answers()),
            r matches Some(c) ==> c@ == self.candidates()[self.answers().len() as int],
    {
        if self.stopped || self.next >= self.candidates.len() {
            None
        } else {
            Some(self.candidates[self.next].clone())
        }
    }

    /// The menu offered at every prompt: left label, then right label.
    pub fn labels(&self) -> (r: Vec<String>)
        ensures
            r@.len() == 2,
            r@[0]@ == self.config().left_label@,
            r@[1]@ == self.config().right_label@,
    {
        self.config.labels()
    }

    /// Takes the operator's answer to the pending prompt and returns what to
    /// record for it.
    pub fn answer(&mut self, a: Answer) -> (r: Effect)
        requires
            old(self).wf(),
            !is_finished(old(self).candidates(), old(self).answers()),
            a matches Answer::Chose(i) ==> i < 2,
        ensures
            final(self).wf(),
            final(self).config() == old(self).config(),
            final(self).candidates() == old(self).candidates(),
            final(self).answers() == old(self).answers().push(a),
            r@ == step_out(
                old(self).config(),
                old(self).candidates()[old(self).answers().len() as int],
                a,
            ),
    {
        let ghost prev = self.answers@;
        assert(views(self.candidates@).len() == self.candidates@.len());
        let count = self.candidates.len();
        assert(self.next < count);
        let following = self.next + 1;
        let r = match a {
            Answer::Chose(i) => {
                let labels = self.config.labels();
                dispatch(&self.config, &self.candidates[self.next], &labels[i])
            },
            Answer::Cancelled => {
                self.stopped = true;
                let text = String::from_str("No input\n");
                Effect::Print { text }
            },
        };
        self.next = following;
        self.answers = Ghost(prev.push(a));
        proof {
            assert(self.answers@.last() == a);
            assert forall|j: int| 0 <= j < self.answers@.len() implies match #[trigger] self.answers@[j] {
                Answer::Chose(i) => i < 2,
                Answer::Cancelled => j == self.answers@.len() - 1,
            } by {
                if j < prev.len() {
                    assert(self.answers@[j] == prev[j]);
                }
            }
        }
        r
    }
}

/// What to do before reading any candidate: with the graphical front end
/// selected, print its notice and stop; otherwise nothing.
pub fn opening(cfg: &Config) -> (r: Option<Effect>)
    ensures
        r is Some <==> cfg.use_gui,
        r matches Some(e) ==> e@ == (Out::Print { text: gui_text() }),
{
    if cfg.use_gui {
        Some(Effect::Print { text: String::from_str("GUI not implemented yet, check back soon!\n") })
    } else {
        None
    }
}

} // verus!
