//! What holds of whole runs: where each decision lands, in which order, and
//! that nothing already written is ever lost.

use vstd::prelude::*;
use crate::config::{Config, Side, menu_label, side_of, sink_of, opt_view};
use crate::dispatch::decision_text;
use crate::session::{Answer, run, cancel_text, valid_answers, is_finished};
use crate::sink::{Outputs, Out, apply_all, content, line};

verus! {

/// The file that an answer's decision is appended to, if any.
pub open spec fn destination(cfg: Config, a: Answer) -> Option<Seq<char>> {
    match a {
        Answer::Chose(i) => match side_of(cfg, menu_label(cfg, i as int)) {
            Some(side) => sink_of(cfg, side),
            None => None,
        },
        Answer::Cancelled => None,
    }
}

/// The text that an answer adds to standard output.
pub open spec fn printed_for(cfg: Config, cand: Seq<char>, a: Answer) -> Seq<char> {
    match a {
        Answer::Chose(i) => if destination(cfg, a) is None {
            decision_text(menu_label(cfg, i as int), cand)
        } else {
            Seq::empty()
        },
        Answer::Cancelled => cancel_text(),
    }
}

/// The lines of the candidates whose decisions go to the file `p`, in
/// candidate order.
pub open spec fn routed_lines(
    cfg: Config,
    cands: Seq<Seq<char>>,
    answers: Seq<Answer>,
    p: Seq<char>,
) -> Seq<char>
    decreases answers.len(),
{
    if answers.len() == 0 {
        Seq::empty()
    } else {
        let k = answers.len() - 1;
        routed_lines(cfg, cands, answers.drop_last(), p) + if destination(cfg, answers[k]) == Some(p) {
            line(cands[k])
        } else {
            Seq::empty()
        }
    }
}

/// Everything a run writes to standard output, in candidate order.
pub open spec fn printed_lines(cfg: Config, cands: Seq<Seq<char>>, answers: Seq<Answer>) -> Seq<char>
    decreases answers.len(),
{
    if answers.len() == 0 {
        Seq::empty()
    } else {
        let k = answers.len() - 1;
        printed_lines(cfg, cands, answers.drop_last()) + printed_for(cfg, cands[k], answers[k])
    }
}

/// The lines of all confirmed candidates, in candidate order.
pub open spec fn confirmed_lines(cands: Seq<Seq<char>>, answers: Seq<Answer>) -> Seq<char>
    decreases answers.len(),
{
    if answers.len() == 0 {
        Seq::empty()
    } else {
        let k = answers.len() - 1;
        confirmed_lines(cands, answers.drop_last()) + if answers[k] is Chose {
            line(cands[k])
        } else {
            Seq::empty()
        }
    }
}

proof fn lemma_run_drop_last(cfg: Config, cands: Seq<Seq<char>>, answers: Seq<Answer>)
    requires
        answers.len() > 0,
    ensures
        run(cfg, cands, answers).drop_last() == run(cfg, cands, answers.drop_last()),
{
    assert(run(cfg, cands, answers).drop_last() =~= run(cfg, cands, answers.drop_last()));
}

/// Every file receives exactly the lines of the candidates routed to it,
/// in candidate order, after what it held before; standard output likewise
/// receives the printed records in candidate order; and a file comes to
/// exist only when some decision is routed to it.
pub proof fn law_outputs_follow_candidate_order(
    cfg: Config,
    cands: Seq<Seq<char>>,
    answers: Seq<Answer>,
    w: Outputs,
)
    requires
        answers.len() <= cands.len(),
    ensures
        forall|p: Seq<char>| #[trigger]
            content(apply_all(w, run(cfg, cands, answers)), p) == content(w, p) + routed_lines(
                cfg,
                cands,
                answers,
                p,
            ),
        apply_all(w, run(cfg, cands, answers)).stdout == w.stdout + printed_lines(
            cfg,
            cands,
            answers,
        ),
        forall|p: Seq<char>| #[trigger]
            apply_all(w, run(cfg, cands, answers)).files.dom().contains(p) <==> (
            w.files.dom().contains(p) || exists|j: int|
                0 <= j < answers.len() && #[trigger] destination(cfg, answers[j]) == Some(p)),
    decreases answers.len(),
{
    if answers.len() > 0 {
        let k = answers.len() - 1;
        let prev = answers.drop_last();
        lemma_run_drop_last(cfg, cands, answers);
        law_outputs_follow_candidate_order(cfg, cands, prev, w);
        let before = apply_all(w, run(cfg, cands, prev));
        let after = apply_all(w, run(cfg, cands, answers));
        assert(after == crate::sink::apply(before, run(cfg, cands, answers)[k]));
        assert forall|p: Seq<char>| #[trigger]
            content(after, p) == content(w, p) + routed_lines(cfg, cands, answers, p) by {
            assert(content(before, p) == content(w, p) + routed_lines(cfg, cands, prev, p));
            assert(content(w, p) + routed_lines(cfg, cands, answers, p) =~= content(w, p)
                + routed_lines(cfg, cands, prev, p) + if destination(cfg, answers[k]) == Some(p) {
                line(cands[k])
            } else {
                Seq::empty()
            });
        }
        assert(after.stdout =~= w.stdout + printed_lines(cfg, cands, answers));
        assert forall|p: Seq<char>| #[trigger] after.files.dom().contains(p) <==> (
        w.files.dom().contains(p) || exists|j: int|
            0 <= j < answers.len() && #[trigger] destination(cfg, answers[j]) == Some(p)) by {
            if after.files.dom().contains(p) && !w.files.dom().contains(p) {
                if before.files.dom().contains(p) {
                    let j = choose|j: int|
                        0 <= j < prev.len() && #[trigger] destination(cfg, prev[j]) == Some(p);
                    assert(destination(cfg, answers[j]) == Some(p));
                } else {
                    assert(destination(cfg, answers[k]) == Some(p));
                }
            }
            if exists|j: int|
                0 <= j < answers.len() && #[trigger] destination(cfg, answers[j]) == Some(p) {
                let j = choose|j: int|
                    0 <= j < answers.len() && #[trigger] destination(cfg, answers[j]) == Some(p);
                if j < k {
                    assert(destination(cfg, prev[j]) == Some(p));
                }
            }
        }
    } else {
        assert(run(cfg, cands, answers) =~= Seq::<Out>::empty());
    }
}

proof fn lemma_unrouted(cfg: Config, cands: Seq<Seq<char>>, answers: Seq<Answer>, p: Seq<char>)
    requires
        forall|j: int| 0 <= j < answers.len() ==> #[trigger] destination(cfg, answers[j]) != Some(p),
    ensures
        routed_lines(cfg, cands, answers, p) == Seq::<char>::empty(),
    decreases answers.len(),
{
    if answers.len() > 0 {
        let prev = answers.drop_last();
        assert forall|j: int| 0 <= j < prev.len() implies #[trigger] destination(cfg, prev[j]) != Some(p) by {
            assert(prev[j] == answers[j]);
        }
        lemma_unrouted(cfg, cands, prev, p);
        assert(destination(cfg, answers[answers.len() - 1]) != Some(p));
        assert(routed_lines(cfg, cands, answers, p) =~= Seq::<char>::empty());
    }
}

proof fn lemma_valid_prefix(cands: Seq<Seq<char>>, answers: Seq<Answer>)
    requires
        valid_answers(cands, answers),
        answers.len() > 0,
        answers.last() is Chose,
    ensures
        valid_answers(cands, answers.drop_last()),
{
    let prev = answers.drop_last();
    assert forall|j: int| 0 <= j < prev.len() implies match #[trigger] prev[j] {
        Answer::Chose(i) => i < 2,
        Answer::Cancelled => j == prev.len() - 1,
    } by {
        assert(prev[j] == answers[j]);
    }
}

proof fn lemma_nothing_printed_when_filed(cfg: Config, cands: Seq<Seq<char>>, answers: Seq<Answer>)
    requires
        cfg.left_sink is Some,
        cfg.right_sink is Some,
        valid_answers(cands, answers),
        answers.len() == 0 || answers.last() is Chose,
    ensures
        printed_lines(cfg, cands, answers) == Seq::<char>::empty(),
    decreases answers.len(),
{
    if answers.len() > 0 {
        let prev = answers.drop_last();
        lemma_valid_prefix(cands, answers);
        if prev.len() > 0 {
            assert(answers[prev.len() - 1] == prev.last());
            assert(prev.last() is Chose);
        }
        lemma_nothing_printed_when_filed(cfg, cands, prev);
        assert(printed_lines(cfg, cands, answers) =~= Seq::<char>::empty());
    }
}

/// With a file for each side, and two different files: each file receives,
/// after its old content, the lines of the candidates decided for it, in
/// candidate order; every confirmed candidate goes to exactly one of the
/// two files; no other file changes; and standard output receives nothing
/// but the cancellation notice, when the run was cancelled.
pub proof fn law_sinks_split_confirmed(
    cfg: Config,
    cands: Seq<Seq<char>>,
    answers: Seq<Answer>,
    w: Outputs,
    left: Seq<char>,
    right: Seq<char>,
)
    requires
        valid_answers(cands, answers),
        opt_view(cfg.left_sink) == Some(left),
        opt_view(cfg.right_sink) == Some(right),
        left != right,
    ensures
        content(apply_all(w, run(cfg, cands, answers)), left) == content(w, left) + routed_lines(
            cfg,
            cands,
            answers,
            left,
        ),
        content(apply_all(w, run(cfg, cands, answers)), right) == content(w, right)
            + routed_lines(cfg, cands, answers, right),
        forall|j: int|
            0 <= j < answers.len() && answers[j] is Chose ==> {
                ||| #[trigger] destination(cfg, answers[j]) == Some(left)
                ||| destination(cfg, answers[j]) == Some(right)
            },
        forall|p: Seq<char>|
            p != left && p != right ==> #[trigger] content(apply_all(w, run(cfg, cands, answers)), p)
                == content(w, p),
        apply_all(w, run(cfg, cands, answers)).stdout == w.stdout + if answers.len() > 0
            && answers.last() is Cancelled {
            cancel_text()
        } else {
            Seq::empty()
        },
{
    law_outputs_follow_candidate_order(cfg, cands, answers, w);
    assert forall|p: Seq<char>|
        p != left && p != right implies #[trigger] content(apply_all(w, run(cfg, cands, answers)), p)
            == content(w, p) by {
        lemma_unrouted(cfg, cands, answers, p);
        assert(content(w, p) + Seq::<char>::empty() =~= content(w, p));
    }
    if answers.len() > 0 && answers.last() is Cancelled {
        let prev = answers.drop_last();
        assert forall|j: int| 0 <= j < prev.len() implies match #[trigger] prev[j] {
            Answer::Chose(i) => i < 2,
            Answer::Cancelled => j == prev.len() - 1,
        } by {
            assert(prev[j] == answers[j]);
        }
        if prev.len() > 0 {
            assert(answers[prev.len() - 1] == prev.last());
        }
        lemma_nothing_printed_when_filed(cfg, cands, prev);
        assert(printed_lines(cfg, cands, answers) =~= cancel_text());
    } else {
        lemma_nothing_printed_when_filed(cfg, cands, answers);
    }
    assert(w.stdout + Seq::<char>::empty() =~= w.stdout);
}

proof fn lemma_shared_sink(cfg: Config, cands: Seq<Seq<char>>, answers: Seq<Answer>, s: Seq<char>)
    requires
        opt_view(cfg.left_sink) == Some(s),
        opt_view(cfg.right_sink) == Some(s),
    ensures
        routed_lines(cfg, cands, answers, s) == confirmed_lines(cands, answers),
    decreases answers.len(),
{
    if answers.len() > 0 {
        lemma_shared_sink(cfg, cands, answers.drop_last(), s);
    }
}

/// When both sides share one file, that file receives the lines of all
/// confirmed candidates, interleaved in decision order.
pub proof fn law_shared_sink_keeps_decision_order(
    cfg: Config,
    cands: Seq<Seq<char>>,
    answers: Seq<Answer>,
    w: Outputs,
    s: Seq<char>,
)
    requires
        answers.len() <= cands.len(),
        opt_view(cfg.left_sink) == Some(s),
        opt_view(cfg.right_sink) == Some(s),
    ensures
        content(apply_all(w, run(cfg, cands, answers)), s) == content(w, s) + confirmed_lines(
            cands,
            answers,
        ),
{
    law_outputs_follow_candidate_order(cfg, cands, answers, w);
    lemma_shared_sink(cfg, cands, answers, s);
}

/// A confirmed decision changes exactly one output: the file of its side,
/// by one line holding the candidate, or else standard output, by one
/// record.
pub proof fn law_one_output_per_decision(cfg: Config, cand: Seq<char>, i: usize, w: Outputs)
    ensures
        ({
            let after = crate::sink::apply(w, crate::session::step_out(cfg, cand, Answer::Chose(i)));
            match destination(cfg, Answer::Chose(i)) {
                Some(p) => after.stdout == w.stdout && after.files == w.files.insert(
                    p,
                    content(w, p) + line(cand),
                ),
                None => after.files == w.files && after.stdout == w.stdout + decision_text(
                    menu_label(cfg, i as int),
                    cand,
                ),
            }
        }),
        destination(cfg, Answer::Chose(i)) == sink_of(cfg, Side::Left) || destination(
            cfg,
            Answer::Chose(i),
        ) == sink_of(cfg, Side::Right),
{
}

/// Nothing written is lost: every file that existed still exists and starts
/// with what it held, and standard output starts with what it held.
pub proof fn law_append_only(cfg: Config, cands: Seq<Seq<char>>, answers: Seq<Answer>, w: Outputs)
    requires
        answers.len() <= cands.len(),
    ensures
        forall|p: Seq<char>|
            #[trigger] w.files.dom().contains(p) ==> apply_all(
                w,
                run(cfg, cands, answers),
            ).files.dom().contains(p) && w.files[p].is_prefix_of(
                apply_all(w, run(cfg, cands, answers)).files[p],
            ),
        w.stdout.is_prefix_of(apply_all(w, run(cfg, cands, answers)).stdout),
{
    law_outputs_follow_candidate_order(cfg, cands, answers, w);
    let after = apply_all(w, run(cfg, cands, answers));
    assert forall|p: Seq<char>| #[trigger] w.files.dom().contains(p) implies after.files.dom().contains(
        p,
    ) && w.files[p].is_prefix_of(after.files[p]) by {
        assert(content(after, p) == content(w, p) + routed_lines(cfg, cands, answers, p));
        assert(w.files[p] =~= after.files[p].subrange(0, w.files[p].len() as int));
    }
    assert(w.stdout =~= after.stdout.subrange(0, w.stdout.len() as int));
}

/// Two runs one after the other leave in each file and on standard output
/// what was there, then the first run's records, then the second's.
pub proof fn law_batches_accumulate(
    cfg1: Config,
    cands1: Seq<Seq<char>>,
    answers1: Seq<Answer>,
    cfg2: Config,
    cands2: Seq<Seq<char>>,
    answers2: Seq<Answer>,
    w: Outputs,
)
    requires
        answers1.len() <= cands1.len(),
        answers2.len() <= cands2.len(),
    ensures
        forall|p: Seq<char>|
            #[trigger] content(
                apply_all(apply_all(w, run(cfg1, cands1, answers1)), run(cfg2, cands2, answers2)),
                p,
            ) == content(w, p) + routed_lines(cfg1, cands1, answers1, p) + routed_lines(
                cfg2,
                cands2,
                answers2,
                p,
            ),
        apply_all(apply_all(w, run(cfg1, cands1, answers1)), run(cfg2, cands2, answers2)).stdout
            == w.stdout + printed_lines(cfg1, cands1, answers1) + printed_lines(
            cfg2,
            cands2,
            answers2,
        ),
{
    let mid = apply_all(w, run(cfg1, cands1, answers1));
    law_outputs_follow_candidate_order(cfg1, cands1, answers1, w);
    law_outputs_follow_candidate_order(cfg2, cands2, answers2, mid);
    let after = apply_all(mid, run(cfg2, cands2, answers2));
    assert forall|p: Seq<char>| #[trigger] content(after, p) == content(w, p) + routed_lines(
        cfg1,
        cands1,
        answers1,
        p,
    ) + routed_lines(cfg2, cands2, answers2, p) by {
        assert(content(mid, p) == content(w, p) + routed_lines(cfg1, cands1, answers1, p));
        assert(content(after, p) == content(mid, p) + routed_lines(cfg2, cands2, answers2, p));
        assert(content(after, p) =~= content(w, p) + routed_lines(cfg1, cands1, answers1, p)
            + routed_lines(cfg2, cands2, answers2, p));
    }
    assert(after.stdout =~= w.stdout + printed_lines(cfg1, cands1, answers1) + printed_lines(
        cfg2,
        cands2,
        answers2,
    ));
}

/// With no candidates there is no prompt, no answer and no output.
pub proof fn law_empty_input(cfg: Config, answers: Seq<Answer>, w: Outputs)
    requires
        valid_answers(Seq::empty(), answers),
    ensures
        is_finished(Seq::empty(), Seq::empty()),
        answers.len() == 0,
        apply_all(w, run(cfg, Seq::empty(), answers)) == w,
{
    assert(run(cfg, Seq::empty(), answers) =~= Seq::<Out>::empty());
}

/// A single candidate is prompted for exactly once.
pub proof fn law_single_candidate_single_prompt(cands: Seq<Seq<char>>, a: Answer)
    requires
        cands.len() == 1,
    ensures
        !is_finished(cands, Seq::empty()),
        is_finished(cands, seq![a]),
{
}

/// A cancellation at a prompt ends the run: nothing is asked after it, the
/// outputs hold the decisions for the earlier candidates only, and standard
/// output ends with the cancellation notice.
pub proof fn law_cancel_stops(cfg: Config, cands: Seq<Seq<char>>, answers: Seq<Answer>, w: Outputs)
    requires
        valid_answers(cands, answers),
        answers.len() > 0,
        answers.last() is Cancelled,
    ensures
        is_finished(cands, answers),
        forall|j: int| 0 <= j < answers.len() - 1 ==> #[trigger] answers[j] is Chose,
        forall|p: Seq<char>|
            #[trigger] content(apply_all(w, run(cfg, cands, answers)), p) == content(w, p)
                + routed_lines(cfg, cands, answers.drop_last(), p),
        apply_all(w, run(cfg, cands, answers)).stdout == w.stdout + printed_lines(
            cfg,
            cands,
            answers.drop_last(),
        ) + cancel_text(),
{
    law_outputs_follow_candidate_order(cfg, cands, answers, w);
    assert forall|j: int| 0 <= j < answers.len() - 1 implies #[trigger] answers[j] is Chose by {
        match answers[j] {
            Answer::Chose(i) => {},
            Answer::Cancelled => {},
        }
    }
    assert forall|p: Seq<char>| #[trigger] routed_lines(cfg, cands, answers, p) == routed_lines(
        cfg,
        cands,
        answers.drop_last(),
        p,
    ) by {
        assert(routed_lines(cfg, cands, answers, p) =~= routed_lines(
            cfg,
            cands,
            answers.drop_last(),
            p,
        ));
    }
}

/// Without a left file, a left decision is printed to standard output.
pub proof fn law_missing_left_file_prints(cfg: Config, cand: Seq<char>)
    requires
        cfg.left_sink is None,
    ensures
        crate::session::step_out(cfg, cand, Answer::Chose(0)) == (Out::Print {
            text: decision_text(cfg.left_label@, cand),
        }),
{
}

/// The right file comes to exist only through a right decision.
pub proof fn law_right_file_needs_right_decision(
    cfg: Config,
    cands: Seq<Seq<char>>,
    answers: Seq<Answer>,
    w: Outputs,
    right: Seq<char>,
)
    requires
        valid_answers(cands, answers),
        opt_view(cfg.right_sink) == Some(right),
        opt_view(cfg.left_sink) != Some(right),
        !w.files.dom().contains(right),
        apply_all(w, run(cfg, cands, answers)).files.dom().contains(right),
    ensures
        exists|j: int| 0 <= j < answers.len() && #[trigger] answers[j] == Answer::Chose(1),
{
    law_outputs_follow_candidate_order(cfg, cands, answers, w);
    let j = choose|j: int| 0 <= j < answers.len() && #[trigger] destination(cfg, answers[j]) == Some(right);
    assert(answers[j] == Answer::Chose(1));
}

} // verus!
