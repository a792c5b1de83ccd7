//! Routing one decision to its sink.

use vstd::prelude::*;
use crate::config::{Config, Side, side_of, sink_of};
use crate::sink::{Effect, Out, line, terminated};

verus! {

/// The standard-output record of a decision whose side has no file.
pub open spec fn decision_text(label: Seq<char>, cand: Seq<char>) -> Seq<char> {
    label + " - "@ + line(cand)
}

/// The diagnostic for a label that matches neither configured label.
pub open spec fn anomaly_text(
    cand: Seq<char>,
    label: Seq<char>,
    left: Seq<char>,
    right: Seq<char>,
) -> Seq<char> {
    "Item "@ + cand + " was somehow classified as an option that was not provided\nClassification: "@
        + label + "\nOptions: "@ + left + " or "@ + line(right)
}

/// The effect of recording that `cand` was given the label `label`.
pub open spec fn effect_of(cfg: Config, cand: Seq<char>, label: Seq<char>) -> Out {
    match side_of(cfg, label) {
        Some(side) => match sink_of(cfg, side) {
            Some(path) => Out::Append { path, text: line(cand) },
            None => Out::Print { text: decision_text(label, cand) },
        },
        None => Out::Print { text: anomaly_text(cand, label, cfg.left_label@, cfg.right_label@) },
    }
}

fn decision_record(label: &String, cand: &String) -> (r: String)
    ensures
        r@ == decision_text(label@, cand@),
{
    let mut r = label.clone();
    r.append(" - ");
    r.append(cand.as_str());
    r.append("\n");
    proof {
        reveal_strlit("\n");
        assert(r@ =~= decision_text(label@, cand@));
    }
    r
}

fn anomaly_record(cand: &String, label: &String, cfg: &Config) -> (r: String)
    ensures
        r@ == anomaly_text(cand@, label@, cfg.left_label@, cfg.right_label@),
{
    let mut r = String::from_str("Item ");
    r.append(cand.as_str());
    r.append(" was somehow classified as an option that was not provided\nClassification: ");
    r.append(label.as_str());
    r.append("\nOptions: ");
    r.append(cfg.left_label.as_str());
    r.append(" or ");
    r.append(cfg.right_label.as_str());
    r.append("\n");
    proof {
        reveal_strlit("\n");
        assert(r@ =~= anomaly_text(cand@, label@, cfg.left_label@, cfg.right_label@));
    }
    r
}

/// Routes the decision "`candidate` is `selection`": to the file of the
/// matching side, to standard output when that side has no file, or, for a
/// label that is neither, to a diagnostic on standard output.
pub fn dispatch(cfg: &Config, candidate: &String, selection: &String) -> (r: Effect)
    ensures
        r@ == effect_of(*cfg, candidate@, selection@),
{
    let side = if *selection == cfg.left_label {
        Side::Left
    } else if *selection == cfg.right_label {
        Side::Right
    } else {
        return Effect::Print { text: anomaly_record(candidate, selection, cfg) };
    };
    let sink = match side {
        Side::Left => &cfg.left_sink,
        Side::Right => &cfg.right_sink,
    };
    match sink {
        Some(path) => Effect::Append { path: path.clone(), text: terminated(candidate.as_str()) },
        None => Effect::Print { text: decision_record(selection, candidate) },
    }
}

} // verus!
