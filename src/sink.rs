//! What a run does to the world outside it, and a model of its outputs.

use vstd::prelude::*;

verus! {

/// One observable action of the classifier.
#[derive(Debug, PartialEq, Eq)]
pub enum Effect {
    /// Append `text` to the file named `path`, creating the file and its
    /// missing parent directories first.
    Append { path: String, text: String },
    /// Write `text` to standard output.
    Print { text: String },
}

/// An effect over plain sequences.
pub enum Out {
    Append { path: Seq<char>, text: Seq<char> },
    Print { text: Seq<char> },
}

impl View for Effect {
    type V = Out;

    open spec fn view(&self) -> Out {
        match self {
            Effect::Append { path, text } => Out::Append { path: path@, text: text@ },
            Effect::Print { text } => Out::Print { text: text@ },
        }
    }
}

/// What the classifier can observe and change: the contents of the files
/// it may write (keyed by path as given; an absent key is a missing file)
/// and everything written to standard output so far.
pub struct Outputs {
    pub files: Map<Seq<char>, Seq<char>>,
    pub stdout: Seq<char>,
}

/// The content of a file, empty when it does not exist.
pub open spec fn content(w: Outputs, path: Seq<char>) -> Seq<char> {
    if w.files.contains_key(path) {
        w.files[path]
    } else {
        Seq::empty()
    }
}

pub open spec fn apply(w: Outputs, e: Out) -> Outputs {
    match e {
        Out::Append { path, text } => Outputs {
            files: w.files.insert(path, content(w, path) + text),
            stdout: w.stdout,
        },
        Out::Print { text } => Outputs { files: w.files, stdout: w.stdout + text },
    }
}

/// The outputs after performing `es` in order.
pub open spec fn apply_all(w: Outputs, es: Seq<Out>) -> Outputs
    decreases es.len(),
{
    if es.len() == 0 {
        w
    } else {
        apply(apply_all(w, es.drop_last()), es.last())
    }
}

/// A text followed by one line feed.
pub open spec fn line(t: Seq<char>) -> Seq<char> {
    t + seq!['\n']
}

/// `t` followed by one line feed.
pub fn terminated(t: &str) -> (r: String)
    ensures
        r@ == line(t@),
{
    let mut r = String::from_str(t);
    r.append("\n");
    proof {
        reveal_strlit("\n");
        assert(r@ =~= line(t@));
    }
    r
}

} // verus!
