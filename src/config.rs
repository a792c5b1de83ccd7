//! The configuration record and how a label maps to a side and a sink.

use vstd::prelude::*;

verus! {

/// Settings for one classification run, fixed at startup.
pub struct Config {
    /// Text of the left choice.
    pub left_label: String,
    /// Text of the right choice.
    pub right_label: String,
    /// File that receives left decisions; standard output when absent.
    pub left_sink: Option<String>,
    /// File that receives right decisions; standard output when absent.
    pub right_sink: Option<String>,
    /// File that holds the candidates; standard input when absent.
    pub input_source: Option<String>,
    /// Accepted for forward compatibility; it changes nothing.
    pub treat_as_image_paths: bool,
    /// Selects the graphical front end, which only prints a notice.
    pub use_gui: bool,
}

/// One of the two choices offered for every candidate.
#[derive(Clone, Copy, Debug, PartialEq, Eq, Structural)]
pub enum Side {
    Left,
    Right,
}

pub open spec fn opt_view(o: Option<String>) -> Option<Seq<char>> {
    match o {
        Some(s) => Some(s@),
        None => None,
    }
}

/// The side whose label equals `label`; the left label is tried first.
pub open spec fn side_of(cfg: Config, label: Seq<char>) -> Option<Side> {
    if label == cfg.left_label@ {
        Some(Side::Left)
    } else if label == cfg.right_label@ {
        Some(Side::Right)
    } else {
        None
    }
}

/// The label shown for a side.
pub open spec fn label_of(cfg: Config, side: Side) -> Seq<char> {
    match side {
        Side::Left => cfg.left_label@,
        Side::Right => cfg.right_label@,
    }
}

/// The file configured for a side, if any.
pub open spec fn sink_of(cfg: Config, side: Side) -> Option<Seq<char>> {
    match side {
        Side::Left => opt_view(cfg.left_sink),
        Side::Right => opt_view(cfg.right_sink),
    }
}

/// The label at position `index` of the menu: left first, then right.
pub open spec fn menu_label(cfg: Config, index: int) -> Seq<char> {
    if index == 0 {
        cfg.left_label@
    } else {
        cfg.right_label@
    }
}

impl Config {
    /// The menu labels in the order they are offered: left, then right.
    pub fn labels(&self) -> (r: Vec<String>)
        ensures
            r@.len() == 2,
            r@[0]@ == self.left_label@,
            r@[1]@ == self.right_label@,
    {
        let mut r: Vec<String> = Vec::new();
        r.push(self.left_label.clone());
        r.push(self.right_label.clone());
        r
    }
}

} // verus!
