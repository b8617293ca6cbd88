//! Node and edge payloads of the note graph viewer.
use vstd::prelude::*;

verus! {

/// A note: its title and its text.
pub struct LogNodeData {
    pub label: String,
    pub content: String,
}

impl LogNodeData {
    pub fn new(label: String, content: String) -> (r: Self)
        ensures
            r.label@ == label@,
            r.content@ == content@,
    {
        LogNodeData { label, content }
    }
}

/// Display state of a link between notes.
#[derive(Clone, Copy, Debug, PartialEq, Eq, Structural)]
pub struct LogEdge {
    pub selected: bool,
}

impl LogEdge {
    pub fn new(selected: bool) -> (r: Self)
        ensures
            r.selected == selected,
    {
        LogEdge { selected }
    }
}

} // verus!
