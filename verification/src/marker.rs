//! The marker / completed-marker protocol over the event stream.
//!
//! A `Marker` is a handle to an open node-start event. It can be
//! reclassified in place (`set_kind`), closed (`complete`), or abandoned
//! (`undo`, which tombstones the node's kind). A `CompleteMarker` supports
//! `precede`: it opens a brand-new node and redirects the original node's
//! parent slot at it, which is how left-associative folds are built
//! without backtracking. `complete` and `undo` take the marker by value,
//! so a marker is consumable exactly once by construction.
use vstd::prelude::*;
use vstd::pervasive::VecAdditionalExecFns;
use crate::kind::{LuaSyntaxKind, LuaTokenKind, SourceRange};
use crate::parser::{
    LuaParser, lemma_depth_update, lemma_eaten_update, lemma_nonneg_update,
    lemma_parents_update_start,
};

verus! {

/// One recorded tree-construction event. Events are append-only and
/// positionally addressed; `precede` and `set_kind` only rewrite fields of
/// an already-recorded node-start event.
#[derive(Debug, Clone, Copy)]
pub enum MarkEvent {
    NodeStart { kind: LuaSyntaxKind, parent: usize },
    EatToken { kind: LuaTokenKind, range: SourceRange },
    NodeEnd,
}

impl MarkEvent {
    /// The tombstone the tree builder writes over a node-start event once
    /// it has consumed it through a parent-redirection chain.
    pub fn none() -> (e: MarkEvent)
        ensures
            e == (MarkEvent::NodeStart { kind: LuaSyntaxKind::Tombstone, parent: 0 }),
    {
        MarkEvent::NodeStart { kind: LuaSyntaxKind::Tombstone, parent: 0 }
    }
}

/// Handle to an open node-start event at `position` in the event stream.
pub struct Marker {
    pub position: usize,
}

impl Marker {
    pub fn new(position: usize) -> (m: Marker)
        ensures
            m.position == position,
    {
        Marker { position }
    }

    /// Reclassify the still-open node, keeping its parent slot.
    pub fn set_kind(&mut self, p: &mut LuaParser, kind: LuaSyntaxKind)
        requires
            old(p).wf(),
            old(self).position < old(p).events@.len(),
            old(p).events@[old(self).position as int] is NodeStart,
        ensures
            final(p).wf(),
            final(self).position == old(self).position,
            final(p).events@ == old(p).events@.update(
                old(self).position as int,
                (MarkEvent::NodeStart {
                    kind,
                    parent: old(p).events@[old(self).position as int]->NodeStart_parent,
                }),
            ),
            final(p).text@ == old(p).text@,
            final(p).tokens@ == old(p).tokens@,
            final(p).index == old(p).index,
            final(p).mark_level == old(p).mark_level,
            final(p).errors@ == old(p).errors@,
    {
        let pos = self.position;
        let ev = p.events[pos];
        match ev {
            MarkEvent::NodeStart { kind: _, parent } => {
                let e2 = MarkEvent::NodeStart { kind, parent };
                p.events.set(pos, e2);
                proof {
                    lemma_depth_update(old(p).events@, pos as int, e2);
                    lemma_nonneg_update(old(p).events@, pos as int, e2);
                    lemma_eaten_update(old(p).events@, pos as int, e2);
                    lemma_parents_update_start(old(p).events@, pos as int, e2);
                }
            },
            _ => {
                proof {
                    assert(false);
                }
            },
        }
    }

    /// Close the node: record a node-end event and freeze its span.
    pub fn complete(self, p: &mut LuaParser) -> (cm: CompleteMarker)
        requires
            old(p).wf(),
            self.position < old(p).events@.len(),
            old(p).events@[self.position as int] is NodeStart,
            old(p).mark_level >= 1,
        ensures
            final(p).wf(),
            final(p).events@ == old(p).events@.push(MarkEvent::NodeEnd),
            final(p).mark_level == old(p).mark_level - 1,
            cm.start == self.position,
            cm.finish == old(p).events@.len(),
            cm.kind == old(p).events@[self.position as int]->NodeStart_kind,
            final(p).text@ == old(p).text@,
            final(p).tokens@ == old(p).tokens@,
            final(p).index == old(p).index,
            final(p).errors@ == old(p).errors@,
    {
        let kind = match p.events[self.position] {
            MarkEvent::NodeStart { kind, parent: _ } => kind,
            _ => {
                proof {
                    assert(false);
                }
                LuaSyntaxKind::Tombstone
            },
        };
        let finish = p.events.len();
        p.push_node_end();
        CompleteMarker { start: self.position, finish, kind }
    }

    /// Abandon a speculative node: erase its classification to the
    /// tombstone kind without removing the event slot. The caller's
    /// discipline must keep the surrounding start/end events balanced.
    pub fn undo(self, p: &mut LuaParser)
        requires
            old(p).wf(),
            self.position < old(p).events@.len(),
            old(p).events@[self.position as int] is NodeStart,
        ensures
            final(p).wf(),
            final(p).events@ == old(p).events@.update(
                self.position as int,
                (MarkEvent::NodeStart {
                    kind: LuaSyntaxKind::Tombstone,
                    parent: old(p).events@[self.position as int]->NodeStart_parent,
                }),
            ),
            final(p).text@ == old(p).text@,
            final(p).tokens@ == old(p).tokens@,
            final(p).index == old(p).index,
            final(p).mark_level == old(p).mark_level,
            final(p).errors@ == old(p).errors@,
    {
        let pos = self.position;
        let ev = p.events[pos];
        match ev {
            MarkEvent::NodeStart { kind: _, parent } => {
                let e2 = MarkEvent::NodeStart { kind: LuaSyntaxKind::Tombstone, parent };
                p.events.set(pos, e2);
                proof {
                    lemma_depth_update(old(p).events@, pos as int, e2);
                    lemma_nonneg_update(old(p).events@, pos as int, e2);
                    lemma_eaten_update(old(p).events@, pos as int, e2);
                    lemma_parents_update_start(old(p).events@, pos as int, e2);
                }
            },
            _ => {
                proof {
                    assert(false);
                }
            },
        }
    }
}

/// A closed node: the positions of its start and end events and its kind.
pub struct CompleteMarker {
    pub start: usize,
    pub finish: usize,
    pub kind: LuaSyntaxKind,
}

impl CompleteMarker {
    /// Open a new enclosing node and redirect this node's recorded parent
    /// slot at it: an O(1) bookkeeping rewrite of one event, no token is
    /// re-emitted.
    pub fn precede(&self, p: &mut LuaParser, kind: LuaSyntaxKind) -> (m: Marker)
        requires
            old(p).wf(),
            self.start < old(p).events@.len(),
            old(p).events@[self.start as int] is NodeStart,
        ensures
            final(p).wf(),
            m.position == old(p).events@.len(),
            final(p).events@ == old(p).events@.push((MarkEvent::NodeStart { kind, parent: 0 })).update(
                self.start as int,
                (MarkEvent::NodeStart {
                    kind: old(p).events@[self.start as int]->NodeStart_kind,
                    parent: old(p).events@.len() as usize,
                }),
            ),
            final(p).mark_level == old(p).mark_level + 1,
            final(p).text@ == old(p).text@,
            final(p).tokens@ == old(p).tokens@,
            final(p).index == old(p).index,
            final(p).errors@ == old(p).errors@,
    {
        let m = p.mark(kind);
        let ghost mid = p.events@;
        let ev = p.events[self.start];
        match ev {
            MarkEvent::NodeStart { kind: k0, parent: _ } => {
                let e2 = MarkEvent::NodeStart { kind: k0, parent: m.position };
                p.events.set(self.start, e2);
                proof {
                    lemma_depth_update(mid, self.start as int, e2);
                    lemma_nonneg_update(mid, self.start as int, e2);
                    lemma_eaten_update(mid, self.start as int, e2);
                    lemma_parents_update_start(mid, self.start as int, e2);
                }
            },
            _ => {
                proof {
                    assert(false);
                }
            },
        }
        m
    }

    /// A placeholder completed marker, used before any node exists.
    pub fn empty() -> (cm: CompleteMarker)
        ensures
            cm.start == 0,
            cm.finish == 0,
            cm.kind == LuaSyntaxKind::Tombstone,
    {
        CompleteMarker { start: 0, finish: 0, kind: LuaSyntaxKind::Tombstone }
    }
}

} // verus!
