//! Lazy tree navigation over tokenizer cursors: a node's direct properties
//! and direct children, each scanned on an independent copy of the node's
//! saved cursor.

use vstd::prelude::*;
use crate::token::{step, Step, StructItem, StructItemIter, lemma_step_bounds};
use crate::FdtError;

verus! {

/// A named property: raw value bytes, with no further interpretation.
#[derive(Debug, PartialEq, Eq)]
pub struct Property {
    pub name: Vec<u8>,
    pub value: Vec<u8>,
}

/// A node of the tree: its name and a cursor saved immediately after its
/// begin-node token. A node is a value; navigating from it never alters it.
pub struct FdtNode<'a> {
    pub name: Vec<u8>,
    pub iter: StructItemIter<'a>,
}

/// The position after the maximal run of property tokens at `pos`.
pub open spec fn props_end(st: Seq<u8>, strs: Seq<u8>, pos: int) -> int
    decreases st.len() - pos when 0 <= pos <= st.len() via props_end_dec
{
    match step(st, strs, pos) {
        Step::Prop { name: _, value: _, next } => props_end(st, strs, next),
        _ => pos,
    }
}

#[via_fn]
proof fn props_end_dec(st: Seq<u8>, strs: Seq<u8>, pos: int) {
    lemma_step_bounds(st, strs, pos);
}

/// The properties of the node whose cursor stands at `pos`: the maximal run
/// of property tokens before the first non-property token.
pub open spec fn props_from(st: Seq<u8>, strs: Seq<u8>, pos: int) -> Seq<(Seq<u8>, Seq<u8>)>
    decreases st.len() - pos when 0 <= pos <= st.len() via props_from_dec
{
    match step(st, strs, pos) {
        Step::Prop { name, value, next } => seq![(name, value)] + props_from(st, strs, next),
        _ => seq![],
    }
}

#[via_fn]
proof fn props_from_dec(st: Seq<u8>, strs: Seq<u8>, pos: int) {
    lemma_step_bounds(st, strs, pos);
}

/// What a forward scan for the next direct child finds, from `pos` at
/// nesting depth `depth` (1 = directly inside the node being enumerated).
pub enum NextChild {
    /// A child named `name`; `pos` is the cursor just after its begin token.
    Found { name: Seq<u8>, pos: int },
    /// The node closed, or the token stream ended, before another child.
    Exhausted,
    /// The scan ran into a format violation.
    Fail { err: FdtError },
}

pub open spec fn next_child(st: Seq<u8>, strs: Seq<u8>, pos: int, depth: int) -> NextChild
    decreases st.len() - pos when 0 <= pos <= st.len() via next_child_dec
{
    if depth <= 0 {
        NextChild::Exhausted
    } else {
        match step(st, strs, pos) {
            Step::Begin { name, next } => if depth == 1 {
                NextChild::Found { name, pos: next }
            } else {
                next_child(st, strs, next, depth + 1)
            },
            Step::End { next } => if depth == 1 {
                NextChild::Exhausted
            } else {
                next_child(st, strs, next, depth - 1)
            },
            Step::Prop { name: _, value: _, next } => next_child(st, strs, next, depth),
            Step::Done => NextChild::Exhausted,
            Step::Fail { err } => NextChild::Fail { err },
        }
    }
}

#[via_fn]
proof fn next_child_dec(st: Seq<u8>, strs: Seq<u8>, pos: int, depth: int) {
    lemma_step_bounds(st, strs, pos);
}

/// A found child lies strictly ahead of the scan's start, inside the block.
pub proof fn lemma_next_child_bounds(st: Seq<u8>, strs: Seq<u8>, pos: int, depth: int)
    requires
        0 <= pos <= st.len(),
    ensures
        next_child(st, strs, pos, depth) matches NextChild::Found { pos: p, .. }
            ==> pos < p <= st.len(),
    decreases st.len() - pos,
{
    lemma_step_bounds(st, strs, pos);
    if depth > 0 {
        match step(st, strs, pos) {
            Step::Begin { name: _, next } => if depth != 1 {
                lemma_next_child_bounds(st, strs, next, depth + 1);
            },
            Step::End { next } => if depth != 1 {
                lemma_next_child_bounds(st, strs, next, depth - 1);
            },
            Step::Prop { name: _, value: _, next } => {
                lemma_next_child_bounds(st, strs, next, depth);
            },
            _ => {},
        }
    }
}

/// The direct children reachable from `pos` at depth `depth`: names paired
/// with the cursor position saved for each child.
pub open spec fn children_from(st: Seq<u8>, strs: Seq<u8>, pos: int, depth: int) -> Seq<(Seq<u8>, int)>
    decreases st.len() - pos when 0 <= pos <= st.len() via children_from_dec
{
    match next_child(st, strs, pos, depth) {
        NextChild::Found { name, pos: p } => seq![(name, p)] + children_from(st, strs, p, 2),
        _ => seq![],
    }
}

#[via_fn]
proof fn children_from_dec(st: Seq<u8>, strs: Seq<u8>, pos: int, depth: int) {
    lemma_next_child_bounds(st, strs, pos, depth);
}

/// Reading or skipping the property run never moves a node's children:
/// the children seen from the node's saved cursor equal the children seen
/// from the position where its properties end. The two views are
/// independent scans of the same region.
pub proof fn lemma_children_unmoved_by_properties(st: Seq<u8>, strs: Seq<u8>, pos: int)
    requires
        0 <= pos <= st.len(),
    ensures
        children_from(st, strs, pos, 1) == children_from(st, strs, props_end(st, strs, pos), 1),
    decreases st.len() - pos,
{
    lemma_step_bounds(st, strs, pos);
    match step(st, strs, pos) {
        Step::Prop { name: _, value: _, next } => {
            lemma_children_unmoved_by_properties(st, strs, next);
            assert(next_child(st, strs, pos, 1) == next_child(st, strs, next, 1));
        },
        _ => {},
    }
}

/// Child enumeration is restartable: the whole child sequence of a saved
/// cursor is the first child found there followed by the children seen from
/// that child's own saved cursor, however often either scan is re-derived.
pub proof fn lemma_children_restartable(st: Seq<u8>, strs: Seq<u8>, pos: int, depth: int)
    requires
        0 <= pos <= st.len(),
    ensures
        children_from(st, strs, pos, depth) == match next_child(st, strs, pos, depth) {
            NextChild::Found { name, pos: p } => seq![(name, p)] + children_from(st, strs, p, 2),
            _ => Seq::<(Seq<u8>, int)>::empty(),
        },
{
    match next_child(st, strs, pos, depth) {
        NextChild::Found { name, pos: p } => {
            lemma_next_child_bounds(st, strs, pos, depth);
            assert(children_from(st, strs, pos, depth)
                == seq![(name, p)] + children_from(st, strs, p, 2));
        },
        _ => {
            assert(children_from(st, strs, pos, depth) =~= Seq::<(Seq<u8>, int)>::empty());
        },
    }
}

impl<'a> FdtNode<'a> {
    pub open spec fn wf(self) -> bool {
        self.iter.wf()
    }

    /// The node's direct properties: an independent scan starting at the
    /// node's saved cursor. Restartable; never disturbs the node.
    pub fn properties(&self) -> (r: Properties<'a>)
        requires
            self.wf(),
        ensures
            r.iter.same_blocks(self.iter) && r.iter.pos == self.iter.pos,
            r.wf(),
    {
        Properties { iter: self.iter }
    }

    /// The node's direct children: an independent scan starting at the
    /// node's saved cursor, at nesting depth one. Restartable; never
    /// disturbs the node.
    pub fn children(&self) -> (r: Children<'a>)
        requires
            self.wf(),
        ensures
            r.iter.same_blocks(self.iter) && r.iter.pos == self.iter.pos,
            r.depth == 1,
            r.wf(),
    {
        Children { iter: self.iter, depth: 1 }
    }
}

/// A property scan: emits the run of property tokens at the saved cursor
/// and stops, for good, at the first non-property token.
#[derive(Clone, Copy)]
pub struct Properties<'a> {
    pub iter: StructItemIter<'a>,
}

impl<'a> Properties<'a> {
    pub open spec fn wf(self) -> bool {
        self.iter.wf()
    }

    /// Emits the next property, or `Ok(None)` at the first token that is
    /// not a property; the latter answer then repeats forever.
    pub fn next(&mut self) -> (r: Result<Option<Property>, FdtError>)
        requires
            old(self).wf(),
        ensures
            final(self).wf(),
            final(self).iter.same_blocks(old(self).iter),
            match step(old(self).iter.st@, old(self).iter.strs@, old(self).iter.pos as int) {
                Step::Prop { name, value, next } => {
                    &&& r matches Ok(Some(p)) && p.name@ == name && p.value@ == value
                    &&& final(self).iter.pos == next
                    &&& props_from(old(self).iter.st@, old(self).iter.strs@, old(self).iter.pos as int)
                        == seq![(name, value)]
                            + props_from(final(self).iter.st@, final(self).iter.strs@,
                                final(self).iter.pos as int)
                },
                Step::Fail { err } => {
                    &&& r == Err::<Option<Property>, FdtError>(err)
                    &&& step(final(self).iter.st@, final(self).iter.strs@, final(self).iter.pos as int)
                        == Step::Fail { err }
                },
                _ => {
                    &&& r == Ok::<Option<Property>, FdtError>(None)
                    &&& *final(self) == *old(self)
                    &&& props_from(old(self).iter.st@, old(self).iter.strs@, old(self).iter.pos as int)
                        == Seq::<(Seq<u8>, Seq<u8>)>::empty()
                },
            },
    {
        let mut probe = self.iter;
        match probe.next() {
            Ok(Some(StructItem::Prop { name, value })) => {
                self.iter = probe;
                Ok(Some(Property { name, value }))
            },
            Ok(_) => Ok(None),
            Err(e) => {
                self.iter = probe;
                Err(e)
            },
        }
    }
}

/// A child scan: emits each begin-node token one nesting level below the
/// saved cursor, skipping properties and fully nested deeper subtrees.
#[derive(Clone, Copy)]
pub struct Children<'a> {
    pub iter: StructItemIter<'a>,
    pub depth: usize,
}

impl<'a> Children<'a> {
    /// The depth counter cannot outrun the cursor: every level was opened
    /// by a begin-node record at least eight bytes long.
    pub open spec fn wf(self) -> bool {
        &&& self.iter.wf()
        &&& 8 * self.depth <= self.iter.pos + 8
    }

    /// Emits the next direct child, or `Ok(None)` once the node has closed
    /// or the stream has ended; either terminal answer then repeats forever.
    pub fn next(&mut self) -> (r: Result<Option<FdtNode<'a>>, FdtError>)
        requires
            old(self).wf(),
        ensures
            final(self).wf(),
            final(self).iter.same_blocks(old(self).iter),
            match next_child(old(self).iter.st@, old(self).iter.strs@, old(self).iter.pos as int,
                old(self).depth as int) {
                NextChild::Found { name, pos } => {
                    &&& r matches Ok(Some(c)) && c.name@ == name
                        && c.iter.same_blocks(old(self).iter) && c.iter.pos == pos && c.wf()
                    &&& final(self).iter.pos == pos
                    &&& final(self).depth == 2
                    &&& children_from(old(self).iter.st@, old(self).iter.strs@,
                        old(self).iter.pos as int, old(self).depth as int)
                        == seq![(name, pos)]
                            + children_from(old(self).iter.st@, old(self).iter.strs@, pos, 2)
                },
                NextChild::Exhausted => {
                    &&& r == Ok::<Option<FdtNode<'a>>, FdtError>(None)
                    &&& next_child(final(self).iter.st@, final(self).iter.strs@,
                        final(self).iter.pos as int, final(self).depth as int)
                        == NextChild::Exhausted
                    &&& children_from(old(self).iter.st@, old(self).iter.strs@,
                        old(self).iter.pos as int, old(self).depth as int)
                        == Seq::<(Seq<u8>, int)>::empty()
                },
                NextChild::Fail { err } => {
                    &&& r == Err::<Option<FdtNode<'a>>, FdtError>(err)
                    &&& next_child(final(self).iter.st@, final(self).iter.strs@,
                        final(self).iter.pos as int, final(self).depth as int)
                        == NextChild::Fail { err }
                },
            },
    {
        let ghost st = self.iter.st@;
        let ghost strs = self.iter.strs@;
        loop
            invariant
                self.wf(),
                self.iter.st@ == st,
                self.iter.strs@ == strs,
                st == old(self).iter.st@,
                strs == old(self).iter.strs@,
                old(self).iter.pos <= st.len(),
                next_child(st, strs, old(self).iter.pos as int, old(self).depth as int)
                    == next_child(st, strs, self.iter.pos as int, self.depth as int),
            decreases st.len() - self.iter.pos,
        {
            proof {
                lemma_children_restartable(st, strs, old(self).iter.pos as int,
                    old(self).depth as int);
            }
            if self.depth == 0 {
                return Ok(None);
            }
            let ghost pos0 = self.iter.pos as int;
            let ghost depth0 = self.depth as int;
            proof {
                lemma_step_bounds(st, strs, pos0);
            }
            let item = match self.iter.next() {
                Ok(item) => item,
                Err(e) => {
                    return Err(e);
                },
            };
            match item {
                None => {
                    return Ok(None);
                },
                Some(StructItem::BeginNode { name }) => {
                    self.depth = self.depth + 1;
                    if self.depth == 2 {
                        return Ok(Some(FdtNode { name, iter: self.iter }));
                    }
                },
                Some(StructItem::EndNode) => {
                    self.depth = self.depth - 1;
                    if self.depth == 0 {
                        return Ok(None);
                    }
                },
                Some(StructItem::Prop { .. }) => {},
            }
        }
    }
}

} // verus!
