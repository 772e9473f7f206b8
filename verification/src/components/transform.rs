use crate::geometry::Vector3;
use vstd::prelude::*;

verus! {

/// One elementary transform. All numbers are single-precision bit patterns.
#[derive(Clone, Copy, Debug, PartialEq, Eq, Structural)]
pub enum TransformOp {
    /// A rotation by `radians` around `axis`.
    Rotate { radians: u32, axis: Vector3 },
    /// A scaling by `factors`, one per axis.
    Scale { factors: Vector3 },
    /// A translation by `offset`.
    Translate { offset: Vector3 },
}

/// The transform of a renderable: the elementary transforms that made it,
/// in the order in which they were asked for. Its matrix is the identity
/// multiplied from the right by the matrix of each of them in turn; nothing is
/// reordered, merged or dropped on the way.
pub struct Transform {
    ops: Vec<TransformOp>,
}

impl View for Transform {
    type V = Seq<TransformOp>;

    closed spec fn view(&self) -> Seq<TransformOp> {
        self.ops@
    }
}

impl Transform {
    /// The transform that changes nothing.
    pub fn identity() -> (t: Transform)
        ensures
            t@ == Seq::<TransformOp>::empty(),
    {
        Transform { ops: Vec::new() }
    }

    /// This transform followed by `op`.
    pub fn followed_by(self, op: TransformOp) -> (t: Transform)
        ensures
            t@ == self@.push(op),
    {
        let mut t = self;
        t.ops.push(op);
        t
    }

    /// The elementary transforms, first asked for first.
    pub fn ops(&self) -> (ops: &Vec<TransformOp>)
        ensures
            ops@ == self@,
    {
        &self.ops
    }
}

/// The order of two different elementary transforms is part of what a
/// transform is: asked for the other way round, they make another transform.
pub proof fn lemma_order_is_kept(t: Seq<TransformOp>, first: TransformOp, second: TransformOp)
    requires
        first != second,
    ensures
        t.push(first).push(second) != t.push(second).push(first),
        t.push(first).push(second).len() == t.len() + 2,
        t.push(first).push(second)[t.len() as int] == first,
        t.push(first).push(second)[t.len() as int + 1] == second,
{
    let a = t.push(first).push(second);
    let b = t.push(second).push(first);
    assert(a[t.len() as int] == first);
    assert(b[t.len() as int] == second);
}

} // verus!
