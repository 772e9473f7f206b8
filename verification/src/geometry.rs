use vstd::prelude::*;

verus! {

/// A three-component vector of single-precision numbers, each held as its
/// IEEE 754 bit pattern. The library moves coordinates around and never does
/// arithmetic on them, so the bits are all it needs.
#[derive(Clone, Copy, Debug, PartialEq, Eq, Structural)]
pub struct Vector3 {
    pub x: u32,
    pub y: u32,
    pub z: u32,
}

impl Vector3 {
    /// The vector whose three components are positive zero.
    pub open spec fn zero_spec() -> Vector3 {
        Vector3 { x: 0, y: 0, z: 0 }
    }

    pub fn new(x: u32, y: u32, z: u32) -> (v: Vector3)
        ensures
            v == (Vector3 { x, y, z }),
    {
        Vector3 { x, y, z }
    }

    #[verifier::when_used_as_spec(zero_spec)]
    pub fn zero() -> (v: Vector3)
        ensures
            v == Vector3::zero_spec(),
    {
        Vector3 { x: 0, y: 0, z: 0 }
    }
}

/// `a` and `b` taken in turns, starting with `a`; once one of them has run
/// out, what is left of the other.
pub open spec fn interleaved<T>(a: Seq<T>, b: Seq<T>) -> Seq<T>
    decreases a.len(),
{
    if a.len() == 0 {
        b
    } else if b.len() == 0 {
        a
    } else {
        seq![a[0], b[0]] + interleaved(a.skip(1), b.skip(1))
    }
}

/// Interleaving keeps every element: the result is as long as both inputs
/// together.
pub proof fn lemma_interleaved_len<T>(a: Seq<T>, b: Seq<T>)
    ensures
        interleaved(a, b).len() == a.len() + b.len(),
    decreases a.len(),
{
    if a.len() != 0 && b.len() != 0 {
        lemma_interleaved_len(a.skip(1), b.skip(1));
    }
}

/// Two sequences of one length interleave to pairs: the element of `a` at a
/// position, then the element of `b` at that position.
pub proof fn lemma_interleaved_pairs<T>(a: Seq<T>, b: Seq<T>, i: int)
    requires
        a.len() == b.len(),
        0 <= i < a.len(),
    ensures
        interleaved(a, b).len() == 2 * a.len(),
        interleaved(a, b)[2 * i] == a[i],
        interleaved(a, b)[2 * i + 1] == b[i],
    decreases a.len(),
{
    lemma_interleaved_len(a, b);
    if i > 0 {
        lemma_interleaved_pairs(a.skip(1), b.skip(1), i - 1);
        lemma_interleaved_len(a.skip(1), b.skip(1));
    }
}

/// Calls `itertools::interleave` on the two vectors and collects what it
/// yields. The contract is taken on trust. It states the adaptor's documented
/// order: elements alternate, first from `a`, and when one vector has run out
/// the rest of the other follows. The two lengths together must be a length
/// that a vector can have.
#[verifier::external_body]
pub(crate) fn interleave_vecs<T>(a: Vec<T>, b: Vec<T>) -> (r: Vec<T>)
    requires
        a@.len() + b@.len() <= usize::MAX,
    ensures
        r@ == interleaved(a@, b@),
{
    itertools::interleave(a, b).collect()
}

} // verus!
