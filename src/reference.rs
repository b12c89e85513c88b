use vstd::prelude::*;

verus! {

/// A reference to an indirect object of the output: a strictly positive
/// identity, handed out in increasing order by a bump allocator.
#[derive(Clone, Copy, Debug, PartialEq, Eq, Structural)]
pub struct Ref {
    id: i32,
}

impl View for Ref {
    type V = int;

    closed spec fn view(&self) -> int {
        self.id as int
    }
}

/// One step of the bump allocator: `out` is the reference handed out when the
/// allocator stood at `before`, and `after` is where it stands next.
pub open spec fn bump_step(before: Ref, out: Ref, after: Ref) -> bool {
    out == before && out@ == before@ && after@ == before@ + 1
}

/// Bumping an allocator seeded with `seed` again and again hands out `seed`,
/// `seed + 1`, `seed + 2`, ... in turn, so no two of the references are the
/// same. `states[i]` is the allocator before the `i`-th call and `outs[i]`
/// what that call returned.
pub proof fn lemma_bump_run(seed: int, states: Seq<Ref>, outs: Seq<Ref>)
    requires
        states.len() == outs.len() + 1,
        states[0]@ == seed,
        forall|i: int| 0 <= i < outs.len() ==> bump_step(states[i], #[trigger] outs[i], states[i + 1]),
    ensures
        forall|i: int| 0 <= i < outs.len() ==> #[trigger] outs[i]@ == seed + i,
        forall|i: int, j: int| 0 <= i < j < outs.len() ==> outs[i] != outs[j],
    decreases outs.len(),
{
    if outs.len() > 0 {
        let n = outs.len() - 1;
        lemma_bump_run(seed, states.take(n + 1), outs.take(n));
        assert forall|i: int| 0 <= i < outs.len() implies #[trigger] outs[i]@ == seed + i by {
            if i < n {
                assert(outs.take(n)[i] == outs[i]);
            } else {
                assert(bump_step(states[n], outs[n], states[n + 1]));
                assert(states.take(n + 1)[n] == states[n]);
                if n > 0 {
                    assert(bump_step(states[n - 1], outs[n - 1], states[n]));
                    assert(outs.take(n)[n - 1] == outs[n - 1]);
                }
            }
        }
        assert forall|i: int, j: int| 0 <= i < j < outs.len() implies outs[i] != outs[j] by {
            assert(outs[i]@ == seed + i);
            assert(outs[j]@ == seed + j);
        }
    }
}

impl Ref {
    #[verifier::type_invariant]
    spec fn positive(self) -> bool {
        self.id > 0
    }

    /// Create a new indirect reference; the value must be greater than zero.
    pub fn new(id: i32) -> (r: Ref)
        requires
            id > 0,
        ensures
            r@ == id as int,
    {
        Ref { id }
    }

    /// Create a reference, or `None` where `id` is not strictly positive.
    pub fn try_new(id: i32) -> (r: Option<Ref>)
        ensures
            r is Some <==> id > 0,
            r matches Some(v) ==> v@ == id as int,
    {
        if id > 0 {
            Some(Ref::new(id))
        } else {
            None
        }
    }

    /// Return the underlying number as a primitive type.
    pub fn get(self) -> (r: i32)
        ensures
            r as int == self@,
            r > 0,
    {
        proof {
            use_type_invariant(self);
        }
        self.id
    }

    /// The next consecutive reference.
    pub fn next(self) -> (r: Ref)
        requires
            self@ < i32::MAX,
        ensures
            r@ == self@ + 1,
    {
        Ref::new(self.get() + 1)
    }

    /// Increase this reference by one and return the old value, which turns
    /// a reference into a bump allocator.
    pub fn bump(&mut self) -> (r: Ref)
        requires
            old(self)@ < i32::MAX,
        ensures
            bump_step(*old(self), r, *final(self)),
    {
        let prev = *self;
        *self = self.next();
        prev
    }
}

} // verus!
