//! Fixed-capacity LIFO operand stack with stack-manipulation primitives.
use vstd::prelude::*;

use crate::ProgramError;
use crate::register::Register;

verus! {

/// The top `window.len()` elements treated as a ring and shifted by `k`
/// positions: the element `k` places above the window's bottom becomes the
/// new bottom of the window.
pub open spec fn rotated(window: Seq<Register>, k: int) -> Seq<Register>
    recommends
        0 <= k <= window.len(),
{
    window.subrange(k, window.len() as int) + window.subrange(0, k)
}

/// The view of a stack after `k` of its values have been popped: each
/// successful `pop` drops the last element, so `k` pops keep the first
/// `len - k`.
pub open spec fn after_pops(s: Seq<Register>, k: int) -> Seq<Register>
    recommends
        0 <= k <= s.len(),
{
    s.take(s.len() - k)
}

/// LIFO law. Pushing the values of `vs`, in order, onto a stack whose view
/// is `s` makes the view `s + vs`, by `push`'s contract. Each of the next
/// `vs.len()` pops then acts on a non-empty stack, the `k`-th of them
/// (counting from zero) returns `vs[vs.len() - 1 - k]` — the pushed values
/// come back in exactly reversed order — and afterwards the view is `s`
/// again.
pub proof fn lemma_lifo(s: Seq<Register>, vs: Seq<Register>)
    ensures
        forall|k: int| 0 <= k < vs.len() ==> #[trigger] after_pops(s + vs, k).len() > 0,
        forall|k: int|
            0 <= k < vs.len() ==> #[trigger] after_pops(s + vs, k).last() == vs[vs.len() - 1 - k],
        forall|k: int|
            0 <= k < vs.len() ==> #[trigger] after_pops(s + vs, k).drop_last() == after_pops(
                s + vs,
                k + 1,
            ),
        after_pops(s + vs, vs.len() as int) == s,
{
    assert forall|k: int| 0 <= k < vs.len() implies #[trigger] after_pops(s + vs, k).last()
        == vs[vs.len() - 1 - k] by {
        assert((s + vs)[s.len() + vs.len() - 1 - k] == vs[vs.len() - 1 - k]);
    }
    assert forall|k: int| 0 <= k < vs.len() implies #[trigger] after_pops(s + vs, k).drop_last()
        == after_pops(s + vs, k + 1) by {
        assert(after_pops(s + vs, k).drop_last() =~= after_pops(s + vs, k + 1));
    }
    assert(after_pops(s + vs, vs.len() as int) =~= s);
}

/// Duplication law. After `dup` on a non-empty stack below capacity the view
/// is `s.push(s.last())`, by `dup`'s contract; the next two pops both return
/// the old top, and the stack then holds `s` with its top removed.
pub proof fn lemma_duplicate_top(s: Seq<Register>)
    requires
        s.len() > 0,
    ensures
        s.push(s.last()).last() == s.last(),
        s.push(s.last()).drop_last() == s,
        s.push(s.last()).drop_last().last() == s.last(),
        s.push(s.last()).drop_last().drop_last() == s.drop_last(),
{
    assert(s.push(s.last()).drop_last() =~= s);
}

/// Swap law. On a stack holding `a` then `b` (bottom to top), `swap`'s
/// contract makes the view `[b, a]`: the new top is `a`, so the next two
/// pops return `a` then `b`.
pub proof fn lemma_swap_two(a: Register, b: Register)
    ensures
        ({
            let t = seq![a, b].update(0int, b).update(1int, a);
            &&& t =~= seq![b, a]
            &&& t.last() == a
            &&& t.drop_last().last() == b
            &&& t.drop_last().drop_last() =~= Seq::<Register>::empty()
        }),
{
}

/// Rotation law. With `a, x, y, z` pushed (`z` topmost), `cycle(3, 1)`'s
/// contract keeps `a` and replaces the window `[x, y, z]` with its rotation
/// `[y, z, x]`, so the following pops return `x`, `z`, `y`, `a` in that
/// order.
pub proof fn lemma_cycle_three(a: Register, x: Register, y: Register, z: Register)
    ensures
        ({
            let s = seq![a, x, y, z];
            s.take(s.len() - 3) + rotated(s.skip(s.len() - 3), 1) =~= seq![a, y, z, x]
        }),
{
}

/// Reversal law. With `x, y, z` pushed, `flip`'s contract makes the view
/// `[x, y, z].reverse() == [z, y, x]`, so the following pops return `x`,
/// `y`, `z` — the old bottom-to-top order.
pub proof fn lemma_flip_three(x: Register, y: Register, z: Register)
    ensures
        seq![x, y, z].reverse() =~= seq![z, y, x],
{
}

/// A bounded LIFO buffer of values. Its view is the occupied slots,
/// bottom (index 0) to top (last index); the count never exceeds the
/// capacity fixed at construction.
#[derive(Debug, Clone)]
pub struct Stack {
    elems: Vec<Register>,
    capacity: usize,
}

impl View for Stack {
    type V = Seq<Register>;

    closed spec fn view(&self) -> Seq<Register> {
        self.elems@
    }
}

impl Stack {
    /// The capacity fixed when the stack was created.
    pub closed spec fn capacity(&self) -> nat {
        self.capacity as nat
    }

    /// The count of occupied slots never exceeds the capacity; every
    /// constructor establishes this and every operation preserves it.
    pub open spec fn wf(&self) -> bool {
        self@.len() <= self.capacity()
    }

    /// An empty stack that can hold at most `capacity` values.
    pub fn new(capacity: usize) -> (s: Stack)
        ensures
            s@ == Seq::<Register>::empty(),
            s.capacity() == capacity,
            s.wf(),
    {
        Stack { elems: Vec::new(), capacity }
    }

    /// Resets the count to zero; the capacity is kept.
    pub fn clear(&mut self)
        ensures
            final(self)@ == Seq::<Register>::empty(),
            final(self).capacity() == old(self).capacity(),
            final(self).wf(),
    {
        self.elems.clear();
    }

    /// The number of occupied slots.
    pub fn get_size(&self) -> (n: usize)
        ensures
            n == self@.len(),
    {
        self.elems.len()
    }

    /// Appends `value` at the top; at capacity it fails with `StackOverflow`
    /// and leaves the stack unchanged.
    pub fn push(&mut self, value: Register) -> (r: Result<(), ProgramError>)
        ensures
            final(self).capacity() == old(self).capacity(),
            old(self)@.len() < old(self).capacity() ==> {
                &&& r == Ok::<(), ProgramError>(())
                &&& final(self)@ == old(self)@.push(value)
            },
            old(self)@.len() >= old(self).capacity() ==> {
                &&& r == Err::<(), ProgramError>(ProgramError::StackOverflow)
                &&& final(self)@ == old(self)@
            },
            old(self).wf() ==> final(self).wf(),
    {
        if self.elems.len() < self.capacity {
            self.elems.push(value);
            Ok(())
        } else {
            Err(ProgramError::StackOverflow)
        }
    }

    /// Returns the top value without removing it; on an empty stack it fails
    /// with `StackUnderflow`.
    pub fn peek(&self) -> (r: Result<Register, ProgramError>)
        ensures
            self@.len() > 0 ==> r == Ok::<Register, ProgramError>(self@.last()),
            self@.len() == 0 ==> r == Err::<Register, ProgramError>(ProgramError::StackUnderflow),
    {
        if self.elems.len() > 0 {
            Ok(self.elems[self.elems.len() - 1])
        } else {
            Err(ProgramError::StackUnderflow)
        }
    }

    /// Removes and returns the top value; on an empty stack it fails with
    /// `StackUnderflow` and leaves the stack unchanged.
    pub fn pop(&mut self) -> (r: Result<Register, ProgramError>)
        ensures
            final(self).capacity() == old(self).capacity(),
            old(self)@.len() > 0 ==> {
                &&& r == Ok::<Register, ProgramError>(old(self)@.last())
                &&& final(self)@ == old(self)@.drop_last()
            },
            old(self)@.len() == 0 ==> {
                &&& r == Err::<Register, ProgramError>(ProgramError::StackUnderflow)
                &&& final(self)@ == old(self)@
            },
            old(self).wf() ==> final(self).wf(),
    {
        match self.elems.pop() {
            Some(value) => Ok(value),
            None => Err(ProgramError::StackUnderflow),
        }
    }

    /// Removes and discards the top value; on an empty stack it fails with
    /// `StackUnderflow` and leaves the stack unchanged.
    pub fn drop(&mut self) -> (r: Result<(), ProgramError>)
        ensures
            final(self).capacity() == old(self).capacity(),
            old(self)@.len() > 0 ==> {
                &&& r == Ok::<(), ProgramError>(())
                &&& final(self)@ == old(self)@.drop_last()
            },
            old(self)@.len() == 0 ==> {
                &&& r == Err::<(), ProgramError>(ProgramError::StackUnderflow)
                &&& final(self)@ == old(self)@
            },
            old(self).wf() ==> final(self).wf(),
    {
        match self.pop() {
            Ok(_) => Ok(()),
            Err(e) => Err(e),
        }
    }

    /// Pushes a copy of the current top. On an empty stack it fails with
    /// `StackUnderflow`; at capacity the push itself fails with
    /// `StackOverflow`. Either way the stack is left unchanged.
    pub fn dup(&mut self) -> (r: Result<(), ProgramError>)
        ensures
            final(self).capacity() == old(self).capacity(),
            old(self)@.len() == 0 ==> {
                &&& r == Err::<(), ProgramError>(ProgramError::StackUnderflow)
                &&& final(self)@ == old(self)@
            },
            0 < old(self)@.len() < old(self).capacity() ==> {
                &&& r == Ok::<(), ProgramError>(())
                &&& final(self)@ == old(self)@.push(old(self)@.last())
            },
            old(self)@.len() >= old(self).capacity() && old(self)@.len() > 0 ==> {
                &&& r == Err::<(), ProgramError>(ProgramError::StackOverflow)
                &&& final(self)@ == old(self)@
            },
            old(self).wf() ==> final(self).wf(),
    {
        match self.peek() {
            Ok(top) => self.push(top),
            Err(e) => Err(e),
        }
    }

    /// Exchanges the two topmost values. With one element present, the first
    /// of the two internal pops succeeds and the second fails, so the single
    /// element is already gone when `StackUnderflow` is reported; this
    /// asymmetric partial failure is deliberate and part of the contract.
    pub fn swap(&mut self) -> (r: Result<(), ProgramError>)
        requires
            old(self).wf(),
        ensures
            final(self).capacity() == old(self).capacity(),
            final(self).wf(),
            old(self)@.len() >= 2 ==> {
                &&& r == Ok::<(), ProgramError>(())
                &&& final(self)@ == old(self)@
                    .update(old(self)@.len() - 2, old(self)@.last())
                    .update(old(self)@.len() - 1, old(self)@[old(self)@.len() - 2])
            },
            old(self)@.len() == 1 ==> {
                &&& r == Err::<(), ProgramError>(ProgramError::StackUnderflow)
                &&& final(self)@ == Seq::<Register>::empty()
            },
            old(self)@.len() == 0 ==> {
                &&& r == Err::<(), ProgramError>(ProgramError::StackUnderflow)
                &&& final(self)@ == old(self)@
            },
    {
        let first = match self.pop() {
            Ok(v) => v,
            Err(e) => {
                return Err(e);
            },
        };
        let second = match self.pop() {
            Ok(v) => v,
            Err(e) => {
                return Err(e);
            },
        };
        let _ = self.push(first);
        let _ = self.push(second);
        proof {
            assert(final(self)@ =~= old(self)@
                .update(old(self)@.len() - 2, old(self)@.last())
                .update(old(self)@.len() - 1, old(self)@[old(self)@.len() - 2]));
        }
        Ok(())
    }

    /// Treats the top `elements` values as a ring and shifts them by
    /// `cycles` positions, so the value `cycles` places above the window's
    /// bottom becomes the new bottom. With fewer than `elements` values it
    /// fails with `StackUnderflow` and leaves the stack unchanged.
    /// `cycles >= elements` is a defect in the caller, not a data condition,
    /// and is excluded by contract rather than reported as an error.
    pub fn cycle(&mut self, elements: usize, cycles: usize) -> (r: Result<(), ProgramError>)
        requires
            cycles < elements,
        ensures
            final(self).capacity() == old(self).capacity(),
            old(self)@.len() >= elements ==> {
                &&& r == Ok::<(), ProgramError>(())
                &&& final(self)@ == old(self)@.take(old(self)@.len() - elements)
                    + rotated(old(self)@.skip(old(self)@.len() - elements), cycles as int)
            },
            old(self)@.len() < elements ==> {
                &&& r == Err::<(), ProgramError>(ProgramError::StackUnderflow)
                &&& final(self)@ == old(self)@
            },
            old(self).wf() ==> final(self).wf(),
    {
        let size = self.elems.len();
        if elements > size {
            return Err(ProgramError::StackUnderflow);
        }
        let bottom = size - elements;
        let mut window: Vec<Register> = Vec::new();
        let mut i: usize = 0;
        while i < elements
            invariant
                i <= elements,
                elements <= size,
                bottom == size - elements,
                size == self.elems@.len(),
                window@.len() == i,
                forall|j: int| 0 <= j < i ==> window@[j] == self.elems@[bottom + j],
            decreases elements - i,
        {
            window.push(self.elems[bottom + i]);
            i = i + 1;
        }
        let mut i: usize = 0;
        while i < elements
            invariant
                i <= elements,
                cycles < elements,
                elements <= size,
                bottom == size - elements,
                size == self.elems@.len(),
                window@.len() == elements,
                forall|j: int| 0 <= j < elements ==> #[trigger] window@[j] == old(self)@[bottom + j],
                self.capacity == old(self).capacity,
                self.elems@.len() == old(self)@.len(),
                forall|j: int| 0 <= j < bottom ==> #[trigger] self.elems@[j] == old(self)@[j],
                forall|j: int| i <= j < elements ==> #[trigger] self.elems@[bottom + j]
                    == old(self)@[bottom + j],
                forall|j: int| 0 <= j < i ==> #[trigger] self.elems@[bottom + j]
                    == window@[(j + cycles) % (elements as int)],
            decreases elements - i,
        {
            let threshold = elements - cycles;
            let source = if i < threshold {
                i + cycles
            } else {
                i - threshold
            };
            assert(source == (i + cycles) % (elements as int)) by {
                assert((i + cycles) % (elements as int) == if i + cycles < elements {
                    i + cycles
                } else {
                    i + cycles - elements
                }) by (nonlinear_arith)
                    requires
                        0 <= i < elements,
                        0 <= cycles < elements,
                ;
            }
            self.elems[bottom + i] = window[source];
            i = i + 1;
        }
        proof {
            let ghost w = old(self)@.skip(bottom as int);
            assert forall|j: int| 0 <= j < elements implies self.elems@[bottom + j]
                == rotated(w, cycles as int)[j] by {
                assert((j + cycles) % (elements as int) == if j + cycles < elements {
                    j + cycles
                } else {
                    j + cycles - elements
                }) by (nonlinear_arith)
                    requires
                        0 <= j < elements,
                        0 <= cycles < elements,
                ;
            }
            assert(self.elems@ =~= old(self)@.take(bottom as int)
                + rotated(old(self)@.skip(bottom as int), cycles as int));
        }
        Ok(())
    }

    /// Reverses the occupied slots in place; a total operation with no
    /// failure mode.
    pub fn flip(&mut self)
        ensures
            final(self).capacity() == old(self).capacity(),
            final(self)@ == old(self)@.reverse(),
            old(self).wf() ==> final(self).wf(),
    {
        let size = self.elems.len();
        let mut i: usize = 0;
        while i < size / 2
            invariant
                i <= size / 2,
                size == self.elems@.len(),
                self.capacity == old(self).capacity,
                self.elems@.len() == old(self)@.len(),
                forall|j: int| i <= j < size - i ==> #[trigger] self.elems@[j] == old(self)@[j],
                forall|j: int| 0 <= j < i ==> #[trigger] self.elems@[j] == old(self)@[size - 1 - j],
                forall|j: int| size - i <= j < size ==> #[trigger] self.elems@[j] == old(self)@[size
                    - 1 - j],
            decreases size / 2 - i,
        {
            let a = self.elems[i];
            let b = self.elems[size - 1 - i];
            self.elems[i] = b;
            self.elems[size - 1 - i] = a;
            i = i + 1;
        }
        proof {
            assert(self.elems@ =~= old(self)@.reverse());
        }
    }

    /// A copy of the occupied slots, bottom to top, for diagnostics and
    /// rendering outside this core.
    pub fn contents(&self) -> (v: Vec<Register>)
        ensures
            v@ == self@,
    {
        let mut v: Vec<Register> = Vec::new();
        let mut i: usize = 0;
        while i < self.elems.len()
            invariant
                i <= self.elems@.len(),
                v@ == self.elems@.take(i as int),
            decreases self.elems@.len() - i,
        {
            v.push(self.elems[i]);
            proof {
                assert(v@ =~= self.elems@.take(i + 1));
            }
            i = i + 1;
        }
        proof {
            assert(v@ =~= self.elems@);
        }
        v
    }
}

} // verus!
