//! Tagged scalar values and the pooled register allocator.
use vstd::prelude::*;

use crate::ProgramError;
use crate::pointer::Ptr;

verus! {

/// The size of a scope's register file: two named registers for each of the
/// six value variants.
pub const REGISTER_AMT: usize = 12;

/// The named registers of a scope, two per value variant.
#[derive(Debug, Clone, Copy, PartialEq, Eq, Structural)]
pub enum Reg {
    Byte0,
    Byte1,
    Word0,
    Word1,
    Ptr0,
    Ptr1,
    Float0,
    Float1,
    Char0,
    Char1,
    Bool0,
    Bool1,
}

impl Reg {
    /// The position of this name in a scope's register file.
    pub open spec fn slot(self) -> int {
        match self {
            Reg::Byte0 => 0,
            Reg::Byte1 => 1,
            Reg::Word0 => 2,
            Reg::Word1 => 3,
            Reg::Ptr0 => 4,
            Reg::Ptr1 => 5,
            Reg::Float0 => 6,
            Reg::Float1 => 7,
            Reg::Char0 => 8,
            Reg::Char1 => 9,
            Reg::Bool0 => 10,
            Reg::Bool1 => 11,
        }
    }

    /// Runtime counterpart of [`Reg::slot`].
    pub fn index(self) -> (i: usize)
        ensures
            i == self.slot(),
            i < REGISTER_AMT,
    {
        match self {
            Reg::Byte0 => 0,
            Reg::Byte1 => 1,
            Reg::Word0 => 2,
            Reg::Word1 => 3,
            Reg::Ptr0 => 4,
            Reg::Ptr1 => 5,
            Reg::Float0 => 6,
            Reg::Float1 => 7,
            Reg::Char0 => 8,
            Reg::Char1 => 9,
            Reg::Bool0 => 10,
            Reg::Bool1 => 11,
        }
    }
}

/// A tagged scalar, the one value shape shared by the operand stack and the
/// register pool.
///
/// `Float` carries the raw bit pattern of an IEEE 754 double, so that this
/// core stays free of floating-point arithmetic; callers move between the
/// two representations with `f64::to_bits` and `f64::from_bits`.
#[derive(Debug, Clone, Copy, PartialEq, Eq, Structural)]
pub enum Register {
    Byte(u8),
    Word(i16),
    Pointer(Ptr),
    Float(u64),
    Char(char),
    Bool(bool),
}

/// Whether two values carry the same variant tag. Register writes through a
/// scope must preserve the variant of the slot they overwrite.
pub open spec fn same_variant(a: Register, b: Register) -> bool {
    match (a, b) {
        (Register::Byte(_), Register::Byte(_)) => true,
        (Register::Word(_), Register::Word(_)) => true,
        (Register::Pointer(_), Register::Pointer(_)) => true,
        (Register::Float(_), Register::Float(_)) => true,
        (Register::Char(_), Register::Char(_)) => true,
        (Register::Bool(_), Register::Bool(_)) => true,
        _ => false,
    }
}

/// Runtime check for [`same_variant`].
pub fn variants_match(a: &Register, b: &Register) -> (r: bool)
    ensures
        r == same_variant(*a, *b),
{
    match (a, b) {
        (Register::Byte(_), Register::Byte(_)) => true,
        (Register::Word(_), Register::Word(_)) => true,
        (Register::Pointer(_), Register::Pointer(_)) => true,
        (Register::Float(_), Register::Float(_)) => true,
        (Register::Char(_), Register::Char(_)) => true,
        (Register::Bool(_), Register::Bool(_)) => true,
        _ => false,
    }
}

/// Whether `ptr` is a `Register`-kind handle whose slot is live in the pool
/// view `m`. Every pool operation that takes a handle succeeds exactly when
/// this holds.
pub open spec fn is_live(m: Map<u16, Register>, ptr: Ptr) -> bool {
    ptr matches Ptr::Register(id) && m.dom().contains(id)
}

/// Handle lifecycle law. Allocating `v` in an empty pool makes the view
/// `{id: v}` for the returned fresh handle, by `alloc_with`'s contract;
/// `get` on that handle is owed `Ok(v)`. After `free` — view
/// `{id: v}.remove(id)` by `free`'s contract — the handle is no longer
/// live, so `get` and a second `free` are both owed `InvalidPointer`.
pub proof fn lemma_handle_lifecycle(id: u16, v: Register)
    ensures
        ({
            let m = Map::<u16, Register>::empty().insert(id, v);
            &&& is_live(m, Ptr::Register(id))
            &&& m[id] == v
            &&& !is_live(m.remove(id), Ptr::Register(id))
        }),
{
}

/// A capacity-bounded arena of register slots addressed by `u16` slot id.
///
/// Its view is the live mapping from slot id to stored value. Slot ids are
/// handed out from a monotonically increasing counter; a freed id goes onto
/// a free list and is reused, most recently freed first, before a fresh id
/// is taken, and never while it is live.
pub struct RegisterPool {
    slots: Vec<Option<Register>>,
    free: Vec<u16>,
    live: usize,
    capacity: usize,
}

impl View for RegisterPool {
    type V = Map<u16, Register>;

    closed spec fn view(&self) -> Map<u16, Register> {
        Map::new(
            |id: u16| id < self.slots@.len() && self.slots@[id as int] is Some,
            |id: u16| self.slots@[id as int]->Some_0,
        )
    }
}

impl RegisterPool {
    /// The number of live slots.
    pub closed spec fn len(&self) -> nat {
        self.live as nat
    }

    /// The capacity fixed when the pool was created.
    pub closed spec fn capacity(&self) -> nat {
        self.capacity as nat
    }

    /// The freed slot ids available for reuse, oldest first; an allocation
    /// takes the last one before it takes a fresh id.
    pub closed spec fn free_list(&self) -> Seq<u16> {
        self.free@
    }

    /// The fresh id the next allocation takes once the free list is empty.
    pub closed spec fn next_id(&self) -> u16 {
        self.slots@.len() as u16
    }

    /// Internal consistency: the id counter stays within its id space, the
    /// free list holds distinct ids of exactly-dead slots, and the live count
    /// balances the books.
    pub closed spec fn wf(&self) -> bool {
        &&& self.capacity <= u16::MAX as usize
        &&& self.slots@.len() <= self.capacity
        &&& self.live + self.free@.len() == self.slots@.len()
        &&& forall|i: int|
            0 <= i < self.free@.len() ==> (#[trigger] self.free@[i]) < self.slots@.len()
                && self.slots@[self.free@[i] as int] is None
        &&& forall|i: int, j: int| 0 <= i < j < self.free@.len() ==> self.free@[i] != self.free@[j]
    }

    /// Live slots never outnumber the capacity.
    pub proof fn lemma_len_le_capacity(&self)
        requires
            self.wf(),
        ensures
            self.len() <= self.capacity(),
    {
    }

    /// While some slot is live, the free list cannot cover every slot: its
    /// distinct ids all point at dead slots, so at least one id is missing.
    proof fn lemma_free_list_not_full(&self, id: u16)
        requires
            self.wf(),
            id < self.slots@.len(),
            self.slots@[id as int] is Some,
        ensures
            self.free@.len() < self.slots@.len(),
    {
        broadcast use vstd::set::group_set_axioms;

        let n = self.slots@.len() as int;
        let ints = self.free@.map_values(|x: u16| x as int);
        assert(ints.no_duplicates()) by {
            assert forall|i: int, j: int|
                0 <= i < ints.len() && 0 <= j < ints.len() && i != j implies ints[i]
                != ints[j] by {
                if i < j {
                    assert(self.free@[i] != self.free@[j]);
                } else {
                    assert(self.free@[j] != self.free@[i]);
                }
            }
        }
        ints.unique_seq_to_set();
        let range = vstd::set_lib::set_int_range(0, n).remove(id as int);
        vstd::set_lib::lemma_int_range(0, n);
        assert(ints.to_set().subset_of(range)) by {
            assert forall|x: int| ints.to_set().contains(x) implies range.contains(x) by {
                let k = choose|k: int| 0 <= k < ints.len() && ints[k] == x;
                assert(self.free@[k] < self.slots@.len());
                assert(self.slots@[self.free@[k] as int] is None);
            }
        }
        vstd::set_lib::lemma_len_subset(ints.to_set(), range);
    }

    /// An empty pool of at most `capacity` slots. The capacity must fit the
    /// `u16` id space so the slot-id counter never wraps.
    pub fn new(capacity: usize) -> (p: RegisterPool)
        requires
            capacity <= u16::MAX as usize,
        ensures
            p.wf(),
            p@ == Map::<u16, Register>::empty(),
            p.len() == 0,
            p.capacity() == capacity,
            p.free_list() == Seq::<u16>::empty(),
            p.next_id() == 0,
    {
        let p = RegisterPool { slots: Vec::new(), free: Vec::new(), live: 0, capacity };
        proof {
            assert(p@ =~= Map::<u16, Register>::empty());
        }
        p
    }

    /// Stores `register` in a slot of its own and returns the handle to it.
    /// A freed slot is reused, most recently freed first; otherwise the next
    /// fresh id is taken. Fails with `TooManyRegisters`, leaving the pool
    /// unchanged, exactly when the live count has reached the capacity.
    pub fn alloc_with(&mut self, register: Register) -> (r: Result<Ptr, ProgramError>)
        requires
            old(self).wf(),
        ensures
            final(self).wf(),
            final(self).capacity() == old(self).capacity(),
            old(self).len() < old(self).capacity() ==> {
                &&& r matches Ok(Ptr::Register(id))
                &&& !old(self)@.dom().contains(id)
                &&& final(self)@ == old(self)@.insert(id, register)
                &&& final(self).len() == old(self).len() + 1
                &&& if old(self).free_list().len() > 0 {
                    &&& id == old(self).free_list().last()
                    &&& final(self).free_list() == old(self).free_list().drop_last()
                    &&& final(self).next_id() == old(self).next_id()
                } else {
                    &&& id == old(self).next_id()
                    &&& final(self).free_list() == old(self).free_list()
                    &&& final(self).next_id() == old(self).next_id() + 1
                }
            },
            old(self).len() >= old(self).capacity() ==> {
                &&& r == Err::<Ptr, ProgramError>(ProgramError::TooManyRegisters)
                &&& *final(self) == *old(self)
            },
    {
        if self.live < self.capacity {
            match self.free.pop() {
                Some(id) => {
                    self.slots[id as usize] = Some(register);
                    self.live = self.live + 1;
                    proof {
                        assert(self@ =~= old(self)@.insert(id, register));
                    }
                    Ok(Ptr::Register(id))
                },
                None => {
                    let id = self.slots.len() as u16;
                    self.slots.push(Some(register));
                    self.live = self.live + 1;
                    proof {
                        assert(self@ =~= old(self)@.insert(id, register));
                    }
                    Ok(Ptr::Register(id))
                },
            }
        } else {
            Err(ProgramError::TooManyRegisters)
        }
    }

    /// Releases the slot a `Register`-kind handle points to, returning its id
    /// to the free list. Fails with `InvalidPointer`, leaving the pool
    /// unchanged, for a non-`Register` handle and for a slot that is not
    /// live — so a second `free` of the same handle fails.
    pub fn free(&mut self, ptr: Ptr) -> (r: Result<(), ProgramError>)
        requires
            old(self).wf(),
        ensures
            final(self).wf(),
            final(self).capacity() == old(self).capacity(),
            final(self).next_id() == old(self).next_id(),
            is_live(old(self)@, ptr) ==> {
                &&& r == Ok::<(), ProgramError>(())
                &&& final(self)@ == old(self)@.remove(ptr->Register_0)
                &&& final(self).len() == old(self).len() - 1
                &&& final(self).free_list() == old(self).free_list().push(ptr->Register_0)
            },
            !is_live(old(self)@, ptr) ==> {
                &&& r == Err::<(), ProgramError>(ProgramError::InvalidPointer)
                &&& *final(self) == *old(self)
            },
    {
        if let Ptr::Register(id) = ptr {
            if (id as usize) < self.slots.len() && self.slots[id as usize].is_some() {
                proof {
                    self.lemma_free_list_not_full(id);
                }
                self.slots[id as usize] = None;
                self.free.push(id);
                self.live = self.live - 1;
                proof {
                    assert(self@ =~= old(self)@.remove(id));
                }
                Ok(())
            } else {
                Err(ProgramError::InvalidPointer)
            }
        } else {
            Err(ProgramError::InvalidPointer)
        }
    }

    /// Reads the value a `Register`-kind handle points to. Fails with
    /// `InvalidPointer` for a non-`Register` handle and for a slot that is
    /// not live, whether never allocated or already freed.
    pub fn get(&self, ptr: Ptr) -> (r: Result<&Register, ProgramError>)
        ensures
            is_live(self@, ptr) ==> ({
                &&& r matches Ok(v)
                &&& *v == self@[ptr->Register_0]
            }),
            !is_live(self@, ptr) ==> r == Err::<&Register, ProgramError>(
                ProgramError::InvalidPointer,
            ),
    {
        if let Ptr::Register(id) = ptr {
            if (id as usize) < self.slots.len() {
                match &self.slots[id as usize] {
                    Some(v) => Ok(v),
                    None => Err(ProgramError::InvalidPointer),
                }
            } else {
                Err(ProgramError::InvalidPointer)
            }
        } else {
            Err(ProgramError::InvalidPointer)
        }
    }

    /// Overwrites the value in the live slot a `Register`-kind handle points
    /// to; the slot stays live. Fails with `InvalidPointer`, leaving the
    /// pool unchanged, when the handle does not point to a live slot.
    pub(crate) fn set(&mut self, ptr: Ptr, value: Register) -> (r: Result<(), ProgramError>)
        requires
            old(self).wf(),
        ensures
            final(self).wf(),
            final(self).capacity() == old(self).capacity(),
            final(self).len() == old(self).len(),
            final(self).free_list() == old(self).free_list(),
            final(self).next_id() == old(self).next_id(),
            is_live(old(self)@, ptr) ==> {
                &&& r == Ok::<(), ProgramError>(())
                &&& final(self)@ == old(self)@.insert(ptr->Register_0, value)
            },
            !is_live(old(self)@, ptr) ==> {
                &&& r == Err::<(), ProgramError>(ProgramError::InvalidPointer)
                &&& final(self)@ == old(self)@
            },
    {
        if let Ptr::Register(id) = ptr {
            if (id as usize) < self.slots.len() && self.slots[id as usize].is_some() {
                self.slots[id as usize] = Some(value);
                proof {
                    assert(self@ =~= old(self)@.insert(id, value));
                }
                Ok(())
            } else {
                Err(ProgramError::InvalidPointer)
            }
        } else {
            Err(ProgramError::InvalidPointer)
        }
    }
}

} // verus!
