//! A fixed named register file whose storage lives in a register pool.
use vstd::prelude::*;

use crate::ProgramError;
use crate::pointer::Ptr;
use crate::register::{REGISTER_AMT, Reg, Register, RegisterPool, is_live, same_variant,
    variants_match};

verus! {

/// The value a freshly created scope stores in the register at position `i`
/// of its file: the zero, null or false value of that register's variant.
pub open spec fn initial_register(i: int) -> Register {
    if i < 2 {
        Register::Byte(0)
    } else if i < 4 {
        Register::Word(0)
    } else if i < 6 {
        Register::Pointer(Ptr::Null)
    } else if i < 8 {
        Register::Float(0)
    } else if i < 10 {
        Register::Char('\0')
    } else {
        Register::Bool(false)
    }
}

/// Runtime counterpart of [`initial_register`].
fn initial_register_at(i: usize) -> (r: Register)
    requires
        i < REGISTER_AMT,
    ensures
        r == initial_register(i as int),
{
    if i < 2 {
        Register::Byte(0)
    } else if i < 4 {
        Register::Word(0)
    } else if i < 6 {
        Register::Pointer(Ptr::Null)
    } else if i < 8 {
        Register::Float(0)
    } else if i < 10 {
        Register::Char('\0')
    } else {
        Register::Bool(false)
    }
}

/// Write-then-read law. When a named register's handle points to the live
/// slot `id` and `v` carries the slot's variant, `write`'s contract makes
/// the pool view `m.insert(id, v)`; the slot is still live there and holds
/// exactly `v`, so `read` through the same handle is owed `Ok(v)`.
pub proof fn lemma_write_then_read(m: Map<u16, Register>, id: u16, v: Register)
    requires
        m.dom().contains(id),
        same_variant(m[id], v),
    ensures
        is_live(m.insert(id, v), Ptr::Register(id)),
        m.insert(id, v)[id] == v,
{
}

/// A register file of [`REGISTER_AMT`] named entries, each holding a handle
/// into a register pool. The pool is not captured: every operation takes it
/// as a short-lived capability, so several scopes can share one pool and
/// interleave access, as nested call frames need.
///
/// Its view is the sequence of handles, in the order of [`Reg::slot`].
pub struct Scope {
    ptrs: Vec<Ptr>,
}

impl View for Scope {
    type V = Seq<Ptr>;

    closed spec fn view(&self) -> Seq<Ptr> {
        self.ptrs@
    }
}

impl Scope {
    /// A scope always holds exactly one handle per named register.
    pub open spec fn wf(&self) -> bool {
        self@.len() == REGISTER_AMT
    }

    /// The handle the named register currently addresses.
    pub open spec fn ptr_of(&self, name: Reg) -> Ptr {
        self@[name.slot()]
    }

    /// Eagerly allocates the twelve named registers from `pool`, each with
    /// the zero value of its variant, and succeeds exactly when the pool has
    /// at least twelve slots left. On the first failed allocation it stops
    /// and propagates the pool's own capacity error; the slots already taken
    /// are deliberately left allocated — frees here are explicit and
    /// caller-driven, never implicit.
    pub fn create(pool: &mut RegisterPool) -> (r: Result<Scope, ProgramError>)
        requires
            old(pool).wf(),
        ensures
            final(pool).wf(),
            final(pool).capacity() == old(pool).capacity(),
            old(pool)@.submap_of(final(pool)@),
            old(pool).len() + REGISTER_AMT <= old(pool).capacity() ==> ({
                &&& r matches Ok(scope)
                &&& scope.wf()
                &&& final(pool).len() == old(pool).len() + REGISTER_AMT
                &&& forall|i: int|
                    0 <= i < REGISTER_AMT ==> ({
                        &&& (#[trigger] scope@[i]) matches Ptr::Register(id)
                        &&& !old(pool)@.dom().contains(id)
                        &&& final(pool)@.dom().contains(id)
                        &&& final(pool)@[id] == initial_register(i)
                    })
                &&& forall|i: int, j: int| 0 <= i < j < REGISTER_AMT ==> scope@[i] != scope@[j]
            }),
            old(pool).len() + REGISTER_AMT > old(pool).capacity() ==> ({
                &&& r == Err::<Scope, ProgramError>(ProgramError::TooManyRegisters)
                &&& final(pool).len() == final(pool).capacity()
            }),
    {
        let mut ptrs: Vec<Ptr> = Vec::new();
        let mut i: usize = 0;
        while i < REGISTER_AMT
            invariant
                i <= REGISTER_AMT,
                pool.wf(),
                pool.capacity() == old(pool).capacity(),
                pool.len() == old(pool).len() + i,
                old(pool)@.submap_of(pool@),
                ptrs@.len() == i,
                forall|j: int|
                    0 <= j < i ==> ({
                        &&& (#[trigger] ptrs@[j]) matches Ptr::Register(id)
                        &&& !old(pool)@.dom().contains(id)
                        &&& pool@.dom().contains(id)
                        &&& pool@[id] == initial_register(j)
                    }),
                forall|j: int, k: int| 0 <= j < k < i ==> ptrs@[j] != ptrs@[k],
            decreases REGISTER_AMT - i,
        {
            let value = initial_register_at(i);
            match pool.alloc_with(value) {
                Ok(ptr) => {
                    ptrs.push(ptr);
                },
                Err(e) => {
                    proof {
                        pool.lemma_len_le_capacity();
                    }
                    return Err(e);
                },
            }
            i = i + 1;
        }
        proof {
            pool.lemma_len_le_capacity();
        }
        Ok(Scope { ptrs })
    }

    /// Dereferences the named register's current handle through the pool;
    /// fails with `InvalidPointer` when that handle does not point to a live
    /// slot.
    pub fn read(&self, pool: &RegisterPool, name: Reg) -> (r: Result<Register, ProgramError>)
        requires
            self.wf(),
        ensures
            is_live(pool@, self.ptr_of(name)) ==> r == Ok::<Register, ProgramError>(
                pool@[self.ptr_of(name)->Register_0],
            ),
            !is_live(pool@, self.ptr_of(name)) ==> r == Err::<Register, ProgramError>(
                ProgramError::InvalidPointer,
            ),
    {
        let ptr = self.ptrs[name.index()];
        match pool.get(ptr) {
            Ok(v) => Ok(*v),
            Err(e) => Err(e),
        }
    }

    /// Overwrites the value in the pool slot the named register currently
    /// addresses. Fails with `InvalidPointer` when the handle does not point
    /// to a live slot, and with `TypeMismatch` when `value`'s variant differs
    /// from the variant already stored there; on failure the pool is left
    /// unchanged.
    pub fn write(&self, pool: &mut RegisterPool, name: Reg, value: Register) -> (r: Result<
        (),
        ProgramError,
    >)
        requires
            self.wf(),
            old(pool).wf(),
        ensures
            final(pool).wf(),
            final(pool).capacity() == old(pool).capacity(),
            final(pool).len() == old(pool).len(),
            final(pool).free_list() == old(pool).free_list(),
            final(pool).next_id() == old(pool).next_id(),
            !is_live(old(pool)@, self.ptr_of(name)) ==> ({
                &&& r == Err::<(), ProgramError>(ProgramError::InvalidPointer)
                &&& final(pool)@ == old(pool)@
            }),
            is_live(old(pool)@, self.ptr_of(name)) && !same_variant(
                old(pool)@[self.ptr_of(name)->Register_0],
                value,
            ) ==> ({
                &&& r == Err::<(), ProgramError>(ProgramError::TypeMismatch)
                &&& final(pool)@ == old(pool)@
            }),
            is_live(old(pool)@, self.ptr_of(name)) && same_variant(
                old(pool)@[self.ptr_of(name)->Register_0],
                value,
            ) ==> ({
                &&& r == Ok::<(), ProgramError>(())
                &&& final(pool)@ == old(pool)@.insert(self.ptr_of(name)->Register_0, value)
            }),
    {
        let ptr = self.ptrs[name.index()];
        let current = match pool.get(ptr) {
            Ok(v) => *v,
            Err(e) => {
                return Err(e);
            },
        };
        if variants_match(&current, &value) {
            pool.set(ptr, value)
        } else {
            Err(ProgramError::TypeMismatch)
        }
    }

    /// Rebinds the named register to `handle`: the name addresses a
    /// different slot afterwards, and no slot's contents change. The slot
    /// bound before is not freed — all frees are explicit and caller-driven.
    pub fn bind(&mut self, name: Reg, handle: Ptr)
        requires
            old(self).wf(),
        ensures
            final(self).wf(),
            final(self)@ == old(self)@.update(name.slot(), handle),
    {
        let i = name.index();
        self.ptrs[i] = handle;
    }
}

} // verus!
