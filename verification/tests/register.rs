use vm_core::ProgramError;
use vm_core::Ptr;
use vm_core::Register;
use vm_core::RegisterPool;

fn a() -> Register {
    Register::Bool(false)
}

#[test]
fn alloc_free() -> Result<(), ProgramError> {
    let mut rpool = RegisterPool::new(1024);
    let ptr = rpool.alloc_with(a())?;
    assert_eq!(*rpool.get(ptr)?, a());
    rpool.free(ptr)?;
    /* double free should err */
    assert_eq!(rpool.free(ptr), Err(ProgramError::InvalidPointer));
    /* access to freed mem should err */
    assert_eq!(rpool.get(ptr), Err(ProgramError::InvalidPointer));
    Ok(())
}

#[test]
fn wrong_ptr_typ() {
    let rpool = RegisterPool::new(1024);
    let wrong_ptr = Ptr::Memory(420);
    assert_eq!(rpool.get(wrong_ptr), Err(ProgramError::InvalidPointer));
}

#[test]
fn too_many() -> Result<(), ProgramError> {
    let mut rpool = RegisterPool::new(1024);
    let first = rpool.alloc_with(a())?;
    /* fill up the pool */
    for _ in 0..(1024 - 1) {
        rpool.alloc_with(a())?;
    }
    assert_eq!(rpool.alloc_with(a()), Err(ProgramError::TooManyRegisters));
    rpool.free(first)?;
    assert!(rpool.alloc_with(a()).is_ok());
    Ok(())
}

#[test]
fn other_handle_kinds_rejected() {
    let mut rpool = RegisterPool::new(8);
    assert_eq!(rpool.get(Ptr::Static(3)), Err(ProgramError::InvalidPointer));
    assert_eq!(rpool.get(Ptr::Null), Err(ProgramError::InvalidPointer));
    assert_eq!(rpool.free(Ptr::Static(3)), Err(ProgramError::InvalidPointer));
    assert_eq!(rpool.free(Ptr::Null), Err(ProgramError::InvalidPointer));
}

#[test]
fn never_allocated_rejected() {
    let rpool = RegisterPool::new(8);
    assert_eq!(rpool.get(Ptr::Register(0)), Err(ProgramError::InvalidPointer));
    assert_eq!(rpool.get(Ptr::Register(7)), Err(ProgramError::InvalidPointer));
}

#[test]
fn freed_slot_reused_most_recent_first() -> Result<(), ProgramError> {
    let mut rpool = RegisterPool::new(8);
    let p0 = rpool.alloc_with(Register::Byte(10))?;
    let p1 = rpool.alloc_with(Register::Byte(11))?;
    let p2 = rpool.alloc_with(Register::Byte(12))?;
    rpool.free(p0)?;
    rpool.free(p2)?;
    /* the most recently freed slot comes back first */
    let q = rpool.alloc_with(Register::Byte(20))?;
    assert_eq!(q, p2);
    let r = rpool.alloc_with(Register::Byte(21))?;
    assert_eq!(r, p0);
    /* the untouched slot kept its value throughout */
    assert_eq!(*rpool.get(p1)?, Register::Byte(11));
    Ok(())
}

#[test]
fn capacity_boundary_exact() -> Result<(), ProgramError> {
    let mut rpool = RegisterPool::new(3);
    for i in 0..3u8 {
        rpool.alloc_with(Register::Byte(i))?;
    }
    /* the (capacity + 1)-th allocation is the one that fails */
    assert_eq!(
        rpool.alloc_with(Register::Byte(99)),
        Err(ProgramError::TooManyRegisters)
    );
    Ok(())
}

#[test]
fn get_returns_each_stored_value() -> Result<(), ProgramError> {
    let mut rpool = RegisterPool::new(16);
    let pb = rpool.alloc_with(Register::Byte(7))?;
    let pw = rpool.alloc_with(Register::Word(-3))?;
    let pp = rpool.alloc_with(Register::Pointer(Ptr::Null))?;
    let pf = rpool.alloc_with(Register::Float(1.5f64.to_bits()))?;
    let pc = rpool.alloc_with(Register::Char('q'))?;
    let pl = rpool.alloc_with(Register::Bool(true))?;
    assert_eq!(*rpool.get(pb)?, Register::Byte(7));
    assert_eq!(*rpool.get(pw)?, Register::Word(-3));
    assert_eq!(*rpool.get(pp)?, Register::Pointer(Ptr::Null));
    assert_eq!(*rpool.get(pf)?, Register::Float(1.5f64.to_bits()));
    assert_eq!(*rpool.get(pc)?, Register::Char('q'));
    assert_eq!(*rpool.get(pl)?, Register::Bool(true));
    Ok(())
}
