use vm_core::ProgramError;
use vm_core::Ptr;
use vm_core::Reg;
use vm_core::Register;
use vm_core::RegisterPool;
use vm_core::Scope;

#[test]
fn two_scopes() -> Result<(), ProgramError> {
    /* the pool is a per-call capability, so two scopes can share it */
    let mut pool = RegisterPool::new(64);
    let outer = Scope::create(&mut pool)?;
    let inner = Scope::create(&mut pool)?;
    outer.write(&mut pool, Reg::Word0, Register::Word(100))?;
    inner.write(&mut pool, Reg::Word0, Register::Word(-100))?;
    /* each scope keeps its own storage */
    assert_eq!(outer.read(&pool, Reg::Word0)?, Register::Word(100));
    assert_eq!(inner.read(&pool, Reg::Word0)?, Register::Word(-100));
    Ok(())
}

#[test]
fn create_initial_values() -> Result<(), ProgramError> {
    let mut pool = RegisterPool::new(32);
    let scope = Scope::create(&mut pool)?;
    assert_eq!(scope.read(&pool, Reg::Byte0)?, Register::Byte(0));
    assert_eq!(scope.read(&pool, Reg::Byte1)?, Register::Byte(0));
    assert_eq!(scope.read(&pool, Reg::Word0)?, Register::Word(0));
    assert_eq!(scope.read(&pool, Reg::Word1)?, Register::Word(0));
    assert_eq!(scope.read(&pool, Reg::Ptr0)?, Register::Pointer(Ptr::Null));
    assert_eq!(scope.read(&pool, Reg::Ptr1)?, Register::Pointer(Ptr::Null));
    assert_eq!(scope.read(&pool, Reg::Float0)?, Register::Float(0));
    assert_eq!(scope.read(&pool, Reg::Float1)?, Register::Float(0));
    assert_eq!(scope.read(&pool, Reg::Char0)?, Register::Char('\0'));
    assert_eq!(scope.read(&pool, Reg::Char1)?, Register::Char('\0'));
    assert_eq!(scope.read(&pool, Reg::Bool0)?, Register::Bool(false));
    assert_eq!(scope.read(&pool, Reg::Bool1)?, Register::Bool(false));
    Ok(())
}

#[test]
fn write_read_each_name() -> Result<(), ProgramError> {
    let mut pool = RegisterPool::new(32);
    let scope = Scope::create(&mut pool)?;
    let cases = vec![
        (Reg::Byte0, Register::Byte(7)),
        (Reg::Byte1, Register::Byte(255)),
        (Reg::Word0, Register::Word(-321)),
        (Reg::Word1, Register::Word(321)),
        (Reg::Ptr0, Register::Pointer(Ptr::Register(3))),
        (Reg::Ptr1, Register::Pointer(Ptr::Static(9))),
        (Reg::Float0, Register::Float(3.14f64.to_bits())),
        (Reg::Float1, Register::Float((-0.5f64).to_bits())),
        (Reg::Char0, Register::Char('k')),
        (Reg::Char1, Register::Char('\n')),
        (Reg::Bool0, Register::Bool(true)),
        (Reg::Bool1, Register::Bool(false)),
    ];
    for (name, value) in cases {
        scope.write(&mut pool, name, value)?;
        assert_eq!(scope.read(&pool, name)?, value);
    }
    Ok(())
}

#[test]
fn write_wrong_variant_rejected() -> Result<(), ProgramError> {
    let mut pool = RegisterPool::new(32);
    let scope = Scope::create(&mut pool)?;
    assert_eq!(
        scope.write(&mut pool, Reg::Byte0, Register::Bool(true)),
        Err(ProgramError::TypeMismatch)
    );
    /* the slot kept its previous value */
    assert_eq!(scope.read(&pool, Reg::Byte0)?, Register::Byte(0));
    Ok(())
}

#[test]
fn create_insufficient_slots() -> Result<(), ProgramError> {
    /* fewer than 12 free slots: the pool's own capacity error propagates */
    let mut small = RegisterPool::new(11);
    assert!(matches!(
        Scope::create(&mut small),
        Err(ProgramError::TooManyRegisters)
    ));
    /* a partially exhausted pool fails the same way */
    let mut pool = RegisterPool::new(20);
    let _first = Scope::create(&mut pool)?;
    assert!(matches!(
        Scope::create(&mut pool),
        Err(ProgramError::TooManyRegisters)
    ));
    Ok(())
}

#[test]
fn bind_aliases_slot() -> Result<(), ProgramError> {
    let mut pool = RegisterPool::new(32);
    let mut scope = Scope::create(&mut pool)?;
    let shared = pool.alloc_with(Register::Word(41))?;
    /* rebinding changes which slot the name addresses, not slot contents */
    scope.bind(Reg::Word0, shared);
    assert_eq!(scope.read(&pool, Reg::Word0)?, Register::Word(41));
    scope.write(&mut pool, Reg::Word0, Register::Word(42))?;
    assert_eq!(*pool.get(shared)?, Register::Word(42));
    Ok(())
}

#[test]
fn bind_null_read_fails() -> Result<(), ProgramError> {
    let mut pool = RegisterPool::new(32);
    let mut scope = Scope::create(&mut pool)?;
    scope.bind(Reg::Ptr0, Ptr::Null);
    assert_eq!(
        scope.read(&pool, Reg::Ptr0),
        Err(ProgramError::InvalidPointer)
    );
    assert_eq!(
        scope.write(&mut pool, Reg::Ptr0, Register::Pointer(Ptr::Null)),
        Err(ProgramError::InvalidPointer)
    );
    Ok(())
}

#[test]
fn read_after_backing_slot_freed() -> Result<(), ProgramError> {
    let mut pool = RegisterPool::new(32);
    let mut scope = Scope::create(&mut pool)?;
    let extra = pool.alloc_with(Register::Byte(9))?;
    scope.bind(Reg::Byte0, extra);
    pool.free(extra)?;
    /* a stale handle is detected, not dereferenced */
    assert_eq!(
        scope.read(&pool, Reg::Byte0),
        Err(ProgramError::InvalidPointer)
    );
    Ok(())
}
