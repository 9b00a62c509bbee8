use vamp_ir::error::CompileError;
use vamp_ir::vargen::VarGen;

#[test]
fn generated_ids_count_up_from_zero() {
    let mut gen = VarGen::new();
    assert_eq!(gen.generate_id(), 0);
    assert_eq!(gen.generate_id(), 1);
    assert_eq!(gen.generate_id(), 2);
    assert!(gen.has_next());
}

#[test]
fn a_generator_can_start_anywhere() {
    let mut gen = VarGen::starting_at(40);
    assert_eq!(gen.generate_id(), 40);
    assert_eq!(gen.try_generate_id(), Ok(41));
}

#[test]
fn the_last_identifier_is_never_issued() {
    let mut gen = VarGen::starting_at(u32::MAX - 1);
    assert!(gen.has_next());
    assert_eq!(gen.try_generate_id(), Ok(u32::MAX - 1));
    assert!(!gen.has_next());
    assert_eq!(
        gen.try_generate_id(),
        Err(CompileError::IdentifiersExhausted)
    );
    assert_eq!(
        gen.try_generate_id(),
        Err(CompileError::IdentifiersExhausted)
    );
}
