use rewards::errors::ErrorCodes;
use rewards::identity::KeyId;
use rewards::introspection::{verify_immediate_caller, TransactionContext};

fn prog(n: u64) -> KeyId {
    KeyId { w0: n, w1: 0, w2: 0, w3: 0 }
}

#[test]
fn accepts_the_expected_invoker() {
    let ctx = TransactionContext { programs: vec![prog(2)], current_index: 0 };
    assert_eq!(verify_immediate_caller(&ctx, prog(2)), Ok(()));
}

#[test]
fn rejects_a_different_invoker() {
    let ctx = TransactionContext { programs: vec![prog(9)], current_index: 0 };
    assert_eq!(
        verify_immediate_caller(&ctx, prog(2)),
        Err(ErrorCodes::InsufficientPrivileges)
    );
}

#[test]
fn rejects_a_call_with_no_enclosing_instruction() {
    let ctx = TransactionContext { programs: vec![], current_index: 0 };
    assert_eq!(
        verify_immediate_caller(&ctx, prog(2)),
        Err(ErrorCodes::InsufficientPrivileges)
    );
    let past_end = TransactionContext { programs: vec![prog(2)], current_index: 5 };
    assert_eq!(
        verify_immediate_caller(&past_end, prog(2)),
        Err(ErrorCodes::InsufficientPrivileges)
    );
}

#[test]
fn reads_the_instruction_at_the_current_position() {
    let ctx = TransactionContext { programs: vec![prog(1), prog(2), prog(3)], current_index: 1 };
    assert_eq!(verify_immediate_caller(&ctx, prog(2)), Ok(()));
    assert_eq!(
        verify_immediate_caller(&ctx, prog(1)),
        Err(ErrorCodes::InsufficientPrivileges)
    );
}
