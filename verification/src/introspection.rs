use vstd::prelude::*;

use crate::errors::ErrorCodes;
use crate::identity::KeyId;

verus! {

/// What the execution environment reports about the transaction that is
/// currently executing: the issuing program of each instruction, in order,
/// and the position of the instruction that invoked the engine's current
/// frame. The environment injects this read-only view; the engine never
/// constructs it for itself.
pub struct TransactionContext {
    /// `programs[i]` is the identity of the program that issued the `i`-th
    /// instruction of the transaction.
    pub programs: Vec<KeyId>,
    /// The position of the instruction that invoked the current frame. When
    /// the engine was called directly — not as a nested call from another
    /// program — no such instruction exists and this points past the end.
    pub current_index: usize,
}

/// The identity of the program whose instruction invoked the current frame,
/// if the current call is a nested call at all.
pub open spec fn invoker_of(ctx: TransactionContext) -> Option<KeyId> {
    if ctx.current_index < ctx.programs@.len() {
        Some(ctx.programs@[ctx.current_index as int])
    } else {
        None
    }
}

/// The caller privilege verifier: succeeds exactly when the instruction that
/// invoked the current frame was issued by `expected`. This is stronger than
/// a signature check — it proves which program's code path issued the
/// request, not merely which key authorized the transaction. Read-only.
pub fn verify_immediate_caller(ctx: &TransactionContext, expected: KeyId) -> (r: Result<
    (),
    ErrorCodes,
>)
    ensures
        r is Ok <==> invoker_of(*ctx) == Some(expected),
        r is Err ==> r == Err::<(), ErrorCodes>(ErrorCodes::InsufficientPrivileges),
{
    if ctx.current_index < ctx.programs.len() {
        let p = ctx.programs[ctx.current_index];
        if p == expected {
            Ok(())
        } else {
            Err(ErrorCodes::InsufficientPrivileges)
        }
    } else {
        Err(ErrorCodes::InsufficientPrivileges)
    }
}

} // verus!
