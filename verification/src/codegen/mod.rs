//! From declarations to the artifacts that the machine and its interface
//! convention require.
use vstd::prelude::*;
use heck::ToSnakeCase;

pub mod event;
pub mod registry;
pub mod storage;

verus! {

/// The snake-case form of an identifier.
pub uninterp spec fn snake_case_ident(ident: Seq<char>) -> Seq<char>;

/// Rewrites `ident` in snake case.
///
/// Calls `heck::ToSnakeCase::to_snake_case` on a `str`. The contract gives
/// the text that comes back a name: it depends on `ident` alone.
#[verifier::external_body]
pub(crate) fn to_snake_case(ident: &str) -> (snake: String)
    ensures
        snake@ == snake_case_ident(ident@),
{
    ident.to_snake_case()
}

} // verus!
