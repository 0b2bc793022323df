use vstd::prelude::*;

verus! {

/// The computation-definition offset that the cluster derives from a
/// computation's name.
pub uninterp spec fn comp_def_offset_of(name: Seq<char>) -> u32;

/// Relies on arcium_anchor::comp_def_offset: the offset is a function of the
/// name alone.
#[verifier::external_body]
fn comp_def_offset(name: &str) -> (r: u32)
    ensures
        r == comp_def_offset_of(name@),
{
    arcium_anchor::comp_def_offset(name)
}

/// The identifier of the account-initialization computation.
pub open spec fn init_account_circuit() -> u32 {
    comp_def_offset_of("init_account"@)
}

/// Computes the identifier of the account-initialization computation from
/// its name, `init_account`.
pub fn init_account_circuit_id() -> (r: u32)
    ensures
        r == init_account_circuit(),
{
    comp_def_offset("init_account")
}

} // verus!
