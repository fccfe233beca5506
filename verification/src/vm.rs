//! The error types of the PolkaVM virtual machine. The library carries them
//! from the machine to the caller without looking inside.
use vstd::prelude::*;

verus! {

#[verifier::external_type_specification]
#[verifier::external_body]
pub struct ExMemoryAccessError(polkavm::MemoryAccessError);

#[verifier::external_type_specification]
#[verifier::external_body]
pub struct ExVmError(polkavm::Error);

#[verifier::external_type_specification]
#[verifier::external_body]
#[verifier::reject_recursive_types(UserError)]
pub struct ExCallError<UserError>(polkavm::CallError<UserError>);

} // verus!
