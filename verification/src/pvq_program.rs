//! The parts of a PVQ program, as the `#[program]` attribute reads them:
//! the extension functions it calls and its entry point. Neither takes a
//! receiver.
use vstd::prelude::*;
use crate::naming::FoundCrateModel;
use crate::syntax::{FnArgModel, SignatureModel};
use crate::program::{first_root_attr, take_first_root_attr, AttrModel};

verus! {

/// Why an item of a PVQ program was refused.
#[derive(Debug, PartialEq, Eq, Structural)]
pub enum PvqProgramError {
    MissingExtensionId,
    ExtensionFnExpectedItemFn,
    ExtensionFnReceiver,
    MissingFnIndex,
    EntrypointReceiver,
    EntrypointExpectedItemFn,
}

impl PvqProgramError {
    /// The message that the compiler shows for the error.
    pub fn message(&self) -> (r: &'static str)
        ensures
            r@ == self.spec_message(),
    {
        match self {
            PvqProgramError::MissingExtensionId => "Missing extension_id for program::extension_fn, expected #[program::extension_fn(extension_id = SOME_U64)]",
            PvqProgramError::ExtensionFnExpectedItemFn => "Invalid program::extension_fn, expected item fn",
            PvqProgramError::ExtensionFnReceiver => "Invalid program::extension_fn, expected function inputs to not be receiver",
            PvqProgramError::MissingFnIndex => "Missing fn_index for program::extension_fn, expected #[program::extension_fn(fn_index = SOME_U32)]",
            PvqProgramError::EntrypointReceiver => "Invalid program::entrypoint, expected fn args are not receiver type",
            PvqProgramError::EntrypointExpectedItemFn => "Invalid program::entrypoint, expected item fn",
        }
    }

    pub open spec fn spec_message(&self) -> Seq<char> {
        match self {
            PvqProgramError::MissingExtensionId => "Missing extension_id for program::extension_fn, expected #[program::extension_fn(extension_id = SOME_U64)]"@,
            PvqProgramError::ExtensionFnExpectedItemFn => "Invalid program::extension_fn, expected item fn"@,
            PvqProgramError::ExtensionFnReceiver => "Invalid program::extension_fn, expected function inputs to not be receiver"@,
            PvqProgramError::MissingFnIndex => "Missing fn_index for program::extension_fn, expected #[program::extension_fn(fn_index = SOME_U32)]"@,
            PvqProgramError::EntrypointReceiver => "Invalid program::entrypoint, expected fn args are not receiver type"@,
            PvqProgramError::EntrypointExpectedItemFn => "Invalid program::entrypoint, expected item fn"@,
        }
    }
}

/// Some input of the signature is a receiver.
pub open spec fn has_receiver(inputs: Seq<FnArgModel>) -> bool {
    exists|j: int| 0 <= j < inputs.len() && inputs[j] is Receiver
}

/// Whether some input is a receiver.
pub fn any_receiver(inputs: &Vec<FnArgModel>) -> (r: bool)
    ensures
        r == has_receiver(inputs@),
{
    let mut i: usize = 0;
    while i < inputs.len()
        invariant
            0 <= i <= inputs@.len(),
            forall|j: int| 0 <= j < i ==> !(inputs@[j] is Receiver),
        decreases inputs@.len() - i,
    {
        if let FnArgModel::Receiver = &inputs[i] {
            return true;
        }
        i = i + 1;
    }
    false
}

/// The extension function declared by an item.
pub open spec fn extension_fn_from(
    item_fn: Option<SignatureModel>,
    extension_id: Option<u64>,
    fn_index: Option<u32>,
) -> Result<ExtensionFn, PvqProgramError> {
    match extension_id {
        None => Err(PvqProgramError::MissingExtensionId),
        Some(id) => match item_fn {
            None => Err(PvqProgramError::ExtensionFnExpectedItemFn),
            Some(sig) => if has_receiver(sig.inputs@) {
                Err(PvqProgramError::ExtensionFnReceiver)
            } else {
                match fn_index {
                    None => Err(PvqProgramError::MissingFnIndex),
                    Some(k) => Ok(ExtensionFn { item_fn: sig, extension_id: id, fn_index: k }),
                }
            },
        },
    }
}

/// The entry point declared by an item.
pub open spec fn entrypoint_from(item_fn: Option<SignatureModel>) -> Result<EntrypointDef, PvqProgramError> {
    match item_fn {
        None => Err(PvqProgramError::EntrypointExpectedItemFn),
        Some(sig) => if has_receiver(sig.inputs@) {
            Err(PvqProgramError::EntrypointReceiver)
        } else {
            Ok(EntrypointDef { item_fn: sig })
        },
    }
}

/// An extension function that a PVQ program calls: its signature, the
/// extension and the index of the function in it.
pub struct ExtensionFn {
    pub item_fn: SignatureModel,
    pub extension_id: u64,
    pub fn_index: u32,
}

impl ExtensionFn {
    /// The extension function declared by an item: the extension
    /// identifier, then a function without receiver, then the function
    /// index are required, in that order.
    pub fn try_from(item_fn: Option<SignatureModel>, extension_id: Option<u64>, fn_index: Option<u32>) -> (r: Result<ExtensionFn, PvqProgramError>)
        ensures
            r == extension_fn_from(item_fn, extension_id, fn_index),
    {
        let extension_id = match extension_id {
            None => return Err(PvqProgramError::MissingExtensionId),
            Some(id) => id,
        };
        let item_fn = match item_fn {
            None => return Err(PvqProgramError::ExtensionFnExpectedItemFn),
            Some(sig) => sig,
        };
        if any_receiver(&item_fn.inputs) {
            return Err(PvqProgramError::ExtensionFnReceiver);
        }
        let fn_index = match fn_index {
            None => return Err(PvqProgramError::MissingFnIndex),
            Some(k) => k,
        };
        Ok(ExtensionFn { item_fn, extension_id, fn_index })
    }
}

/// The entry point of a PVQ program.
pub struct EntrypointDef {
    pub item_fn: SignatureModel,
}

impl EntrypointDef {
    /// The entry point declared by an item: a function without receiver.
    pub fn try_from(item_fn: Option<SignatureModel>) -> (r: Result<EntrypointDef, PvqProgramError>)
        ensures
            r == entrypoint_from(item_fn),
    {
        match item_fn {
            None => Err(PvqProgramError::EntrypointExpectedItemFn),
            Some(sig) => {
                if any_receiver(&sig.inputs) {
                    Err(PvqProgramError::EntrypointReceiver)
                } else {
                    Ok(EntrypointDef { item_fn: sig })
                }
            },
        }
    }
}

/// How code generated for a PVQ program reaches the crate `def_crate`, where
/// it was `found`: inside the crate itself, by the crate's own name with each
/// `-` written `_`; from a dependency, by the name it has there.
pub fn generate_crate_access(def_crate: &str, found: &FoundCrateModel) -> (r: String)
    ensures
        found is Itself ==> r@ == def_crate@.map_values(|c: char| if c == '-' { '_' } else { c }),
        found matches FoundCrateModel::Name(name) ==> r@ == name@,
{
    match found {
        FoundCrateModel::Itself => crate::naming::replace_dashes(def_crate),
        FoundCrateModel::Name(name) => name.clone(),
    }
}

/// Takes the first `#[program::...]` attribute out of an item's attributes,
/// where `models` describes them one for one: that attribute is returned
/// and the others keep their order; where there is none, nothing changes.
pub fn take_first_program_attr<T>(attrs: &mut Vec<T>, models: &Vec<AttrModel>) -> (r: Option<T>)
    requires
        old(attrs)@.len() == models@.len(),
    ensures
        first_root_attr(models@, "program"@) matches Some(k) ==> r == Some(old(attrs)@[k])
            && final(attrs)@ == old(attrs)@.remove(k),
        first_root_attr(models@, "program"@) is None ==> r is None && final(attrs)@ == old(
            attrs,
        )@,
{
    take_first_root_attr(attrs, models, "program")
}

/// The name of the enum whose one variant carries a call of the extension
/// function `fn_name`: the function's name followed by `Call`.
pub fn extension_call_enum_name(fn_name: &String) -> (r: String)
    ensures
        r@ == fn_name@ + "Call"@,
{
    fn_name.clone().concat("Call")
}

} // verus!
