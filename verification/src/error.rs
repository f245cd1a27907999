use vstd::prelude::*;

verus! {

/// The errors reported by the option parser.
#[derive(Debug)]
pub enum Error {
    InvalidOptionStr(String),
    InvalidOptionType(String),
    InvaldOptionValue(String, String),
    InvaldOptionId(String),
    InvalidNextArgument,
    NullOptionType,
    NullOptionName,
    UtilsNotSupportDeactivateStyle(String),
    UtilsNotSupportTypeName(String, String),
    DuplicateOptionType(String),
    ArgumentRequired(String),
    OptionForceRequired(String),
    NonOptionForceRequired(String),
    InvalidCallbackType(String, String),
    InavlidNonOptionIndex(String),
    RaisedError(String),
}

pub type Result<T> = core::result::Result<T, Error>;

} // verus!
