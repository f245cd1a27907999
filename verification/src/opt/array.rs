use vstd::prelude::*;

use crate::error::Result;
use crate::id::Identifier;
use crate::opt::{Opt, OptionInfo};
use crate::opt::common::{CommonOpt, OptKind, kind_type_name};
use crate::utils::{CreateInfo, Utils, create_opt};
use crate::utils::create::create_outcome;

verus! {

/// The type name of `array`.
pub fn current_type() -> (r: &'static str)
    ensures
        r@ == kind_type_name(OptKind::Array),
{
    "array"
}

/// An option of type `array`.
pub trait Array: Opt {

}

/// Creates the options of type `array`.
///
/// `array` options collect the argument of every occurrence: `-a 1 -a 2`.
#[derive(Debug)]
pub struct ArrayUtils;

impl ArrayUtils {
    pub fn new() -> (r: Self) {
        ArrayUtils
    }
}

impl Utils for ArrayUtils {
    open spec fn spec_kind(&self) -> OptKind {
        OptKind::Array
    }

    fn get_type_name(&self) -> (r: &str) {
        current_type()
    }

    fn is_support_deactivate_style(&self) -> (r: bool) {
        false
    }

    fn create(&self, id: Identifier, ci: &CreateInfo) -> (r: Result<CommonOpt>) {
        create_opt(OptKind::Array, id, ci)
    }

    fn gen_info(&self, opt: &CommonOpt) -> (r: OptionInfo) {
        OptionInfo::new(opt.id)
    }
}

} // verus!
