use vstd::prelude::*;

use crate::error::Result;
use crate::id::Identifier;
use crate::opt::{Opt, OptionInfo};
use crate::opt::common::{CommonOpt, OptKind, kind_type_name};
use crate::utils::{CreateInfo, Utils, create_opt};
use crate::utils::create::create_outcome;

verus! {

/// The type name of `uint`.
pub fn current_type() -> (r: &'static str)
    ensures
        r@ == kind_type_name(OptKind::Uint),
{
    "uint"
}

/// An option of type `uint`.
pub trait Uint: Opt {

}

/// Creates the options of type `uint`.
///
/// `uint` options take an unsigned integer argument: `-u 42`.
#[derive(Debug)]
pub struct UintUtils;

impl UintUtils {
    pub fn new() -> (r: Self) {
        UintUtils
    }
}

impl Utils for UintUtils {
    open spec fn spec_kind(&self) -> OptKind {
        OptKind::Uint
    }

    fn get_type_name(&self) -> (r: &str) {
        current_type()
    }

    fn is_support_deactivate_style(&self) -> (r: bool) {
        false
    }

    fn create(&self, id: Identifier, ci: &CreateInfo) -> (r: Result<CommonOpt>) {
        create_opt(OptKind::Uint, id, ci)
    }

    fn gen_info(&self, opt: &CommonOpt) -> (r: OptionInfo) {
        OptionInfo::new(opt.id)
    }
}

} // verus!
