use vstd::prelude::*;

use crate::error::Result;
use crate::id::Identifier;
use crate::opt::{Opt, OptionInfo};
use crate::opt::common::{CommonOpt, OptKind, kind_type_name};
use crate::utils::{CreateInfo, Utils, create_opt};
use crate::utils::create::create_outcome;

verus! {

/// The type name of `bool`.
pub fn current_type() -> (r: &'static str)
    ensures
        r@ == kind_type_name(OptKind::Bool),
{
    "bool"
}

/// An option of type `bool`.
pub trait Bool: Opt {

}

/// Creates the options of type `bool`.
///
/// `bool` options take no argument: `-b`; those with the deactivate style start as true and are switched off by `-/b`.
#[derive(Debug)]
pub struct BoolUtils;

impl BoolUtils {
    pub fn new() -> (r: Self) {
        BoolUtils
    }
}

impl Utils for BoolUtils {
    open spec fn spec_kind(&self) -> OptKind {
        OptKind::Bool
    }

    fn get_type_name(&self) -> (r: &str) {
        current_type()
    }

    fn is_support_deactivate_style(&self) -> (r: bool) {
        true
    }

    fn create(&self, id: Identifier, ci: &CreateInfo) -> (r: Result<CommonOpt>) {
        create_opt(OptKind::Bool, id, ci)
    }

    fn gen_info(&self, opt: &CommonOpt) -> (r: OptionInfo) {
        OptionInfo::new(opt.id)
    }
}

} // verus!
