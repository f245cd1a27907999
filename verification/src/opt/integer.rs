use vstd::prelude::*;

use crate::error::Result;
use crate::id::Identifier;
use crate::opt::{Opt, OptionInfo};
use crate::opt::common::{CommonOpt, OptKind, kind_type_name};
use crate::utils::{CreateInfo, Utils, create_opt};
use crate::utils::create::create_outcome;

verus! {

/// The type name of `int`.
pub fn current_type() -> (r: &'static str)
    ensures
        r@ == kind_type_name(OptKind::Int),
{
    "int"
}

/// An option of type `int`.
pub trait Int: Opt {

}

/// Creates the options of type `int`.
///
/// `int` options take a signed integer argument: `-i -42`.
#[derive(Debug)]
pub struct IntUtils;

impl IntUtils {
    pub fn new() -> (r: Self) {
        IntUtils
    }
}

impl Utils for IntUtils {
    open spec fn spec_kind(&self) -> OptKind {
        OptKind::Int
    }

    fn get_type_name(&self) -> (r: &str) {
        current_type()
    }

    fn is_support_deactivate_style(&self) -> (r: bool) {
        false
    }

    fn create(&self, id: Identifier, ci: &CreateInfo) -> (r: Result<CommonOpt>) {
        create_opt(OptKind::Int, id, ci)
    }

    fn gen_info(&self, opt: &CommonOpt) -> (r: OptionInfo) {
        OptionInfo::new(opt.id)
    }
}

} // verus!
