use vstd::prelude::*;

use crate::error::Result;
use crate::id::Identifier;
use crate::opt::{Opt, OptionInfo};
use crate::opt::common::{CommonOpt, OptKind, kind_type_name};
use crate::utils::{CreateInfo, Utils, create_opt};
use crate::utils::create::create_outcome;

verus! {

/// The type name of `str`.
pub fn current_type() -> (r: &'static str)
    ensures
        r@ == kind_type_name(OptKind::Str),
{
    "str"
}

/// An option of type `str`.
pub trait Str: Opt {

}

/// Creates the options of type `str`.
///
/// `str` options take a string argument: `-s value`, `-s=value`, `--str value`.
#[derive(Debug)]
pub struct StrUtils;

impl StrUtils {
    pub fn new() -> (r: Self) {
        StrUtils
    }
}

impl Utils for StrUtils {
    open spec fn spec_kind(&self) -> OptKind {
        OptKind::Str
    }

    fn get_type_name(&self) -> (r: &str) {
        current_type()
    }

    fn is_support_deactivate_style(&self) -> (r: bool) {
        false
    }

    fn create(&self, id: Identifier, ci: &CreateInfo) -> (r: Result<CommonOpt>) {
        create_opt(OptKind::Str, id, ci)
    }

    fn gen_info(&self, opt: &CommonOpt) -> (r: OptionInfo) {
        OptionInfo::new(opt.id)
    }
}

} // verus!
