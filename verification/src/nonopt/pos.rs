use vstd::prelude::*;

use crate::error::Result;
use crate::id::Identifier;
use crate::opt::OptionInfo;
use super::NonOpt;
use crate::opt::common::{CommonOpt, OptKind, kind_type_name};
use crate::utils::{CreateInfo, Utils, create_opt};
use crate::utils::create::create_outcome;

verus! {

/// The type name of `pos`.
pub fn current_type() -> (r: &'static str)
    ensures
        r@ == kind_type_name(OptKind::Pos),
{
    "pos"
}

/// An option of type `pos`.
pub trait Pos: NonOpt {

}

/// Creates the options of type `pos`.
///
/// `pos` non-options stand for the non-option argument at their index: `name=pos@2`.
#[derive(Debug)]
pub struct PosUtils;

impl PosUtils {
    pub fn new() -> (r: Self) {
        PosUtils
    }
}

impl Utils for PosUtils {
    open spec fn spec_kind(&self) -> OptKind {
        OptKind::Pos
    }

    fn get_type_name(&self) -> (r: &str) {
        current_type()
    }

    fn is_support_deactivate_style(&self) -> (r: bool) {
        false
    }

    fn create(&self, id: Identifier, ci: &CreateInfo) -> (r: Result<CommonOpt>) {
        create_opt(OptKind::Pos, id, ci)
    }

    fn gen_info(&self, opt: &CommonOpt) -> (r: OptionInfo) {
        OptionInfo::new(opt.id)
    }
}

} // verus!
