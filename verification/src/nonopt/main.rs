use vstd::prelude::*;

use crate::error::Result;
use crate::id::Identifier;
use crate::opt::OptionInfo;
use super::NonOpt;
use crate::opt::common::{CommonOpt, OptKind, kind_type_name};
use crate::utils::{CreateInfo, Utils, create_opt};
use crate::utils::create::create_outcome;

verus! {

/// The type name of `main`.
pub fn current_type() -> (r: &'static str)
    ensures
        r@ == kind_type_name(OptKind::Main),
{
    "main"
}

/// An option of type `main`.
pub trait Main: NonOpt {

}

/// Creates the options of type `main`.
///
/// `main` non-options stand for all non-option arguments; they are always optional.
#[derive(Debug)]
pub struct MainUtils;

impl MainUtils {
    pub fn new() -> (r: Self) {
        MainUtils
    }
}

impl Utils for MainUtils {
    open spec fn spec_kind(&self) -> OptKind {
        OptKind::Main
    }

    fn get_type_name(&self) -> (r: &str) {
        current_type()
    }

    fn is_support_deactivate_style(&self) -> (r: bool) {
        false
    }

    fn create(&self, id: Identifier, ci: &CreateInfo) -> (r: Result<CommonOpt>) {
        create_opt(OptKind::Main, id, ci)
    }

    fn gen_info(&self, opt: &CommonOpt) -> (r: OptionInfo) {
        OptionInfo::new(opt.id)
    }
}

} // verus!
