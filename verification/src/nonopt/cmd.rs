use vstd::prelude::*;

use crate::error::Result;
use crate::id::Identifier;
use crate::opt::OptionInfo;
use super::NonOpt;
use crate::opt::common::{CommonOpt, OptKind, kind_type_name};
use crate::utils::{CreateInfo, Utils, create_opt};
use crate::utils::create::create_outcome;

verus! {

/// The type name of `cmd`.
pub fn current_type() -> (r: &'static str)
    ensures
        r@ == kind_type_name(OptKind::Cmd),
{
    "cmd"
}

/// An option of type `cmd`.
pub trait Cmd: NonOpt {

}

/// Creates the options of type `cmd`.
///
/// `cmd` non-options stand for the first non-option argument, the name of a sub command; they are always force required.
#[derive(Debug)]
pub struct CmdUtils;

impl CmdUtils {
    pub fn new() -> (r: Self) {
        CmdUtils
    }
}

impl Utils for CmdUtils {
    open spec fn spec_kind(&self) -> OptKind {
        OptKind::Cmd
    }

    fn get_type_name(&self) -> (r: &str) {
        current_type()
    }

    fn is_support_deactivate_style(&self) -> (r: bool) {
        false
    }

    fn create(&self, id: Identifier, ci: &CreateInfo) -> (r: Result<CommonOpt>) {
        create_opt(OptKind::Cmd, id, ci)
    }

    fn gen_info(&self, opt: &CommonOpt) -> (r: OptionInfo) {
        OptionInfo::new(opt.id)
    }
}

} // verus!
