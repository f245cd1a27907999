use vstd::prelude::*;

use crate::error::Result;
use crate::id::Identifier;
use crate::opt::{Opt, OptionInfo};
use crate::opt::common::{CommonOpt, OptKind, kind_type_name};
use crate::utils::{CreateInfo, Utils, create_opt};
use crate::utils::create::create_outcome;

verus! {

/// The type name of `path`.
pub fn current_type() -> (r: &'static str)
    ensures
        r@ == kind_type_name(OptKind::Path),
{
    "path"
}

/// An option of type `path`.
pub trait Path: Opt {

}

/// Creates the options of type `path`.
///
/// `path` options take the path of something that exists: `-p /tmp`.
#[derive(Debug)]
pub struct PathUtils;

impl PathUtils {
    pub fn new() -> (r: Self) {
        PathUtils
    }
}

impl Utils for PathUtils {
    open spec fn spec_kind(&self) -> OptKind {
        OptKind::Path
    }

    fn get_type_name(&self) -> (r: &str) {
        current_type()
    }

    fn is_support_deactivate_style(&self) -> (r: bool) {
        false
    }

    fn create(&self, id: Identifier, ci: &CreateInfo) -> (r: Result<CommonOpt>) {
        create_opt(OptKind::Path, id, ci)
    }

    fn gen_info(&self, opt: &CommonOpt) -> (r: OptionInfo) {
        OptionInfo::new(opt.id)
    }
}

} // verus!
