use vstd::prelude::*;

use crate::error::{Error, Result};
use crate::id::Identifier;
use crate::callback::CallbackType;
use crate::opt::{NonOptIndexView, OptValueView, OptionInfo};
use crate::opt::common::{CommonOpt, OptKind, is_opt_kind, kind_type_name};
use crate::text::str_eq;
use super::{CreateInfo, alias_view};

verus! {

/// The option `o` is what `create` builds for `kind` from `ci` under `id`.
pub open spec fn created_from(o: CommonOpt, kind: OptKind, id: Identifier, ci: CreateInfo) -> bool {
    &&& o.id == id
    &&& o.kind == kind
    &&& o.name@ == ci.opt_name@
    &&& o.callback == CallbackType::Null
    &&& match kind {
        OptKind::Pos => {
            &&& o.prefix@.len() == 0
            &&& o.optional == ci.optional
            &&& o.value@ == OptValueView::Null
            &&& o.default_value@ == OptValueView::Null
            &&& !o.deactivate_style
            &&& o.alias@.len() == 0
            &&& o.index@ == ci.opt_index@
        },
        OptKind::Cmd => {
            &&& o.prefix@.len() == 0
            &&& !o.optional
            &&& o.value@ == OptValueView::Null
            &&& o.default_value@ == OptValueView::Null
            &&& !o.deactivate_style
            &&& o.alias@.len() == 0
            &&& o.index@ == NonOptIndexView::Forward(1)
        },
        OptKind::Main => {
            &&& o.prefix@.len() == 0
            &&& o.optional
            &&& o.value@ == OptValueView::Null
            &&& o.default_value@ == OptValueView::Null
            &&& !o.deactivate_style
            &&& o.alias@.len() == 0
            &&& o.index@ == NonOptIndexView::Null
        },
        OptKind::Bool => {
            &&& o.prefix@ == ci.opt_prefix@
            &&& o.optional == ci.optional
            &&& o.value@ == OptValueView::Bool(ci.deactivate)
            &&& o.default_value@ == OptValueView::Bool(ci.deactivate)
            &&& o.deactivate_style == ci.deactivate
            &&& alias_view(o.alias@) == alias_view(ci.opt_alias@)
            &&& o.index@ == NonOptIndexView::Null
        },
        _ => {
            &&& o.prefix@ == ci.opt_prefix@
            &&& o.optional == ci.optional
            &&& o.value@ == ci.opt_value@
            &&& o.default_value@ == ci.opt_value@
            &&& !o.deactivate_style
            &&& alias_view(o.alias@) == alias_view(ci.opt_alias@)
            &&& o.index@ == NonOptIndexView::Null
        },
    }
}

/// The text that a refused deactivate style carries: the type name for `str`
/// options, the option's name for every other kind.
pub open spec fn deactivate_refusal_text(kind: OptKind, ci: CreateInfo) -> Seq<char> {
    if kind == OptKind::Str { ci.opt_type@ } else { ci.opt_name@ }
}

/// What creating an option of `kind` from `ci` gives: only `bool` options take the
/// deactivate style, and the type name of `ci` must be that of `kind`.
pub open spec fn create_outcome(kind: OptKind, id: Identifier, ci: CreateInfo, r: Result<CommonOpt>) -> bool {
    if ci.deactivate && kind != OptKind::Bool {
        r matches Err(Error::UtilsNotSupportDeactivateStyle(m)) && m@ == deactivate_refusal_text(kind, ci)
    } else if ci.opt_type@ != kind_type_name(kind) {
        r matches Err(Error::UtilsNotSupportTypeName(a, b)) && a@ == kind_type_name(kind) && b@ == ci.opt_type@
    } else {
        r matches Ok(o) && created_from(o, kind, id, ci)
    }
}

/// The kind whose type name is `s`.
pub open spec fn kind_of_name(s: Seq<char>) -> Option<OptKind> {
    if s == "str"@ {
        Some(OptKind::Str)
    } else if s == "bool"@ {
        Some(OptKind::Bool)
    } else if s == "array"@ {
        Some(OptKind::Array)
    } else if s == "int"@ {
        Some(OptKind::Int)
    } else if s == "uint"@ {
        Some(OptKind::Uint)
    } else if s == "path"@ {
        Some(OptKind::Path)
    } else if s == "pos"@ {
        Some(OptKind::Pos)
    } else if s == "cmd"@ {
        Some(OptKind::Cmd)
    } else if s == "main"@ {
        Some(OptKind::Main)
    } else {
        None
    }
}

/// The type name of `kind`.
pub fn type_name_of(kind: OptKind) -> (r: &'static str)
    ensures
        r@ == kind_type_name(kind),
{
    match kind {
        OptKind::Str => "str",
        OptKind::Bool => "bool",
        OptKind::Array => "array",
        OptKind::Int => "int",
        OptKind::Uint => "uint",
        OptKind::Path => "path",
        OptKind::Pos => "pos",
        OptKind::Cmd => "cmd",
        OptKind::Main => "main",
    }
}

/// The kind whose type name is `s`, if there is one.
pub fn kind_from_name(s: &str) -> (r: Option<OptKind>)
    ensures
        r == kind_of_name(s@),
        r matches Some(k) ==> kind_type_name(k) == s@,
{
    proof {
        reveal_strlit("str");
        reveal_strlit("bool");
        reveal_strlit("array");
        reveal_strlit("int");
        reveal_strlit("uint");
        reveal_strlit("path");
        reveal_strlit("pos");
        reveal_strlit("cmd");
        reveal_strlit("main");
    }
    if str_eq(s, "str") {
        Some(OptKind::Str)
    } else if str_eq(s, "bool") {
        Some(OptKind::Bool)
    } else if str_eq(s, "array") {
        Some(OptKind::Array)
    } else if str_eq(s, "int") {
        Some(OptKind::Int)
    } else if str_eq(s, "uint") {
        Some(OptKind::Uint)
    } else if str_eq(s, "path") {
        Some(OptKind::Path)
    } else if str_eq(s, "pos") {
        Some(OptKind::Pos)
    } else if str_eq(s, "cmd") {
        Some(OptKind::Cmd)
    } else if str_eq(s, "main") {
        Some(OptKind::Main)
    } else {
        None
    }
}

/// Create an option of `kind` from the information `ci`, with identifier `id`.
pub fn create_opt(kind: OptKind, id: Identifier, ci: &CreateInfo) -> (r: Result<CommonOpt>)
    ensures
        create_outcome(kind, id, *ci, r),
{
    if ci.deactivate && kind != OptKind::Bool {
        if kind == OptKind::Str {
            return Err(Error::UtilsNotSupportDeactivateStyle(ci.opt_type.clone()));
        }
        return Err(Error::UtilsNotSupportDeactivateStyle(ci.opt_name.clone()));
    }
    let tname = type_name_of(kind);
    if !str_eq(ci.opt_type.as_str(), tname) {
        return Err(Error::UtilsNotSupportTypeName(tname.to_owned(), ci.opt_type.clone()));
    }
    let name = ci.opt_name.clone();
    let prefix = ci.opt_prefix.clone();
    let mut opt = match kind {
        OptKind::Str => CommonOpt::new_str(id, name, prefix, ci.optional, ci.opt_value.clone_or()),
        OptKind::Bool => CommonOpt::new_bool(id, name, prefix, ci.optional, ci.deactivate),
        OptKind::Array => CommonOpt::new_array(id, name, prefix, ci.optional, ci.opt_value.clone_or()),
        OptKind::Int => CommonOpt::new_int(id, name, prefix, ci.optional, ci.opt_value.clone_or()),
        OptKind::Uint => CommonOpt::new_uint(id, name, prefix, ci.optional, ci.opt_value.clone_or()),
        OptKind::Path => CommonOpt::new_path(id, name, prefix, ci.optional, ci.opt_value.clone_or()),
        OptKind::Pos => CommonOpt::new_pos(id, name, ci.optional, ci.opt_index.clone()),
        OptKind::Cmd => CommonOpt::new_cmd(id, name),
        OptKind::Main => CommonOpt::new_main(id, name),
    };
    if opt.is_opt() {
        let mut i: usize = 0;
        while i < ci.opt_alias.len()
            invariant
                i <= ci.opt_alias@.len(),
                alias_view(opt.alias@) == alias_view(ci.opt_alias@).subrange(0, i as int),
                opt.id == id,
                opt.kind == kind,
                is_opt_kind(kind),
                opt.name@ == ci.opt_name@,
                opt.callback == CallbackType::Null,
                opt.prefix@ == ci.opt_prefix@,
                opt.optional == ci.optional,
                kind == OptKind::Bool ==> opt.value@ == OptValueView::Bool(ci.deactivate),
                kind == OptKind::Bool ==> opt.default_value@ == OptValueView::Bool(ci.deactivate),
                kind == OptKind::Bool ==> opt.deactivate_style == ci.deactivate,
                kind != OptKind::Bool ==> opt.value@ == ci.opt_value@,
                kind != OptKind::Bool ==> opt.default_value@ == ci.opt_value@,
                kind != OptKind::Bool ==> !opt.deactivate_style,
                opt.index@ == NonOptIndexView::Null,
            decreases ci.opt_alias@.len() - i,
        {
            let ghost before = opt.alias@;
            let a = &ci.opt_alias[i];
            opt.alias.push((a.0.clone(), a.1.clone()));
            proof {
                assert(alias_view(opt.alias@) =~= alias_view(before).push((a.0@, a.1@)));
                assert(alias_view(ci.opt_alias@).subrange(0, i + 1) =~= alias_view(ci.opt_alias@).subrange(0, i as int).push((a.0@, a.1@)));
            }
            i = i + 1;
        }
        assert(alias_view(ci.opt_alias@).subrange(0, ci.opt_alias@.len() as int) =~= alias_view(ci.opt_alias@));
    }
    Ok(opt)
}

/// The utility that creates the options of one type.
pub trait Utils {
    /// The kind of option this utility creates.
    spec fn spec_kind(&self) -> OptKind;

    /// The type name of the options this utility creates.
    fn get_type_name(&self) -> (r: &str)
        ensures
            r@ == kind_type_name(self.spec_kind()),
    ;

    /// Only `bool` options support the deactivate style.
    fn is_support_deactivate_style(&self) -> (r: bool)
        ensures
            r == (self.spec_kind() == OptKind::Bool),
    ;

    /// Create an option with identifier `id` from `ci`.
    fn create(&self, id: Identifier, ci: &CreateInfo) -> (r: Result<CommonOpt>)
        ensures
            create_outcome(self.spec_kind(), id, *ci, r),
    ;

    /// The information the parser keeps of `opt`.
    fn gen_info(&self, opt: &CommonOpt) -> (r: OptionInfo)
        ensures
            r.id == opt.id,
    ;
}

} // verus!
