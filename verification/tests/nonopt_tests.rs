use getopt_rs::callback::CallbackType;
use getopt_rs::id::Identifier as IIdentifier;
use getopt_rs::opt::{Alias, Callback, Index, Name, NonOptIndex, OptValue, Optional, Style, Type, Value};
use getopt_rs::opt::Identifier as OptIdentifier;
use getopt_rs::utils::{CreateInfo, Utils};
use getopt_rs::nonopt::{cmd, main, pos};

#[test]
fn make_opt_type_pos_work() {
    let utils = pos::PosUtils::new();

    assert_eq!(utils.get_type_name(), pos::current_type());
    assert_eq!(utils.is_support_deactivate_style(), false);

    let ci = CreateInfo::parse("nonopt=pos@2", &vec![]).unwrap();
    let mut nonopt = utils.create(IIdentifier::new(1), &ci).unwrap();

    assert_eq!(nonopt.get_type_name(), "pos");
    assert_eq!(nonopt.is_deactivate_style(), false);
    assert_eq!(nonopt.is_style(Style::Pos), true);
    assert_eq!(nonopt.check().is_err(), false);

    assert_eq!(OptIdentifier::id(&nonopt).get(), 1);
    nonopt.set_id(IIdentifier::new(42));
    assert_eq!(OptIdentifier::id(&nonopt).get(), 42);

    assert_eq!(nonopt.callback_type(), CallbackType::Null);
    assert_eq!(nonopt.is_need_invoke(), false);
    nonopt.set_need_invoke(true);
    assert_eq!(nonopt.callback_type(), CallbackType::Index);
    assert_eq!(nonopt.is_need_invoke(), true);

    nonopt.add_alias("-", "c");
    assert_eq!(nonopt.alias(), None);
    assert_eq!(nonopt.match_alias("-", "c"), false);
    assert_eq!(nonopt.rem_alias("-", "c"), false);
    assert_eq!(nonopt.alias(), None);

    assert_eq!(nonopt.index(), &NonOptIndex::Forward(2));
    assert_eq!(nonopt.match_index(6, 2), true);
    nonopt.set_index(NonOptIndex::Forward(3));
    assert_eq!(nonopt.match_index(6, 3), true);

    assert_eq!(nonopt.name(), "nonopt");
    assert_eq!(nonopt.prefix(), "");
    assert_eq!(nonopt.match_name("opt"), true);
    assert_eq!(nonopt.match_name("opv"), true);
    assert_eq!(nonopt.match_prefix("--"), false);
    assert_eq!(nonopt.match_prefix("-"), false);
    nonopt.set_name("count");
    nonopt.set_prefix("+");
    assert_eq!(nonopt.match_name("count"), true);
    assert_eq!(nonopt.match_name("opt"), true);
    assert_eq!(nonopt.match_prefix("+"), false);
    assert_eq!(nonopt.match_prefix("--"), false);

    assert_eq!(nonopt.optional(), true);
    assert_eq!(nonopt.match_optional(true), true);
    nonopt.set_optional(false);
    assert_eq!(nonopt.optional(), false);
    assert_eq!(nonopt.match_optional(true), false);

    assert_eq!(nonopt.value().is_null(), true);
    assert_eq!(nonopt.default_value().is_null(), true);
    assert_eq!(nonopt.has_value(), false);
    let v = nonopt.parse_value("").unwrap();
    nonopt.set_value(v);
    assert_eq!(nonopt.value().as_bool(), Some(&true));
    nonopt.set_default_value(OptValue::from_bool(false));
    assert_eq!(nonopt.default_value().as_bool(), None);
    nonopt.reset_value();
    assert_eq!(nonopt.value().as_bool(), None);
}

#[test]
fn make_opt_type_cmd_work() {
    let utils = cmd::CmdUtils::new();

    assert_eq!(utils.get_type_name(), cmd::current_type());
    assert_eq!(utils.is_support_deactivate_style(), false);

    let ci = CreateInfo::parse("nonopt=cmd", &vec![]).unwrap();
    let mut nonopt = utils.create(IIdentifier::new(1), &ci).unwrap();

    assert_eq!(nonopt.get_type_name(), "cmd");
    assert_eq!(nonopt.is_deactivate_style(), false);
    assert_eq!(nonopt.is_style(Style::Cmd), true);
    assert_eq!(nonopt.check().is_err(), true);

    assert_eq!(OptIdentifier::id(&nonopt).get(), 1);
    nonopt.set_id(IIdentifier::new(42));
    assert_eq!(OptIdentifier::id(&nonopt).get(), 42);

    assert_eq!(nonopt.callback_type(), CallbackType::Null);
    assert_eq!(nonopt.is_need_invoke(), false);
    nonopt.set_need_invoke(true);
    assert_eq!(nonopt.callback_type(), CallbackType::Main);
    assert_eq!(nonopt.is_need_invoke(), true);

    nonopt.add_alias("-", "c");
    assert_eq!(nonopt.alias(), None);
    assert_eq!(nonopt.match_alias("-", "c"), false);
    assert_eq!(nonopt.rem_alias("-", "c"), false);
    assert_eq!(nonopt.alias(), None);

    assert_eq!(nonopt.index(), &NonOptIndex::Forward(1));
    assert_eq!(nonopt.match_index(6, 1), true);
    nonopt.set_index(NonOptIndex::Forward(3));
    assert_eq!(nonopt.match_index(6, 3), false);

    assert_eq!(nonopt.name(), "nonopt");
    assert_eq!(nonopt.prefix(), "");
    assert_eq!(nonopt.match_name("nonopt"), true);
    assert_eq!(nonopt.match_name("opv"), false);
    assert_eq!(nonopt.match_prefix("--"), false);
    assert_eq!(nonopt.match_prefix("-"), false);
    nonopt.set_name("count");
    nonopt.set_prefix("+");
    assert_eq!(nonopt.match_name("count"), true);
    assert_eq!(nonopt.match_name("opt"), false);
    assert_eq!(nonopt.match_prefix("+"), false);
    assert_eq!(nonopt.match_prefix("--"), false);

    assert_eq!(nonopt.optional(), false);
    assert_eq!(nonopt.match_optional(true), false);
    nonopt.set_optional(false);
    assert_eq!(nonopt.optional(), false);
    assert_eq!(nonopt.match_optional(true), false);

    assert_eq!(nonopt.value().is_null(), true);
    assert_eq!(nonopt.default_value().is_null(), true);
    assert_eq!(nonopt.has_value(), false);
    let v = nonopt.parse_value("").unwrap();
    nonopt.set_value(v);
    assert_eq!(nonopt.value().as_bool(), Some(&true));
    nonopt.set_default_value(OptValue::from_bool(false));
    assert_eq!(nonopt.default_value().as_bool(), None);
    nonopt.reset_value();
    assert_eq!(nonopt.value().as_bool(), None);
}

#[test]
fn make_opt_type_main_work() {
    let utils = main::MainUtils::new();

    assert_eq!(utils.get_type_name(), main::current_type());
    assert_eq!(utils.is_support_deactivate_style(), false);

    let ci = CreateInfo::parse("nonopt=main", &vec![]).unwrap();
    let mut nonopt = utils.create(IIdentifier::new(1), &ci).unwrap();

    assert_eq!(nonopt.get_type_name(), "main");
    assert_eq!(nonopt.is_deactivate_style(), false);
    assert_eq!(nonopt.is_style(Style::Main), true);
    assert_eq!(nonopt.check().is_err(), false);

    assert_eq!(OptIdentifier::id(&nonopt).get(), 1);
    nonopt.set_id(IIdentifier::new(42));
    assert_eq!(OptIdentifier::id(&nonopt).get(), 42);

    assert_eq!(nonopt.callback_type(), CallbackType::Null);
    assert_eq!(nonopt.is_need_invoke(), false);
    nonopt.set_need_invoke(true);
    assert_eq!(nonopt.callback_type(), CallbackType::Main);
    assert_eq!(nonopt.is_need_invoke(), true);

    nonopt.add_alias("-", "c");
    assert_eq!(nonopt.alias(), None);
    assert_eq!(nonopt.match_alias("-", "c"), false);
    assert_eq!(nonopt.rem_alias("-", "c"), false);
    assert_eq!(nonopt.alias(), None);

    assert_eq!(nonopt.index(), &NonOptIndex::Null);
    assert_eq!(nonopt.match_index(6, 1), true);
    nonopt.set_index(NonOptIndex::Forward(3));
    assert_eq!(nonopt.match_index(6, 4), true);

    assert_eq!(nonopt.name(), "nonopt");
    assert_eq!(nonopt.prefix(), "");
    assert_eq!(nonopt.match_name("nonopt"), true);
    assert_eq!(nonopt.match_name("opv"), true);
    assert_eq!(nonopt.match_prefix("--"), false);
    assert_eq!(nonopt.match_prefix("-"), false);
    nonopt.set_name("count");
    nonopt.set_prefix("+");
    assert_eq!(nonopt.match_name("count"), true);
    assert_eq!(nonopt.match_name("opt"), true);
    assert_eq!(nonopt.match_prefix("+"), false);
    assert_eq!(nonopt.match_prefix("--"), false);

    assert_eq!(nonopt.optional(), true);
    assert_eq!(nonopt.match_optional(true), true);
    nonopt.set_optional(false);
    assert_eq!(nonopt.optional(), true);
    assert_eq!(nonopt.match_optional(true), true);

    assert_eq!(nonopt.value().is_null(), true);
    assert_eq!(nonopt.default_value().is_null(), true);
    assert_eq!(nonopt.has_value(), false);
    let v = nonopt.parse_value("").unwrap();
    nonopt.set_value(v);
    assert_eq!(nonopt.value().as_bool(), Some(&true));
    nonopt.set_default_value(OptValue::from_bool(false));
    assert_eq!(nonopt.default_value().as_bool(), None);
    nonopt.reset_value();
    assert_eq!(nonopt.value().as_bool(), None);
}
