use getopt_rs::callback::CallbackType;
use getopt_rs::id::Identifier as IIdentifier;
use getopt_rs::opt::{Alias, Callback, Index, Name, NonOptIndex, OptValue, Optional, Style, Type, Value};
use getopt_rs::opt::Identifier as OptIdentifier;
use getopt_rs::utils::{CreateInfo, Utils};
use getopt_rs::opt::{array, boolean, integer, unsigned};

#[test]
fn make_opt_type_int_work() {
    let prefixs = vec!["--".to_owned()];
    let utils = integer::IntUtils::new();

    assert_eq!(utils.get_type_name(), integer::current_type());
    assert_eq!(utils.is_support_deactivate_style(), false);

    let ci = CreateInfo::parse("--opt=int!", &prefixs).unwrap();
    let mut opt = utils.create(IIdentifier::new(1), &ci).unwrap();

    assert_eq!(opt.get_type_name(), "int");
    assert_eq!(opt.is_deactivate_style(), false);
    assert_eq!(opt.is_style(Style::Argument), true);
    assert_eq!(opt.check().is_err(), true);

    assert_eq!(OptIdentifier::id(&opt).get(), 1);
    opt.set_id(IIdentifier::new(42));
    assert_eq!(OptIdentifier::id(&opt).get(), 42);

    assert_eq!(opt.callback_type(), CallbackType::Null);
    assert_eq!(opt.is_need_invoke(), false);
    opt.set_need_invoke(true);
    assert_eq!(opt.callback_type(), CallbackType::Value);
    assert_eq!(opt.is_need_invoke(), true);

    opt.add_alias("-", "c");
    assert_eq!(opt.alias(), Some(&vec![(String::from("-"), String::from("c"))]));
    assert_eq!(opt.match_alias("-", "c"), true);
    assert_eq!(opt.rem_alias("-", "c"), true);
    assert_eq!(opt.alias().as_ref().unwrap().len(), 0);

    assert_eq!(opt.index(), &NonOptIndex::Null);
    assert_eq!(opt.match_index(0, 0), true);
    opt.set_index(NonOptIndex::Forward(3));
    assert_eq!(opt.match_index(0, 0), true);

    assert_eq!(opt.name(), "opt");
    assert_eq!(opt.prefix(), "--");
    assert_eq!(opt.match_name("opt"), true);
    assert_eq!(opt.match_name("opv"), false);
    assert_eq!(opt.match_prefix("--"), true);
    assert_eq!(opt.match_prefix("-"), false);
    opt.set_name("count");
    opt.set_prefix("+");
    assert_eq!(opt.match_name("count"), true);
    assert_eq!(opt.match_name("opt"), false);
    assert_eq!(opt.match_prefix("+"), true);
    assert_eq!(opt.match_prefix("--"), false);

    assert_eq!(opt.optional(), false);
    assert_eq!(opt.match_optional(true), false);
    opt.set_optional(true);
    assert_eq!(opt.optional(), true);
    assert_eq!(opt.match_optional(true), true);

    assert_eq!(opt.value().is_null(), true);
    assert_eq!(opt.default_value().is_null(), true);
    assert_eq!(opt.has_value(), false);
    let v = opt.parse_value("99").unwrap();
    opt.set_value(v);
    assert_eq!(opt.value().as_int(), Some(&99));
    opt.set_default_value(OptValue::from_int(-42));
    assert_eq!(opt.default_value().as_int(), Some(&-42));
    opt.reset_value();
    assert_eq!(opt.value().as_int(), Some(&-42));
}

#[test]
fn make_opt_type_uint_work() {
    let prefixs = vec!["--".to_owned()];
    let utils = unsigned::UintUtils::new();

    assert_eq!(utils.get_type_name(), unsigned::current_type());
    assert_eq!(utils.is_support_deactivate_style(), false);

    let ci = CreateInfo::parse("--opt=uint!", &prefixs).unwrap();
    let mut opt = utils.create(IIdentifier::new(1), &ci).unwrap();

    assert_eq!(opt.get_type_name(), "uint");
    assert_eq!(opt.is_deactivate_style(), false);
    assert_eq!(opt.is_style(Style::Argument), true);
    assert_eq!(opt.check().is_err(), true);

    assert_eq!(OptIdentifier::id(&opt).get(), 1);
    opt.set_id(IIdentifier::new(42));
    assert_eq!(OptIdentifier::id(&opt).get(), 42);

    assert_eq!(opt.callback_type(), CallbackType::Null);
    assert_eq!(opt.is_need_invoke(), false);
    opt.set_need_invoke(true);
    assert_eq!(opt.callback_type(), CallbackType::Value);
    assert_eq!(opt.is_need_invoke(), true);

    opt.add_alias("-", "c");
    assert_eq!(opt.alias(), Some(&vec![(String::from("-"), String::from("c"))]));
    assert_eq!(opt.match_alias("-", "c"), true);
    assert_eq!(opt.rem_alias("-", "c"), true);
    assert_eq!(opt.alias().as_ref().unwrap().len(), 0);

    assert_eq!(opt.index(), &NonOptIndex::Null);
    assert_eq!(opt.match_index(0, 0), true);
    opt.set_index(NonOptIndex::Forward(3));
    assert_eq!(opt.match_index(0, 0), true);

    assert_eq!(opt.name(), "opt");
    assert_eq!(opt.prefix(), "--");
    assert_eq!(opt.match_name("opt"), true);
    assert_eq!(opt.match_name("opv"), false);
    assert_eq!(opt.match_prefix("--"), true);
    assert_eq!(opt.match_prefix("-"), false);
    opt.set_name("count");
    opt.set_prefix("+");
    assert_eq!(opt.match_name("count"), true);
    assert_eq!(opt.match_name("opt"), false);
    assert_eq!(opt.match_prefix("+"), true);
    assert_eq!(opt.match_prefix("--"), false);

    assert_eq!(opt.optional(), false);
    assert_eq!(opt.match_optional(true), false);
    opt.set_optional(true);
    assert_eq!(opt.optional(), true);
    assert_eq!(opt.match_optional(true), true);

    assert_eq!(opt.value().is_null(), true);
    assert_eq!(opt.default_value().is_null(), true);
    assert_eq!(opt.has_value(), false);
    let v = opt.parse_value("99").unwrap();
    opt.set_value(v);
    assert_eq!(opt.value().as_uint(), Some(&99));
    opt.set_default_value(OptValue::from_uint(42));
    assert_eq!(opt.default_value().as_uint(), Some(&42));
    opt.reset_value();
    assert_eq!(opt.value().as_uint(), Some(&42));
}

#[test]
fn make_opt_type_bool_work() {
    let prefixs = vec!["--".to_owned()];
    let utils = boolean::BoolUtils::new();

    assert_eq!(utils.get_type_name(), boolean::current_type());
    assert_eq!(utils.is_support_deactivate_style(), true);

    let ci = CreateInfo::parse("--opt=bool!/", &prefixs).unwrap();
    let mut opt = utils.create(IIdentifier::new(1), &ci).unwrap();

    assert_eq!(opt.get_type_name(), "bool");
    assert_eq!(opt.is_deactivate_style(), true);
    assert_eq!(opt.is_style(Style::Boolean), true);
    assert_eq!(opt.is_style(Style::Multiple), true);
    assert_eq!(opt.check().is_err(), true);

    assert_eq!(OptIdentifier::id(&opt).get(), 1);
    opt.set_id(IIdentifier::new(42));
    assert_eq!(OptIdentifier::id(&opt).get(), 42);

    assert_eq!(opt.callback_type(), CallbackType::Null);
    assert_eq!(opt.is_need_invoke(), false);
    opt.set_need_invoke(true);
    assert_eq!(opt.callback_type(), CallbackType::Value);
    assert_eq!(opt.is_need_invoke(), true);

    opt.add_alias("-", "c");
    assert_eq!(opt.alias(), Some(&vec![(String::from("-"), String::from("c"))]));
    assert_eq!(opt.match_alias("-", "c"), true);
    assert_eq!(opt.rem_alias("-", "c"), true);
    assert_eq!(opt.alias().as_ref().unwrap().len(), 0);

    assert_eq!(opt.index(), &NonOptIndex::Null);
    assert_eq!(opt.match_index(0, 0), true);
    opt.set_index(NonOptIndex::Forward(3));
    assert_eq!(opt.match_index(0, 0), true);

    assert_eq!(opt.name(), "opt");
    assert_eq!(opt.prefix(), "--");
    assert_eq!(opt.match_name("opt"), true);
    assert_eq!(opt.match_name("opv"), false);
    assert_eq!(opt.match_prefix("--"), true);
    assert_eq!(opt.match_prefix("-"), false);
    opt.set_name("count");
    opt.set_prefix("+");
    assert_eq!(opt.match_name("count"), true);
    assert_eq!(opt.match_name("opt"), false);
    assert_eq!(opt.match_prefix("+"), true);
    assert_eq!(opt.match_prefix("--"), false);

    assert_eq!(opt.optional(), false);
    assert_eq!(opt.match_optional(true), false);
    opt.set_optional(true);
    assert_eq!(opt.optional(), true);
    assert_eq!(opt.match_optional(true), true);

    assert_eq!(opt.value().is_null(), false);
    assert_eq!(opt.default_value().is_null(), false);
    assert_eq!(opt.value().is_bool(), true);
    assert_eq!(opt.default_value().is_bool(), true);
    assert_eq!(opt.has_value(), false);
    opt.set_value(OptValue::from_bool(false));
    assert_eq!(opt.value().as_bool(), Some(&false));
    opt.set_default_value(OptValue::from_bool(true));
    assert_eq!(opt.default_value().as_bool(), Some(&true));
    opt.reset_value();
    assert_eq!(opt.value().as_bool(), Some(&true));
}

#[test]
fn make_opt_type_array_work() {
    let prefixs = vec!["--".to_owned()];
    let utils = array::ArrayUtils::new();

    assert_eq!(utils.get_type_name(), array::current_type());
    assert_eq!(utils.is_support_deactivate_style(), false);

    let ci = CreateInfo::parse("--opt=array!", &prefixs).unwrap();
    let mut opt = utils.create(IIdentifier::new(1), &ci).unwrap();

    assert_eq!(opt.get_type_name(), "array");
    assert_eq!(opt.is_deactivate_style(), false);
    assert_eq!(opt.is_style(Style::Argument), true);
    assert_eq!(opt.check().is_err(), true);

    assert_eq!(OptIdentifier::id(&opt).get(), 1);
    opt.set_id(IIdentifier::new(42));
    assert_eq!(OptIdentifier::id(&opt).get(), 42);

    assert_eq!(opt.callback_type(), CallbackType::Null);
    assert_eq!(opt.is_need_invoke(), false);
    opt.set_need_invoke(true);
    assert_eq!(opt.callback_type(), CallbackType::Value);
    assert_eq!(opt.is_need_invoke(), true);

    opt.add_alias("-", "c");
    assert_eq!(opt.alias(), Some(&vec![(String::from("-"), String::from("c"))]));
    assert_eq!(opt.match_alias("-", "c"), true);
    assert_eq!(opt.rem_alias("-", "c"), true);
    assert_eq!(opt.alias().as_ref().unwrap().len(), 0);

    assert_eq!(opt.index(), &NonOptIndex::Null);
    assert_eq!(opt.match_index(0, 0), true);
    opt.set_index(NonOptIndex::Forward(3));
    assert_eq!(opt.match_index(0, 0), true);

    assert_eq!(opt.name(), "opt");
    assert_eq!(opt.prefix(), "--");
    assert_eq!(opt.match_name("opt"), true);
    assert_eq!(opt.match_name("opv"), false);
    assert_eq!(opt.match_prefix("--"), true);
    assert_eq!(opt.match_prefix("-"), false);
    opt.set_name("count");
    opt.set_prefix("+");
    assert_eq!(opt.match_name("count"), true);
    assert_eq!(opt.match_name("opt"), false);
    assert_eq!(opt.match_prefix("+"), true);
    assert_eq!(opt.match_prefix("--"), false);

    assert_eq!(opt.optional(), false);
    assert_eq!(opt.match_optional(true), false);
    opt.set_optional(true);
    assert_eq!(opt.optional(), true);
    assert_eq!(opt.match_optional(true), true);

    assert_eq!(opt.value().is_null(), true);
    assert_eq!(opt.default_value().is_null(), true);
    assert_eq!(opt.has_value(), false);
    opt.set_value(OptValue::from_vec(["foo", "bar"].iter().map(|&i| String::from(i)).collect::<Vec<String>>()));
    assert_eq!(opt.value().as_vec(), Some(&["foo", "bar"].iter().map(|&i| String::from(i)).collect()));
    opt.set_default_value(OptValue::from_vec(["foo", "bar", "poi"].iter().map(|&i| String::from(i)).collect::<Vec<String>>()));
    assert_eq!(opt.default_value().as_vec(), Some(&["foo", "bar", "poi"].iter().map(|&i| String::from(i)).collect::<Vec<String>>()));
    opt.reset_value();
    assert_eq!(opt.value().as_vec(), Some(&["foo", "bar", "poi"].iter().map(|&i| String::from(i)).collect::<Vec<String>>()));
}

#[test]
fn bool_reset_without_boolean_default_follows_deactivate_style() {
    let prefixs = vec!["--".to_owned()];
    let utils = boolean::BoolUtils::new();
    let ci = CreateInfo::parse("--opt=bool/", &prefixs).unwrap();
    let mut opt = utils.create(IIdentifier::new(1), &ci).unwrap();
    opt.set_default_value(OptValue::Null);
    opt.set_value(OptValue::from_bool(false));
    opt.reset_value();
    assert_eq!(opt.value().as_bool(), Some(&true));

    let ci = CreateInfo::parse("--opt=bool", &prefixs).unwrap();
    let mut opt = utils.create(IIdentifier::new(2), &ci).unwrap();
    opt.set_default_value(OptValue::Null);
    opt.set_value(OptValue::from_bool(true));
    opt.reset_value();
    assert_eq!(opt.value().as_bool(), Some(&false));
}
