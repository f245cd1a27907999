use getopt_rs::arg::{parse_argument, ArgIterator};
use getopt_rs::id::{DefaultIdGen, Identifier as IIdentifier};
use getopt_rs::opt::common::CommonOpt;
use getopt_rs::opt::{Alias, NonOptIndex, OptValue, Value};
use getopt_rs::parser::forward::ForwardParser;
use getopt_rs::parser::pre::PreParser;
use getopt_rs::set::DefaultSet;
use getopt_rs::text::{append_decimal, parse_u64};

fn strings(v: &[&str]) -> Vec<String> {
    v.iter().map(|&a| String::from(a)).collect()
}

fn filled_set(patterns: &[&str]) -> DefaultSet {
    let mut set = DefaultSet::new();
    set.initialize_utils();
    set.initialize_prefixs();
    for p in patterns {
        let mut c = set.add_opt(p).unwrap();
        c.commit().unwrap();
    }
    set
}

#[test]
fn decimal_digits_read_back() {
    for n in [0u64, 7, 10, 42, 1234567890, u64::MAX] {
        let mut s = String::new();
        append_decimal(&mut s, n);
        assert_eq!(parse_u64(&s), Some(n));
    }
}

#[test]
fn argument_is_prefix_name_and_value() {
    let prefixs = strings(&["--", "-"]);
    let arg = parse_argument(&Some("--opt=1=2".to_owned()), &prefixs).unwrap();
    let rebuilt = format!("{}{}={}", arg.prefix.unwrap(), arg.name.unwrap(), arg.value.unwrap());
    assert_eq!(rebuilt, "--opt=1=2");
    let arg = parse_argument(&Some("-w".to_owned()), &prefixs).unwrap();
    assert_eq!(format!("{}{}", arg.prefix.unwrap(), arg.name.unwrap()), "-w");
    assert!(arg.value.is_none());
}

#[test]
fn forward_and_backward_index_agree() {
    for current in [1u64, 2, 5] {
        assert_eq!(NonOptIndex::forward(2).calc_index(5, current), Some(2));
        assert_eq!(NonOptIndex::backward(4).calc_index(5, current), Some(2));
    }
}

#[test]
fn added_alias_matches_and_removing_it_restores() {
    let mut opt = CommonOpt::new_str(IIdentifier::new(0), "o".to_owned(), "-".to_owned(), true, OptValue::Null);
    opt.add_alias("--", "output");
    assert!(opt.match_alias("--", "output"));
    assert!(opt.rem_alias("--", "output"));
    assert!(!opt.match_alias("--", "output"));
    assert!(opt.alias().unwrap().is_empty());
}

#[test]
fn reset_forgets_values_and_is_idempotent() {
    let mut opt = CommonOpt::new_int(IIdentifier::new(0), "n".to_owned(), "-".to_owned(), true, OptValue::from_int(3));
    opt.set_value(OptValue::from_int(9));
    opt.reset_value();
    assert_eq!(opt.value().as_int(), Some(&3));
    opt.reset_value();
    assert_eq!(opt.value().as_int(), Some(&3));
}

#[test]
fn parsed_value_is_present() {
    let mut opt = CommonOpt::new_int(IIdentifier::new(0), "n".to_owned(), "-".to_owned(), false, OptValue::Null);
    assert!(!opt.has_value());
    let v = opt.parse_value("5").unwrap();
    opt.set_value(v);
    assert!(opt.has_value());
    assert!(getopt_rs::opt::Type::check(&opt).is_ok());
}

#[test]
fn options_are_found_under_their_identifiers() {
    let mut set = filled_set(&["-a=bool", "-b=str", "c=pos@1"]);
    for i in 0..3u64 {
        assert_eq!(set.get_opt(IIdentifier::new(i)).unwrap().id, IIdentifier::new(i));
    }
    set.reset();
    for i in 0..3u64 {
        assert_eq!(set.get_opt(IIdentifier::new(i)).unwrap().id, IIdentifier::new(i));
    }
}

#[test]
fn subscribed_information_points_to_the_options() {
    let set = filled_set(&["-a=bool", "-b=str"]);
    let mut parser = ForwardParser::new(DefaultIdGen::default());
    set.subscribe_from(&mut parser);
    assert_eq!(parser.cached_infos.len(), 2);
    for (k, info) in parser.cached_infos.iter().enumerate() {
        assert_eq!(info.id, IIdentifier::new(k as u64));
    }
}

#[test]
fn tolerant_parse_agrees_where_nothing_fails() {
    let args = strings(&["x", "-n", "4", "-v", "y", "--name=z"]);
    let mut forward = ForwardParser::new(DefaultIdGen::default());
    let set = filled_set(&["-n=int", "-v=bool", "--name=str"]);
    set.subscribe_from(&mut forward);
    forward.publish_to(set);
    let mut pre = PreParser::new(DefaultIdGen::default());
    let set = filled_set(&["-n=int", "-v=bool", "--name=str"]);
    set.subscribe_from(&mut pre);
    pre.publish_to(set);
    assert_eq!(forward.parse(&mut ArgIterator::from_args(args.clone())).unwrap(), Some(true));
    assert_eq!(pre.parse(&mut ArgIterator::from_args(args)).unwrap(), Some(true));
    assert_eq!(forward.noa(), pre.noa());
    assert_eq!(forward.noa(), &strings(&["x", "y"]));
}
