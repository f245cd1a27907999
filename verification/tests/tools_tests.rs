use getopt_rs::arg::ArgIterator;
use getopt_rs::getopt_impl;
use getopt_rs::id::DefaultIdGen;
use getopt_rs::opt::Value;
use getopt_rs::parser::forward::ForwardParser;
use getopt_rs::set::DefaultSet;
use getopt_rs::tools::{delay_parse, forward_parse, idgenerator, pre_parse};

fn strings(v: &[&str]) -> Vec<String> {
    v.iter().map(|&a| String::from(a)).collect()
}

fn parser_with(patterns: &[&str]) -> ForwardParser {
    let mut set = DefaultSet::new();
    set.initialize_utils();
    set.initialize_prefixs();
    for p in patterns {
        let mut c = set.add_opt(p).unwrap();
        c.commit().unwrap();
    }
    let mut parser = ForwardParser::new(DefaultIdGen::default());
    set.subscribe_from(&mut parser);
    parser.publish_to(set);
    parser
}

#[test]
fn getopt_impl_hands_back_the_first_parser_with_a_set() {
    let mut ai = ArgIterator::from_args(strings(&["-v", "rest"]));
    let parsers = vec![ForwardParser::new(DefaultIdGen::default()), parser_with(&["-v=bool"])];
    let parser = getopt_impl(&mut ai, parsers).unwrap().unwrap();
    assert_eq!(parser.noa(), &strings(&["rest"]));
    let set = parser.set().as_ref().unwrap();
    assert_eq!(set.filter("v").unwrap().find().unwrap().value().as_bool(), Some(&true));
}

#[test]
fn getopt_impl_without_sets_hands_back_nothing() {
    let mut ai = ArgIterator::from_args(strings(&["-v"]));
    let parsers = vec![ForwardParser::new(DefaultIdGen::default())];
    assert!(getopt_impl(&mut ai, parsers).unwrap().is_none());
}

#[test]
fn getopt_impl_passes_on_the_error() {
    let mut ai = ArgIterator::from_args(strings(&["-n=x"]));
    let parsers = vec![parser_with(&["-n=int"]), parser_with(&["-n=str"])];
    assert!(getopt_impl(&mut ai, parsers).is_err());
}

#[test]
fn tools_make_parsers_with_the_generator() {
    assert_eq!(idgenerator(7).id.get(), 7);
    assert_eq!(forward_parse(idgenerator(3)).msg_id_gen.id.get(), 3);
    assert_eq!(pre_parse(idgenerator(4)).core.msg_id_gen.id.get(), 4);
    assert_eq!(delay_parse(idgenerator(5)).core.msg_id_gen.id.get(), 5);
}

