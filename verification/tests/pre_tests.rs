use getopt_rs::arg::ArgIterator;
use getopt_rs::callback::{IndexCallback, MainCallback, OptCallback};
use getopt_rs::error::Result;
use getopt_rs::id::DefaultIdGen;
use getopt_rs::nonopt::{cmd, main, pos};
use getopt_rs::opt::{array, boolean, string, NonOptIndex, Value};
use getopt_rs::parser::pre::PreParser;
use getopt_rs::set::DefaultSet;

struct IndexFn<F: FnMut(&DefaultSet, &String) -> Result<bool>>(F);

impl<F: FnMut(&DefaultSet, &String) -> Result<bool>> IndexCallback for IndexFn<F> {
    fn call(&mut self, set: &DefaultSet, arg: &String) -> Result<bool> {
        (self.0)(set, arg)
    }
}

struct MainFn<F: FnMut(&DefaultSet, &Vec<String>) -> Result<bool>>(F);

impl<F: FnMut(&DefaultSet, &Vec<String>) -> Result<bool>> MainCallback for MainFn<F> {
    fn call(&mut self, set: &DefaultSet, args: &Vec<String>) -> Result<bool> {
        (self.0)(set, args)
    }
}

fn strings(v: &[&str]) -> Vec<String> {
    v.iter().map(|&a| String::from(a)).collect()
}

fn vec_of(set: &DefaultSet, name: &str) -> Vec<String> {
    set.filter(name).unwrap().find().unwrap().value().as_vec().unwrap().clone()
}

fn directory(set: &DefaultSet, noa: &Vec<String>) -> Result<bool> {
    assert!(vec_of(set, "c").contains(&String::from("c")));
    assert!(vec_of(set, "cpp").contains(&String::from("cpp")));
    assert!(vec_of(set, "cpp").contains(&String::from("c++")));
    assert!(vec_of(set, "cpp").contains(&String::from("cxx")));
    assert!(vec_of(set, "h").contains(&String::from("h")));
    assert!(vec_of(set, "h").contains(&String::from("hpp")));
    assert!(vec_of(set, "h").contains(&String::from("hxx")));
    assert!(vec_of(set, "cfg").contains(&String::from("cpp")));
    assert!(vec_of(set, "m").contains(&String::from("mk")));
    assert!(vec_of(set, "m").contains(&String::from("m4")));
    assert!(vec_of(set, "w").contains(&String::from("Makefile")));
    assert!(vec_of(set, "a").contains(&String::from("png")));
    assert!(vec_of(set, "a").contains(&String::from("jpg")));
    assert!(set.filter("i").unwrap().find().unwrap().value().as_bool().unwrap());
    assert!(set.filter("debug").unwrap().find().unwrap().value().as_bool().unwrap());
    assert_eq!(noa[1], String::from("download/sources"));
    Ok(true)
}

fn commit(set: &mut DefaultSet, pattern: &str) -> getopt_rs::id::Identifier {
    let mut c = set.add_opt(pattern).unwrap();
    c.commit().unwrap()
}

#[test]
fn make_sure_preparser_work() {
    let id = DefaultIdGen::default();
    let mut set = DefaultSet::new();
    let mut parser = PreParser::new(id);

    assert!(set.add_utils(boolean::BoolUtils::new()).unwrap_or(false));
    assert!(set.add_utils(string::StrUtils::new()).unwrap_or(false));
    assert!(set.add_utils(array::ArrayUtils::new()).unwrap_or(false));
    assert!(set.add_utils(pos::PosUtils::new()).unwrap_or(false));
    assert!(set.add_utils(cmd::CmdUtils::new()).unwrap_or(false));
    assert!(set.add_utils(main::MainUtils::new()).unwrap_or(false));

    set.initialize_prefixs();
    set.app_prefix("+".to_owned());

    for p in ["-c=array", "-h=array", "-cpp=array", "-cfg=array", "-m=array", "-w=array", "+a=array", "-no=array", "-i=bool", "-only=str"] {
        commit(&mut set, p);
    }
    {
        let mut c = set.add_opt("-d=bool").unwrap();
        c.add_alias("--", "debug");
        c.commit().unwrap();
    }

    let id = commit(&mut set, "directory=pos@1");
    parser.set_callback(id, OptCallback::from_index(Box::new(IndexFn(|_: &DefaultSet, noa: &String| Ok(noa.as_str() == "download/sources")))));

    let id = {
        let mut c = set.add_opt("except=pos").unwrap();
        c.set_index(NonOptIndex::except(vec![1]));
        c.commit().unwrap()
    };
    parser.set_callback(id, OptCallback::from_index(Box::new(IndexFn(|_: &DefaultSet, noa: &String| {
        Ok(["picture/pngs", "picture/jpgs", "others"].contains(&noa.as_str()))
    }))));

    let id = {
        let mut c = set.add_opt("list=pos").unwrap();
        c.set_index(NonOptIndex::list(vec![1]));
        c.commit().unwrap()
    };
    parser.set_callback(id, OptCallback::from_index(Box::new(IndexFn(|_: &DefaultSet, noa: &String| {
        Ok(["download/sources"].contains(&noa.as_str()))
    }))));

    let id = commit(&mut set, "other=main");
    parser.set_callback(id, OptCallback::from_main(Box::new(MainFn(|set: &DefaultSet, noa: &Vec<String>| {
        assert_eq!(noa[0], String::from("-f"));
        assert_eq!(noa[1], String::from("download/sources"));
        directory(set, noa)?;
        Ok(true)
    }))));

    let mut ai = ArgIterator::from_args(strings(&[
        "-c", "c",
        "-f",
        "-cpp=cxx", "-cpp", "c++", "-cpp", "cpp",
        "-h", "hpp", "-h=h", "-hhxx",
        "-cfg=cpp",
        "-m=mk", "-mm4",
        "-w", "Makefile",
        "+a", "png", "+a", "jpg",
        "-i",
        "--debug",
        "download/sources",
        "picture/pngs",
        "picture/jpgs",
        "others",
    ]));

    set.subscribe_from(&mut parser);
    parser.publish_to(set);
    let _ret = parser.parse(&mut ai).unwrap();

    assert_eq!(parser.noa(), &strings(&["-f", "download/sources", "picture/pngs", "picture/jpgs", "others"]));

    parser.reset();
    let set = parser.set().as_ref().unwrap();
    for name in ["c", "cpp", "h", "cfg", "m", "w", "a"] {
        assert!(set.filter(name).unwrap().find().unwrap().value().is_null());
    }
    assert!(!set.filter("i").unwrap().find().unwrap().value().as_bool_or_null().unwrap_or(&false));
    assert!(!set.filter("debug").unwrap().find().unwrap().value().as_bool_or_null().unwrap_or(&false));
}

fn small_parser(patterns: &[&str]) -> PreParser {
    let mut set = DefaultSet::new();
    set.initialize_utils();
    set.initialize_prefixs();
    for p in patterns {
        commit(&mut set, p);
    }
    let mut parser = PreParser::new(DefaultIdGen::default());
    set.subscribe_from(&mut parser);
    parser.publish_to(set);
    parser
}

#[test]
fn pre_parse_goes_on_after_a_value_that_does_not_parse() {
    let mut parser = small_parser(&["-n=int", "-v=bool"]);
    let mut ai = ArgIterator::from_args(strings(&["-n=x1", "-v", "rest"]));
    assert_eq!(parser.parse(&mut ai).unwrap(), Some(true));
    let set = parser.set().as_ref().unwrap();
    assert!(set.filter("n").unwrap().find().unwrap().value().is_null());
    assert_eq!(set.filter("v").unwrap().find().unwrap().value().as_bool(), Some(&true));
    assert_eq!(parser.noa(), &strings(&["rest"]));
}

#[test]
fn pre_parse_leaves_the_next_argument_when_the_value_fails() {
    let mut parser = small_parser(&["-n=int"]);
    let mut ai = ArgIterator::from_args(strings(&["-n", "x1", "y"]));
    assert_eq!(parser.parse(&mut ai).unwrap(), Some(true));
    assert!(parser.set().as_ref().unwrap().filter("n").unwrap().find().unwrap().value().is_null());
    assert_eq!(parser.noa(), &strings(&["x1", "y"]));
}

#[test]
fn pre_parse_takes_the_next_argument_when_the_value_parses() {
    let mut parser = small_parser(&["-n=int"]);
    let mut ai = ArgIterator::from_args(strings(&["-n", "12", "y"]));
    assert_eq!(parser.parse(&mut ai).unwrap(), Some(true));
    assert_eq!(parser.set().as_ref().unwrap().filter("n").unwrap().find().unwrap().value().as_int(), Some(&12));
    assert_eq!(parser.noa(), &strings(&["y"]));
}

#[test]
fn pre_parse_missing_argument_at_end_is_no_error() {
    let mut parser = small_parser(&["-o=str"]);
    let mut ai = ArgIterator::from_args(strings(&["-o"]));
    assert_eq!(parser.parse(&mut ai).unwrap(), Some(true));
    assert!(parser.noa().is_empty());
}
