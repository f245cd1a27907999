use std::cell::RefCell;
use std::rc::Rc;

use getopt_rs::arg::ArgIterator;
use getopt_rs::callback::{IndexCallback, MainCallback, OptCallback};
use getopt_rs::error::{Error, Result};
use getopt_rs::id::DefaultIdGen;
use getopt_rs::nonopt::{cmd, main, pos};
use getopt_rs::opt::{array, boolean, string, NonOptIndex, Value};
use getopt_rs::parser::delay::DelayParser;
use getopt_rs::set::DefaultSet;

struct IndexFn<F: FnMut(&DefaultSet, &String) -> Result<bool>>(F);

impl<F: FnMut(&DefaultSet, &String) -> Result<bool>> IndexCallback for IndexFn<F> {
    fn call(&mut self, set: &DefaultSet, arg: &String) -> Result<bool> {
        (self.0)(set, arg)
    }
}

struct MainFn<F: FnMut(&DefaultSet, &Vec<String>) -> Result<bool>>(F);

impl<F: FnMut(&DefaultSet, &Vec<String>) -> Result<bool>> MainCallback for MainFn<F> {
    fn call(&mut self, set: &DefaultSet, args: &Vec<String>) -> Result<bool> {
        (self.0)(set, args)
    }
}

fn strings(v: &[&str]) -> Vec<String> {
    v.iter().map(|&a| String::from(a)).collect()
}

fn vec_of(set: &DefaultSet, name: &str) -> Vec<String> {
    set.filter(name).unwrap().find().unwrap().value().as_vec().unwrap().clone()
}

fn directory(set: &DefaultSet, noa: &Vec<String>) -> Result<bool> {
    assert!(vec_of(set, "c").contains(&String::from("c")));
    assert!(vec_of(set, "cpp").contains(&String::from("cpp")));
    assert!(vec_of(set, "cpp").contains(&String::from("c++")));
    assert!(vec_of(set, "cpp").contains(&String::from("cxx")));
    assert!(vec_of(set, "h").contains(&String::from("h")));
    assert!(vec_of(set, "h").contains(&String::from("hpp")));
    assert!(vec_of(set, "h").contains(&String::from("hxx")));
    assert!(vec_of(set, "cfg").contains(&String::from("cpp")));
    assert!(vec_of(set, "m").contains(&String::from("mk")));
    assert!(vec_of(set, "m").contains(&String::from("m4")));
    assert!(vec_of(set, "w").contains(&String::from("Makefile")));
    assert!(vec_of(set, "a").contains(&String::from("png")));
    assert!(vec_of(set, "a").contains(&String::from("jpg")));
    assert!(set.filter("i").unwrap().find().unwrap().value().as_bool().unwrap());
    assert!(set.filter("debug").unwrap().find().unwrap().value().as_bool().unwrap());
    assert_eq!(noa[0], String::from("download/sources"));
    Ok(true)
}

fn commit(set: &mut DefaultSet, pattern: &str) -> getopt_rs::id::Identifier {
    let mut c = set.add_opt(pattern).unwrap();
    c.commit().unwrap()
}

#[test]
fn make_sure_delayparser_work() {
    let directorys: Rc<RefCell<Vec<String>>> = Rc::new(RefCell::new(vec![]));
    let main_ref = directorys.clone();

    let id = DefaultIdGen::default();
    let mut set = DefaultSet::new();
    let mut parser = DelayParser::new(id);

    assert!(set.add_utils(boolean::BoolUtils::new()).unwrap_or(false));
    assert!(set.add_utils(string::StrUtils::new()).unwrap_or(false));
    assert!(set.add_utils(array::ArrayUtils::new()).unwrap_or(false));
    assert!(set.add_utils(pos::PosUtils::new()).unwrap_or(false));
    assert!(set.add_utils(cmd::CmdUtils::new()).unwrap_or(false));
    assert!(set.add_utils(main::MainUtils::new()).unwrap_or(false));

    set.initialize_prefixs();
    set.app_prefix("+".to_owned());

    for p in ["-c=array", "-h=array", "-cpp=array", "-cfg=array", "-m=array", "-w=array", "+a=array", "-no=array", "-i=bool", "-only=str"] {
        commit(&mut set, p);
    }
    {
        let mut c = set.add_opt("-d=bool").unwrap();
        c.add_alias("--", "debug");
        c.commit().unwrap();
    }

    let _id = commit(&mut set, "directory=pos@1");

    let id = commit(&mut set, "anywhere=pos@0");
    parser.set_callback(id, OptCallback::from_index(Box::new(IndexFn(|_: &DefaultSet, noa: &String| {
        Ok(["download/sources", "picture/pngs", "picture/jpgs"].contains(&noa.as_str()))
    }))));

    let id = {
        let mut c = set.add_opt("except=pos").unwrap();
        c.set_index(NonOptIndex::except(vec![1]));
        c.commit().unwrap()
    };
    parser.set_callback(id, OptCallback::from_index(Box::new(IndexFn(|_: &DefaultSet, noa: &String| {
        Ok(["picture/pngs", "picture/jpgs"].contains(&noa.as_str()))
    }))));

    let id = {
        let mut c = set.add_opt("list=pos").unwrap();
        c.set_index(NonOptIndex::list(vec![1]));
        c.commit().unwrap()
    };
    parser.set_callback(id, OptCallback::from_index(Box::new(IndexFn(|_: &DefaultSet, noa: &String| {
        Ok(["download/sources"].contains(&noa.as_str()))
    }))));

    let id = commit(&mut set, "other=main");
    parser.set_callback(id, OptCallback::from_main(Box::new(MainFn(move |set: &DefaultSet, noa: &Vec<String>| {
        assert_eq!(noa[0], String::from("download/sources"));
        assert_eq!(noa[1], String::from("picture/pngs"));
        assert_eq!(noa[2], String::from("picture/jpgs"));
        let mut writer = main_ref.borrow_mut();
        writer.push(noa[0].clone());
        writer.push(noa[1].clone());
        writer.push(noa[2].clone());
        directory(set, noa).unwrap();
        Ok(true)
    }))));

    let mut ai = ArgIterator::from_args(strings(&[
        "-c", "c",
        "-cpp=cxx", "-cpp", "c++", "-cpp", "cpp",
        "-h", "hpp", "-h=h", "-hhxx",
        "-cfg=cpp",
        "-m=mk", "-mm4",
        "-w", "Makefile",
        "+a", "png", "+a", "jpg",
        "-i",
        "--debug",
        "download/sources",
        "picture/pngs",
        "picture/jpgs",
    ]));

    set.subscribe_from(&mut parser);
    parser.publish_to(set);
    parser.parse(&mut ai).unwrap();
    assert_eq!(directorys.borrow().len(), 3);
    parser.reset();

    let set = parser.set().as_ref().unwrap();
    for name in ["c", "cpp", "h", "cfg", "m", "w", "a"] {
        assert!(set.filter(name).unwrap().find().unwrap().value().is_null());
    }
    assert!(!set.filter("i").unwrap().find().unwrap().value().as_bool_or_null().unwrap_or(&false));
    assert!(!set.filter("debug").unwrap().find().unwrap().value().as_bool_or_null().unwrap_or(&false));
}

fn small_parser(patterns: &[&str]) -> DelayParser {
    let mut set = DefaultSet::new();
    set.initialize_utils();
    set.initialize_prefixs();
    for p in patterns {
        commit(&mut set, p);
    }
    let mut parser = DelayParser::new(DefaultIdGen::default());
    set.subscribe_from(&mut parser);
    parser.publish_to(set);
    parser
}

#[test]
fn delay_parse_sets_values_after_the_non_options() {
    let mut parser = small_parser(&["-o=str", "file=pos@1"]);
    let seen: Rc<RefCell<Option<bool>>> = Rc::new(RefCell::new(None));
    let probe = seen.clone();
    parser.set_callback(getopt_rs::id::Identifier::new(1), OptCallback::from_index(Box::new(IndexFn(move |set: &DefaultSet, _: &String| {
        *probe.borrow_mut() = Some(set.filter("o").unwrap().find().unwrap().value().is_null());
        Ok(true)
    }))));
    let mut ai = ArgIterator::from_args(strings(&["-o", "out", "x"]));
    assert_eq!(parser.parse(&mut ai).unwrap(), Some(true));
    assert_eq!(*seen.borrow(), Some(true));
    assert_eq!(parser.set().as_ref().unwrap().filter("o").unwrap().find().unwrap().value().as_str(), Some(&"out".to_owned()));
    assert!(parser.value_mapper.is_empty());
    assert_eq!(parser.noa(), &strings(&["x"]));
}

#[test]
fn delay_parse_keeps_every_value_of_an_array() {
    let mut parser = small_parser(&["-a=array"]);
    let mut ai = ArgIterator::from_args(strings(&["-a", "1", "-a=2"]));
    assert_eq!(parser.parse(&mut ai).unwrap(), Some(true));
    assert_eq!(parser.set().as_ref().unwrap().filter("a").unwrap().find().unwrap().value().as_vec(), Some(&strings(&["1", "2"])));
}

#[test]
fn delay_parse_invalid_value_is_an_error() {
    let mut parser = small_parser(&["-n=int"]);
    let mut ai = ArgIterator::from_args(strings(&["-n=x"]));
    match parser.parse(&mut ai) {
        Err(Error::InvaldOptionValue(v, _)) => assert_eq!(v, "x"),
        _ => panic!("the value is no integer"),
    }
}

#[test]
fn add_delay_value_appends_to_the_values_kept() {
    let mut parser = DelayParser::new(DefaultIdGen::default());
    let id = getopt_rs::id::Identifier::new(3);
    parser.add_delay_value(id, vec![getopt_rs::opt::OptValue::from_int(1)]);
    parser.add_delay_value(id, vec![getopt_rs::opt::OptValue::from_int(2)]);
    assert_eq!(parser.value_mapper.len(), 1);
    assert_eq!(parser.value_mapper[0].1.len(), 2);
}
