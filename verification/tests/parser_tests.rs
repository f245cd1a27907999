use getopt_rs::arg::ArgIterator;
use getopt_rs::callback::{IndexCallback, MainCallback, OptCallback};
use getopt_rs::error::{Error, Result};
use getopt_rs::id::DefaultIdGen;
use getopt_rs::nonopt::{cmd, main, pos};
use getopt_rs::opt::{array, boolean, string, NonOptIndex, Value};
use getopt_rs::parser::forward::ForwardParser;
use getopt_rs::set::DefaultSet;

struct IndexFn<F: FnMut(&DefaultSet, &String) -> Result<bool>>(F);

impl<F: FnMut(&DefaultSet, &String) -> Result<bool>> IndexCallback for IndexFn<F> {
    fn call(&mut self, set: &DefaultSet, arg: &String) -> Result<bool> {
        (self.0)(set, arg)
    }
}

struct MainFn<F: FnMut(&DefaultSet, &Vec<String>) -> Result<bool>>(F);

impl<F: FnMut(&DefaultSet, &Vec<String>) -> Result<bool>> MainCallback for MainFn<F> {
    fn call(&mut self, set: &DefaultSet, args: &Vec<String>) -> Result<bool> {
        (self.0)(set, args)
    }
}

fn strings(v: &[&str]) -> Vec<String> {
    v.iter().map(|&a| String::from(a)).collect()
}

fn vec_of(set: &DefaultSet, name: &str) -> Vec<String> {
    set.filter(name).unwrap().find().unwrap().value().as_vec().unwrap().clone()
}

fn directory(set: &DefaultSet, noa: &Vec<String>) -> Result<bool> {
    assert!(vec_of(set, "c").contains(&String::from("c")));
    assert!(vec_of(set, "cpp").contains(&String::from("cpp")));
    assert!(vec_of(set, "cpp").contains(&String::from("c++")));
    assert!(vec_of(set, "cpp").contains(&String::from("cxx")));
    assert!(vec_of(set, "h").contains(&String::from("h")));
    assert!(vec_of(set, "h").contains(&String::from("hpp")));
    assert!(vec_of(set, "h").contains(&String::from("hxx")));
    assert!(vec_of(set, "cfg").contains(&String::from("cpp")));
    assert!(vec_of(set, "m").contains(&String::from("mk")));
    assert!(vec_of(set, "m").contains(&String::from("m4")));
    assert!(vec_of(set, "w").contains(&String::from("Makefile")));
    assert!(vec_of(set, "a").contains(&String::from("png")));
    assert!(vec_of(set, "a").contains(&String::from("jpg")));
    assert!(set.filter("i").unwrap().find().unwrap().value().as_bool().unwrap());
    assert!(set.filter("debug").unwrap().find().unwrap().value().as_bool().unwrap());
    assert_eq!(noa[0], String::from("download/sources"));
    Ok(true)
}

fn commit(set: &mut DefaultSet, pattern: &str) -> getopt_rs::id::Identifier {
    let mut c = set.add_opt(pattern).unwrap();
    c.commit().unwrap()
}

#[test]
fn make_sure_forwardparser_work() {
    let id = DefaultIdGen::default();
    let mut set = DefaultSet::new();
    let mut parser = ForwardParser::new(id);

    assert!(set.add_utils(boolean::BoolUtils::new()).unwrap_or(false));
    assert!(set.add_utils(string::StrUtils::new()).unwrap_or(false));
    assert!(set.add_utils(array::ArrayUtils::new()).unwrap_or(false));
    assert!(set.add_utils(pos::PosUtils::new()).unwrap_or(false));
    assert!(set.add_utils(cmd::CmdUtils::new()).unwrap_or(false));
    assert!(set.add_utils(main::MainUtils::new()).unwrap_or(false));

    set.initialize_prefixs();
    set.app_prefix("+".to_owned());

    for p in ["-c=array", "-h=array", "-cpp=array", "-cfg=array", "-m=array", "-w=array", "+a=array", "-no=array", "-i=bool", "-only=str"] {
        commit(&mut set, p);
    }
    {
        let mut c = set.add_opt("-d=bool").unwrap();
        c.add_alias("--", "debug");
        c.commit().unwrap();
    }

    let id = commit(&mut set, "directory=pos@1");
    parser.set_callback(id, OptCallback::from_index(Box::new(IndexFn(|_: &DefaultSet, noa: &String| Ok(noa.as_str() == "download/sources")))));

    let id = commit(&mut set, "anywhere=pos@0");
    parser.set_callback(id, OptCallback::from_index(Box::new(IndexFn(|_: &DefaultSet, noa: &String| {
        Ok(["download/sources", "picture/pngs", "picture/jpgs"].contains(&noa.as_str()))
    }))));

    let id = {
        let mut c = set.add_opt("except=pos").unwrap();
        c.set_index(NonOptIndex::except(vec![1]));
        c.commit().unwrap()
    };
    parser.set_callback(id, OptCallback::from_index(Box::new(IndexFn(|_: &DefaultSet, noa: &String| {
        Ok(["picture/pngs", "picture/jpgs"].contains(&noa.as_str()))
    }))));

    let id = {
        let mut c = set.add_opt("list=pos").unwrap();
        c.set_index(NonOptIndex::list(vec![1]));
        c.commit().unwrap()
    };
    parser.set_callback(id, OptCallback::from_index(Box::new(IndexFn(|_: &DefaultSet, noa: &String| {
        Ok(["download/sources"].contains(&noa.as_str()))
    }))));

    let id = commit(&mut set, "other=main");
    parser.set_callback(id, OptCallback::from_main(Box::new(MainFn(|set: &DefaultSet, noa: &Vec<String>| {
        assert_eq!(noa[0], String::from("download/sources"));
        assert_eq!(noa[1], String::from("picture/pngs"));
        assert_eq!(noa[2], String::from("picture/jpgs"));
        directory(set, noa)?;
        Ok(true)
    }))));

    let mut ai = ArgIterator::from_args(strings(&[
        "-c", "c",
        "-cpp=cxx", "-cpp", "c++", "-cpp", "cpp",
        "-h", "hpp", "-h=h", "-hhxx",
        "-cfg=cpp",
        "-m=mk", "-mm4",
        "-w", "Makefile",
        "+a", "png", "+a", "jpg",
        "-i",
        "--debug",
        "download/sources",
        "picture/pngs",
        "picture/jpgs",
    ]));

    set.subscribe_from(&mut parser);
    parser.publish_to(set);
    assert_eq!(parser.parse(&mut ai).unwrap(), Some(true));
    assert_eq!(parser.noa(), &strings(&["download/sources", "picture/pngs", "picture/jpgs"]));
    parser.reset();

    let set = parser.set().as_ref().unwrap();
    for name in ["c", "cpp", "h", "cfg", "m", "w", "a"] {
        assert!(set.filter(name).unwrap().find().unwrap().value().is_null());
    }
    assert!(!set.filter("i").unwrap().find().unwrap().value().as_bool_or_null().unwrap_or(&false));
    assert!(!set.filter("debug").unwrap().find().unwrap().value().as_bool_or_null().unwrap_or(&false));
    assert!(parser.noa().is_empty());
}

fn small_parser(patterns: &[&str]) -> ForwardParser {
    let mut set = DefaultSet::new();
    set.initialize_utils();
    set.initialize_prefixs();
    for p in patterns {
        commit(&mut set, p);
    }
    let mut parser = ForwardParser::new(DefaultIdGen::default());
    set.subscribe_from(&mut parser);
    parser.publish_to(set);
    parser
}

#[test]
fn parse_without_set_gives_none() {
    let mut parser = ForwardParser::new(DefaultIdGen::default());
    let mut ai = ArgIterator::from_args(strings(&["-a"]));
    assert_eq!(parser.parse(&mut ai).unwrap(), None);
}

#[test]
fn parse_collects_non_option_arguments() {
    let mut parser = small_parser(&["-v=bool", "-o=str", "--level=int"]);
    let mut ai = ArgIterator::from_args(strings(&["a", "-v", "-o", "out", "b", "--level=-3", "c"]));
    assert_eq!(parser.parse(&mut ai).unwrap(), Some(true));
    assert_eq!(parser.noa(), &strings(&["a", "b", "c"]));
    let set = parser.set().as_ref().unwrap();
    assert_eq!(set.filter("o").unwrap().find().unwrap().value().as_str(), Some(&"out".to_owned()));
    assert_eq!(set.filter("level").unwrap().find().unwrap().value().as_int(), Some(&-3));
    assert_eq!(set.filter("v").unwrap().find().unwrap().value().as_bool(), Some(&true));
}

#[test]
fn parse_multiple_boolean_options() {
    let mut parser = small_parser(&["-a=bool", "-b=bool", "-c=bool"]);
    let mut ai = ArgIterator::from_args(strings(&["-ab"]));
    assert_eq!(parser.parse(&mut ai).unwrap(), Some(true));
    let set = parser.set().as_ref().unwrap();
    assert_eq!(set.filter("a").unwrap().find().unwrap().value().as_bool(), Some(&true));
    assert_eq!(set.filter("b").unwrap().find().unwrap().value().as_bool(), Some(&true));
    assert_eq!(set.filter("c").unwrap().find().unwrap().value().as_bool(), Some(&false));
    assert!(parser.noa().is_empty());
}

#[test]
fn parse_deactivate_style_switches_off() {
    let mut parser = small_parser(&["-x=bool/"]);
    let mut ai = ArgIterator::from_args(strings(&["-x"]));
    assert_eq!(parser.parse(&mut ai).unwrap(), Some(true));
    let set = parser.set().as_ref().unwrap();
    assert_eq!(set.filter("x").unwrap().find().unwrap().value().as_bool(), Some(&false));
}

#[test]
fn parse_force_required_option_missing() {
    let mut parser = small_parser(&["-o=str!"]);
    let mut ai = ArgIterator::from_args(strings(&["plain"]));
    match parser.parse(&mut ai) {
        Err(Error::OptionForceRequired(m)) => assert_eq!(m, "-o"),
        _ => panic!("the option is force required"),
    }
}

#[test]
fn parse_argument_required_at_end() {
    let mut parser = small_parser(&["-o=str"]);
    let mut ai = ArgIterator::from_args(strings(&["-o"]));
    match parser.parse(&mut ai) {
        Err(Error::ArgumentRequired(m)) => assert_eq!(m, "-o"),
        _ => panic!("the option needs an argument"),
    }
}

#[test]
fn parse_invalid_integer_value() {
    let mut parser = small_parser(&["-n=int"]);
    let mut ai = ArgIterator::from_args(strings(&["-n=x1"]));
    match parser.parse(&mut ai) {
        Err(Error::InvaldOptionValue(v, _)) => assert_eq!(v, "x1"),
        _ => panic!("the value is no integer"),
    }
}

#[test]
fn parse_non_option_force_required_missing() {
    let mut parser = small_parser(&["file=pos!@1"]);
    let mut ai = ArgIterator::from_args(strings(&[]));
    match parser.parse(&mut ai) {
        Err(Error::NonOptionForceRequired(m)) => assert_eq!(m, "`file`"),
        _ => panic!("the non-option is force required"),
    }
}

#[test]
fn parse_non_option_group_names() {
    let mut parser = small_parser(&["first=pos!@2", "second=pos!@2"]);
    let mut ai = ArgIterator::from_args(strings(&["only"]));
    match parser.parse(&mut ai) {
        Err(Error::NonOptionForceRequired(m)) => assert_eq!(m, "`first` or `second`"),
        _ => panic!("the non-options are force required"),
    }
}

#[test]
fn parse_cmd_matches_first_argument() {
    let mut parser = small_parser(&["build=cmd", "-r=bool"]);
    let mut ai = ArgIterator::from_args(strings(&["build", "-r"]));
    assert_eq!(parser.parse(&mut ai).unwrap(), Some(true));
    let set = parser.set().as_ref().unwrap();
    assert_eq!(set.filter("build").unwrap().find().unwrap().value().as_bool(), Some(&true));
    assert_eq!(parser.noa(), &strings(&["build"]));
}

#[test]
fn parse_cmd_missing_is_an_error() {
    let mut parser = small_parser(&["build=cmd"]);
    let mut ai = ArgIterator::from_args(strings(&["clean"]));
    match parser.parse(&mut ai) {
        Err(Error::NonOptionForceRequired(m)) => assert_eq!(m, "`build`"),
        _ => panic!("the command is force required"),
    }
}

#[test]
fn pre_check_refuses_a_callback_of_the_wrong_type() {
    let mut parser = small_parser(&["-v=bool"]);
    parser.set_callback(getopt_rs::id::Identifier::new(0), OptCallback::from_main(Box::new(MainFn(|_: &DefaultSet, _: &Vec<String>| Ok(true)))));
    let mut ai = ArgIterator::from_args(strings(&["-v"]));
    match parser.parse(&mut ai) {
        Err(Error::InvalidCallbackType(id, t)) => {
            assert_eq!(id, "Identifier(0)");
            assert_eq!(t, "Main");
        },
        _ => panic!("a boolean option takes a value callback"),
    }
}

#[test]
fn pre_check_refuses_an_unknown_option() {
    let mut parser = small_parser(&["-v=bool"]);
    parser.set_callback(getopt_rs::id::Identifier::new(7), OptCallback::from_main(Box::new(MainFn(|_: &DefaultSet, _: &Vec<String>| Ok(true)))));
    let mut ai = ArgIterator::from_args(strings(&["-v"]));
    match parser.parse(&mut ai) {
        Err(Error::InvaldOptionId(id)) => assert_eq!(id, "Identifier(7)"),
        _ => panic!("no option has the identifier"),
    }
}

#[test]
fn reset_restores_default_values() {
    let mut parser = small_parser(&["-a=array", "-b=bool"]);
    let mut ai = ArgIterator::from_args(strings(&["-a", "1", "-a=2", "-b", "x"]));
    assert_eq!(parser.parse(&mut ai).unwrap(), Some(true));
    {
        let set = parser.set().as_ref().unwrap();
        assert_eq!(set.filter("a").unwrap().find().unwrap().value().as_vec(), Some(&strings(&["1", "2"])));
    }
    assert_eq!(parser.noa(), &strings(&["x"]));
    parser.reset();
    let set = parser.set().as_ref().unwrap();
    assert!(set.filter("a").unwrap().find().unwrap().value().is_null());
    assert_eq!(set.filter("b").unwrap().find().unwrap().value().as_bool(), Some(&false));
    assert!(parser.noa().is_empty());
}

#[test]
fn set_callback_replaces_an_earlier_one() {
    let mut parser = small_parser(&["f=pos@1"]);
    let id = getopt_rs::id::Identifier::new(0);
    parser.set_callback(id, OptCallback::from_index(Box::new(IndexFn(|_: &DefaultSet, _: &String| Ok(false)))));
    parser.set_callback(id, OptCallback::from_index(Box::new(IndexFn(|_: &DefaultSet, _: &String| Ok(true)))));
    assert_eq!(parser.callbacks.len(), 1);
    let mut ai = ArgIterator::from_args(strings(&["x"]));
    assert_eq!(parser.parse(&mut ai).unwrap(), Some(true));
    let set = parser.set().as_ref().unwrap();
    assert_eq!(set.filter("f").unwrap().find().unwrap().value().as_bool(), Some(&true));
}

#[test]
fn parse_leaves_options_no_argument_names() {
    let mut parser = small_parser(&["-a=bool", "-b=str", "-c=int"]);
    {
        let set = parser.set.as_mut().unwrap();
        let id = set.filter("b").unwrap().find().unwrap().id;
        set.get_opt_mut(id).unwrap().value = getopt_rs::opt::OptValue::from_str("kept".to_owned());
    }
    let mut ai = ArgIterator::from_args(strings(&["-a", "-c", "3", "rest"]));
    assert_eq!(parser.parse(&mut ai).unwrap(), Some(true));
    let set = parser.set().as_ref().unwrap();
    assert_eq!(set.filter("b").unwrap().find().unwrap().value().as_str(), Some(&"kept".to_owned()));
    assert_eq!(set.filter("c").unwrap().find().unwrap().value().as_int(), Some(&3));
}

#[test]
fn parse_values_follow_the_arguments_in_order() {
    let mut parser = small_parser(&["-s=str", "-n=int", "-l=array"]);
    let mut ai = ArgIterator::from_args(strings(&["-s", "x", "-s=y", "-n5", "-l", "a", "-l=b"]));
    assert_eq!(parser.parse(&mut ai).unwrap(), Some(true));
    assert!(parser.noa().is_empty());
    let set = parser.set().as_ref().unwrap();
    assert_eq!(set.filter("s").unwrap().find().unwrap().value().as_str(), Some(&"y".to_owned()));
    assert_eq!(set.filter("n").unwrap().find().unwrap().value().as_int(), Some(&5));
    assert_eq!(vec_of(set, "l"), strings(&["a", "b"]));
}

#[test]
fn invoke_callback_without_callback_succeeds() {
    let mut parser = small_parser(&["-a=bool"]);
    let id = parser.set().as_ref().unwrap().filter("a").unwrap().find().unwrap().id;
    assert_eq!(parser.invoke_callback(id, getopt_rs::callback::CallbackType::Value, 0).unwrap(), true);
    assert_eq!(parser.invoke_callback(id, getopt_rs::callback::CallbackType::Index, 3).unwrap(), true);
}
