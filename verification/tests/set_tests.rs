use getopt_rs::error::Error;
use getopt_rs::id::Identifier;
use getopt_rs::nonopt::{cmd, main, pos};
use getopt_rs::opt::common::OptKind;
use getopt_rs::opt::{boolean, integer, string, unsigned, Name};
use getopt_rs::utils::{CreateInfo, FilterInfo, Utils};
use getopt_rs::set::DefaultSet;

#[test]
fn make_sure_set_work() {
    let mut set = DefaultSet::new();

    assert_eq!(set.add_utils(string::StrUtils::new()).is_err(), false);
    assert_eq!(set.add_utils(integer::IntUtils::new()).is_err(), false);
    assert_eq!(set.add_utils(unsigned::UintUtils::new()).is_err(), false);
    assert_eq!(set.add_utils(boolean::BoolUtils::new()).is_err(), false);
    assert_eq!(set.add_utils(pos::PosUtils::new()).is_err(), false);
    assert_eq!(set.add_utils(cmd::CmdUtils::new()).is_err(), false);
    assert_eq!(set.add_utils(main::MainUtils::new()).is_err(), false);
    assert_eq!(set.add_utils(main::MainUtils::new()).is_err(), true);

    assert_eq!(set.get_utils("str"), Some(OptKind::Str));
    assert_eq!(set.get_utils("int"), Some(OptKind::Int));
    assert_eq!(set.get_utils("bool"), Some(OptKind::Bool));
    assert_eq!(set.get_utils("cmd"), Some(OptKind::Cmd));
    assert_eq!(set.get_utils("main"), Some(OptKind::Main));
    assert_eq!(set.get_utils("pos"), Some(OptKind::Pos));

    assert_eq!(set.rem_utils("uint").is_err(), false);
    assert_eq!(set.get_utils("uint").is_none(), true);
    assert_eq!(set.get_utils("array").is_none(), true);
    assert_eq!(set.rem_utils("uint").is_err(), true);

    set.initialize_prefixs();

    if let Ok(mut commit) = set.add_opt("-|P=bool") {
        assert!(commit.commit().is_ok());
    }
    if let Err(_) = set.add_opt("-/L=bool") {
        assert!(true);
    }
    if let Ok(ci) = CreateInfo::parse("-|H=bool", &set.prefixs) {
        assert!(set.add_opt_ci(&ci).is_ok());
    }
    let int_utils = integer::IntUtils::new();
    {
        let fake_id = Identifier::new(11);

        for p in ["-|O=int", "-|maxdepth=int", "-|mindepth=int"] {
            if let Ok(ci) = CreateInfo::parse(p, &set.prefixs) {
                if let Ok(optimz) = int_utils.create(fake_id, &ci) {
                    assert!(set.add_opt_raw(optimz).is_ok());
                }
            }
        }
    }
    let mut id = Identifier::new(0);

    if let Ok(mut commit) = set.add_opt("-|d=bool") {
        commit.add_alias("--", "depth");
        let ret_id = commit.commit();
        assert!(ret_id.is_ok());
        id = ret_id.unwrap();
    }
    if let Some(depth) = set.get_opt(id) {
        assert_eq!(depth.name(), "d");
    }
    if let Some(p) = set.get_opt_i(0) {
        assert_eq!(p.name(), "P");
    }
    assert_eq!(set.len(), 6);

    for p in ["-|help=bool", "-|mount=bool", "-|version=bool", "-|amin=int", "-|atime=int", "-|cmin=int",
              "-|ctime=int", "-|fstype=str", "-|iname=str", "-|name=str", "localtion=pos@1", "find=main"] {
        if let Ok(mut commit) = set.add_opt(p) {
            assert!(commit.commit().is_ok());
        }
    }
    if let Ok(filter) = set.filter("-|help=bool") {
        assert!(filter.find().is_some());
    }
    if let Ok(filter) = set.filter("-|help=str") {
        assert!(filter.find().is_none());
    }

    let mut fi = FilterInfo::new();

    fi.set_type_name("str".to_owned());
    let vec = set.find_all(&fi);

    assert_eq!(vec.len(), 3);
    assert_eq!(vec[0].name(), "fstype");
    assert_eq!(vec[2].name(), "name");
}

#[test]
fn add_opt_ci_refuses_unknown_types() {
    let mut set = DefaultSet::new();
    set.initialize_prefixs();
    let ci = CreateInfo::parse("-x=str", &set.prefixs).unwrap();
    match set.add_opt_ci(&ci) {
        Err(Error::InvalidOptionType(t)) => assert_eq!(t, "str"),
        _ => panic!("no type is known yet"),
    }
    set.initialize_utils();
    let ci = CreateInfo::parse("-x=flt", &set.prefixs).unwrap();
    match set.add_opt_ci(&ci) {
        Err(Error::InvalidOptionType(t)) => assert_eq!(t, "flt"),
        _ => panic!("floats are not supported"),
    }
    assert_eq!(set.len(), 0);
}

#[test]
fn create_refuses_deactivate_style_and_other_types() {
    let prefixs = vec!["-".to_owned()];
    let ci = CreateInfo::parse("-x=str/", &prefixs).unwrap();
    match string::StrUtils::new().create(Identifier::new(0), &ci) {
        Err(Error::UtilsNotSupportDeactivateStyle(n)) => assert_eq!(n, "str"),
        _ => panic!("strings take no deactivate style"),
    }
    let ci = CreateInfo::parse("-x=int/", &prefixs).unwrap();
    match integer::IntUtils::new().create(Identifier::new(0), &ci) {
        Err(Error::UtilsNotSupportDeactivateStyle(n)) => assert_eq!(n, "x"),
        _ => panic!("integers take no deactivate style"),
    }
    let ci = CreateInfo::parse("-x=int", &prefixs).unwrap();
    match string::StrUtils::new().create(Identifier::new(0), &ci) {
        Err(Error::UtilsNotSupportTypeName(a, b)) => {
            assert_eq!(a, "str");
            assert_eq!(b, "int");
        },
        _ => panic!("the type is int"),
    }
    let ci = CreateInfo::parse("-x=bool/", &prefixs).unwrap();
    assert!(boolean::BoolUtils::new().create(Identifier::new(0), &ci).is_ok());
}

#[test]
fn create_info_needs_type_and_name() {
    let prefixs = vec!["-".to_owned()];
    assert!(matches!(CreateInfo::parse("-x", &prefixs), Err(Error::NullOptionType)));
    assert!(matches!(CreateInfo::parse("-=str", &prefixs), Err(Error::NullOptionName)));
    assert!(CreateInfo::parse("-x=str@1!", &prefixs).is_err());
}

#[test]
fn get_all_prefixs_lists_each_once() {
    let mut set = DefaultSet::new();
    set.initialize_utils();
    set.initialize_prefixs();
    set.app_prefix("+".to_owned());
    {
        let mut c = set.add_opt("-a=bool").unwrap();
        c.add_alias("--", "all");
        c.commit().unwrap();
    }
    set.add_opt("+b=bool").unwrap().commit().unwrap();
    set.add_opt("-c=bool").unwrap().commit().unwrap();
    assert_eq!(set.get_all_prefixs(), vec!["-".to_owned(), "--".to_owned(), "+".to_owned()]);
}

#[test]
fn check_reports_first_force_required() {
    let mut set = DefaultSet::new();
    set.initialize_utils();
    set.initialize_prefixs();
    set.add_opt("-a=str").unwrap().commit().unwrap();
    set.add_opt("--b=int!").unwrap().commit().unwrap();
    set.add_opt("-c=str!").unwrap().commit().unwrap();
    match set.check() {
        Err(Error::OptionForceRequired(m)) => assert_eq!(m, "--b"),
        _ => panic!("b is force required"),
    }
}

#[test]
fn filter_mut_changes_the_first_match_in_place() {
    let mut set = DefaultSet::new();
    set.initialize_utils();
    set.initialize_prefixs();
    for p in ["-|a=bool", "-|b=str", "-|c=str"] {
        let mut commit = set.add_opt(p).unwrap();
        assert!(commit.commit().is_ok());
    }
    {
        let mut f = set.filter_mut("-|x=str").unwrap();
        f.set_name("c".to_owned());
        f.set_optional(true);
        let o = f.find().unwrap();
        assert_eq!(o.name(), "c");
        o.set_name("renamed");
    }
    assert_eq!(set.get_opt_i(2).unwrap().name(), "renamed");
    assert_eq!(set.get_opt_i(1).unwrap().name(), "b");
    {
        let mut f = set.filter_mut("-|c=str").unwrap();
        f.set_deactivate_style(true);
        assert_eq!(f.filter_info.deactivate, Some(true));
        assert!(f.find().is_none());
    }
    let mut f = set.filter("-|b=str").unwrap();
    f.set_optional(false);
    f.set_deactivate_style(true);
    assert_eq!(f.filter_info.optional, Some(false));
    assert_eq!(f.filter_info.deactivate, Some(true));
    assert_eq!(f.find().unwrap().name(), "b");
}
