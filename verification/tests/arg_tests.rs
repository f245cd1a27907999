use getopt_rs::arg::{parse_argument, ArgIterator, IndexIterator};

fn strings(v: &[&str]) -> Vec<String> {
    v.iter().map(|&a| String::from(a)).collect()
}

fn testing_one_iterator(iter: &mut ArgIterator, prefixs: &Vec<String>, all_data: &Vec<String>, check: &Vec<Vec<String>>) {
    assert!(iter.current().is_none());
    assert!(iter.next().is_none());
    assert_eq!(iter.count(), all_data.len());

    while !iter.reach_end() {
        iter.fill_current_and_next();

        assert_eq!(iter.current().as_ref(), all_data.get(iter.current_index()));
        assert_eq!(iter.next().as_ref(), all_data.get(iter.current_index() + 1));

        iter.skip();
    }
    assert!(iter.reach_end());

    iter.reset();

    assert!(iter.current().is_none());
    assert!(iter.next().is_none());

    while !iter.reach_end() {
        iter.fill_current_and_next();

        if let Ok(data) = iter.parse(prefixs) {
            assert_eq!(data.get_prefix(), check[iter.current_index()].get(0));
            assert_eq!(data.get_name(), check[iter.current_index()].get(1));
            assert_eq!(data.get_value(), check[iter.current_index()].get(2));
            iter.skip();
        }

        iter.skip();
    }
    assert!(iter.reach_end());
}

#[test]
fn make_sure_arg_iterator_working() {
    {
        let data = strings(&["cpp", "-i=iostream", "-L", "libabc", "-o", "example.c++"]);
        let backup = data.clone();
        let check = vec![
            vec![],
            strings(&["-", "i", "iostream"]),
            strings(&["-", "L"]),
            vec![],
            strings(&["-", "o"]),
        ];
        let mut iter = ArgIterator::new();

        iter.set_args(data);
        testing_one_iterator(&mut iter, &vec!["-".to_owned()], &backup, &check);
    }
    {
        let data = strings(&["c", "+std=c11", "-i=stdlib.h", "-L", "libabc", "--include=stdio.h", "example.c++"]);
        let backup = data.clone();
        let check = vec![
            vec![],
            strings(&["+", "std", "c11"]),
            strings(&["-", "i", "stdlib.h"]),
            strings(&["-", "L"]),
            vec![],
            strings(&["--", "include", "stdio.h"]),
        ];
        let mut iter = ArgIterator::new();

        iter.set_args(data);
        testing_one_iterator(&mut iter, &strings(&["--", "-", "+"]), &backup, &check);
    }
}

#[test]
fn test_parse_argument() {
    let prefixs: Vec<String> = strings(&["--", "-", "+", "/"]);

    let test_cases = [
        ("--option", Some(("--", "option", None))),
        ("--option=1", Some(("--", "option", Some("1".to_owned())))),
        ("-o", Some(("-", "o", None))),
        ("+o", Some(("+", "o", None))),
        ("/o", Some(("/", "o", None))),
        ("-", None),
        ("-w=1=2", Some(("-", "w", Some("1=2".to_owned())))),
    ];

    for acase in &test_cases {
        if let Ok(a) = parse_argument(&Some(acase.0.to_owned()), &prefixs) {
            if let Some(atest) = &acase.1 {
                assert_eq!(atest.0, a.get_prefix().unwrap().as_str());
                assert_eq!(atest.1, a.get_name().unwrap().as_str());
                assert_eq!(atest.2.as_ref(), a.get_value());
            }
        } else {
            assert_eq!(acase.1, None);
        }
    }
}

#[test]
fn parse_argument_without_argument_fails() {
    let prefixs = strings(&["-"]);
    assert!(parse_argument(&None, &prefixs).is_err());
    assert!(parse_argument(&Some("plain".to_owned()), &prefixs).is_err());
}

#[test]
fn arg_iterator_from_args_starts_at_first() {
    let mut iter = ArgIterator::from_args(strings(&["a", "b"]));
    assert_eq!(iter.current_index(), 0);
    assert_eq!(iter.count(), 2);
    iter.fill_current_and_next();
    assert_eq!(iter.current(), &Some("a".to_owned()));
    assert_eq!(iter.next(), &Some("b".to_owned()));
    iter.skip();
    iter.fill_current_and_next();
    assert_eq!(iter.current(), &Some("b".to_owned()));
    assert_eq!(iter.next(), &None);
    iter.skip();
    assert!(iter.reach_end());
}
