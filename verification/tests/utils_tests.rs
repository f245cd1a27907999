use getopt_rs::opt::NonOptIndex;
use getopt_rs::utils::parse_opt_string;

#[test]
fn utils_str_can_parse_to_create_info() {
    let test_cases = vec![
            ("o=b", Some(("b", "o", "", NonOptIndex::Null, false, true))),
            ("o=b!", Some(("b", "o", "", NonOptIndex::Null, false, false))),
            ("o=b/", Some(("b", "o", "", NonOptIndex::Null, true, true))),
            ("o=b!/", Some(("b", "o", "", NonOptIndex::Null, true, false))),
            ("o=b/!", Some(("b", "o", "", NonOptIndex::Null, true, false))),
            ("option=b", Some(("b", "option", "", NonOptIndex::Null, false, true))),
            ("option=b!", Some(("b", "option", "", NonOptIndex::Null, false, false))),
            ("option=b/", Some(("b", "option", "", NonOptIndex::Null, true, true))),
            ("option=b!/", Some(("b", "option", "", NonOptIndex::Null, true, false))),
            ("option=b/!", Some(("b", "option", "", NonOptIndex::Null, true, false))),

            ("-o=b", Some(("b", "o", "-", NonOptIndex::Null, false, true))),
            ("-o=b!", Some(("b", "o", "-", NonOptIndex::Null, false, false))),
            ("-o=b/", Some(("b", "o", "-", NonOptIndex::Null, true, true))),
            ("-o=b!/", Some(("b", "o", "-", NonOptIndex::Null, true, false))),
            ("-o=b/!", Some(("b", "o", "-", NonOptIndex::Null, true, false))),
            ("-option=b", Some(("b", "option", "-", NonOptIndex::Null, false, true))),
            ("-option=b!", Some(("b", "option", "-", NonOptIndex::Null, false, false))),
            ("-option=b/", Some(("b", "option", "-", NonOptIndex::Null, true, true))),
            ("-option=b!/", Some(("b", "option", "-", NonOptIndex::Null, true, false))),
            ("-option=b/!", Some(("b", "option", "-", NonOptIndex::Null, true, false))),

            ("--o=b", Some(("b", "o", "--", NonOptIndex::Null, false, true))),
            ("--o=b!", Some(("b", "o", "--", NonOptIndex::Null, false, false))),
            ("--o=b/", Some(("b", "o", "--", NonOptIndex::Null, true, true))),
            ("--o=b!/", Some(("b", "o", "--", NonOptIndex::Null, true, false))),
            ("--o=b/!", Some(("b", "o", "--", NonOptIndex::Null, true, false))),
            ("--option=b", Some(("b", "option", "--", NonOptIndex::Null, false, true))),
            ("--option=b!", Some(("b", "option", "--", NonOptIndex::Null, false, false))),
            ("--option=b/", Some(("b", "option", "--", NonOptIndex::Null, true, true))),
            ("--option=b!/", Some(("b", "option", "--", NonOptIndex::Null, true, false))),
            ("--option=b/!", Some(("b", "option", "--", NonOptIndex::Null, true, false))),

            ("/o=b", Some(("b", "o", "/", NonOptIndex::Null, false, true))),
            ("/o=b!", Some(("b", "o", "/", NonOptIndex::Null, false, false))),
            ("/o=b/", Some(("b", "o", "/", NonOptIndex::Null, true, true))),
            ("/o=b!/", Some(("b", "o", "/", NonOptIndex::Null, true, false))),
            ("/o=b/!", Some(("b", "o", "/", NonOptIndex::Null, true, false))),
            ("/option=b", Some(("b", "option", "/", NonOptIndex::Null, false, true))),
            ("/option=b!", Some(("b", "option", "/", NonOptIndex::Null, false, false))),
            ("/option=b/", Some(("b", "option", "/", NonOptIndex::Null, true, true))),
            ("/option=b!/", Some(("b", "option", "/", NonOptIndex::Null, true, false))),
            ("/option=b/!", Some(("b", "option", "/", NonOptIndex::Null, true, false))),

            ("o", Some(("", "o", "", NonOptIndex::Null, false, true))),
            ("o!", Some(("", "o", "", NonOptIndex::Null, false, false))),
            ("o/", Some(("", "o", "", NonOptIndex::Null, true, true))),
            ("o!/", Some(("", "o", "", NonOptIndex::Null, true, false))),
            ("o/!", Some(("", "o", "", NonOptIndex::Null, true, false))),
            ("option", Some(("", "option", "", NonOptIndex::Null, false, true))),
            ("option!", Some(("", "option", "", NonOptIndex::Null, false, false))),
            ("option/", Some(("", "option", "", NonOptIndex::Null, true, true))),
            ("option!/", Some(("", "option", "", NonOptIndex::Null, true, false))),
            ("option/!", Some(("", "option", "", NonOptIndex::Null, true, false))),

            ("-o", Some(("", "o", "-", NonOptIndex::Null, false, true))),
            ("-o!", Some(("", "o", "-", NonOptIndex::Null, false, false))),
            ("-o/", Some(("", "o", "-", NonOptIndex::Null, true, true))),
            ("-o!/", Some(("", "o", "-", NonOptIndex::Null, true, false))),
            ("-o/!", Some(("", "o", "-", NonOptIndex::Null, true, false))),
            ("-option", Some(("", "option", "-", NonOptIndex::Null, false, true))),
            ("-option!", Some(("", "option", "-", NonOptIndex::Null, false, false))),
            ("-option/", Some(("", "option", "-", NonOptIndex::Null, true, true))),
            ("-option!/", Some(("", "option", "-", NonOptIndex::Null, true, false))),
            ("-option/!", Some(("", "option", "-", NonOptIndex::Null, true, false))),

            ("--o", Some(("", "o", "--", NonOptIndex::Null, false, true))),
            ("--o!", Some(("", "o", "--", NonOptIndex::Null, false, false))),
            ("--o/", Some(("", "o", "--", NonOptIndex::Null, true, true))),
            ("--o!/", Some(("", "o", "--", NonOptIndex::Null, true, false))),
            ("--o/!", Some(("", "o", "--", NonOptIndex::Null, true, false))),
            ("--option", Some(("", "option", "--", NonOptIndex::Null, false, true))),
            ("--option!", Some(("", "option", "--", NonOptIndex::Null, false, false))),
            ("--option/", Some(("", "option", "--", NonOptIndex::Null, true, true))),
            ("--option!/", Some(("", "option", "--", NonOptIndex::Null, true, false))),
            ("--option/!", Some(("", "option", "--", NonOptIndex::Null, true, false))),

            ("o=a@1", Some(("a", "o", "", NonOptIndex::Forward(1), false, true))),
            ("o=a!@1", Some(("a", "o", "", NonOptIndex::Forward(1), false, false))),
            ("o=a/@1", Some(("a", "o", "", NonOptIndex::Forward(1), true, true))),
            ("o=a!/@1", Some(("a", "o", "", NonOptIndex::Forward(1), true, false))),
            ("o=a/!@1", Some(("a", "o", "", NonOptIndex::Forward(1), true, false))),
            ("option=a@1", Some(("a", "option", "", NonOptIndex::Forward(1), false, true))),
            ("option=a!@1", Some(("a", "option", "", NonOptIndex::Forward(1), false, false))),
            ("option=a/@1", Some(("a", "option", "", NonOptIndex::Forward(1), true, true))),
            ("option=a!/@1", Some(("a", "option", "", NonOptIndex::Forward(1), true, false))),
            ("option=a/!@1", Some(("a", "option", "", NonOptIndex::Forward(1), true, false))),

            ("-o=a@1", Some(("a", "o", "-", NonOptIndex::Forward(1), false, true))),
            ("-o=a!@1", Some(("a", "o", "-", NonOptIndex::Forward(1), false, false))),
            ("-o=a/@1", Some(("a", "o", "-", NonOptIndex::Forward(1), true, true))),
            ("-o=a!/@1", Some(("a", "o", "-", NonOptIndex::Forward(1), true, false))),
            ("-o=a/!@1", Some(("a", "o", "-", NonOptIndex::Forward(1), true, false))),
            ("-option=a@1", Some(("a", "option", "-", NonOptIndex::Forward(1), false, true))),
            ("-option=a!@1", Some(("a", "option", "-", NonOptIndex::Forward(1), false, false))),
            ("-option=a/@1", Some(("a", "option", "-", NonOptIndex::Forward(1), true, true))),
            ("-option=a!/@1", Some(("a", "option", "-", NonOptIndex::Forward(1), true, false))),
            ("-option=a/!@1", Some(("a", "option", "-", NonOptIndex::Forward(1), true, false))),
            
            ("o@1", Some(("", "o", "", NonOptIndex::Forward(1), false, true))),
            ("o!@1", Some(("", "o", "", NonOptIndex::Forward(1), false, false))),
            ("o/@1", Some(("", "o", "", NonOptIndex::Forward(1), true, true))),
            ("o!/@1", Some(("", "o", "", NonOptIndex::Forward(1), true, false))),
            ("o/!@1", Some(("", "o", "", NonOptIndex::Forward(1), true, false))),
            ("option@1", Some(("", "option", "", NonOptIndex::Forward(1), false, true))),
            ("option!@1", Some(("", "option", "", NonOptIndex::Forward(1), false, false))),
            ("option/@1", Some(("", "option", "", NonOptIndex::Forward(1), true, true))),
            ("option!/@1", Some(("", "option", "", NonOptIndex::Forward(1), true, false))),
            ("option/!@1", Some(("", "option", "", NonOptIndex::Forward(1), true, false))),

            ("-o@1", Some(("", "o", "-", NonOptIndex::Forward(1), false, true))),
            ("-o!@1", Some(("", "o", "-", NonOptIndex::Forward(1), false, false))),
            ("-o/@1", Some(("", "o", "-", NonOptIndex::Forward(1), true, true))),
            ("-o!/@1", Some(("", "o", "-", NonOptIndex::Forward(1), true, false))),
            ("-o/!@1", Some(("", "o", "-", NonOptIndex::Forward(1), true, false))),
            ("-option@1", Some(("", "option", "-", NonOptIndex::Forward(1), false, true))),
            ("-option!@1", Some(("", "option", "-", NonOptIndex::Forward(1), false, false))),
            ("-option/@1", Some(("", "option", "-", NonOptIndex::Forward(1), true, true))),
            ("-option!/@1", Some(("", "option", "-", NonOptIndex::Forward(1), true, false))),
            ("-option/!@1", Some(("", "option", "-", NonOptIndex::Forward(1), true, false))),

            ("o=a@-3", Some(("a", "o", "", NonOptIndex::Backward(3), false, true))),
            ("o=a!@-3", Some(("a", "o", "", NonOptIndex::Backward(3), false, false))),
            ("o=a/@-3", Some(("a", "o", "", NonOptIndex::Backward(3), true, true))),
            ("o=a!/@-3", Some(("a", "o", "", NonOptIndex::Backward(3), true, false))),
            ("o=a/!@-3", Some(("a", "o", "", NonOptIndex::Backward(3), true, false))),
            ("option=a@-3", Some(("a", "option", "", NonOptIndex::Backward(3), false, true))),
            ("option=a!@-3", Some(("a", "option", "", NonOptIndex::Backward(3), false, false))),
            ("option=a/@-3", Some(("a", "option", "", NonOptIndex::Backward(3), true, true))),
            ("option=a!/@-3", Some(("a", "option", "", NonOptIndex::Backward(3), true, false))),
            ("option=a/!@-3", Some(("a", "option", "", NonOptIndex::Backward(3), true, false))),

            ("o@-3", Some(("", "o", "", NonOptIndex::Backward(3), false, true))),
            ("o!@-3", Some(("", "o", "", NonOptIndex::Backward(3), false, false))),
            ("o/@-3", Some(("", "o", "", NonOptIndex::Backward(3), true, true))),
            ("o!/@-3", Some(("", "o", "", NonOptIndex::Backward(3), true, false))),
            ("o/!@-3", Some(("", "o", "", NonOptIndex::Backward(3), true, false))),
            ("option@-3", Some(("", "option", "", NonOptIndex::Backward(3), false, true))),
            ("option!@-3", Some(("", "option", "", NonOptIndex::Backward(3), false, false))),
            ("option/@-3", Some(("", "option", "", NonOptIndex::Backward(3), true, true))),
            ("option!/@-3", Some(("", "option", "", NonOptIndex::Backward(3), true, false))),
            ("option/!@-3", Some(("", "option", "", NonOptIndex::Backward(3), true, false))),

            ("o=a@1!", None),
            ("o=a@1/", None),
            ("o=a@1!/", None),
            ("o=a@1/!", None),
            ("option=a@1!", None),
            ("option=a@1/", None),
            ("option=a@1!/", None),
            ("option=a@1/!", None),

            ("o@1!", None),
            ("o@1/", None),
            ("o@1!/", None),
            ("o@1/!", None),
            ("option@1!", None),
            ("option@1/", None),
            ("option@1!/", None),
            ("option@1/!", None),

            ("o=a@-3!", None),
            ("o=a@-3/", None),
            ("o=a@-4!/", None),
            ("o=a@-5/!", None),
            ("option=a@-1!", None),
            ("option=a@-2/", None),
            ("option=a@-1!/", None),
            ("option=a@-2/!", None),
        ];

    let prefixs = vec!["--".to_owned(), "/".to_owned(), "-".to_owned()];

    for case in test_cases.iter() {
        match parse_opt_string(case.0, &prefixs) {
            Ok(ci) => {
                let test_ci = case.1.as_ref().unwrap();

                assert_eq!(ci.opt_prefix.as_ref().unwrap_or(&String::from("")).as_str(), test_ci.2);
                assert_eq!(ci.opt_name.as_ref().unwrap_or(&String::from("")).as_str(), test_ci.1);
                assert_eq!(ci.opt_type.as_ref().unwrap_or(&String::from("")).as_str(), test_ci.0);
                assert_eq!(ci.opt_index, test_ci.3);
                assert_eq!(ci.deactivate.as_ref().unwrap_or(&false), &test_ci.4);
                assert_eq!(ci.optional.as_ref().unwrap_or(&true), &test_ci.5);
            }
            Err(_) => {
                assert_eq!(true, case.1.is_none());
            }
        }
    }
}

#[test]
fn bar_parts_prefix_from_name() {
    let prefixs = vec!["-".to_owned()];
    let pr = parse_opt_string("-|o=a!", &prefixs).unwrap();
    assert_eq!(pr.opt_prefix, Some("-".to_owned()));
    assert_eq!(pr.opt_name, Some("o".to_owned()));
    assert_eq!(pr.opt_type, Some("a".to_owned()));
    assert_eq!(pr.optional, Some(false));
    let pr = parse_opt_string("-o=a", &prefixs).unwrap();
    assert_eq!(pr.opt_name, Some("o".to_owned()));
}
