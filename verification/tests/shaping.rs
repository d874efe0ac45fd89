use dairi::process_manager::ProcessManagerError;
use dairi::shaping::arrange_input;

#[test]
fn test_arrange_input() {
    {
        let input = arrange_input(
            "aaa\nbbb".to_string(),
            false,
            Some(&";".to_string()),
            None,
            false,
        );
        assert_eq!("aaa;bbb".to_string(), input.unwrap());
    }

    {
        let input = arrange_input(
            "
                # sss
                aaa # ddd
 \n\nbbb"
                .to_string(),
            true,
            Some(&";".to_string()),
            Some(&"#.*".to_string()),
            false,
        );
        assert_eq!(
            ";                ;                aaa ; ;;bbb\n".to_string(),
            input.unwrap()
        );
    }

    {
        let input = arrange_input(
            "
                # sss
                aaa # ddd
 \n\nbbb"
                .to_string(),
            true,
            Some(&";".to_string()),
            Some(&"#.*".to_string()),
            true,
        );
        assert_eq!("                aaa ;bbb\n".to_string(), input.unwrap());
    }
}

#[test]
fn arrange_input_identity_policy_returns_input_unchanged() {
    let cases = ["", "aaa", "aaa\nbbb", " \n\t\n", "x\n"];
    for case in cases {
        let out = arrange_input(case.to_string(), false, None, None, false).unwrap();
        assert_eq!(case, out);
    }
}

#[test]
fn arrange_input_identity_policy_is_idempotent_after_shaping() {
    let shaped = arrange_input(
        "aaa\nbbb".to_string(),
        true,
        Some(&";".to_string()),
        None,
        true,
    )
    .unwrap();
    let again = arrange_input(shaped.clone(), false, None, None, false).unwrap();
    assert_eq!(shaped, again);
}

#[test]
fn arrange_input_invalid_pattern_is_rejected() {
    let r = arrange_input(
        "aaa".to_string(),
        false,
        None,
        Some(&"(".to_string()),
        false,
    );
    match r {
        Err(ProcessManagerError::RegexError(src)) => assert_eq!(src, "("),
        other => panic!("expected a pattern error, got {:?}", other),
    }
}

#[test]
fn arrange_input_trailing_newline_only() {
    let out = arrange_input("aaa".to_string(), true, None, None, false).unwrap();
    assert_eq!("aaa\n", out);
}

#[test]
fn arrange_input_remove_empty_lines_only() {
    let out = arrange_input(
        "aaa\n\n \t \nbbb".to_string(),
        false,
        None,
        None,
        true,
    )
    .unwrap();
    assert_eq!("aaa\nbbb", out);
}

#[test]
fn arrange_input_empty_string_stays_empty_under_removal() {
    let out = arrange_input(String::new(), false, None, None, true).unwrap();
    assert_eq!("", out);
}

#[test]
fn arrange_input_joining_erases_a_trailing_newline() {
    // Joining replaces every newline, the trailing one included.
    let out = arrange_input(
        "aaa\n".to_string(),
        false,
        Some(&";".to_string()),
        None,
        false,
    )
    .unwrap();
    assert_eq!("aaa;", out);
}

#[test]
fn arrange_input_truncation_applies_per_line() {
    let out = arrange_input(
        "keep # drop\nalso # gone".to_string(),
        false,
        None,
        Some(&"#.*".to_string()),
        false,
    )
    .unwrap();
    assert_eq!("keep \nalso ", out);
}
