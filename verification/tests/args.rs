use alap::args::{resolve, Args, Error, Input, Request, Token, ALL_WINDOWS};

fn parse_line(args: &[&str], env_window_id: Option<&str>) -> Result<Args, Error> {
    Args::try_from(lexopt::Parser::from_args(args.iter().copied()), env_window_id)
}

fn request(window: Option<&str>, input: Option<Input>) -> Request {
    Request { window: window.map(|w| w.to_string()), input }
}

// the window

#[test]
fn all_is_every_window_whatever_the_environment() {
    assert!(matches!(resolve(Some("all"), None), Ok(-1)));
    assert!(matches!(resolve(Some("all"), Some("5")), Ok(-1)));
    assert!(matches!(resolve(Some("all"), Some("")), Ok(-1)));
    assert!(matches!(resolve(Some("all"), Some("not a number")), Ok(-1)));
    assert_eq!(ALL_WINDOWS, -1);
}

#[test]
fn self_is_the_window_of_the_environment() {
    assert!(matches!(resolve(Some("self"), Some("5")), Ok(5)));
    assert!(matches!(resolve(Some("self"), Some("-3")), Ok(-3)));
}

#[test]
fn self_without_environment_is_missing() {
    assert!(matches!(resolve(Some("self"), None), Err(Error::MissingWindowId)));
}

#[test]
fn self_with_bad_environment_is_invalid() {
    assert!(matches!(
        resolve(Some("self"), Some("five")),
        Err(Error::InvalidWindowId(text)) if text == "five"
    ));
    assert!(matches!(
        resolve(Some("self"), Some("")),
        Err(Error::InvalidWindowId(text)) if text.is_empty()
    ));
}

#[test]
fn no_flag_and_no_environment_is_every_window() {
    assert!(matches!(resolve(None, None), Ok(-1)));
}

#[test]
fn no_flag_takes_the_window_of_the_environment() {
    assert!(matches!(resolve(None, Some("12")), Ok(12)));
}

#[test]
fn no_flag_and_empty_environment_is_every_window() {
    assert!(matches!(resolve(None, Some("")), Ok(-1)));
}

#[test]
fn no_flag_and_bad_environment_is_invalid() {
    assert!(matches!(
        resolve(None, Some("x")),
        Err(Error::InvalidWindowId(text)) if text == "x"
    ));
}

#[test]
fn a_number_is_the_window_whatever_the_environment() {
    assert!(matches!(resolve(Some("7"), None), Ok(7)));
    assert!(matches!(resolve(Some("7"), Some("5")), Ok(7)));
    assert!(matches!(resolve(Some("7"), Some("x")), Ok(7)));
    assert!(matches!(resolve(Some("-1"), None), Ok(-1)));
    assert!(matches!(
        resolve(Some("170141183460469231731687303715884105727"), None),
        Ok(i128::MAX)
    ));
}

#[test]
fn other_text_is_an_invalid_window() {
    assert!(matches!(
        resolve(Some("x"), None),
        Err(Error::InvalidWindowId(text)) if text == "x"
    ));
    assert!(matches!(resolve(Some("x"), Some("5")), Err(Error::InvalidWindowId(_))));
    assert!(matches!(resolve(Some(""), Some("5")), Err(Error::InvalidWindowId(_))));
    assert!(matches!(resolve(Some("All"), None), Err(Error::InvalidWindowId(_))));
    assert!(matches!(resolve(Some("SELF"), Some("5")), Err(Error::InvalidWindowId(_))));
    assert!(matches!(
        resolve(Some("170141183460469231731687303715884105728"), None),
        Err(Error::InvalidWindowId(_))
    ));
}

// one token at a time

#[test]
fn window_flag_is_the_one_that_wants_a_value() {
    assert!(Token::Short('w').wants_value());
    assert!(Token::Long("window".to_string()).wants_value());
    assert!(!Token::Short('h').wants_value());
    assert!(!Token::Long("help".to_string()).wants_value());
    assert!(!Token::Long("w".to_string()).wants_value());
    assert!(!Token::Value("window".to_string()).wants_value());
}

#[test]
fn help_tokens_ask_for_help() {
    assert!(matches!(Request::new().accept(Token::Short('h')), Err(Error::Help)));
    assert!(matches!(Request::new().accept(Token::Long("help".to_string())), Err(Error::Help)));
    assert!(matches!(
        request(Some("1"), Some(Input::StdIn)).accept(Token::Short('h')),
        Err(Error::Help)
    ));
}

#[test]
fn window_token_is_accepted_once() {
    assert_eq!(Request::new().accept(Token::Short('w')).unwrap(), Request::new());
    assert_eq!(
        request(None, Some(Input::StdIn)).accept(Token::Long("window".to_string())).unwrap(),
        request(None, Some(Input::StdIn))
    );
    assert!(matches!(
        request(Some("1"), None).accept(Token::Short('w')),
        Err(Error::Duplicate(what)) if what == "window"
    ));
    assert!(matches!(
        request(Some("1"), None).accept(Token::Long("window".to_string())),
        Err(Error::Duplicate(what)) if what == "window"
    ));
}

#[test]
fn window_value_is_kept_as_given() {
    assert_eq!(Request::new().with_window("self".to_string()), request(Some("self"), None));
    assert_eq!(
        request(None, Some(Input::File("f".to_string()))).with_window("9".to_string()),
        request(Some("9"), Some(Input::File("f".to_string())))
    );
}

#[test]
fn positional_token_names_the_input() {
    assert_eq!(
        Request::new().accept(Token::Value("-".to_string())).unwrap(),
        request(None, Some(Input::StdIn))
    );
    assert_eq!(
        request(Some("all"), None).accept(Token::Value("conf.toml".to_string())).unwrap(),
        request(Some("all"), Some(Input::File("conf.toml".to_string())))
    );
}

#[test]
fn second_positional_token_is_a_duplicate() {
    let file = || Some(Input::File("a".to_string()));
    assert!(matches!(
        request(None, file()).accept(Token::Value("b".to_string())),
        Err(Error::Duplicate(what)) if what == "FILE"
    ));
    assert!(matches!(
        request(None, file()).accept(Token::Value("-".to_string())),
        Err(Error::Duplicate(what)) if what == "FILE (stdin)"
    ));
    assert!(matches!(
        request(None, Some(Input::StdIn)).accept(Token::Value("b".to_string())),
        Err(Error::Duplicate(what)) if what == "FILE"
    ));
    assert!(matches!(
        request(None, Some(Input::StdIn)).accept(Token::Value("-".to_string())),
        Err(Error::Duplicate(what)) if what == "FILE (stdin)"
    ));
}

#[test]
fn other_flags_are_unexpected_as_written() {
    assert!(matches!(
        Request::new().accept(Token::Short('x')),
        Err(Error::UnexpectedFlag(flag)) if flag == "-x"
    ));
    assert!(matches!(
        Request::new().accept(Token::Long("bogus".to_string())),
        Err(Error::UnexpectedFlag(flag)) if flag == "--bogus"
    ));
    assert!(matches!(
        Request::new().accept(Token::Short('é')),
        Err(Error::UnexpectedFlag(flag)) if flag == "-é"
    ));
    assert!(matches!(
        Request::new().accept(Token::Long("".to_string())),
        Err(Error::UnexpectedFlag(flag)) if flag == "--"
    ));
}

#[test]
fn finish_settles_window_and_input() {
    assert_eq!(
        Request::new().finish(None).unwrap(),
        Args { window_id: Some(-1), input: Input::StdIn }
    );
    assert_eq!(
        request(Some("self"), Some(Input::File("f".to_string()))).finish(Some("8")).unwrap(),
        Args { window_id: Some(8), input: Input::File("f".to_string()) }
    );
    assert!(matches!(request(Some("self"), None).finish(None), Err(Error::MissingWindowId)));
    assert!(matches!(request(Some("x"), None).finish(None), Err(Error::InvalidWindowId(_))));
}

// whole command lines

#[test]
fn empty_command_line_is_every_window_from_stdin() {
    assert_eq!(parse_line(&[], None).unwrap(), Args { window_id: Some(-1), input: Input::StdIn });
}

#[test]
fn window_flag_forms() {
    for args in [
        &["--window", "5"][..],
        &["--window=5"][..],
        &["-w", "5"][..],
        &["-w5"][..],
        &["-w=5"][..],
    ] {
        assert_eq!(
            parse_line(args, None).unwrap(),
            Args { window_id: Some(5), input: Input::StdIn },
            "{args:?}"
        );
    }
}

#[test]
fn window_all_and_self_on_the_command_line() {
    assert_eq!(parse_line(&["-w", "all"], Some("3")).unwrap().window_id, Some(-1));
    assert_eq!(parse_line(&["-w", "self"], Some("3")).unwrap().window_id, Some(3));
    assert!(matches!(parse_line(&["--window", "self"], None), Err(Error::MissingWindowId)));
    assert!(matches!(
        parse_line(&["--window", "x"], None),
        Err(Error::InvalidWindowId(text)) if text == "x"
    ));
}

#[test]
fn window_value_may_look_like_a_flag() {
    assert_eq!(parse_line(&["-w", "-1"], None).unwrap().window_id, Some(-1));
    assert_eq!(parse_line(&["--window", "-12"], None).unwrap().window_id, Some(-12));
}

#[test]
fn without_window_flag_the_environment_decides() {
    assert_eq!(parse_line(&["file"], Some("4")).unwrap().window_id, Some(4));
    assert_eq!(parse_line(&["file"], Some("")).unwrap().window_id, Some(-1));
    assert_eq!(parse_line(&["file"], None).unwrap().window_id, Some(-1));
    assert!(matches!(parse_line(&[], Some("four")), Err(Error::InvalidWindowId(_))));
}

#[test]
fn positional_argument_is_the_input() {
    assert_eq!(parse_line(&["-"], None).unwrap().input, Input::StdIn);
    assert_eq!(parse_line(&["conf.toml"], None).unwrap().input, Input::File("conf.toml".to_string()));
    assert_eq!(
        parse_line(&["-w", "2", "conf.toml"], None).unwrap(),
        Args { window_id: Some(2), input: Input::File("conf.toml".to_string()) }
    );
    assert_eq!(
        parse_line(&["conf.toml", "-w", "2"], None).unwrap(),
        Args { window_id: Some(2), input: Input::File("conf.toml".to_string()) }
    );
}

#[test]
fn after_two_dashes_everything_is_positional() {
    assert_eq!(parse_line(&["--", "-x"], None).unwrap().input, Input::File("-x".to_string()));
    assert_eq!(parse_line(&["--", "--help"], None).unwrap().input, Input::File("--help".to_string()));
    assert!(matches!(
        parse_line(&["--", "-w", "5"], None),
        Err(Error::Duplicate(what)) if what == "FILE"
    ));
}

#[test]
fn two_window_flags_are_a_duplicate() {
    assert!(matches!(
        parse_line(&["--window", "1", "--window", "2"], None),
        Err(Error::Duplicate(what)) if what == "window"
    ));
    assert!(matches!(
        parse_line(&["-w", "1", "--window=1"], None),
        Err(Error::Duplicate(what)) if what == "window"
    ));
    // the duplicate is seen before the second flag's value is looked for
    assert!(matches!(
        parse_line(&["-w", "1", "-w"], None),
        Err(Error::Duplicate(what)) if what == "window"
    ));
}

#[test]
fn two_positional_arguments_are_a_duplicate() {
    assert!(matches!(
        parse_line(&["a.toml", "b.toml"], None),
        Err(Error::Duplicate(what)) if what == "FILE"
    ));
    assert!(matches!(
        parse_line(&["a.toml", "-"], None),
        Err(Error::Duplicate(what)) if what == "FILE (stdin)"
    ));
    assert!(matches!(
        parse_line(&["-", "-"], None),
        Err(Error::Duplicate(what)) if what == "FILE (stdin)"
    ));
}

#[test]
fn unknown_flag_is_unexpected() {
    assert!(matches!(
        parse_line(&["--bogus"], None),
        Err(Error::UnexpectedFlag(flag)) if flag == "--bogus"
    ));
    assert!(matches!(
        parse_line(&["-x"], None),
        Err(Error::UnexpectedFlag(flag)) if flag == "-x"
    ));
    assert!(matches!(
        parse_line(&["file", "-qw", "1"], None),
        Err(Error::UnexpectedFlag(flag)) if flag == "-q"
    ));
}

#[test]
fn help_is_asked_for() {
    assert!(matches!(parse_line(&["-h"], None), Err(Error::Help)));
    assert!(matches!(parse_line(&["--help"], None), Err(Error::Help)));
    assert!(matches!(parse_line(&["-w", "1", "file", "--help"], None), Err(Error::Help)));
    // help comes first even where what follows could not be read
    assert!(matches!(parse_line(&["--help", "-w"], None), Err(Error::Help)));
}

#[test]
fn first_token_that_is_turned_down_decides() {
    assert!(matches!(parse_line(&["--bogus", "--help"], None), Err(Error::UnexpectedFlag(_))));
    assert!(matches!(parse_line(&["a", "b", "--bogus"], None), Err(Error::Duplicate(_))));
    // the window is resolved once the whole line was read
    assert!(matches!(parse_line(&["-w", "x", "--bogus"], None), Err(Error::UnexpectedFlag(_))));
    assert!(matches!(parse_line(&["-w", "self", "a", "b"], None), Err(Error::Duplicate(_))));
}

#[test]
fn tokenizer_errors_come_back_as_parse_errors() {
    // no value for the flag
    match parse_line(&["--window"], None) {
        Err(Error::ParseError(lexopt::Error::MissingValue { option })) => {
            assert_eq!(option.as_deref(), Some("--window"));
        },
        other => panic!("{other:?}"),
    }
    assert!(matches!(
        parse_line(&["file", "-w"], None),
        Err(Error::ParseError(lexopt::Error::MissingValue { .. }))
    ));
    // a value for a flag that the tokenizer was not asked a value for
    assert!(matches!(
        parse_line(&["--bogus=1"], None),
        Err(Error::UnexpectedFlag(flag)) if flag == "--bogus"
    ));
}

#[test]
fn window_flag_in_a_group_takes_the_rest_of_the_group() {
    assert!(matches!(parse_line(&["-wh"], None), Err(Error::InvalidWindowId(text)) if text == "h"));
    assert!(matches!(parse_line(&["-hw"], None), Err(Error::Help)));
}

#[test]
fn texts_are_compared_character_by_character() {
    assert!(alap::text::same_text("", ""));
    assert!(alap::text::same_text("window", "window"));
    assert!(!alap::text::same_text("window", "windows"));
    assert!(!alap::text::same_text("self", "Self"));
}
