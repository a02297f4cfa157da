use shell_core::builtin::{
    get_single_argument, parse_exit_code, try_into_builtin, BuiltInAction, BuiltInCommand,
    BuiltInCommandError, Directory,
};

fn args(args: &[&str]) -> Vec<String> {
    args.iter().map(|arg| (*arg).to_owned()).collect()
}

#[test]
fn built_in_commands_are_found_by_name() {
    assert_eq!(Ok(BuiltInCommand::ChangeDirectory), try_into_builtin("cd"));
    assert_eq!(Ok(BuiltInCommand::Echo), try_into_builtin("echo"));
    assert_eq!(Ok(BuiltInCommand::Exit), try_into_builtin("exit"));
    assert_eq!(
        Ok(BuiltInCommand::PrintWorkingDirectory),
        try_into_builtin("pwd")
    );
    assert_eq!(Ok(BuiltInCommand::Type), try_into_builtin("type"));
    for builtin in BuiltInCommand::all() {
        assert_eq!(Ok(builtin), try_into_builtin(builtin.name()));
    }
}

#[test]
fn other_names_are_no_built_in_commands() {
    for name in ["", "ls", "Echo", "ECHO", "echo ", "change_directory", "cdx", "c"] {
        assert_eq!(
            Err(BuiltInCommandError::BuiltInCommandNotFound(name.to_owned())),
            try_into_builtin(name)
        );
    }
}

#[test]
fn a_single_argument_is_trimmed() {
    assert_eq!(
        Ok("dir".to_owned()),
        get_single_argument(&["  dir \n".to_owned()])
    );
    assert_eq!(Ok("~".to_owned()), get_single_argument(&["~".to_owned()]));
    assert_eq!(Ok("".to_owned()), get_single_argument(&["  ".to_owned()]));
}

#[test]
fn the_number_of_arguments_is_checked() {
    assert_eq!(
        Err(BuiltInCommandError::NotEnoughArguments { found: 0, min: 1 }),
        get_single_argument(&[])
    );
    assert_eq!(
        Err(BuiltInCommandError::TooManyArguments { found: 2, max: 1 }),
        get_single_argument(&["a".to_owned(), "b".to_owned()])
    );
    assert_eq!(
        Err(BuiltInCommandError::TooManyArguments { found: 3, max: 1 }),
        get_single_argument(&["a", "b", "c"].map(str::to_owned))
    );
}

#[test]
fn exit_codes_are_decimal_numbers_with_or_without_a_sign() {
    for text in [
        "0",
        "7",
        "-1",
        "+42",
        "-0",
        "+0",
        "007",
        "2147483647",
        "-2147483648",
        "+2147483647",
        "2147483648",
        "-2147483649",
        "99999999999999999999",
        "",
        "-",
        "+",
        "--1",
        "+-1",
        "1-",
        " 1",
        "1 ",
        "0x10",
        "1_000",
        "١",
        "1.0",
    ] {
        assert_eq!(text.parse::<i32>().ok(), parse_exit_code(text), "{text:?}");
    }
    assert_eq!(Some(-12), parse_exit_code("-12"));
    assert_eq!(Some(i32::MIN), parse_exit_code("-2147483648"));
    assert_eq!(None, parse_exit_code("2147483648"));
}

#[test]
fn cd_goes_home_or_to_its_argument() {
    assert_eq!(
        Ok(BuiltInAction::ChangeDirectory(Directory::Home)),
        BuiltInCommand::ChangeDirectory.plan(&args(&["~"]))
    );
    assert_eq!(
        Ok(BuiltInAction::ChangeDirectory(Directory::Home)),
        BuiltInCommand::ChangeDirectory.plan(&args(&[" ~ "]))
    );
    assert_eq!(
        Ok(BuiltInAction::ChangeDirectory(Directory::Path("~/src".to_owned()))),
        BuiltInCommand::ChangeDirectory.plan(&args(&["~/src"]))
    );
    assert_eq!(
        Ok(BuiltInAction::ChangeDirectory(Directory::Path("/tmp".to_owned()))),
        BuiltInCommand::ChangeDirectory.plan(&args(&["/tmp"]))
    );
    assert_eq!(
        Err(BuiltInCommandError::NotEnoughArguments { found: 0, min: 1 }),
        BuiltInCommand::ChangeDirectory.plan(&[])
    );
    assert_eq!(
        Err(BuiltInCommandError::TooManyArguments { found: 2, max: 1 }),
        BuiltInCommand::ChangeDirectory.plan(&args(&["a", "b"]))
    );
}

#[test]
fn echo_writes_its_arguments_with_spaces_between_them() {
    assert_eq!(
        Ok(BuiltInAction::Print("hello  big world".to_owned())),
        BuiltInCommand::Echo.plan(&args(&["hello", " big", "world"]))
    );
    assert_eq!(
        Ok(BuiltInAction::Print(String::new())),
        BuiltInCommand::Echo.plan(&[])
    );
}

#[test]
fn exit_takes_an_exit_code() {
    assert_eq!(
        Ok(BuiltInAction::Exit(0)),
        BuiltInCommand::Exit.plan(&args(&["0"]))
    );
    assert_eq!(
        Ok(BuiltInAction::Exit(-3)),
        BuiltInCommand::Exit.plan(&args(&[" -3 "]))
    );
    assert_eq!(
        Err(BuiltInCommandError::InvalidExitCode("one".to_owned())),
        BuiltInCommand::Exit.plan(&args(&["one"]))
    );
    assert_eq!(
        Err(BuiltInCommandError::InvalidExitCode(String::new())),
        BuiltInCommand::Exit.plan(&args(&[""]))
    );
    assert_eq!(
        Err(BuiltInCommandError::NotEnoughArguments { found: 0, min: 1 }),
        BuiltInCommand::Exit.plan(&[])
    );
}

#[test]
fn pwd_takes_no_argument() {
    assert_eq!(
        Ok(BuiltInAction::PrintWorkingDirectory),
        BuiltInCommand::PrintWorkingDirectory.plan(&[])
    );
    assert_eq!(
        Err(BuiltInCommandError::TooManyArguments { found: 1, max: 0 }),
        BuiltInCommand::PrintWorkingDirectory.plan(&args(&["x"]))
    );
}

#[test]
fn type_tells_built_in_commands_from_other_names() {
    assert_eq!(
        Ok(BuiltInAction::Describe {
            name: "echo".to_owned(),
            builtin: Some(BuiltInCommand::Echo)
        }),
        BuiltInCommand::Type.plan(&args(&["echo"]))
    );
    assert_eq!(
        Ok(BuiltInAction::Describe {
            name: "ls".to_owned(),
            builtin: None
        }),
        BuiltInCommand::Type.plan(&args(&[" ls"]))
    );
    assert_eq!(
        Err(BuiltInCommandError::TooManyArguments { found: 3, max: 1 }),
        BuiltInCommand::Type.plan(&args(&["a", "b", "c"]))
    );
}
