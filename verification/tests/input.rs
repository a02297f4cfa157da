use shell_core::input::longest_prefix;

#[test]
fn it_finds_longest_prefix() {
    // No completion in the list.
    assert_eq!("", longest_prefix(&[]));

    // Just one completion in the list.
    assert_eq!("e", longest_prefix(&["e"].map(str::to_owned)));

    // Multiple completions sharing a few common chars.
    assert_eq!("e", longest_prefix(&["echo", "exit"].map(str::to_owned)));
    assert_eq!(
        "echo",
        longest_prefix(&["echo", "echo_two"].map(str::to_owned))
    );
    assert_eq!("ec", longest_prefix(&["echo", "ec"].map(str::to_owned)));

    // Multiple completions with no common chars.
    assert_eq!("", longest_prefix(&["echo", "write"].map(str::to_owned)));
    assert_eq!("", longest_prefix(&["echo", "w"].map(str::to_owned)));
}
