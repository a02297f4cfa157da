use shell_core::io_redirection::{extract_io_redirection, IoRedirectionError};

#[test]
fn it_extracts_redirect() {
    // Redirects of stdout with and without the descriptor id.
    assert_eq!(
        Some(("test.txt".to_owned(), false)),
        extract_io_redirection(
            &mut ["hello", "1>", "test.txt"].map(str::to_owned).to_vec(),
            1
        )
        .unwrap()
    );
    assert_eq!(
        Some(("test.txt".to_owned(), false)),
        extract_io_redirection(
            &mut ["hello", ">", "test.txt"].map(str::to_owned).to_vec(),
            1
        )
        .unwrap()
    );

    // Redirects of stderr.
    assert_eq!(
        Some(("test.txt".to_owned(), false)),
        extract_io_redirection(
            &mut ["hello", "2>", "test.txt"].map(str::to_owned).to_vec(),
            2
        )
        .unwrap()
    );

    // Handles redirects at any position in the arguments.
    assert_eq!(
        Some(("test.txt".to_owned(), false)),
        extract_io_redirection(
            &mut ["hello", ">", "test.txt", "world"]
                .map(str::to_owned)
                .to_vec(),
            1
        )
        .unwrap()
    );
}

#[test]
fn it_errors_if_filename_is_missing() {
    assert!(matches!(
        extract_io_redirection(&mut ["hello", ">"].map(str::to_owned).to_vec(), 1),
        Err(IoRedirectionError::MissingArgument),
    ));
}

#[test]
fn it_removes_args_pertaining_to_the_redirection() {
    let mut args = ["hello", "1>", "test.txt"].map(str::to_owned).to_vec();
    let _ = extract_io_redirection(&mut args, 1);
    assert_eq!(["hello".to_owned()].to_vec(), args);
}

#[test]
fn it_extracts_appending_redirect() {
    // Redirects of stdout with and without the descriptor id.
    assert_eq!(
        Some(("test.txt".to_owned(), true)),
        extract_io_redirection(
            &mut ["hello", "1>>", "test.txt"].map(str::to_owned).to_vec(),
            1
        )
        .unwrap()
    );
    assert_eq!(
        Some(("test.txt".to_owned(), true)),
        extract_io_redirection(
            &mut ["hello", ">>", "test.txt"].map(str::to_owned).to_vec(),
            1
        )
        .unwrap()
    );

    // Redirects of stderr.
    assert_eq!(
        Some(("test.txt".to_owned(), true)),
        extract_io_redirection(
            &mut ["hello", "2>>", "test.txt"].map(str::to_owned).to_vec(),
            2
        )
        .unwrap()
    );
}

#[test]
fn it_extracts_redirects_of_any_descriptor() {
    for (descriptor, operator) in [(0u8, "0>"), (7, "7>"), (12, "12>"), (100, "100>"), (255, "255>")] {
        let mut args = ["hello", operator, "f", "world"].map(str::to_owned).to_vec();
        assert_eq!(
            Some(("f".to_owned(), false)),
            extract_io_redirection(&mut args, descriptor).unwrap()
        );
        assert_eq!(["hello", "world"].map(str::to_owned).to_vec(), args);

        let appending = format!("{operator}>");
        let mut args = vec![appending, "g".to_owned()];
        assert_eq!(
            Some(("g".to_owned(), true)),
            extract_io_redirection(&mut args, descriptor).unwrap()
        );
        assert!(args.is_empty());
    }
}

#[test]
fn it_takes_the_first_redirect_only() {
    let mut args = ["a", "2>", "x", ">", "y", "1>>", "z"].map(str::to_owned).to_vec();
    assert_eq!(
        Some(("y".to_owned(), false)),
        extract_io_redirection(&mut args, 1).unwrap()
    );
    assert_eq!(["a", "2>", "x", "1>>", "z"].map(str::to_owned).to_vec(), args);
    assert_eq!(
        Some(("z".to_owned(), true)),
        extract_io_redirection(&mut args, 1).unwrap()
    );
    assert_eq!(["a", "2>", "x"].map(str::to_owned).to_vec(), args);
    assert_eq!(None, extract_io_redirection(&mut args, 1).unwrap());
    assert_eq!(["a", "2>", "x"].map(str::to_owned).to_vec(), args);
}

#[test]
fn it_leaves_the_args_of_another_descriptor() {
    // Without a number the operator redirects the standard output only.
    let mut args = ["a", ">", "x", "01>", "y", "2", ">2"].map(str::to_owned).to_vec();
    assert_eq!(None, extract_io_redirection(&mut args, 2).unwrap());
    assert_eq!(
        ["a", ">", "x", "01>", "y", "2", ">2"].map(str::to_owned).to_vec(),
        args
    );

    // An operator in the last place is an error, and the args stay.
    let mut args = ["a", "2>>"].map(str::to_owned).to_vec();
    assert!(matches!(
        extract_io_redirection(&mut args, 2),
        Err(IoRedirectionError::MissingArgument),
    ));
    assert_eq!(["a", "2>>"].map(str::to_owned).to_vec(), args);
}
