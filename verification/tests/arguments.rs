use shell_core::arguments::parse_args;

#[test]
fn arguments_it_splits_command_from_args() {
    // Split at spaces.
    assert_eq!(
        Ok(["hello", "world"].map(str::to_owned).to_vec()),
        parse_args("hello world")
    );
    assert_eq!(
        Ok(["hello", "world"].map(str::to_owned).to_vec()),
        parse_args("hello       world")
    );
}

#[test]
fn arguments_it_splits_single_quoted_args() {
    // Don't split at spaces within single-quoted strings.
    assert_eq!(
        Ok(["hello", "to the world", "from ", "me"]
            .map(str::to_owned)
            .to_vec()),
        parse_args("hello 'to the world'     'from ' me")
    );

    // Don't split args at single quotes if not surrounded by spaces.
    assert_eq!(
        Ok(["hello", "world"].map(str::to_owned).to_vec()),
        parse_args("hello w'orl'd")
    );
    assert_eq!(
        Ok(["hello", "world"].map(str::to_owned).to_vec()),
        parse_args("hello 'worl'd")
    );
    assert_eq!(
        Ok(["hello", "world oh"].map(str::to_owned).to_vec()),
        parse_args("hello wo'rld 'oh")
    );

    // Error on dangling single-quoted string.
    assert_eq!(
        Err("Invalid single-quoting".to_owned()),
        parse_args("hello 'world")
    );
}

#[test]
fn arguments_it_splits_double_quoted_args_similarly_to_single_quotes() {
    // Don't split at spaces within double-quoted strings.
    assert_eq!(
        Ok(["hello", "to the world", "from ", "me"]
            .map(str::to_owned)
            .to_vec()),
        parse_args(r#"hello "to the world"     "from " me"#)
    );

    // Don't split args at double quotes if not surrounded by spaces.
    assert_eq!(
        Ok(["hello", "world"].map(str::to_owned).to_vec()),
        parse_args(r#"hello w"orl"d"#)
    );
    assert_eq!(
        Ok(["hello", "world"].map(str::to_owned).to_vec()),
        parse_args(r#"hello "worl"d"#)
    );
    assert_eq!(
        Ok(["hello", "world oh"].map(str::to_owned).to_vec()),
        parse_args(r#"hello wo"rld "oh"#)
    );
}

#[test]
fn arguments_it_preserves_the_literal_value_of_characters_within_double_quotes() {
    // Preserve single-quotes.
    assert_eq!(
        Ok(["hello", "to 'the' world"].map(str::to_owned).to_vec()),
        parse_args(r#"hello "to 'the' world""#)
    );
    assert_eq!(
        Ok(["hello", "wo'r'ld"].map(str::to_owned).to_vec()),
        parse_args(r#"hello w"o'r'l"d"#)
    );
}

#[test]
fn arguments_it_handles_escaping_within_double_quotes() {
    // Escape double-quotes.
    assert_eq!(
        Ok(["hello", r#"to "the" world"#].map(str::to_owned).to_vec()),
        parse_args(r#"hello "to \"the\" world""#)
    );

    // Escape backslash.
    assert_eq!(
        Ok([r#"he\\o"#].map(str::to_owned).to_vec()),
        parse_args(r#""he\\\\o""#)
    );

    // Escape dollar.
    assert_eq!(
        Ok(["hello", "$HOME"].map(str::to_owned).to_vec()),
        parse_args(r#"hello "\$HOME""#)
    );

    // Escape newline, treating it as a continuation.
    assert_eq!(
        Ok(["hello", "to the world"].map(str::to_owned).to_vec()),
        parse_args(
            r#"hello "to the \
world""#
        )
    );

    // Does NOT escape backslash if not followed by one of \, ", $.
    assert_eq!(
        Ok(["hello", r#"wor\d"#].map(str::to_owned).to_vec()),
        parse_args(r#"hello "wor\d""#)
    );
}

#[test]
fn arguments_it_handles_escaping_outside_double_quotes() {
    // Escape whitespace.
    assert_eq!(
        Ok(["hello   world"].map(str::to_owned).to_vec()),
        parse_args(r#"hello\ \ \ world"#)
    );

    // Escape single-quoting.
    assert_eq!(
        Ok(["hello", "'world'"].map(str::to_owned).to_vec()),
        parse_args(r#"hello \'world\'"#)
    );

    // Escape double-quoting.
    assert_eq!(
        Ok(["hello", r#""world""#].map(str::to_owned).to_vec()),
        parse_args(r#"hello \"world\""#)
    );

    // Escape newline, treating it as a continuation.
    assert_eq!(
        Ok(["hello", "to", "the", "world"].map(str::to_owned).to_vec()),
        parse_args(
            r#"hello to \
the world"#
        )
    );

    // Escape backslash.
    assert_eq!(
        Ok([r#"he\\o"#, r#"wor\d"#].map(str::to_owned).to_vec()),
        parse_args(r#"he\\\\o wor\\d"#)
    );

    // Does NOT print the backslash when not escaping itself.
    assert_eq!(
        Ok(["heo", "word"].map(str::to_owned).to_vec()),
        parse_args(r#"he\o wor\d"#)
    );
}

#[test]
fn a_backslash_is_a_character_within_single_quotes() {
    assert_eq!(
        Ok([r"a\b", r"c\ d"].map(str::to_owned).to_vec()),
        parse_args(r#"'a\b' 'c\ d'"#)
    );
    assert_eq!(
        Ok([r"a\b"].map(str::to_owned).to_vec()),
        parse_args(r"'a\b'")
    );
    // The backslash does not escape the quote, so the third quote stays open.
    assert_eq!(
        Err("Invalid single-quoting".to_owned()),
        parse_args(r#"'it\'s'"#)
    );
    assert_eq!(
        Err("Invalid single-quoting".to_owned()),
        parse_args("\"hello")
    );
}

#[test]
fn the_words_are_the_texts_of_the_chunks() {
    for line in [
        "",
        "hello world",
        r#"a 'b c' "d e" f\ g"#,
        r#"'a\b' "c\d" e\f"#,
        "'open",
    ] {
        let words = shell_core::quoting::split_quoted_string(line).ok();
        assert_eq!(words, parse_args(line).ok(), "{line:?}");
    }
}
