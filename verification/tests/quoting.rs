use shell_core::parser::quoting::{chunk_quoted_string, InputChunk, QuotingError};

fn display(chunks: Vec<InputChunk>) -> Vec<String> {
    chunks
        .iter()
        .map(|chunk| match chunk {
            InputChunk::RawText(text) => text.clone(),
            InputChunk::QuotedText(text) => format!("[[{}]]", text.clone()),
        })
        .collect()
}

#[test]
fn quoting_it_splits_command_from_args() {
    // Split at spaces.
    assert_eq!(
        vec!["hello", "world"],
        display(chunk_quoted_string("hello world").unwrap())
    );
    assert_eq!(
        vec!["hello", "world"],
        display(chunk_quoted_string("hello       world").unwrap())
    );
}

#[test]
fn quoting_it_splits_single_quoted_args() {
    // Don't split at spaces within single-quoted strings.
    assert_eq!(
        vec!["hello", "[[to the world]]", "[[from ]]", "me"],
        display(chunk_quoted_string("hello 'to the world'     'from ' me").unwrap())
    );

    // Don't split args at single quotes if not surrounded by spaces.
    assert_eq!(
        vec!["hello", "[[world]]"],
        display(chunk_quoted_string("hello w'orl'd").unwrap())
    );
    assert_eq!(
        vec!["hello", "[[world]]"],
        display(chunk_quoted_string("hello 'worl'd").unwrap())
    );
    assert_eq!(
        vec!["hello", "[[world oh]]"],
        display(chunk_quoted_string("hello wo'rld 'oh").unwrap())
    );

    // Error on dangling single-quoted string.
    assert!(matches!(
        chunk_quoted_string("hello 'world"),
        Err(QuotingError::DanglingQuote)
    ));
}

#[test]
fn quoting_it_splits_double_quoted_args_similarly_to_single_quotes() {
    // Don't split at spaces within double-quoted strings.
    assert_eq!(
        vec!["hello", "[[to the world]]", "[[from ]]", "me"],
        display(chunk_quoted_string(r#"hello "to the world"     "from " me"#).unwrap())
    );

    // Don't split args at double quotes if not surrounded by spaces.
    assert_eq!(
        vec!["hello", "[[world]]"],
        display(chunk_quoted_string(r#"hello w"orl"d"#).unwrap())
    );
    assert_eq!(
        vec!["hello", "[[world]]"],
        display(chunk_quoted_string(r#"hello "worl"d"#).unwrap())
    );
    assert_eq!(
        vec!["hello", "[[world oh]]"],
        display(chunk_quoted_string(r#"hello wo"rld "oh"#).unwrap())
    );
    assert_eq!(
        vec!["[[hello]]", "[[world]]"],
        display(chunk_quoted_string(r#""hello" "world""#).unwrap())
    );
    assert_eq!(
        vec!["hello", "[[123456]]", "world"],
        display(chunk_quoted_string(r#"hello "123""456" world"#).unwrap())
    );
}

#[test]
fn quoting_it_preserves_the_literal_value_of_characters_within_single_quotes() {
    // Preserve double-quotes.
    assert_eq!(
        vec!["hello", r#"[[to "the" world]]"#],
        display(chunk_quoted_string(r#"hello 'to "the" world'"#).unwrap())
    );

    // Preserve backslashes.
    assert_eq!(
        vec![r#"[[hello\\\\world]]"#],
        display(chunk_quoted_string(r#"'hello\\\\world'"#).unwrap())
    );
    assert_eq!(
        vec!["hello", r#"[[to \"the\" world]]"#],
        display(chunk_quoted_string(r#"hello 'to \"the\" world'"#).unwrap())
    );
}

#[test]
fn quoting_it_preserves_the_literal_value_of_characters_within_double_quotes() {
    // Preserve single-quotes.
    assert_eq!(
        vec!["hello", "[[to 'the' world]]"],
        display(chunk_quoted_string(r#"hello "to 'the' world""#).unwrap())
    );
    assert_eq!(
        vec!["hello", "[[wo'r'ld]]"],
        display(chunk_quoted_string(r#"hello w"o'r'l"d"#).unwrap())
    );
}

#[test]
fn quoting_it_handles_escaping_within_double_quotes() {
    // Escape double-quotes.
    assert_eq!(
        vec!["hello", r#"[[to "the" world]]"#],
        display(chunk_quoted_string(r#"hello "to \"the\" world""#).unwrap())
    );

    // Escape backslash.
    assert_eq!(
        vec![r#"[[he\\o]]"#],
        display(chunk_quoted_string(r#""he\\\\o""#).unwrap())
    );

    // Escape dollar.
    assert_eq!(
        vec!["hello", "[[$HOME]]"],
        display(chunk_quoted_string(r#"hello "\$HOME""#).unwrap())
    );

    // Escape newline, treating it as a continuation.
    assert_eq!(
        vec!["hello", "[[to the world]]"],
        display(chunk_quoted_string(
            r#"hello "to the \
world""#
        ).unwrap())
    );

    // Does NOT escape backslash if not followed by one of \, ", $.
    assert_eq!(
        vec!["hello", r#"[[wor\d]]"#],
        display(chunk_quoted_string(r#"hello "wor\d""#).unwrap())
    );
}

#[test]
fn quoting_it_handles_escaping_outside_double_quotes() {
    // Escape whitespace.
    assert_eq!(
        vec!["hello   world"],
        display(chunk_quoted_string(r#"hello\ \ \ world"#).unwrap())
    );

    // Escape single-quoting.
    assert_eq!(
        vec!["hello", "'world'"],
        display(chunk_quoted_string(r#"hello \'world\'"#).unwrap())
    );

    // Escape double-quoting.
    assert_eq!(
        vec!["hello", r#""world""#],
        display(chunk_quoted_string(r#"hello \"world\""#).unwrap())
    );

    // Escape newline, treating it as a continuation.
    assert_eq!(
        vec!["hello", "to", "the", "world"],
        display(chunk_quoted_string(
            r#"hello to \
the world"#
        ).unwrap())
    );

    // Escape backslash.
    assert_eq!(
        vec![r#"he\\o"#, r#"wor\d"#],
        display(chunk_quoted_string(r#"he\\\\o wor\\d"#).unwrap())
    );

    // Does NOT print the backslash when not escaping itself.
    assert_eq!(
        vec!["heo", "word"],
        display(chunk_quoted_string(r#"he\o wor\d"#).unwrap())
    );
}
