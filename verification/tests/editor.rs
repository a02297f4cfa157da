use shell_core::input::{build_prompt, Key, LineEditor, Modifiers, Next, Reaction};

fn typed(text: &str) -> LineEditor {
    let mut editor = LineEditor::new();
    for c in text.chars() {
        editor.press(Key::Char(c), Modifiers::Plain);
    }
    editor
}

fn reaction(output: &str, next: Next) -> Reaction {
    Reaction {
        output: output.to_owned(),
        next,
    }
}

fn completions(names: &[&str]) -> Key {
    Key::Tab(names.iter().map(|name| (*name).to_owned()).collect())
}

#[test]
fn the_prompt_is_a_dollar_and_a_space() {
    assert_eq!("$ ", build_prompt());
}

#[test]
fn characters_are_added_and_echoed() {
    let mut editor = LineEditor::new();
    assert_eq!("", editor.input());
    assert_eq!(
        reaction("e", Next::Continue),
        editor.press(Key::Char('e'), Modifiers::Plain)
    );
    assert_eq!(
        reaction("C", Next::Continue),
        editor.press(Key::Char('C'), Modifiers::Shift)
    );
    assert_eq!(
        reaction("é", Next::Continue),
        editor.press(Key::Char('é'), Modifiers::Plain)
    );
    assert_eq!("eCé", editor.input());
    assert_eq!("eCé", editor.into_input());
}

#[test]
fn characters_with_other_keys_held_are_ignored() {
    let mut editor = typed("ab");
    assert_eq!(
        reaction("", Next::Continue),
        editor.press(Key::Char('x'), Modifiers::Control)
    );
    assert_eq!(
        reaction("", Next::Continue),
        editor.press(Key::Char('c'), Modifiers::Other)
    );
    assert_eq!(
        reaction("", Next::Continue),
        editor.press(Key::Other, Modifiers::Plain)
    );
    assert_eq!("ab", editor.input());
}

#[test]
fn enter_and_control_j_submit_and_control_c_aborts() {
    let mut editor = typed("ls");
    assert_eq!(
        reaction("\r\n", Next::Submit),
        editor.press(Key::Enter, Modifiers::Plain)
    );
    assert_eq!("ls", editor.input());
    assert_eq!(
        reaction("\r\n", Next::Submit),
        editor.press(Key::Char('j'), Modifiers::Control)
    );
    assert_eq!("ls", editor.input());
    assert_eq!(
        reaction("\r\n", Next::Abort),
        editor.press(Key::Char('c'), Modifiers::Control)
    );
    assert_eq!("ls", editor.input());
}

#[test]
fn backspace_takes_the_last_character() {
    let mut editor = typed("abc");
    assert_eq!(
        reaction("\r$ ab \r$ ab", Next::Continue),
        editor.press(Key::Backspace, Modifiers::Plain)
    );
    assert_eq!("ab", editor.input());

    // A character of two bytes is cleared by two spaces.
    let mut editor = typed("aé");
    assert_eq!(
        reaction("\r$ a  \r$ a", Next::Continue),
        editor.press(Key::Backspace, Modifiers::Shift)
    );
    assert_eq!("a", editor.input());

    let mut editor = LineEditor::new();
    assert_eq!(
        reaction("\r$ \r$ ", Next::Continue),
        editor.press(Key::Backspace, Modifiers::Plain)
    );
    assert_eq!("", editor.input());
}

#[test]
fn backspace_with_control_takes_the_whole_line() {
    let mut editor = typed("echo");
    assert_eq!(
        reaction("\r$     \r$ ", Next::Continue),
        editor.press(Key::Backspace, Modifiers::Control)
    );
    assert_eq!("", editor.input());
}

#[test]
fn without_a_completion_the_bell_rings() {
    let mut editor = typed("xyz");
    assert_eq!(
        reaction("\u{7}", Next::Continue),
        editor.press(completions(&[]), Modifiers::Plain)
    );
    assert_eq!("xyz", editor.input());
    // Nothing is listed at the second press either.
    assert_eq!(
        reaction("\u{7}", Next::Continue),
        editor.press(completions(&[]), Modifiers::Plain)
    );
}

#[test]
fn a_single_completion_is_closed_with_a_space() {
    let mut editor = typed("ec");
    assert_eq!(
        reaction("ho ", Next::Continue),
        editor.press(completions(&["echo"]), Modifiers::Plain)
    );
    assert_eq!("echo ", editor.input());

    let mut editor = typed("echo");
    assert_eq!(
        reaction(" ", Next::Continue),
        editor.press(completions(&["echo"]), Modifiers::Plain)
    );
    assert_eq!("echo ", editor.input());
}

#[test]
fn several_completions_grow_the_line_and_are_listed_at_the_second_press() {
    let mut editor = typed("xyz");
    assert_eq!(
        reaction("_\u{7}", Next::Continue),
        editor.press(completions(&["xyz_bar", "xyz_baz", "xyz_foo"]), Modifiers::Plain)
    );
    assert_eq!("xyz_", editor.input());
    assert_eq!(
        reaction("\r\nxyz_bar  xyz_baz  xyz_foo\r\n$ xyz_", Next::Continue),
        editor.press(completions(&["xyz_bar", "xyz_baz", "xyz_foo"]), Modifiers::Plain)
    );
    assert_eq!("xyz_", editor.input());
    // The third press rings the bell again.
    assert_eq!(
        reaction("\u{7}", Next::Continue),
        editor.press(completions(&["xyz_bar", "xyz_baz", "xyz_foo"]), Modifiers::Plain)
    );
    assert_eq!(
        reaction("\r\nxyz_bar  xyz_baz  xyz_foo\r\n$ xyz_", Next::Continue),
        editor.press(completions(&["xyz_bar", "xyz_baz", "xyz_foo"]), Modifiers::Plain)
    );
}

#[test]
fn another_key_between_two_tabulators_starts_over() {
    let names = ["echo", "exit"];
    let mut editor = typed("e");
    assert_eq!(
        reaction("\u{7}", Next::Continue),
        editor.press(completions(&names), Modifiers::Plain)
    );
    assert_eq!(
        reaction("", Next::Continue),
        editor.press(Key::Other, Modifiers::Plain)
    );
    assert_eq!(
        reaction("\u{7}", Next::Continue),
        editor.press(completions(&names), Modifiers::Plain)
    );
    assert_eq!(
        reaction("\r\necho  exit\r\n$ e", Next::Continue),
        editor.press(completions(&names), Modifiers::Plain)
    );
    assert_eq!("e", editor.input());
}

#[test]
fn completions_that_do_not_begin_with_the_line_leave_it() {
    let mut editor = typed("ab");
    assert_eq!(
        reaction(" ", Next::Continue),
        editor.press(completions(&["xyzw"]), Modifiers::Plain)
    );
    assert_eq!("ab ", editor.input());

    let mut editor = typed("ab");
    assert_eq!(
        reaction("\u{7}", Next::Continue),
        editor.press(completions(&["abc", "xyz"]), Modifiers::Plain)
    );
    assert_eq!("ab", editor.input());
}

#[test]
fn the_order_of_the_completions_matters_only_where_they_are_listed() {
    let names = ["exit", "echo"];
    let mut editor = typed("e");
    assert!(!editor.lists(2));
    assert_eq!(
        reaction("\u{7}", Next::Continue),
        editor.press(completions(&names), Modifiers::Plain)
    );
    assert!(editor.lists(2));
    assert!(!editor.lists(1));
    assert!(!editor.lists(0));
    // They are listed as they are given.
    assert_eq!(
        reaction("\r\nexit  echo\r\n$ e", Next::Continue),
        editor.press(completions(&names), Modifiers::Plain)
    );
    assert!(!editor.lists(2));
}
