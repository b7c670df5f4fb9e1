use voice_keyboard::virtual_keyboard::{MockKeyboardHardware, VirtualKeyboard};

#[test]
fn test_incremental_typing_extension() {
    let mut kb = VirtualKeyboard::new(MockKeyboardHardware::new());

    // Start with "hello"
    kb.update_transcript("hello").unwrap();
    assert_eq!(kb.get_current_text(), "hello");
    assert_eq!(kb.hardware.typed_chars, ['h', 'e', 'l', 'l', 'o']);
    assert_eq!(kb.hardware.backspace_count, 0);

    // Extend to "hello world"
    kb.update_transcript("hello world").unwrap();
    assert_eq!(kb.get_current_text(), "hello world");
    assert_eq!(
        kb.hardware.typed_chars,
        ['h', 'e', 'l', 'l', 'o', ' ', 'w', 'o', 'r', 'l', 'd']
    );
    assert_eq!(kb.hardware.backspace_count, 0);
}

#[test]
fn test_incremental_typing_change() {
    let mut kb = VirtualKeyboard::new(MockKeyboardHardware::new());

    // Start with "hello"
    kb.update_transcript("hello").unwrap();
    assert_eq!(kb.get_current_text(), "hello");
    assert_eq!(kb.hardware.typed_chars, ['h', 'e', 'l', 'l', 'o']);

    // Change to "hi there" - should only backspace "ello" and type "i there"
    kb.update_transcript("hi there").unwrap();
    assert_eq!(kb.get_current_text(), "hi there");
    // Should have backspaced 4 characters ("ello") and typed 7 new ones ("i there")
    assert_eq!(kb.hardware.backspace_count, 4);
    assert_eq!(
        kb.hardware.typed_chars,
        ['h', 'i', ' ', 't', 'h', 'e', 'r', 'e']
    );
}

#[test]
fn test_finalize_transcript() {
    let mut kb = VirtualKeyboard::new(MockKeyboardHardware::new());

    // Type some text
    kb.update_transcript("hello").unwrap();
    assert_eq!(kb.get_current_text(), "hello");
    assert!(!kb.hardware.enter_pressed);

    // Finalize (should not press enter anymore)
    kb.finalize_transcript().unwrap();
    assert_eq!(kb.get_current_text(), "");
    assert!(!kb.hardware.enter_pressed); // Should remain false
}

#[test]
fn test_empty_transcript() {
    let mut kb = VirtualKeyboard::new(MockKeyboardHardware::new());

    // Start with some text
    kb.update_transcript("hello").unwrap();
    assert_eq!(kb.get_current_text(), "hello");

    // Clear with empty transcript
    kb.update_transcript("").unwrap();
    assert_eq!(kb.get_current_text(), "");
    assert_eq!(kb.hardware.backspace_count, 5);
}

#[test]
fn test_smart_backspacing_partial_change() {
    let mut kb = VirtualKeyboard::new(MockKeyboardHardware::new());

    // Start with "hello world"
    kb.update_transcript("hello world").unwrap();
    assert_eq!(kb.get_current_text(), "hello world");
    assert_eq!(
        kb.hardware.typed_chars,
        ['h', 'e', 'l', 'l', 'o', ' ', 'w', 'o', 'r', 'l', 'd']
    );

    // Change to "hello there" - should only backspace "world" and type "there"
    kb.update_transcript("hello there").unwrap();
    assert_eq!(kb.get_current_text(), "hello there");
    // Should have backspaced 5 characters ("world") and typed 5 new ones ("there")
    assert_eq!(kb.hardware.backspace_count, 5);
    assert_eq!(
        kb.hardware.typed_chars,
        ['h', 'e', 'l', 'l', 'o', ' ', 't', 'h', 'e', 'r', 'e']
    );
}

#[test]
fn test_smart_backspacing_no_common_prefix() {
    let mut kb = VirtualKeyboard::new(MockKeyboardHardware::new());

    // Start with "hello"
    kb.update_transcript("hello").unwrap();
    assert_eq!(kb.get_current_text(), "hello");

    // Change to "goodbye" - no common prefix, should backspace all and retype
    kb.update_transcript("goodbye").unwrap();
    assert_eq!(kb.get_current_text(), "goodbye");
    // Should have backspaced 5 characters and typed 7 new ones
    assert_eq!(kb.hardware.backspace_count, 5);
    assert_eq!(kb.hardware.typed_chars, ['g', 'o', 'o', 'd', 'b', 'y', 'e']);
}

#[test]
fn test_smart_backspacing_shortening() {
    let mut kb = VirtualKeyboard::new(MockKeyboardHardware::new());

    // Start with "hello world"
    kb.update_transcript("hello world").unwrap();
    assert_eq!(kb.get_current_text(), "hello world");

    // Change to "hello" - should only backspace " world"
    kb.update_transcript("hello").unwrap();
    assert_eq!(kb.get_current_text(), "hello");
    // Should have backspaced 6 characters (" world") and typed 0 new ones
    assert_eq!(kb.hardware.backspace_count, 6);
    assert_eq!(kb.hardware.typed_chars, ['h', 'e', 'l', 'l', 'o']);
}

#[test]
fn test_finalize_with_enter_command() {
    let mut kb = VirtualKeyboard::new(MockKeyboardHardware::new());

    // Type text ending with "enter"
    kb.update_transcript("Write a unit test enter").unwrap();
    assert_eq!(kb.get_current_text(), "Write a unit test enter");
    assert!(!kb.hardware.enter_pressed);

    // Finalize - should backspace "enter" and press ENTER key
    kb.finalize_transcript().unwrap();
    assert_eq!(kb.get_current_text(), "");
    assert!(kb.hardware.enter_pressed);
    // Should have backspaced 6 characters (" enter")
    assert_eq!(kb.hardware.backspace_count, 6);
}

#[test]
fn test_finalize_with_enter_only() {
    let mut kb = VirtualKeyboard::new(MockKeyboardHardware::new());

    // Type only "enter"
    kb.update_transcript("enter").unwrap();
    assert_eq!(kb.get_current_text(), "enter");
    assert!(!kb.hardware.enter_pressed);

    // Finalize - should backspace all and press ENTER key
    kb.finalize_transcript().unwrap();
    assert_eq!(kb.get_current_text(), "");
    assert!(kb.hardware.enter_pressed);
    // Should have backspaced 5 characters ("enter")
    assert_eq!(kb.hardware.backspace_count, 5);
}

#[test]
fn test_finalize_with_enter_case_insensitive() {
    let mut kb = VirtualKeyboard::new(MockKeyboardHardware::new());

    // Type text ending with "ENTER" (uppercase)
    kb.update_transcript("hello ENTER").unwrap();
    assert_eq!(kb.get_current_text(), "hello ENTER");
    assert!(!kb.hardware.enter_pressed);

    // Finalize - should still recognize and handle it
    kb.finalize_transcript().unwrap();
    assert_eq!(kb.get_current_text(), "");
    assert!(kb.hardware.enter_pressed);
    // Should have backspaced 6 characters (" ENTER")
    assert_eq!(kb.hardware.backspace_count, 6);
}

#[test]
fn test_finalize_without_enter_command() {
    let mut kb = VirtualKeyboard::new(MockKeyboardHardware::new());

    // Type text not ending with "enter"
    kb.update_transcript("hello world").unwrap();
    assert_eq!(kb.get_current_text(), "hello world");
    assert!(!kb.hardware.enter_pressed);

    // Finalize - should not press ENTER key
    kb.finalize_transcript().unwrap();
    assert_eq!(kb.get_current_text(), "");
    assert!(!kb.hardware.enter_pressed);
    // Should not have backspaced anything for the enter command
    assert_eq!(kb.hardware.backspace_count, 0);
}

#[test]
fn test_finalize_with_enter_in_middle() {
    let mut kb = VirtualKeyboard::new(MockKeyboardHardware::new());

    // Type text with "enter" in the middle, not at the end
    kb.update_transcript("enter the room").unwrap();
    assert_eq!(kb.get_current_text(), "enter the room");
    assert!(!kb.hardware.enter_pressed);

    // Finalize - should not press ENTER key since "enter" is not the last word
    kb.finalize_transcript().unwrap();
    assert_eq!(kb.get_current_text(), "");
    assert!(!kb.hardware.enter_pressed);
    // Should not have backspaced anything for the enter command
    assert_eq!(kb.hardware.backspace_count, 0);
}

#[test]
fn test_enter_capitalization_patterns() {
    // Test various capitalization patterns
    let test_cases = vec![
        ("hello enter", true), // lowercase
        ("hello ENTER", true), // uppercase
        ("hello Enter", true), // title case
        ("hello EnTeR", true), // mixed case
        ("hello eNtEr", true), // mixed case
    ];

    for (input, should_trigger) in test_cases {
        let mut kb = VirtualKeyboard::new(MockKeyboardHardware::new());
        kb.update_transcript(input).unwrap();
        kb.finalize_transcript().unwrap();

        if should_trigger {
            assert!(
                kb.hardware.enter_pressed,
                "Should trigger ENTER for: '{}'",
                input
            );
        } else {
            assert!(
                !kb.hardware.enter_pressed,
                "Should NOT trigger ENTER for: '{}'",
                input
            );
        }
    }
}

#[test]
fn test_enter_with_punctuation() {
    // Test punctuation patterns
    let test_cases = vec![
        ("hello enter.", true),   // period attached
        ("hello enter!", true),   // exclamation attached
        ("hello enter?", true),   // question mark attached
        ("hello enter,", true),   // comma attached
        ("hello enter;", true),   // semicolon attached
        ("hello enter:", true),   // colon attached
        ("hello enter...", true), // multiple periods
        ("hello enter!!", true),  // multiple exclamations
    ];

    for (input, should_trigger) in test_cases {
        let mut kb = VirtualKeyboard::new(MockKeyboardHardware::new());
        kb.update_transcript(input).unwrap();
        kb.finalize_transcript().unwrap();

        if should_trigger {
            assert!(
                kb.hardware.enter_pressed,
                "Should trigger ENTER for: '{}'",
                input
            );
        } else {
            assert!(
                !kb.hardware.enter_pressed,
                "Should NOT trigger ENTER for: '{}'",
                input
            );
        }
    }
}

#[test]
fn test_enter_with_whitespace_and_punctuation() {
    // Test whitespace and punctuation combinations
    let test_cases = vec![
        ("hello enter ", true),   // trailing space
        ("hello enter  ", true),  // multiple trailing spaces
        ("hello enter\t", true),  // trailing tab
        ("hello enter\n", true),  // trailing newline
        ("hello enter .", true),  // space then period
        ("hello enter !", true),  // space then exclamation
        ("hello enter ?", true),  // space then question mark
        ("hello enter . ", true), // period with spaces
        ("hello enter ! ", true), // exclamation with spaces
    ];

    for (input, should_trigger) in test_cases {
        let mut kb = VirtualKeyboard::new(MockKeyboardHardware::new());
        kb.update_transcript(input).unwrap();
        kb.finalize_transcript().unwrap();

        if should_trigger {
            assert!(
                kb.hardware.enter_pressed,
                "Should trigger ENTER for: '{}'",
                input
            );
        } else {
            assert!(
                !kb.hardware.enter_pressed,
                "Should NOT trigger ENTER for: '{}'",
                input
            );
        }
    }
}

#[test]
fn test_enter_with_leading_whitespace() {
    // Test cases with whitespace before "enter"
    let test_cases = vec![
        ("hello  enter", true), // double space before enter
        ("hello\tenter", true), // tab before enter
        ("hello\nenter", true), // newline before enter (unlikely but possible)
    ];

    for (input, should_trigger) in test_cases {
        let mut kb = VirtualKeyboard::new(MockKeyboardHardware::new());
        kb.update_transcript(input).unwrap();
        kb.finalize_transcript().unwrap();

        if should_trigger {
            assert!(
                kb.hardware.enter_pressed,
                "Should trigger ENTER for: '{}'",
                input
            );
        } else {
            assert!(
                !kb.hardware.enter_pressed,
                "Should NOT trigger ENTER for: '{}'",
                input
            );
        }
    }
}

#[test]
fn test_enter_negative_cases() {
    // Test cases that should NOT trigger enter
    let test_cases = vec![
        ("hello world", false),      // no enter
        ("enter the room", false),   // enter not at end
        ("hello entered", false),    // "entered" is not "enter"
        ("hello entering", false),   // "entering" is not "enter"
        ("hello center", false),     // "center" contains "enter" but is not "enter"
        ("hello enterprise", false), // "enterprise" contains "enter" but is not "enter"
        ("hello enter now", false),  // "enter" not at the very end
    ];

    for (input, should_trigger) in test_cases {
        let mut kb = VirtualKeyboard::new(MockKeyboardHardware::new());
        kb.update_transcript(input).unwrap();
        kb.finalize_transcript().unwrap();

        if should_trigger {
            assert!(
                kb.hardware.enter_pressed,
                "Should trigger ENTER for: '{}'",
                input
            );
        } else {
            assert!(
                !kb.hardware.enter_pressed,
                "Should NOT trigger ENTER for: '{}'",
                input
            );
        }
    }
}

/// The trailing "enter" command recognizer agrees with the regular
/// expression `(?i)\s*\benter\b[[:punct:]\s]*$` on a battery of ASCII
/// transcripts.
#[test]
fn test_enter_matches_regex_reference() {
    let inputs = vec![
        "hello enter",
        "hello ENTER",
        "hello Enter",
        "hello EnTeR",
        "enter",
        "hello enter.",
        "hello enter!!",
        "hello enter . ",
        "hello  enter",
        "hello\tenter",
        "fix this centers enter!! ",
        "draft a memo enter",
        "hello world",
        "enter the room",
        "hello entered",
        "hello entering",
        "hello center",
        "hello enterprise",
        "hello enter now",
        "hello enter_",
        "",
        "   ",
        "!!!",
        "e n t e r",
        "a\u{f1}enter",
        "hello\u{a0}enter",
        "ok\u{2003}enter",
        "caf\u{e9} enter",
        "\u{1680}enter",
        "hello\u{a0}\u{a0}enter",
    ];
    let re = regex::Regex::new(r"(?i)\s*\benter\b[[:punct:]\s]*$").unwrap();
    for input in inputs {
        let mut kb = VirtualKeyboard::new(MockKeyboardHardware::new());
        kb.update_transcript(input).unwrap();
        kb.finalize_transcript().unwrap();
        assert_eq!(
            kb.hardware.enter_pressed,
            re.is_match(input),
            "disagreement with the regex reference on '{}'",
            input
        );
    }
}

/// A typed suffix, backspaces and the enter press reach the simulated
/// screen in order: after an update and a finalize the screen holds the
/// text before the matched command.
#[test]
fn test_mock_screen_after_finalize() {
    let mut kb = VirtualKeyboard::new(MockKeyboardHardware::new());
    kb.update_transcript("note to self enter").unwrap();
    kb.finalize_transcript().unwrap();
    let screen: String = kb.hardware.typed_chars.iter().collect();
    assert_eq!(screen, "note to self");
    assert!(kb.hardware.enter_pressed);
    assert_eq!(kb.hardware.backspace_count, 6);
    assert_eq!(kb.get_current_text(), "");
}

/// Finalizing "draft a memo enter" backspaces exactly the 6 characters
/// of " enter", presses enter once, and clears the tracked text.
#[test]
fn test_finalize_backspaces_trailing_command_only() {
    let mut kb = VirtualKeyboard::new(MockKeyboardHardware::new());
    kb.update_transcript("draft a memo enter").unwrap();
    kb.finalize_transcript().unwrap();
    assert_eq!(kb.hardware.backspace_count, 6);
    assert!(kb.hardware.enter_pressed);
    let screen: String = kb.hardware.typed_chars.iter().collect();
    assert_eq!(screen, "draft a memo");
    assert_eq!(kb.get_current_text(), "");
}

/// Finalizing "fix this centers enter!! " backspaces only the trailing
/// " enter!! " segment (9 characters) and presses enter once; the word
/// "centers" is untouched.
#[test]
fn test_finalize_leaves_inner_words_untouched() {
    let mut kb = VirtualKeyboard::new(MockKeyboardHardware::new());
    kb.update_transcript("fix this centers enter!! ").unwrap();
    kb.finalize_transcript().unwrap();
    assert_eq!(kb.hardware.backspace_count, 9);
    assert!(kb.hardware.enter_pressed);
    let screen: String = kb.hardware.typed_chars.iter().collect();
    assert_eq!(screen, "fix this centers");
    assert_eq!(kb.get_current_text(), "");
}

/// The word-boundary and whitespace classes are Unicode-aware, like
/// the classes of the reference expression.
#[test]
fn test_enter_unicode_boundaries() {
    // "enter" as the tail of a longer word containing a non-ASCII
    // letter is not a whole word.
    let mut kb = VirtualKeyboard::new(MockKeyboardHardware::new());
    kb.update_transcript("a\u{f1}enter").unwrap();
    kb.finalize_transcript().unwrap();
    assert!(!kb.hardware.enter_pressed);
    assert_eq!(kb.hardware.backspace_count, 0);

    // A no-break space before the word is whitespace: it belongs to
    // the matched suffix and is backspaced with it.
    let mut kb = VirtualKeyboard::new(MockKeyboardHardware::new());
    kb.update_transcript("hello\u{a0}enter").unwrap();
    kb.finalize_transcript().unwrap();
    assert!(kb.hardware.enter_pressed);
    assert_eq!(kb.hardware.backspace_count, 6);

    // So is an em space.
    let mut kb = VirtualKeyboard::new(MockKeyboardHardware::new());
    kb.update_transcript("ok\u{2003}enter").unwrap();
    kb.finalize_transcript().unwrap();
    assert!(kb.hardware.enter_pressed);
    assert_eq!(kb.hardware.backspace_count, 6);
}

/// Re-applying the same transcript is a no-op: no operation is issued
/// and the update succeeds.
#[test]
fn test_update_same_transcript_is_noop() {
    let mut kb = VirtualKeyboard::new(MockKeyboardHardware::new());
    kb.update_transcript("hello world").unwrap();
    let typed_before = kb.hardware.typed_chars.clone();
    kb.update_transcript("hello world").unwrap();
    assert_eq!(kb.hardware.typed_chars, typed_before);
    assert_eq!(kb.hardware.backspace_count, 0);
    assert!(!kb.hardware.enter_pressed);
    assert_eq!(kb.get_current_text(), "hello world");
}
