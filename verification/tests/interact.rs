use gemini_cli::interact::{prompt_action, PromptAction, PromptInput};

#[test]
fn keys_that_choose_an_action() {
    assert_eq!(prompt_action(PromptInput::Char('c')), PromptAction::Copy);
    assert_eq!(prompt_action(PromptInput::Char('C')), PromptAction::Copy);
    assert_eq!(prompt_action(PromptInput::Char('q')), PromptAction::Cancel);
    assert_eq!(prompt_action(PromptInput::Char('Q')), PromptAction::Cancel);
    assert_eq!(prompt_action(PromptInput::Enter), PromptAction::Execute);
}

#[test]
fn other_keys_are_not_recognized() {
    for c in ['x', 'y', ' ', '\n', '1', 'k', '\u{e7}'] {
        assert_eq!(prompt_action(PromptInput::Char(c)), PromptAction::Unrecognized);
    }
    assert_eq!(prompt_action(PromptInput::OtherKey), PromptAction::Unrecognized);
}

#[test]
fn what_is_no_key_does_nothing() {
    assert_eq!(prompt_action(PromptInput::NotAKey), PromptAction::Nothing);
}
