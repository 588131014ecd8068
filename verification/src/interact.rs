use vstd::prelude::*;

verus! {

/// What the user did at the prompt that follows a suggested command.
#[derive(Clone, Copy, Debug, PartialEq, Eq)]
pub enum PromptInput {
    /// A character key.
    Char(char),
    /// The enter key.
    Enter,
    /// Any other key.
    OtherKey,
    /// Something that is no key press.
    NotAKey,
}

/// What to do with the suggested command.
#[derive(Clone, Copy, Debug, PartialEq, Eq)]
pub enum PromptAction {
    /// Put the command on the clipboard.
    Copy,
    /// Leave without running it.
    Cancel,
    /// Run it in a shell.
    Execute,
    /// Say that the key means nothing here, and leave.
    Unrecognized,
    /// Leave silently.
    Nothing,
}

/// `c` and `C` copy, `q` and `Q` cancel, enter executes; any other key is
/// not recognized, and what is no key has no effect.
pub open spec fn action_for(input: PromptInput) -> PromptAction {
    match input {
        PromptInput::Char(c) => if c == 'c' || c == 'C' {
            PromptAction::Copy
        } else if c == 'q' || c == 'Q' {
            PromptAction::Cancel
        } else {
            PromptAction::Unrecognized
        },
        PromptInput::Enter => PromptAction::Execute,
        PromptInput::OtherKey => PromptAction::Unrecognized,
        PromptInput::NotAKey => PromptAction::Nothing,
    }
}

/// Chooses the action for what the user did.
pub fn prompt_action(input: PromptInput) -> (action: PromptAction)
    ensures
        action == action_for(input),
{
    match input {
        PromptInput::Char('c') | PromptInput::Char('C') => PromptAction::Copy,
        PromptInput::Char('q') | PromptInput::Char('Q') => PromptAction::Cancel,
        PromptInput::Enter => PromptAction::Execute,
        PromptInput::NotAKey => PromptAction::Nothing,
        _ => PromptAction::Unrecognized,
    }
}

} // verus!
