//! The text the renderer shows: prefixes and message lines in their plain
//! form. Colored rendering decorates these outside the library; the
//! library only fixes the words and the message categories.

use vstd::prelude::*;

verus! {

/// The renderer's configuration: whether color output is disabled.
#[derive(Debug)]
pub struct Printer {
    pub no_color: bool,
}

impl Printer {
    pub fn new(no_color: bool) -> (printer: Self)
        ensures
            printer.no_color == no_color,
    {
        Self { no_color }
    }

    /// The prompt prefix shown before the user's input, in its plain form.
    pub fn get_user_prefix(&self) -> (prefix: String)
        ensures
            prefix@ == "You:\n"@,
    {
        String::from_str("You:\n")
    }

    /// An application message as one plain block: the application's name,
    /// the message, a newline.
    pub fn plain_app_message(&self, message: &str) -> (text: String)
        ensures
            text@ == "llmcli:\n"@ + message@ + "\n"@,
    {
        let mut text = String::from_str("llmcli:\n");
        text.append(message);
        text.append("\n");
        text
    }

    /// The prefix shown before a provider's reply, in its plain form.
    pub fn plain_chatbot_prefix(&self, name: &str) -> (text: String)
        ensures
            text@ == name@ + ":\n"@,
    {
        let mut text = String::from_str(name);
        text.append(":\n");
        text
    }

    /// An error message as one plain block.
    pub fn plain_error_message(&self, message: &str) -> (text: String)
        ensures
            text@ == "Error:\n"@ + message@ + "\n"@,
    {
        let mut text = String::from_str("Error:\n");
        text.append(message);
        text.append("\n");
        text
    }
}

} // verus!
