//! The plain POSIX prompt theme: the texts of the prompts, without colours.
use vstd::prelude::*;

use crate::text::{join_words, joined};

verus! {

/// The dollar sign of the prompt.
pub const PROMPT_DOLLAR: char = '$';

/// The plain prompt theme.
#[derive(Debug, Default, Clone, Copy)]
pub struct PosixTheme;

/// `[y/n] `, `[Y/n] ` or `[y/N] `, after the default answer.
pub open spec fn confirm_choices(default: Option<bool>) -> Seq<char> {
    match default {
        None => "[y/n] "@,
        Some(true) => "[Y/n] "@,
        Some(false) => "[y/N] "@,
    }
}

/// `yes` or `no`.
pub open spec fn yes_no(b: bool) -> Seq<char> {
    if b {
        "yes"@
    } else {
        "no"@
    }
}

/// The marker in front of an item of a multiple choice: `> ` for the active
/// one, then `[x]` where it is checked.
pub open spec fn check_marker(checked: bool, active: bool) -> Seq<char> {
    match (checked, active) {
        (true, true) => "> [x]"@,
        (true, false) => "  [x]"@,
        (false, true) => "> [ ]"@,
        (false, false) => "  [ ]"@,
    }
}

/// The marker in front of an item being sorted: the active one is marked with
/// `> `, and `[x]` where it is picked.
pub open spec fn sort_marker(picked: bool, active: bool) -> Seq<char> {
    match (picked, active) {
        (true, true) => "> [x]"@,
        (false, true) => "> [ ]"@,
        (_, false) => "  [ ]"@,
    }
}

impl PosixTheme {
    /// A prompt: the prompt itself.
    pub fn format_prompt(&self, prompt: &str) -> (r: String)
        ensures
            r@ == prompt@,
    {
        String::from_str(prompt)
    }

    /// An error: `error: ` and the message.
    pub fn format_error(&self, err: &str) -> (r: String)
        ensures
            r@ == "error: "@ + err@,
    {
        let mut s = String::from_str("error: ");
        s.append(err);
        s
    }

    /// A yes/no question: the prompt and a blank, where there is a prompt, then
    /// the choices with the default in capitals.
    pub fn format_confirm_prompt(&self, prompt: &str, default: Option<bool>) -> (r: String)
        ensures
            r@ == (if prompt@.len() > 0 {
                prompt@ + " "@
            } else {
                seq![]
            }) + confirm_choices(default),
    {
        let mut s = String::new();
        if prompt.unicode_len() > 0 {
            s.append(prompt);
            s.append(" ");
        }
        match default {
            None => s.append("[y/n] "),
            Some(true) => s.append("[Y/n] "),
            Some(false) => s.append("[y/N] "),
        }
        s
    }

    /// The answer to a yes/no question: the prompt, a blank and `yes` or `no`;
    /// without a prompt the answer alone; without an answer the prompt alone.
    pub fn format_confirm_prompt_selection(&self, prompt: &str, selection: Option<bool>) -> (r:
        String)
        ensures
            r@ == match selection {
                Some(b) => if prompt@.len() == 0 {
                    yes_no(b)
                } else {
                    prompt@ + " "@ + yes_no(b)
                },
                None => prompt@,
            },
    {
        let answer: Option<&str> = match selection {
            Some(true) => Some("yes"),
            Some(false) => Some("no"),
            None => None,
        };
        match answer {
            Some(a) => {
                if prompt.unicode_len() == 0 {
                    String::from_str(a)
                } else {
                    let mut s = String::from_str(prompt);
                    s.append(" ");
                    s.append(a);
                    s
                }
            },
            None => {
                if prompt.unicode_len() == 0 {
                    let s = String::new();
                    assert(s@ =~= prompt@);
                    s
                } else {
                    String::from_str(prompt)
                }
            },
        }
    }

    /// A text input: the prompt, then the default in brackets and a colon, where
    /// there is one.
    pub fn format_input_prompt(&self, prompt: &str, default: Option<&str>) -> (r: String)
        ensures
            r@ == match default {
                Some(d) => if prompt@.len() == 0 {
                    "["@ + d@ + "]: "@
                } else {
                    prompt@ + " ["@ + d@ + "]: "@
                },
                None => prompt@ + " "@,
            },
    {
        match default {
            Some(d) => {
                if prompt.unicode_len() == 0 {
                    let mut s = String::from_str("[");
                    s.append(d);
                    s.append("]: ");
                    s
                } else {
                    let mut s = String::from_str(prompt);
                    s.append(" [");
                    s.append(d);
                    s.append("]: ");
                    s
                }
            },
            None => {
                let mut s = String::from_str(prompt);
                s.append(" ");
                s
            },
        }
    }

    /// The answer to a text input: the prompt, a blank and the answer.
    pub fn format_input_prompt_selection(&self, prompt: &str, sel: &str) -> (r: String)
        ensures
            r@ == prompt@ + " "@ + sel@,
    {
        let mut s = String::from_str(prompt);
        s.append(" ");
        s.append(sel);
        s
    }

    /// A password input: as a text input without a default.
    pub fn format_password_prompt(&self, prompt: &str) -> (r: String)
        ensures
            r@ == prompt@ + " "@,
    {
        self.format_input_prompt(prompt, None)
    }

    /// The answer to a password input, hidden.
    pub fn format_password_prompt_selection(&self, prompt: &str) -> (r: String)
        ensures
            r@ == prompt@ + " "@ + "[hidden]"@,
    {
        self.format_input_prompt_selection(prompt, "[hidden]")
    }

    /// A selection: the prompt.
    pub fn format_select_prompt(&self, prompt: &str) -> (r: String)
        ensures
            r@ == prompt@,
    {
        self.format_prompt(prompt)
    }

    /// The answer to a selection: as the answer to a text input.
    pub fn format_select_prompt_selection(&self, prompt: &str, sel: &str) -> (r: String)
        ensures
            r@ == prompt@ + " "@ + sel@,
    {
        self.format_input_prompt_selection(prompt, sel)
    }

    /// A multiple selection: the prompt.
    pub fn format_multi_select_prompt(&self, prompt: &str) -> (r: String)
        ensures
            r@ == prompt@,
    {
        self.format_prompt(prompt)
    }

    /// A sort: the prompt.
    pub fn format_sort_prompt(&self, prompt: &str) -> (r: String)
        ensures
            r@ == prompt@,
    {
        self.format_prompt(prompt)
    }

    /// The answer to a multiple selection: the prompt, a blank, and the
    /// selections separated by commas.
    pub fn format_multi_select_prompt_selection(&self, prompt: &str, selections: &[String]) -> (r:
        String)
        ensures
            r@ == prompt@ + " "@ + joined(selections.deep_view(), ", "@),
    {
        let mut s = String::from_str(prompt);
        s.append(" ");
        let list = join_words(selections, ", ");
        s.append(list.as_str());
        s
    }

    /// The answer to a sort: as the answer to a multiple selection.
    pub fn format_sort_prompt_selection(&self, prompt: &str, selections: &[String]) -> (r: String)
        ensures
            r@ == prompt@ + " "@ + joined(selections.deep_view(), ", "@),
    {
        self.format_multi_select_prompt_selection(prompt, selections)
    }

    /// An item of a selection: `>` in front of the active one, a blank in front
    /// of the others, then a blank and the item.
    pub fn format_select_prompt_item(&self, text: &str, active: bool) -> (r: String)
        ensures
            r@ == (if active {
                ">"@
            } else {
                " "@
            }) + " "@ + text@,
    {
        let mut s = if active {
            String::from_str(">")
        } else {
            String::from_str(" ")
        };
        s.append(" ");
        s.append(text);
        s
    }

    /// An item of a multiple selection: its marker, a blank and the item.
    pub fn format_multi_select_prompt_item(&self, text: &str, checked: bool, active: bool) -> (r:
        String)
        ensures
            r@ == check_marker(checked, active) + " "@ + text@,
    {
        let mut s = match (checked, active) {
            (true, true) => String::from_str("> [x]"),
            (true, false) => String::from_str("  [x]"),
            (false, true) => String::from_str("> [ ]"),
            (false, false) => String::from_str("  [ ]"),
        };
        s.append(" ");
        s.append(text);
        s
    }

    /// An item being sorted: its marker, a blank and the item.
    pub fn format_sort_prompt_item(&self, text: &str, picked: bool, active: bool) -> (r: String)
        ensures
            r@ == sort_marker(picked, active) + " "@ + text@,
    {
        let mut s = match (picked, active) {
            (true, true) => String::from_str("> [x]"),
            (false, true) => String::from_str("> [ ]"),
            (_, false) => String::from_str("  [ ]"),
        };
        s.append(" ");
        s.append(text);
        s
    }
}

} // verus!
