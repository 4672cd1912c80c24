//! The window that was current before the last switch.

use vstd::prelude::*;

use crate::text::{extend_str, push_chars, push_string, string_of, strings_view};
use crate::tmux::{window_base, window_base_chars};

verus! {

/// The window to go back to.
#[derive(Debug)]
pub struct PreviousWindow {
    pub session_name: String,
    pub index: String,
    pub name: String,
}

impl PreviousWindow {
    /// A copy of this entry.
    pub fn duplicate(&self) -> (r: PreviousWindow)
        ensures
            r == *self,
    {
        PreviousWindow {
            session_name: self.session_name.clone(),
            index: self.index.clone(),
            name: self.name.clone(),
        }
    }

    /// The place of this entry in the list, in half steps: right after the
    /// active window.
    pub open spec fn priority(&self) -> nat {
        1
    }

    /// The sort priority, in half steps.
    pub fn sort_priority_halves(&self) -> (p: u8)
        ensures
            p == self.priority(),
    {
        1
    }

    /// The line that shows this entry in the picker.
    pub open spec fn display(&self) -> Seq<char> {
        window_base(self.session_name@, self.index@, self.name@) + " 🔙"@ + "\n"@
    }

    /// The line that shows this entry in the picker.
    pub fn display_string(&self) -> (s: String)
        ensures
            s@ == self.display(),
    {
        let mut v = window_base_chars(self.session_name.as_str(), self.index.as_str(), self.name.as_str());
        extend_str(&mut v, " 🔙");
        extend_str(&mut v, "\n");
        string_of(&v)
    }

    /// The tmux command line that switches back to this window.
    pub fn switch_args(&self) -> (args: Vec<String>)
        ensures
            strings_view(args@) == seq![
                "switch"@,
                "-t"@,
                self.session_name@ + ":"@ + self.index@,
            ],
    {
        let mut args: Vec<String> = Vec::new();
        push_string(&mut args, "switch");
        push_string(&mut args, "-t");
        let mut target: Vec<char> = Vec::new();
        extend_str(&mut target, self.session_name.as_str());
        extend_str(&mut target, ":");
        extend_str(&mut target, self.index.as_str());
        assert(target@ =~= self.session_name@ + ":"@ + self.index@);
        push_chars(&mut args, &target);
        assert(strings_view(args@) =~= seq!["switch"@, "-t"@, self.session_name@ + ":"@ + self.index@]);
        args
    }
}

} // verus!
