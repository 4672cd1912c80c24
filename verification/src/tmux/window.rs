//! A running tmux window.

use vstd::prelude::*;

use crate::text::{
    copy_string, extend_chars, extend_str, push_chars, push_string, string_of, strings_view,
};
use crate::tmux::{window_base, window_base_chars};

verus! {

/// A window as `tmux list-windows` reports it.
#[derive(Debug)]
pub struct Window {
    pub session_name: String,
    pub index: String,
    pub name: String,
    /// The active window of the current session
    pub active: bool,
    pub marked: bool,
    /// The window has a pending bell
    pub bell: bool,
}

impl Window {
    /// A copy of this window.
    pub fn duplicate(&self) -> (r: Window)
        ensures
            r == *self,
    {
        Window {
            session_name: self.session_name.clone(),
            index: self.index.clone(),
            name: self.name.clone(),
            active: self.active,
            marked: self.marked,
            bell: self.bell,
        }
    }

    /// The place of this window in the list, in half steps: the active window
    /// first (0), then windows with a bell (2), marked ones (4), the rest (6).
    pub open spec fn priority(&self) -> nat {
        if self.active {
            0
        } else if self.bell {
            2
        } else if self.marked {
            4
        } else {
            6
        }
    }

    /// The sort priority, in half steps.
    pub fn sort_priority_halves(&self) -> (p: u8)
        ensures
            p == self.priority(),
    {
        if self.active {
            0
        } else if self.bell {
            2
        } else if self.marked {
            4
        } else {
            6
        }
    }

    /// The line that shows this window in the picker.
    pub open spec fn display(&self) -> Seq<char> {
        window_base(self.session_name@, self.index@, self.name@) + (if self.active {
            " 🟢"@
        } else {
            Seq::empty()
        }) + (if self.marked {
            " ♥️"@
        } else {
            Seq::empty()
        }) + (if self.bell {
            " 🔔"@
        } else {
            Seq::empty()
        }) + "\n"@
    }

    /// The line that shows this window in the picker.
    pub fn display_string(&self) -> (s: String)
        ensures
            s@ == self.display(),
    {
        let mut v = window_base_chars(self.session_name.as_str(), self.index.as_str(), self.name.as_str());
        let ghost base = v@;
        let ghost a: Seq<char> = if self.active { " 🟢"@ } else { Seq::empty() };
        let ghost m: Seq<char> = if self.marked { " ♥️"@ } else { Seq::empty() };
        let ghost b: Seq<char> = if self.bell { " 🔔"@ } else { Seq::empty() };
        if self.active {
            extend_str(&mut v, " 🟢");
        }
        assert(v@ =~= base + a);
        if self.marked {
            extend_str(&mut v, " ♥️");
        }
        assert(v@ =~= base + a + m);
        if self.bell {
            extend_str(&mut v, " 🔔");
        }
        assert(v@ =~= base + a + m + b);
        extend_str(&mut v, "\n");
        string_of(&v)
    }

    /// The tmux command line that switches to this window.
    pub fn switch_args(&self) -> (args: Vec<String>)
        ensures
            strings_view(args@) == seq![
                "switch"@,
                "-t"@,
                self.session_name@ + ":"@ + self.index@,
            ],
    {
        let mut args: Vec<String> = Vec::new();
        push_string(&mut args, "switch");
        push_string(&mut args, "-t");
        let mut target: Vec<char> = Vec::new();
        extend_str(&mut target, self.session_name.as_str());
        extend_str(&mut target, ":");
        extend_str(&mut target, self.index.as_str());
        assert(target@ =~= self.session_name@ + ":"@ + self.index@);
        push_chars(&mut args, &target);
        assert(strings_view(args@) =~= seq!["switch"@, "-t"@, self.session_name@ + ":"@ + self.index@]);
        args
    }
}

} // verus!
