//! A favorite: a window the user wants to reach, created when missing.

use vstd::prelude::*;

use crate::text::{
    decimal, decimal_chars, extend_chars, extend_str, push_chars, push_string, string_of,
    strings_view,
};
use crate::tmux::{window_base, window_base_chars};

verus! {

/// A saved window: its name, and where and in which directory to open it.
#[derive(Debug)]
pub struct Favorite {
    pub name: String,
    pub session_name: Option<String>,
    pub index: Option<u16>,
    pub path: Option<String>,
}

/// The text of an optional string, empty when absent.
pub open spec fn or_empty(o: Option<String>) -> Seq<char> {
    match o {
        Some(s) => s@,
        None => Seq::empty(),
    }
}

/// The text of an optional window index, empty when absent.
pub open spec fn index_text(o: Option<u16>) -> Seq<char> {
    match o {
        Some(i) => decimal(i as nat),
        None => Seq::empty(),
    }
}

/// The target window of `tmux new-window -t`, if the favorite names one.
pub open spec fn favorite_target(session: Option<String>, index: Option<u16>) -> Option<Seq<char>> {
    match (session, index) {
        (Some(s), Some(i)) => Some(s@ + ":"@ + decimal(i as nat)),
        (Some(s), None) => Some(s@),
        (None, Some(i)) => Some(decimal(i as nat)),
        (None, None) => None,
    }
}

/// The characters of an optional string.
fn opt_chars_or_empty(o: &Option<String>) -> (v: Vec<char>)
    ensures
        v@ == or_empty(*o),
{
    match o {
        Some(s) => crate::text::chars_of(s.as_str()),
        None => Vec::new(),
    }
}

/// The characters of an optional index.
fn index_chars(o: Option<u16>) -> (v: Vec<char>)
    ensures
        v@ == index_text(o),
{
    match o {
        Some(i) => decimal_chars(i as u64),
        None => Vec::new(),
    }
}

impl Favorite {
    /// A copy of this favorite.
    pub fn duplicate(&self) -> (r: Favorite)
        ensures
            r == *self,
    {
        Favorite {
            name: self.name.clone(),
            session_name: crate::text::copy_opt_string(&self.session_name),
            index: self.index,
            path: crate::text::copy_opt_string(&self.path),
        }
    }

    /// The place of favorites in the list, in half steps: after every window.
    pub open spec fn priority(&self) -> nat {
        10
    }

    /// The sort priority, in half steps.
    pub fn sort_priority_halves(&self) -> (p: u8)
        ensures
            p == self.priority(),
    {
        10
    }

    /// The line that shows this favorite in the picker.
    pub open spec fn display(&self) -> Seq<char> {
        window_base(or_empty(self.session_name), index_text(self.index), self.name@) + " ⭐️ "@
            + or_empty(self.path) + "\n"@
    }

    /// The line that shows this favorite in the picker.
    pub fn display_string(&self) -> (s: String)
        ensures
            s@ == self.display(),
    {
        let session = string_of(&opt_chars_or_empty(&self.session_name));
        let index = string_of(&index_chars(self.index));
        let mut v = window_base_chars(session.as_str(), index.as_str(), self.name.as_str());
        extend_str(&mut v, " ⭐️ ");
        let path = opt_chars_or_empty(&self.path);
        extend_chars(&mut v, &path);
        extend_str(&mut v, "\n");
        string_of(&v)
    }

    /// The tmux command line that opens this favorite: a new window at the
    /// target (replacing what is there), or one selected by name when no
    /// target is set, in the favorite's directory if it has one.
    pub open spec fn spec_switch_args(&self) -> Seq<Seq<char>> {
        seq!["new-window"@] + match favorite_target(self.session_name, self.index) {
            Some(t) => seq!["-t"@, t, "-k"@],
            None => seq!["-S"@],
        } + seq!["-n"@, self.name@] + match self.path {
            Some(p) => seq!["-c"@, p@],
            None => Seq::empty(),
        }
    }

    /// The tmux command line that opens this favorite.
    pub fn switch_args(&self) -> (args: Vec<String>)
        ensures
            strings_view(args@) == self.spec_switch_args(),
    {
        let mut args: Vec<String> = Vec::new();
        push_string(&mut args, "new-window");
        let ghost head = strings_view(args@);
        let mut target: Vec<char> = Vec::new();
        let has_target = match (&self.session_name, self.index) {
            (Some(s), Some(i)) => {
                extend_str(&mut target, s.as_str());
                extend_str(&mut target, ":");
                let d = decimal_chars(i as u64);
                extend_chars(&mut target, &d);
                true
            },
            (Some(s), None) => {
                extend_str(&mut target, s.as_str());
                true
            },
            (None, Some(i)) => {
                let d = decimal_chars(i as u64);
                extend_chars(&mut target, &d);
                true
            },
            (None, None) => false,
        };
        assert(has_target == favorite_target(self.session_name, self.index) is Some);
        assert(has_target ==> favorite_target(self.session_name, self.index)->0 =~= target@);
        if has_target {
            push_string(&mut args, "-t");
            push_chars(&mut args, &target);
            push_string(&mut args, "-k");
        } else {
            push_string(&mut args, "-S");
        }
        let ghost mid = strings_view(args@);
        push_string(&mut args, "-n");
        push_string(&mut args, self.name.as_str());
        let ghost named = strings_view(args@);
        match &self.path {
            Some(p) => {
                push_string(&mut args, "-c");
                push_string(&mut args, p.as_str());
            },
            None => {},
        }
        assert(strings_view(args@) =~= self.spec_switch_args());
        args
    }
}

} // verus!
