//! Paths: `~` expansion and the config directory.

use vstd::prelude::*;

use crate::text::{chars_of, extend_chars, extend_str, has_prefix, slice_chars, starts_with, string_of};

verus! {

/// `base` with `p` pushed onto it as `PathBuf::push` does on Unix: an
/// absolute `p` replaces `base`; otherwise a `/` is put between them unless
/// `base` is empty or already ends with one.
pub open spec fn path_join(base: Seq<char>, p: Seq<char>) -> Seq<char> {
    if p.len() > 0 && p[0] == '/' {
        p
    } else if base.len() == 0 || base.last() == '/' {
        base + p
    } else {
        base + "/"@ + p
    }
}

/// `base` with `p` pushed onto it.
pub fn join_path(base: &str, p: &str) -> (r: String)
    ensures
        r@ == path_join(base@, p@),
{
    let b = chars_of(base);
    let q = chars_of(p);
    let mut v: Vec<char> = Vec::new();
    if q.len() > 0 && q[0] == '/' {
        extend_chars(&mut v, &q);
    } else if b.len() == 0 || b[b.len() - 1] == '/' {
        extend_chars(&mut v, &b);
        extend_chars(&mut v, &q);
    } else {
        extend_chars(&mut v, &b);
        extend_str(&mut v, "/");
        extend_chars(&mut v, &q);
        assert(v@ =~= b@ + "/"@ + q@);
    }
    string_of(&v)
}

/// The config directory under the home directory (or the working
/// directory when there is no home).
pub open spec fn config_dir(home: Option<Seq<char>>) -> Seq<char> {
    let base = match home {
        Some(h) => h,
        None => "."@,
    };
    path_join(path_join(base, ".config"@), "tmux-session-switcher"@)
}

/// `~/.config/tmux-session-switcher`, with `home` the home directory if known.
pub fn config_dir_path(home: Option<&str>) -> (r: String)
    ensures
        r@ == config_dir(
            match home {
                Some(h) => Some(h@),
                None => None,
            },
        ),
{
    let base = match home {
        Some(h) => join_path(h, ".config"),
        None => join_path(".", ".config"),
    };
    join_path(base.as_str(), "tmux-session-switcher")
}

/// `path` with a leading `~` replaced by the home directory `home`.
pub open spec fn expanded(path: Seq<char>, home: Seq<char>) -> Seq<char> {
    if has_prefix(path, "~"@) {
        if path == "~"@ {
            home
        } else if has_prefix(path, "~/"@) {
            path_join(home, path.skip(2))
        } else {
            path_join(home, path)
        }
    } else {
        path
    }
}

/// `path` with a leading `~` replaced by the home directory. The home
/// directory must be known when `path` starts with `~`.
pub fn expand_tilde(path: &str, home: Option<&str>) -> (r: String)
    requires
        has_prefix(path@, "~"@) ==> home is Some,
    ensures
        r@ == expanded(
            path@,
            match home {
                Some(h) => h@,
                None => Seq::empty(),
            },
        ),
{
    let p = chars_of(path);
    if !starts_with(&p, &chars_of("~")) {
        return String::from_str(path);
    }
    let h = match home {
        Some(h) => h,
        None => "",
    };
    if crate::text::chars_eq(&p, &chars_of("~")) {
        return String::from_str(h);
    }
    if starts_with(&p, &chars_of("~/")) {
        proof {
            reveal_strlit("~/");
        }
        let rest = string_of(&slice_chars(&p, 2, p.len()));
        assert(rest@ =~= path@.skip(2));
        join_path(h, rest.as_str())
    } else {
        join_path(h, path)
    }
}

} // verus!
