//! The command line: its options, subcommands and value names, and a parser
//! from the argument vector.

use vstd::prelude::*;

use crate::text::{chars_eq, chars_of, decimal_value, parse_decimal, slice_chars, string_of};

verus! {

/// Border style of the picker popup.
#[derive(Clone, Copy, Debug, PartialEq, Eq, Structural)]
pub enum BorderStyle {
    Rounded,
    Sharp,
    Bold,
    Block,
    Thinblock,
    Double,
    Horizontal,
    Vertical,
    Top,
    Bottom,
    Left,
    Right,
    Borderless,
}

/// Which picker shows the list.
#[derive(Clone, Copy, Debug, PartialEq, Eq, Structural)]
pub enum PickerBackend {
    Native,
    Fzf,
}

/// Where the prompt stands relative to the list.
#[derive(Clone, Copy, Debug, PartialEq, Eq, Structural)]
pub enum LayoutStyle {
    Default,
    Reverse,
    ReverseList,
}

/// The parsed command line.
#[derive(Debug)]
pub struct Args {
    /// Path to the config file
    pub config: String,
    pub title: String,
    pub border: BorderStyle,
    pub layout: LayoutStyle,
    /// Picker backend: native or fzf
    pub picker: Option<PickerBackend>,
    /// Color theme of the native picker
    pub theme: Option<String>,
    pub command: Option<Commands>,
}

#[derive(Debug)]
pub enum Commands {
    /// Manage favorites
    Favorite(FavoriteArgs),
    /// Internal: run the picker inside a tmux popup
    InternalPicker { items_path: String, result_path: String },
}

#[derive(Debug)]
pub struct FavoriteArgs {
    pub command: FavoriteCommands,
}

#[derive(Debug)]
pub enum FavoriteCommands {
    /// Add the current window (or the one given) to favorites
    Add {
        name: Option<String>,
        session_name: Option<String>,
        index: Option<u16>,
        path: Option<String>,
    },
    /// Remove a favorite (interactively when no name is given)
    Remove { name: Option<String> },
    /// List all favorites
    List,
}

/// Why an argument vector was not accepted. Indices point into the vector.
#[derive(Clone, Copy, Debug, PartialEq, Eq, Structural)]
pub enum ArgsError {
    /// The token is no option, value or subcommand known at its place.
    UnknownArgument(usize),
    /// The option at this index has no value.
    MissingValue(usize),
    /// The value held by the token at this index is not accepted.
    InvalidValue(usize),
    /// The option at this index was already given.
    DuplicateArgument(usize),
    /// `favorite` was given without `add`, `remove` or `list`.
    MissingSubcommand,
    /// `internal-picker` was given fewer than two paths.
    MissingPositional,
    /// `-h`, `--help` or `help` was given.
    HelpRequested,
    /// `-V` or `--version` was given.
    VersionRequested,
}

// ---------------------------------------------------------------------------
// Value names
// ---------------------------------------------------------------------------

/// The name of a border style on the command line.
pub open spec fn border_name(b: BorderStyle) -> Seq<char> {
    match b {
        BorderStyle::Rounded => "rounded"@,
        BorderStyle::Sharp => "sharp"@,
        BorderStyle::Bold => "bold"@,
        BorderStyle::Block => "block"@,
        BorderStyle::Thinblock => "thinblock"@,
        BorderStyle::Double => "double"@,
        BorderStyle::Horizontal => "horizontal"@,
        BorderStyle::Vertical => "vertical"@,
        BorderStyle::Top => "top"@,
        BorderStyle::Bottom => "bottom"@,
        BorderStyle::Left => "left"@,
        BorderStyle::Right => "right"@,
        BorderStyle::Borderless => "none"@,
    }
}

/// The border style named `v`, if any.
pub open spec fn border_of_name(v: Seq<char>) -> Option<BorderStyle> {
    if v == "rounded"@ {
        Some(BorderStyle::Rounded)
    } else if v == "sharp"@ {
        Some(BorderStyle::Sharp)
    } else if v == "bold"@ {
        Some(BorderStyle::Bold)
    } else if v == "block"@ {
        Some(BorderStyle::Block)
    } else if v == "thinblock"@ {
        Some(BorderStyle::Thinblock)
    } else if v == "double"@ {
        Some(BorderStyle::Double)
    } else if v == "horizontal"@ {
        Some(BorderStyle::Horizontal)
    } else if v == "vertical"@ {
        Some(BorderStyle::Vertical)
    } else if v == "top"@ {
        Some(BorderStyle::Top)
    } else if v == "bottom"@ {
        Some(BorderStyle::Bottom)
    } else if v == "left"@ {
        Some(BorderStyle::Left)
    } else if v == "right"@ {
        Some(BorderStyle::Right)
    } else if v == "none"@ {
        Some(BorderStyle::Borderless)
    } else {
        None
    }
}

/// The name of a layout on the command line.
pub open spec fn layout_name(l: LayoutStyle) -> Seq<char> {
    match l {
        LayoutStyle::Default => "default"@,
        LayoutStyle::Reverse => "reverse"@,
        LayoutStyle::ReverseList => "reverse-list"@,
    }
}

/// The layout named `v`, if any.
pub open spec fn layout_of_name(v: Seq<char>) -> Option<LayoutStyle> {
    if v == "default"@ {
        Some(LayoutStyle::Default)
    } else if v == "reverse"@ {
        Some(LayoutStyle::Reverse)
    } else if v == "reverse-list"@ {
        Some(LayoutStyle::ReverseList)
    } else {
        None
    }
}

/// The picker backend named `v`, if any.
pub open spec fn backend_of_name(v: Seq<char>) -> Option<PickerBackend> {
    if v == "native"@ {
        Some(PickerBackend::Native)
    } else if v == "fzf"@ {
        Some(PickerBackend::Fzf)
    } else {
        None
    }
}

impl BorderStyle {
    /// The name of the style, as `--border` takes it.
    pub fn as_str(&self) -> (s: &'static str)
        ensures
            s@ == border_name(*self),
    {
        match self {
            BorderStyle::Rounded => "rounded",
            BorderStyle::Sharp => "sharp",
            BorderStyle::Bold => "bold",
            BorderStyle::Block => "block",
            BorderStyle::Thinblock => "thinblock",
            BorderStyle::Double => "double",
            BorderStyle::Horizontal => "horizontal",
            BorderStyle::Vertical => "vertical",
            BorderStyle::Top => "top",
            BorderStyle::Bottom => "bottom",
            BorderStyle::Left => "left",
            BorderStyle::Right => "right",
            BorderStyle::Borderless => "none",
        }
    }

    /// The style named `v`, if any.
    pub fn from_name(v: &Vec<char>) -> (r: Option<BorderStyle>)
        ensures
            r == border_of_name(v@),
    {
        if chars_eq(v, &chars_of("rounded")) {
            Some(BorderStyle::Rounded)
        } else if chars_eq(v, &chars_of("sharp")) {
            Some(BorderStyle::Sharp)
        } else if chars_eq(v, &chars_of("bold")) {
            Some(BorderStyle::Bold)
        } else if chars_eq(v, &chars_of("block")) {
            Some(BorderStyle::Block)
        } else if chars_eq(v, &chars_of("thinblock")) {
            Some(BorderStyle::Thinblock)
        } else if chars_eq(v, &chars_of("double")) {
            Some(BorderStyle::Double)
        } else if chars_eq(v, &chars_of("horizontal")) {
            Some(BorderStyle::Horizontal)
        } else if chars_eq(v, &chars_of("vertical")) {
            Some(BorderStyle::Vertical)
        } else if chars_eq(v, &chars_of("top")) {
            Some(BorderStyle::Top)
        } else if chars_eq(v, &chars_of("bottom")) {
            Some(BorderStyle::Bottom)
        } else if chars_eq(v, &chars_of("left")) {
            Some(BorderStyle::Left)
        } else if chars_eq(v, &chars_of("right")) {
            Some(BorderStyle::Right)
        } else if chars_eq(v, &chars_of("none")) {
            Some(BorderStyle::Borderless)
        } else {
            None
        }
    }
}

impl LayoutStyle {
    /// The name of the layout, as `--layout` takes it.
    pub fn as_str(&self) -> (s: &'static str)
        ensures
            s@ == layout_name(*self),
    {
        match self {
            LayoutStyle::Default => "default",
            LayoutStyle::Reverse => "reverse",
            LayoutStyle::ReverseList => "reverse-list",
        }
    }

    /// The layout named `v`, if any.
    pub fn from_name(v: &Vec<char>) -> (r: Option<LayoutStyle>)
        ensures
            r == layout_of_name(v@),
    {
        if chars_eq(v, &chars_of("default")) {
            Some(LayoutStyle::Default)
        } else if chars_eq(v, &chars_of("reverse")) {
            Some(LayoutStyle::Reverse)
        } else if chars_eq(v, &chars_of("reverse-list")) {
            Some(LayoutStyle::ReverseList)
        } else {
            None
        }
    }
}

impl PickerBackend {
    /// The backend named `v`, if any.
    pub fn from_name(v: &Vec<char>) -> (r: Option<PickerBackend>)
        ensures
            r == backend_of_name(v@),
    {
        if chars_eq(v, &chars_of("native")) {
            Some(PickerBackend::Native)
        } else if chars_eq(v, &chars_of("fzf")) {
            Some(PickerBackend::Fzf)
        } else {
            None
        }
    }
}


// ---------------------------------------------------------------------------
// Grammar
// ---------------------------------------------------------------------------

/// The command whose options a token is read against.
#[derive(Clone, Copy, Debug, PartialEq, Eq, Structural)]
pub enum Level {
    Top,
    Favorite,
    Add,
    Remove,
    List,
    Picker,
}

/// How a single token reads.
pub enum ArgToken {
    /// `--name` or `--name=value`
    Long { name: Seq<char>, value: Option<Seq<char>> },
    /// `-x`, `-xvalue` or `-x=value`
    Short { flag: char, value: Option<Seq<char>> },
    /// `--`
    Separator,
    /// anything else: a subcommand name, a value or a path
    Plain,
}

/// The index of the first `=` in `t`, or its length.
pub open spec fn eq_index(t: Seq<char>) -> int
    decreases t.len(),
{
    if t.len() == 0 {
        0
    } else if t[0] == '=' {
        0
    } else {
        1 + eq_index(t.drop_first())
    }
}

/// How the token `t` reads.
pub open spec fn classify(t: Seq<char>) -> ArgToken {
    if t.len() >= 2 && t[0] == '-' && t[1] == '-' {
        if t.len() == 2 {
            ArgToken::Separator
        } else {
            let body = t.skip(2);
            let e = eq_index(body);
            ArgToken::Long {
                name: body.take(e),
                value: if e < body.len() {
                    Some(body.skip(e + 1))
                } else {
                    None
                },
            }
        }
    } else if t.len() >= 2 && t[0] == '-' {
        let rest = t.skip(2);
        ArgToken::Short {
            flag: t[1],
            value: if rest.len() == 0 {
                None
            } else if rest[0] == '=' {
                Some(rest.skip(1))
            } else {
                Some(rest)
            },
        }
    } else {
        ArgToken::Plain
    }
}

/// A token that reads as an option and so cannot be an option's value.
pub open spec fn looks_like_flag(t: Seq<char>) -> bool {
    t.len() >= 2 && t[0] == '-'
}

/// The number of options a command takes.
pub open spec fn slot_count(level: Level) -> nat {
    match level {
        Level::Top => 6,
        Level::Add => 4,
        Level::Remove => 1,
        _ => 0,
    }
}

/// The option slot that `--name` fills at `level`.
pub open spec fn long_slot(level: Level, name: Seq<char>) -> Option<nat> {
    match level {
        Level::Top => if name == "config"@ {
            Some(0nat)
        } else if name == "title"@ {
            Some(1nat)
        } else if name == "border"@ {
            Some(2nat)
        } else if name == "layout"@ {
            Some(3nat)
        } else if name == "picker"@ {
            Some(4nat)
        } else if name == "theme"@ {
            Some(5nat)
        } else {
            None
        },
        Level::Add => if name == "name"@ {
            Some(0nat)
        } else if name == "session-name"@ {
            Some(1nat)
        } else if name == "index"@ {
            Some(2nat)
        } else if name == "path"@ {
            Some(3nat)
        } else {
            None
        },
        Level::Remove => if name == "name"@ {
            Some(0nat)
        } else {
            None
        },
        _ => None,
    }
}

/// The option slot that `-flag` fills at `level`.
pub open spec fn short_slot(level: Level, flag: char) -> Option<nat> {
    match level {
        Level::Top => if flag == 'c' {
            Some(0nat)
        } else if flag == 't' {
            Some(1nat)
        } else if flag == 'b' {
            Some(2nat)
        } else if flag == 'l' {
            Some(3nat)
        } else {
            None
        },
        Level::Add => if flag == 'n' {
            Some(0nat)
        } else if flag == 's' {
            Some(1nat)
        } else if flag == 'i' {
            Some(2nat)
        } else if flag == 'p' {
            Some(3nat)
        } else {
            None
        },
        Level::Remove => if flag == 'n' {
            Some(0nat)
        } else {
            None
        },
        _ => None,
    }
}

/// Whether `v` is accepted as the value of option `slot` at `level`.
pub open spec fn value_ok(level: Level, slot: nat, v: Seq<char>) -> bool {
    if level == Level::Top && slot == 2 {
        border_of_name(v) is Some
    } else if level == Level::Top && slot == 3 {
        layout_of_name(v) is Some
    } else if level == Level::Top && slot == 4 {
        backend_of_name(v) is Some
    } else if level == Level::Add && slot == 2 {
        decimal_value(v) is Some && decimal_value(v)->0 <= 65535
    } else {
        true
    }
}

/// What reading a command's tokens gives: the values of its options, its
/// positional arguments, and the index of the token that ends it (a
/// subcommand name, or the end of the vector).
pub enum Scan {
    Done { slots: Seq<Option<Seq<char>>>, positionals: Seq<Seq<char>>, next: int },
    Failed(ArgsError),
}

/// Reads the option `slot` at index `i`, with `attached` its value when the
/// token holds one, then goes on reading.
pub open spec fn scan_option(
    argv: Seq<Seq<char>>,
    level: Level,
    i: int,
    slot: nat,
    attached: Option<Seq<char>>,
    slots: Seq<Option<Seq<char>>>,
    positionals: Seq<Seq<char>>,
) -> Scan
    decreases argv.len() - i, 0nat,
{
    if i < 0 || slot >= slots.len() || i >= argv.len() {
        Scan::Failed(ArgsError::UnknownArgument(0))
    } else if slots[slot as int] is Some {
        Scan::Failed(ArgsError::DuplicateArgument(i as usize))
    } else {
        match attached {
            Some(v) => if value_ok(level, slot, v) {
                scan(argv, level, i + 1, slots.update(slot as int, Some(v)), positionals)
            } else {
                Scan::Failed(ArgsError::InvalidValue(i as usize))
            },
            None => if i + 1 < argv.len() && !looks_like_flag(argv[i + 1]) {
                if value_ok(level, slot, argv[i + 1]) {
                    scan(
                        argv,
                        level,
                        i + 2,
                        slots.update(slot as int, Some(argv[i + 1])),
                        positionals,
                    )
                } else {
                    Scan::Failed(ArgsError::InvalidValue((i + 1) as usize))
                }
            } else {
                Scan::Failed(ArgsError::MissingValue(i as usize))
            },
        }
    }
}

/// Reads the tokens of a command from index `i` on.
pub open spec fn scan(
    argv: Seq<Seq<char>>,
    level: Level,
    i: int,
    slots: Seq<Option<Seq<char>>>,
    positionals: Seq<Seq<char>>,
) -> Scan
    decreases argv.len() - i, 1nat,
{
    if i < 0 || i >= argv.len() {
        Scan::Done { slots, positionals, next: argv.len() as int }
    } else {
        match classify(argv[i]) {
            ArgToken::Plain => if level != Level::Picker {
                Scan::Done { slots, positionals, next: i }
            } else if positionals.len() < 2 {
                scan(argv, level, i + 1, slots, positionals.push(argv[i]))
            } else {
                Scan::Failed(ArgsError::UnknownArgument(i as usize))
            },
            ArgToken::Separator => Scan::Failed(ArgsError::UnknownArgument(i as usize)),
            ArgToken::Long { name, value } => if name == "help"@ {
                Scan::Failed(ArgsError::HelpRequested)
            } else if level == Level::Top && name == "version"@ {
                Scan::Failed(ArgsError::VersionRequested)
            } else {
                match long_slot(level, name) {
                    Some(k) => scan_option(argv, level, i, k, value, slots, positionals),
                    None => Scan::Failed(ArgsError::UnknownArgument(i as usize)),
                }
            },
            ArgToken::Short { flag, value } => if flag == 'h' {
                Scan::Failed(ArgsError::HelpRequested)
            } else if level == Level::Top && flag == 'V' {
                Scan::Failed(ArgsError::VersionRequested)
            } else {
                match short_slot(level, flag) {
                    Some(k) => scan_option(argv, level, i, k, value, slots, positionals),
                    None => Scan::Failed(ArgsError::UnknownArgument(i as usize)),
                }
            },
        }
    }
}

/// Reads a whole command starting at index `i` with no option given yet.
pub open spec fn scan_command(argv: Seq<Seq<char>>, level: Level, i: int) -> Scan {
    scan(argv, level, i, Seq::new(slot_count(level), |j: int| None), Seq::empty())
}


// ---------------------------------------------------------------------------
// What a command line means
// ---------------------------------------------------------------------------

/// The value of an optional string.
pub open spec fn opt_view(o: Option<String>) -> Option<Seq<char>> {
    match o {
        Some(s) => Some(s@),
        None => None,
    }
}

/// The meaning of a `favorite` subcommand.
pub enum FavoriteModel {
    Add {
        name: Option<Seq<char>>,
        session_name: Option<Seq<char>>,
        index: Option<u16>,
        path: Option<Seq<char>>,
    },
    Remove { name: Option<Seq<char>> },
    List,
}

/// The meaning of a subcommand.
pub enum CommandModel {
    Favorite(FavoriteModel),
    InternalPicker { items_path: Seq<char>, result_path: Seq<char> },
}

/// The meaning of a command line.
pub struct ArgsModel {
    pub config: Seq<char>,
    pub title: Seq<char>,
    pub border: BorderStyle,
    pub layout: LayoutStyle,
    pub picker: Option<PickerBackend>,
    pub theme: Option<Seq<char>>,
    pub command: Option<CommandModel>,
}

impl View for FavoriteCommands {
    type V = FavoriteModel;

    open spec fn view(&self) -> FavoriteModel {
        match self {
            FavoriteCommands::Add { name, session_name, index, path } => FavoriteModel::Add {
                name: opt_view(*name),
                session_name: opt_view(*session_name),
                index: *index,
                path: opt_view(*path),
            },
            FavoriteCommands::Remove { name } => FavoriteModel::Remove { name: opt_view(*name) },
            FavoriteCommands::List => FavoriteModel::List,
        }
    }
}

impl View for Commands {
    type V = CommandModel;

    open spec fn view(&self) -> CommandModel {
        match self {
            Commands::Favorite(f) => CommandModel::Favorite(f.command@),
            Commands::InternalPicker { items_path, result_path } => CommandModel::InternalPicker {
                items_path: items_path@,
                result_path: result_path@,
            },
        }
    }
}

impl View for Args {
    type V = ArgsModel;

    open spec fn view(&self) -> ArgsModel {
        ArgsModel {
            config: self.config@,
            title: self.title@,
            border: self.border,
            layout: self.layout,
            picker: self.picker,
            theme: opt_view(self.theme),
            command: match self.command {
                Some(c) => Some(c@),
                None => None,
            },
        }
    }
}

/// The config file read when `--config` is not given.
pub open spec fn default_config_path() -> Seq<char> {
    "~/.config/tmux-session-switcher/config.toml"@
}

/// The popup title shown when `--title` is not given.
pub open spec fn default_title() -> Seq<char> {
    "Switch"@
}

/// The given value, or `default`.
pub open spec fn or_default(o: Option<Seq<char>>, default: Seq<char>) -> Seq<char> {
    match o {
        Some(v) => v,
        None => default,
    }
}

/// The top-level options read into `slots`, with `command`.
pub open spec fn top_args(slots: Seq<Option<Seq<char>>>, command: Option<CommandModel>) -> ArgsModel {
    ArgsModel {
        config: or_default(slots[0], default_config_path()),
        title: or_default(slots[1], default_title()),
        border: match slots[2] {
            Some(v) => border_of_name(v)->0,
            None => BorderStyle::Rounded,
        },
        layout: match slots[3] {
            Some(v) => layout_of_name(v)->0,
            None => LayoutStyle::Default,
        },
        picker: match slots[4] {
            Some(v) => Some(backend_of_name(v)->0),
            None => None,
        },
        theme: slots[5],
        command,
    }
}

/// A `favorite` subcommand read from index `i` on, `i` just past `favorite`.
pub open spec fn favorite_command(argv: Seq<Seq<char>>, i: int) -> Result<FavoriteModel, ArgsError> {
    match scan_command(argv, Level::Favorite, i) {
        Scan::Failed(e) => Err(e),
        Scan::Done { next, .. } => if next >= argv.len() {
            Err(ArgsError::MissingSubcommand)
        } else {
            let t = argv[next];
            if t == "add"@ {
                match scan_command(argv, Level::Add, next + 1) {
                    Scan::Failed(e) => Err(e),
                    Scan::Done { slots, next: end, .. } => if end < argv.len() {
                        Err(ArgsError::UnknownArgument(end as usize))
                    } else {
                        Ok(
                            FavoriteModel::Add {
                                name: slots[0],
                                session_name: slots[1],
                                index: match slots[2] {
                                    Some(v) => Some(decimal_value(v)->0 as u16),
                                    None => None,
                                },
                                path: slots[3],
                            },
                        )
                    },
                }
            } else if t == "remove"@ {
                match scan_command(argv, Level::Remove, next + 1) {
                    Scan::Failed(e) => Err(e),
                    Scan::Done { slots, next: end, .. } => if end < argv.len() {
                        Err(ArgsError::UnknownArgument(end as usize))
                    } else {
                        Ok(FavoriteModel::Remove { name: slots[0] })
                    },
                }
            } else if t == "list"@ {
                match scan_command(argv, Level::List, next + 1) {
                    Scan::Failed(e) => Err(e),
                    Scan::Done { next: end, .. } => if end < argv.len() {
                        Err(ArgsError::UnknownArgument(end as usize))
                    } else {
                        Ok(FavoriteModel::List)
                    },
                }
            } else if t == "help"@ {
                Err(ArgsError::HelpRequested)
            } else {
                Err(ArgsError::UnknownArgument(next as usize))
            }
        },
    }
}

/// What the argument vector `argv` (program name first) means.
pub open spec fn parse_args(argv: Seq<Seq<char>>) -> Result<ArgsModel, ArgsError> {
    match scan_command(argv, Level::Top, 1) {
        Scan::Failed(e) => Err(e),
        Scan::Done { slots, next, .. } => if next >= argv.len() {
            Ok(top_args(slots, None))
        } else {
            let t = argv[next];
            if t == "favorite"@ {
                match favorite_command(argv, next + 1) {
                    Ok(f) => Ok(top_args(slots, Some(CommandModel::Favorite(f)))),
                    Err(e) => Err(e),
                }
            } else if t == "internal-picker"@ {
                match scan_command(argv, Level::Picker, next + 1) {
                    Scan::Failed(e) => Err(e),
                    Scan::Done { positionals, .. } => if positionals.len() == 2 {
                        Ok(
                            top_args(
                                slots,
                                Some(
                                    CommandModel::InternalPicker {
                                        items_path: positionals[0],
                                        result_path: positionals[1],
                                    },
                                ),
                            ),
                        )
                    } else {
                        Err(ArgsError::MissingPositional)
                    },
                }
            } else if t == "help"@ {
                Err(ArgsError::HelpRequested)
            } else {
                Err(ArgsError::UnknownArgument(next as usize))
            }
        },
    }
}


proof fn lemma_eq_index_none(t: Seq<char>)
    requires
        !t.contains('='),
    ensures
        eq_index(t) == t.len(),
    decreases t.len(),
{
    if t.len() > 0 {
        assert(t[0] != '=');
        assert(!t.drop_first().contains('=')) by {
            if t.drop_first().contains('=') {
                let j = choose|j: int| 0 <= j < t.drop_first().len() && t.drop_first()[j] == '=';
                assert(t[j + 1] == '=');
            }
        }
        lemma_eq_index_none(t.drop_first());
    }
}

/// `favorite add --<opt> v`, with `opt` the long name of option `k` of
/// `favorite add`, sets that option to `v` and nothing else.
proof fn lemma_add_option(prog: Seq<char>, opt: Seq<char>, v: Seq<char>, k: nat)
    requires
        long_slot(Level::Add, opt) == Some(k),
        opt.len() > 0,
        !opt.contains('='),
        opt != "help"@,
        !looks_like_flag(v),
        value_ok(Level::Add, k, v),
    ensures
        ({
            let slots = Seq::new(4, |j: int| None::<Seq<char>>).update(k as int, Some(v));
            parse_args(seq![prog, "favorite"@, "add"@, "--"@ + opt, v]) == Ok::<ArgsModel, ArgsError>(
                top_args(
                    Seq::new(6, |j: int| None::<Seq<char>>),
                    Some(
                        CommandModel::Favorite(
                            FavoriteModel::Add {
                                name: slots[0],
                                session_name: slots[1],
                                index: match slots[2] {
                                    Some(x) => Some(decimal_value(x)->0 as u16),
                                    None => None,
                                },
                                path: slots[3],
                            },
                        ),
                    ),
                ),
            )
        }),
{
    reveal_strlit("favorite");
    reveal_strlit("add");
    reveal_strlit("--");
    let argv = seq![prog, "favorite"@, "add"@, "--"@ + opt, v];
    assert(argv[1] == "favorite"@ && argv[2] == "add"@);
    assert(classify(argv[1]) is Plain);
    assert(classify(argv[2]) is Plain);
    let t = argv[3];
    assert(t.len() >= 3 && t[0] == '-' && t[1] == '-');
    assert(t.skip(2) =~= opt);
    lemma_eq_index_none(opt);
    assert(opt.take(opt.len() as int) =~= opt);
    assert(classify(t) == ArgToken::Long { name: opt, value: None });
    let top = Seq::new(slot_count(Level::Top), |j: int| None::<Seq<char>>);
    assert(scan_command(argv, Level::Top, 1) == Scan::Done { slots: top, positionals: Seq::empty(), next: 1 });
    let fav = Seq::new(slot_count(Level::Favorite), |j: int| None::<Seq<char>>);
    assert(scan_command(argv, Level::Favorite, 2) == Scan::Done { slots: fav, positionals: Seq::empty(), next: 2 });
    let add = Seq::new(slot_count(Level::Add), |j: int| None::<Seq<char>>);
    let filled = add.update(k as int, Some(v));
    assert(scan(argv, Level::Add, 5, filled, Seq::empty()) == Scan::Done { slots: filled, positionals: Seq::empty(), next: 5 });
    assert(scan_option(argv, Level::Add, 3, k, None, add, Seq::empty()) == Scan::Done { slots: filled, positionals: Seq::empty(), next: 5 });
    assert(scan_command(argv, Level::Add, 3) == Scan::Done { slots: filled, positionals: Seq::empty(), next: 5 });
    assert(top =~= Seq::new(6, |j: int| None::<Seq<char>>));
    assert(filled =~= Seq::new(4, |j: int| None::<Seq<char>>).update(k as int, Some(v)));
}

/// Each option of `favorite add` is accepted under its long name, whatever
/// its value (one that does not read as an option, and for `--index` a
/// number up to 65535): `--name`, `--session-name`, `--index` and `--path`
/// set the favorite's name, session, window index and directory.
pub proof fn lemma_add_long_options(prog: Seq<char>, v: Seq<char>)
    requires
        !looks_like_flag(v),
    ensures
        parse_args(seq![prog, "favorite"@, "add"@, "--name"@, v]) matches Ok(m) && m.command
            == Some(
            CommandModel::Favorite(
                FavoriteModel::Add { name: Some(v), session_name: None, index: None, path: None },
            ),
        ),
        parse_args(seq![prog, "favorite"@, "add"@, "--session-name"@, v]) matches Ok(m)
            && m.command == Some(
            CommandModel::Favorite(
                FavoriteModel::Add { name: None, session_name: Some(v), index: None, path: None },
            ),
        ),
        parse_args(seq![prog, "favorite"@, "add"@, "--path"@, v]) matches Ok(m) && m.command
            == Some(
            CommandModel::Favorite(
                FavoriteModel::Add { name: None, session_name: None, index: None, path: Some(v) },
            ),
        ),
        decimal_value(v) is Some && decimal_value(v)->0 <= 65535 ==> (parse_args(
            seq![prog, "favorite"@, "add"@, "--index"@, v],
        ) matches Ok(m) && m.command == Some(
            CommandModel::Favorite(
                FavoriteModel::Add {
                    name: None,
                    session_name: None,
                    index: Some(decimal_value(v)->0 as u16),
                    path: None,
                },
            ),
        )),
{
    reveal_strlit("--");
    reveal_strlit("--name");
    reveal_strlit("--session-name");
    reveal_strlit("--index");
    reveal_strlit("--path");
    reveal_strlit("name");
    reveal_strlit("session-name");
    reveal_strlit("index");
    reveal_strlit("path");
    reveal_strlit("help");
    assert("--name"@ =~= "--"@ + "name"@);
    assert("--session-name"@ =~= "--"@ + "session-name"@);
    assert("--index"@ =~= "--"@ + "index"@);
    assert("--path"@ =~= "--"@ + "path"@);
    assert(long_slot(Level::Add, "name"@) == Some(0nat));
    assert(long_slot(Level::Add, "session-name"@) == Some(1nat));
    assert(long_slot(Level::Add, "index"@) == Some(2nat));
    assert(long_slot(Level::Add, "path"@) == Some(3nat));
    lemma_add_option(prog, "name"@, v, 0);
    lemma_add_option(prog, "session-name"@, v, 1);
    assert("path"@[0] != "help"@[0]);
    lemma_add_option(prog, "path"@, v, 3);
    if decimal_value(v) is Some && decimal_value(v)->0 <= 65535 {
        lemma_add_option(prog, "index"@, v, 2);
    }
}


// ---------------------------------------------------------------------------
// Reading tokens
// ---------------------------------------------------------------------------

/// An optional character vector, by its contents.
pub open spec fn opt_chars(o: Option<Vec<char>>) -> Option<Seq<char>> {
    match o {
        Some(v) => Some(v@),
        None => None,
    }
}

/// The tokens of an argument vector, by their contents.
pub open spec fn tokens_view(argv: Seq<Vec<char>>) -> Seq<Seq<char>> {
    argv.map_values(|v: Vec<char>| v@)
}

/// Option values, by their contents.
pub open spec fn slots_view(slots: Seq<Option<Vec<char>>>) -> Seq<Option<Seq<char>>> {
    slots.map_values(|o: Option<Vec<char>>| opt_chars(o))
}

enum TokenKind {
    Long { name: Vec<char>, value: Option<Vec<char>> },
    Short { flag: char, value: Option<Vec<char>> },
    Separator,
    Plain,
}

spec fn token_view(t: TokenKind) -> ArgToken {
    match t {
        TokenKind::Long { name, value } => ArgToken::Long { name: name@, value: opt_chars(value) },
        TokenKind::Short { flag, value } => ArgToken::Short { flag, value: opt_chars(value) },
        TokenKind::Separator => ArgToken::Separator,
        TokenKind::Plain => ArgToken::Plain,
    }
}

proof fn lemma_eq_index_step(t: Seq<char>, j: int)
    requires
        0 <= j < t.len(),
    ensures
        eq_index(t.skip(j)) == if t[j] == '=' {
            0
        } else {
            1 + eq_index(t.skip(j + 1))
        },
{
    assert(t.skip(j).drop_first() =~= t.skip(j + 1));
    assert(t.skip(j)[0] == t[j]);
}

/// The index of the first `=` in `t` at or after `from`, or its length.
fn find_eq(t: &Vec<char>, from: usize) -> (e: usize)
    requires
        from <= t@.len(),
    ensures
        from <= e <= t@.len(),
        e - from == eq_index(t@.skip(from as int)),
{
    let mut j = from;
    while j < t.len() && t[j] != '='
        invariant
            from <= j <= t@.len(),
            eq_index(t@.skip(from as int)) == (j - from) + eq_index(t@.skip(j as int)),
        decreases t@.len() - j,
    {
        proof {
            lemma_eq_index_step(t@, j as int);
        }
        j = j + 1;
    }
    proof {
        if j < t@.len() {
            lemma_eq_index_step(t@, j as int);
        } else {
            assert(t@.skip(j as int).len() == 0);
        }
    }
    j
}

fn classify_token(t: &Vec<char>) -> (r: TokenKind)
    ensures
        token_view(r) == classify(t@),
{
    let n = t.len();
    if n >= 2 && t[0] == '-' && t[1] == '-' {
        if n == 2 {
            TokenKind::Separator
        } else {
            let e = find_eq(t, 2);
            let ghost body = t@.skip(2);
            let name = slice_chars(t, 2, e);
            assert(name@ =~= body.take(eq_index(body)));
            if e < n {
                let value = slice_chars(t, e + 1, n);
                assert(value@ =~= body.skip(eq_index(body) + 1));
                TokenKind::Long { name, value: Some(value) }
            } else {
                TokenKind::Long { name, value: None }
            }
        }
    } else if n >= 2 && t[0] == '-' {
        if n == 2 {
            TokenKind::Short { flag: t[1], value: None }
        } else if t[2] == '=' {
            let value = slice_chars(t, 3, n);
            assert(value@ =~= t@.skip(2).skip(1));
            TokenKind::Short { flag: t[1], value: Some(value) }
        } else {
            let value = slice_chars(t, 2, n);
            assert(value@ =~= t@.skip(2));
            TokenKind::Short { flag: t[1], value: Some(value) }
        }
    } else {
        TokenKind::Plain
    }
}

fn long_slot_of(level: Level, name: &Vec<char>) -> (r: Option<usize>)
    ensures
        opt_nat(r) == long_slot(level, name@),
{
    match level {
        Level::Top => if chars_eq(name, &chars_of("config")) {
            Some(0)
        } else if chars_eq(name, &chars_of("title")) {
            Some(1)
        } else if chars_eq(name, &chars_of("border")) {
            Some(2)
        } else if chars_eq(name, &chars_of("layout")) {
            Some(3)
        } else if chars_eq(name, &chars_of("picker")) {
            Some(4)
        } else if chars_eq(name, &chars_of("theme")) {
            Some(5)
        } else {
            None
        },
        Level::Add => if chars_eq(name, &chars_of("name")) {
            Some(0)
        } else if chars_eq(name, &chars_of("session-name")) {
            Some(1)
        } else if chars_eq(name, &chars_of("index")) {
            Some(2)
        } else if chars_eq(name, &chars_of("path")) {
            Some(3)
        } else {
            None
        },
        Level::Remove => if chars_eq(name, &chars_of("name")) {
            Some(0)
        } else {
            None
        },
        _ => None,
    }
}

fn short_slot_of(level: Level, flag: char) -> (r: Option<usize>)
    ensures
        opt_nat(r) == short_slot(level, flag),
{
    match level {
        Level::Top => if flag == 'c' {
            Some(0)
        } else if flag == 't' {
            Some(1)
        } else if flag == 'b' {
            Some(2)
        } else if flag == 'l' {
            Some(3)
        } else {
            None
        },
        Level::Add => if flag == 'n' {
            Some(0)
        } else if flag == 's' {
            Some(1)
        } else if flag == 'i' {
            Some(2)
        } else if flag == 'p' {
            Some(3)
        } else {
            None
        },
        Level::Remove => if flag == 'n' {
            Some(0)
        } else {
            None
        },
        _ => None,
    }
}

/// An optional index, as a natural number.
pub open spec fn opt_nat(o: Option<usize>) -> Option<nat> {
    match o {
        Some(k) => Some(k as nat),
        None => None,
    }
}

fn value_accepted(level: Level, slot: usize, v: &Vec<char>) -> (r: bool)
    ensures
        r == value_ok(level, slot as nat, v@),
{
    if level == Level::Top && slot == 2 {
        BorderStyle::from_name(v).is_some()
    } else if level == Level::Top && slot == 3 {
        LayoutStyle::from_name(v).is_some()
    } else if level == Level::Top && slot == 4 {
        PickerBackend::from_name(v).is_some()
    } else if level == Level::Add && slot == 2 {
        parse_decimal(v, 65535).is_some()
    } else {
        true
    }
}

/// Reads the value of option `slot` given at index `i` into `slots`; on
/// success, the index of the next token.
fn take_option(
    argv: &Vec<Vec<char>>,
    level: Level,
    i: usize,
    slot: usize,
    attached: Option<Vec<char>>,
    slots: &mut Vec<Option<Vec<char>>>,
    positionals: &Vec<Vec<char>>,
) -> (r: Result<usize, ArgsError>)
    requires
        i < argv@.len(),
        slot < old(slots)@.len(),
    ensures
        final(slots)@.len() == old(slots)@.len(),
        match r {
            Ok(j) => i < j <= argv@.len() && scan_option(
                tokens_view(argv@),
                level,
                i as int,
                slot as nat,
                opt_chars(attached),
                slots_view(old(slots)@),
                tokens_view(positionals@),
            ) == scan(
                tokens_view(argv@),
                level,
                j as int,
                slots_view(final(slots)@),
                tokens_view(positionals@),
            ),
            Err(e) => scan_option(
                tokens_view(argv@),
                level,
                i as int,
                slot as nat,
                opt_chars(attached),
                slots_view(old(slots)@),
                tokens_view(positionals@),
            ) == Scan::Failed(e),
        },
{
    let ghost v = tokens_view(argv@);
    let n = argv.len();
    if slots[slot].is_some() {
        return Err(ArgsError::DuplicateArgument(i));
    }
    match attached {
        Some(value) => {
            if value_accepted(level, slot, &value) {
                let ghost val = value@;
                slots.set(slot, Some(value));
                assert(slots_view(slots@) =~= slots_view(old(slots)@).update(slot as int, Some(val)));
                Ok(i + 1)
            } else {
                Err(ArgsError::InvalidValue(i))
            }
        },
        None => {
            if i + 1 < n && !(argv[i + 1].len() >= 2 && argv[i + 1][0] == '-') {
                assert(v[i + 1] == argv@[i + 1]@);
                if value_accepted(level, slot, &argv[i + 1]) {
                    let value = slice_chars(&argv[i + 1], 0, argv[i + 1].len());
                    assert(value@ =~= v[i + 1]);
                    slots.set(slot, Some(value));
                    assert(slots_view(slots@) =~= slots_view(old(slots)@).update(
                        slot as int,
                        Some(v[i + 1]),
                    ));
                    Ok(i + 2)
                } else {
                    Err(ArgsError::InvalidValue(i + 1))
                }
            } else {
                Err(ArgsError::MissingValue(i))
            }
        },
    }
}

enum ScanOutcome {
    Done { slots: Vec<Option<Vec<char>>>, positionals: Vec<Vec<char>>, next: usize },
    Failed(ArgsError),
}

spec fn scan_view(r: ScanOutcome) -> Scan {
    match r {
        ScanOutcome::Done { slots, positionals, next } => Scan::Done {
            slots: slots_view(slots@),
            positionals: tokens_view(positionals@),
            next: next as int,
        },
        ScanOutcome::Failed(e) => Scan::Failed(e),
    }
}

fn slot_count_of(level: Level) -> (n: usize)
    ensures
        n == slot_count(level),
{
    match level {
        Level::Top => 6,
        Level::Add => 4,
        Level::Remove => 1,
        _ => 0,
    }
}

/// Reads the tokens of a command from index `start` on.
fn scan_tokens(argv: &Vec<Vec<char>>, level: Level, start: usize) -> (r: ScanOutcome)
    requires
        start <= argv@.len(),
    ensures
        scan_view(r) == scan_command(tokens_view(argv@), level, start as int),
        r matches ScanOutcome::Done { next, .. } ==> start <= next <= argv@.len(),
{
    let ghost v = tokens_view(argv@);
    let n = slot_count_of(level);
    let mut slots: Vec<Option<Vec<char>>> = Vec::new();
    let mut k: usize = 0;
    while k < n
        invariant
            k <= n == slot_count(level),
            slots@.len() == k,
            forall|j: int| 0 <= j < k ==> (#[trigger] slots@[j]) is None,
        decreases n - k,
    {
        slots.push(None);
        k = k + 1;
    }
    assert(slots_view(slots@) =~= Seq::new(slot_count(level), |j: int| None::<Seq<char>>));
    let mut positionals: Vec<Vec<char>> = Vec::new();
    assert(tokens_view(positionals@) =~= Seq::<Seq<char>>::empty());
    let mut i = start;
    while i < argv.len()
        invariant
            start <= i <= argv@.len(),
            v == tokens_view(argv@),
            slots@.len() == slot_count(level),
            scan_command(v, level, start as int) == scan(
                v,
                level,
                i as int,
                slots_view(slots@),
                tokens_view(positionals@),
            ),
        decreases argv@.len() - i,
    {
        assert(v[i as int] == argv@[i as int]@);
        match classify_token(&argv[i]) {
            TokenKind::Plain => {
                if level != Level::Picker {
                    return ScanOutcome::Done { slots, positionals, next: i };
                } else if positionals.len() < 2 {
                    let t = slice_chars(&argv[i], 0, argv[i].len());
                    assert(t@ =~= v[i as int]);
                    let ghost before = tokens_view(positionals@);
                    positionals.push(t);
                    assert(tokens_view(positionals@) =~= before.push(v[i as int]));
                    i = i + 1;
                } else {
                    return ScanOutcome::Failed(ArgsError::UnknownArgument(i));
                }
            },
            TokenKind::Separator => {
                return ScanOutcome::Failed(ArgsError::UnknownArgument(i));
            },
            TokenKind::Long { name, value } => {
                if chars_eq(&name, &chars_of("help")) {
                    return ScanOutcome::Failed(ArgsError::HelpRequested);
                } else if level == Level::Top && chars_eq(&name, &chars_of("version")) {
                    return ScanOutcome::Failed(ArgsError::VersionRequested);
                }
                match long_slot_of(level, &name) {
                    Some(k) => {
                        match take_option(argv, level, i, k, value, &mut slots, &positionals) {
                            Ok(j) => {
                                i = j;
                            },
                            Err(e) => {
                                return ScanOutcome::Failed(e);
                            },
                        }
                    },
                    None => {
                        return ScanOutcome::Failed(ArgsError::UnknownArgument(i));
                    },
                }
            },
            TokenKind::Short { flag, value } => {
                if flag == 'h' {
                    return ScanOutcome::Failed(ArgsError::HelpRequested);
                } else if level == Level::Top && flag == 'V' {
                    return ScanOutcome::Failed(ArgsError::VersionRequested);
                }
                match short_slot_of(level, flag) {
                    Some(k) => {
                        match take_option(argv, level, i, k, value, &mut slots, &positionals) {
                            Ok(j) => {
                                i = j;
                            },
                            Err(e) => {
                                return ScanOutcome::Failed(e);
                            },
                        }
                    },
                    None => {
                        return ScanOutcome::Failed(ArgsError::UnknownArgument(i));
                    },
                }
            },
        }
    }
    ScanOutcome::Done { slots, positionals, next: i }
}


/// Every option value in `slots` is accepted at `level`.
pub open spec fn slots_ok(level: Level, slots: Seq<Option<Seq<char>>>) -> bool {
    forall|k: int|
        0 <= k < slots.len() && (#[trigger] slots[k]) is Some ==> value_ok(
            level,
            k as nat,
            slots[k]->0,
        )
}

proof fn lemma_scan_values_ok(
    argv: Seq<Seq<char>>,
    level: Level,
    i: int,
    slots: Seq<Option<Seq<char>>>,
    positionals: Seq<Seq<char>>,
)
    requires
        slots_ok(level, slots),
    ensures
        scan(argv, level, i, slots, positionals) matches Scan::Done { slots: out, .. } ==> slots_ok(
            level,
            out,
        ) && out.len() == slots.len(),
    decreases argv.len() - i, 1nat,
{
    if 0 <= i < argv.len() {
        match classify(argv[i]) {
            ArgToken::Plain => {
                if level == Level::Picker && positionals.len() < 2 {
                    lemma_scan_values_ok(argv, level, i + 1, slots, positionals.push(argv[i]));
                }
            },
            ArgToken::Long { name, value } => {
                if let Some(k) = long_slot(level, name) {
                    lemma_scan_option_values_ok(argv, level, i, k, value, slots, positionals);
                }
            },
            ArgToken::Short { flag, value } => {
                if let Some(k) = short_slot(level, flag) {
                    lemma_scan_option_values_ok(argv, level, i, k, value, slots, positionals);
                }
            },
            _ => {},
        }
    }
}

proof fn lemma_scan_option_values_ok(
    argv: Seq<Seq<char>>,
    level: Level,
    i: int,
    slot: nat,
    attached: Option<Seq<char>>,
    slots: Seq<Option<Seq<char>>>,
    positionals: Seq<Seq<char>>,
)
    requires
        slots_ok(level, slots),
        0 <= i < argv.len(),
    ensures
        scan_option(argv, level, i, slot, attached, slots, positionals) matches Scan::Done {
            slots: out,
            ..
        } ==> slots_ok(level, out) && out.len() == slots.len(),
    decreases argv.len() - i, 0nat,
{
    if slot < slots.len() && slots[slot as int] is None {
        match attached {
            Some(v) => {
                if value_ok(level, slot, v) {
                    let next = slots.update(slot as int, Some(v));
                    assert(slots_ok(level, next));
                    lemma_scan_values_ok(argv, level, i + 1, next, positionals);
                }
            },
            None => {
                if i + 1 < argv.len() && !looks_like_flag(argv[i + 1]) && value_ok(
                    level,
                    slot,
                    argv[i + 1],
                ) {
                    let next = slots.update(slot as int, Some(argv[i + 1]));
                    assert(slots_ok(level, next));
                    lemma_scan_values_ok(argv, level, i + 2, next, positionals);
                }
            },
        }
    }
}

proof fn lemma_scan_command_values_ok(argv: Seq<Seq<char>>, level: Level, i: int)
    ensures
        scan_command(argv, level, i) matches Scan::Done { slots: out, .. } ==> slots_ok(level, out)
            && out.len() == slot_count(level),
{
    let init = Seq::new(slot_count(level), |j: int| None::<Seq<char>>);
    assert(slots_ok(level, init));
    lemma_scan_values_ok(argv, level, i, init, Seq::empty());
}

/// The string held by an optional character vector.
fn opt_string(o: &Option<Vec<char>>) -> (r: Option<String>)
    ensures
        opt_view(r) == opt_chars(*o),
{
    match o {
        Some(v) => Some(string_of(v)),
        None => None,
    }
}

/// The result of a `favorite` subcommand, by its meaning.
pub open spec fn favorite_result(r: Result<FavoriteCommands, ArgsError>) -> Result<
    FavoriteModel,
    ArgsError,
> {
    match r {
        Ok(f) => Ok(f@),
        Err(e) => Err(e),
    }
}

/// The result of parsing, by its meaning.
pub open spec fn args_result(r: Result<Args, ArgsError>) -> Result<ArgsModel, ArgsError> {
    match r {
        Ok(a) => Ok(a@),
        Err(e) => Err(e),
    }
}

fn read_favorite(argv: &Vec<Vec<char>>, i: usize) -> (r: Result<FavoriteCommands, ArgsError>)
    requires
        i <= argv@.len(),
    ensures
        favorite_result(r) == favorite_command(tokens_view(argv@), i as int),
{
    let ghost v = tokens_view(argv@);
    let next = match scan_tokens(argv, Level::Favorite, i) {
        ScanOutcome::Failed(e) => {
            return Err(e);
        },
        ScanOutcome::Done { next, .. } => next,
    };
    if next >= argv.len() {
        return Err(ArgsError::MissingSubcommand);
    }
    let t = &argv[next];
    assert(v[next as int] == t@);
    if chars_eq(t, &chars_of("add")) {
        proof {
            lemma_scan_command_values_ok(v, Level::Add, next + 1);
        }
        match scan_tokens(argv, Level::Add, next + 1) {
            ScanOutcome::Failed(e) => Err(e),
            ScanOutcome::Done { slots, next: end, .. } => {
                if end < argv.len() {
                    return Err(ArgsError::UnknownArgument(end));
                }
                assert(slots_view(slots@)[0] == opt_chars(slots@[0]));
                assert(slots_view(slots@)[1] == opt_chars(slots@[1]));
                assert(slots_view(slots@)[3] == opt_chars(slots@[3]));
                let index = match &slots[2] {
                    Some(d) => {
                        assert(slots_view(slots@)[2] == Some(d@));
                        match parse_decimal(d, 65535) {
                            Some(x) => Some(x as u16),
                            None => None,
                        }
                    },
                    None => None,
                };
                Ok(
                    FavoriteCommands::Add {
                        name: opt_string(&slots[0]),
                        session_name: opt_string(&slots[1]),
                        index,
                        path: opt_string(&slots[3]),
                    },
                )
            },
        }
    } else if chars_eq(t, &chars_of("remove")) {
        proof {
            lemma_scan_command_values_ok(v, Level::Remove, next + 1);
        }
        match scan_tokens(argv, Level::Remove, next + 1) {
            ScanOutcome::Failed(e) => Err(e),
            ScanOutcome::Done { slots, next: end, .. } => {
                if end < argv.len() {
                    return Err(ArgsError::UnknownArgument(end));
                }
                assert(slots_view(slots@)[0] == opt_chars(slots@[0]));
                Ok(FavoriteCommands::Remove { name: opt_string(&slots[0]) })
            },
        }
    } else if chars_eq(t, &chars_of("list")) {
        match scan_tokens(argv, Level::List, next + 1) {
            ScanOutcome::Failed(e) => Err(e),
            ScanOutcome::Done { next: end, .. } => {
                if end < argv.len() {
                    return Err(ArgsError::UnknownArgument(end));
                }
                Ok(FavoriteCommands::List)
            },
        }
    } else if chars_eq(t, &chars_of("help")) {
        Err(ArgsError::HelpRequested)
    } else {
        Err(ArgsError::UnknownArgument(next))
    }
}

/// The top-level options read into `slots`, with `command`.
fn build_args(slots: &Vec<Option<Vec<char>>>, command: Option<Commands>) -> (a: Args)
    requires
        slots@.len() == 6,
        slots_ok(Level::Top, slots_view(slots@)),
    ensures
        a@ == top_args(
            slots_view(slots@),
            match command {
                Some(c) => Some(c@),
                None => None,
            },
        ),
{
    let ghost sv = slots_view(slots@);
    assert(sv[0] == opt_chars(slots@[0]));
    assert(sv[1] == opt_chars(slots@[1]));
    assert(sv[2] == opt_chars(slots@[2]));
    assert(sv[3] == opt_chars(slots@[3]));
    assert(sv[4] == opt_chars(slots@[4]));
    assert(sv[5] == opt_chars(slots@[5]));
    let config = match &slots[0] {
        Some(v) => string_of(v),
        None => String::from_str("~/.config/tmux-session-switcher/config.toml"),
    };
    let title = match &slots[1] {
        Some(v) => string_of(v),
        None => String::from_str("Switch"),
    };
    let border = match &slots[2] {
        Some(v) => match BorderStyle::from_name(v) {
            Some(b) => b,
            None => BorderStyle::Rounded,
        },
        None => BorderStyle::Rounded,
    };
    let layout = match &slots[3] {
        Some(v) => match LayoutStyle::from_name(v) {
            Some(l) => l,
            None => LayoutStyle::Default,
        },
        None => LayoutStyle::Default,
    };
    let picker = match &slots[4] {
        Some(v) => PickerBackend::from_name(v),
        None => None,
    };
    let theme = opt_string(&slots[5]);
    Args { config, title, border, layout, picker, theme, command }
}

/// The argument vector by its contents.
pub open spec fn argv_view(argv: Seq<&str>) -> Seq<Seq<char>> {
    argv.map_values(|s: &str| s@)
}

impl Args {
    /// Parses the argument vector `argv`, program name first.
    pub fn try_parse_from(argv: &[&str]) -> (r: Result<Args, ArgsError>)
        ensures
            args_result(r) == parse_args(argv_view(argv@)),
    {
        let mut toks: Vec<Vec<char>> = Vec::new();
        let mut i: usize = 0;
        while i < argv.len()
            invariant
                i <= argv@.len(),
                tokens_view(toks@) == argv_view(argv@).take(i as int),
            decreases argv@.len() - i,
        {
            let ghost before = tokens_view(toks@);
            toks.push(chars_of(argv[i]));
            assert(tokens_view(toks@) =~= before.push(argv@[i as int]@));
            assert(argv_view(argv@).take(i as int + 1) =~= argv_view(argv@).take(i as int).push(
                argv@[i as int]@,
            ));
            i = i + 1;
        }
        let ghost v = argv_view(argv@);
        assert(v.take(argv@.len() as int) =~= v);
        assert(tokens_view(toks@) == v);
        let start: usize = if toks.len() >= 1 {
            1
        } else {
            0
        };
        proof {
            lemma_scan_command_values_ok(v, Level::Top, 1);
            if toks@.len() == 0 {
                assert(scan_command(v, Level::Top, 0) == scan_command(v, Level::Top, 1));
            }
        }
        let (slots, next) = match scan_tokens(&toks, Level::Top, start) {
            ScanOutcome::Failed(e) => {
                return Err(e);
            },
            ScanOutcome::Done { slots, next, .. } => (slots, next),
        };
        if next >= toks.len() {
            return Ok(build_args(&slots, None));
        }
        let t = &toks[next];
        assert(v[next as int] == t@);
        if chars_eq(t, &chars_of("favorite")) {
            match read_favorite(&toks, next + 1) {
                Ok(f) => Ok(build_args(&slots, Some(Commands::Favorite(FavoriteArgs { command: f })))),
                Err(e) => Err(e),
            }
        } else if chars_eq(t, &chars_of("internal-picker")) {
            match scan_tokens(&toks, Level::Picker, next + 1) {
                ScanOutcome::Failed(e) => Err(e),
                ScanOutcome::Done { positionals, .. } => {
                    if positionals.len() == 2 {
                        assert(tokens_view(positionals@)[0] == positionals@[0]@);
                        assert(tokens_view(positionals@)[1] == positionals@[1]@);
                        let items_path = string_of(&positionals[0]);
                        let result_path = string_of(&positionals[1]);
                        Ok(build_args(&slots, Some(Commands::InternalPicker { items_path, result_path })))
                    } else {
                        Err(ArgsError::MissingPositional)
                    }
                },
            }
        } else if chars_eq(t, &chars_of("help")) {
            Err(ArgsError::HelpRequested)
        } else {
            Err(ArgsError::UnknownArgument(next))
        }
    }
}

} // verus!
