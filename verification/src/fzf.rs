//! Running a picker: the tmux popup that hosts the native picker, or fzf;
//! the command lines for each, and what their output means.

use vstd::prelude::*;

use crate::text::{
    chars_eq, chars_of, find_char, find_char_from, lemma_find_char, decimal, decimal_chars, decimal_value, extend_chars, extend_str, has_prefix,
    parse_decimal, push_chars, push_string, slice_chars, starts_with, string_of, strings_view,
    is_white_space, trim, trim_chars, trim_end, trim_start,
};
use crate::tmux::ListItem;

verus! {

/// How the picker is shown.
#[derive(Debug)]
pub struct PickerConfig {
    pub title: String,
    pub border: String,
    pub layout: String,
    pub use_fzf: bool,
    pub theme: String,
    pub bell_fg: Option<String>,
}

/// What the user did in the picker.
#[derive(Debug, PartialEq, Eq)]
pub enum PickerOutput {
    Cancelled,
    /// The entry at this index was chosen.
    Selected(usize),
    /// A query that matched nothing was confirmed: a new window's name.
    New(String),
}

/// What the user chose from a list of entries.
#[derive(Debug)]
pub enum SelectItemReturn<'a> {
    NoSelection,
    Item(&'a ListItem),
    NewWindowTitle(String),
}

/// The popup is at most this many rows high.
pub open spec fn max_picker_height() -> nat {
    40
}

/// Rows of the native picker besides the list: prompt, border, separator, status.
pub open spec fn picker_height_padding() -> nat {
    6
}

/// Rows of fzf besides the list: header and border.
pub open spec fn fzf_height_padding() -> nat {
    5
}

/// `min(n + padding, 40)`.
pub open spec fn list_height(n: nat, padding: nat) -> nat {
    if n + padding < max_picker_height() {
        n + padding
    } else {
        max_picker_height()
    }
}

/// The height of a picker showing `n` entries with `padding` extra rows.
pub fn picker_height(n: usize, padding: usize) -> (h: usize)
    requires
        padding <= 40,
    ensures
        h == list_height(n as nat, padding as nat),
{
    if n < 40 - padding {
        n + padding
    } else {
        40
    }
}

/// The popup width: the terminal width, at most 80 columns, 80 when unknown.
pub fn popup_width(terminal_width: Option<u16>) -> (w: u16)
    ensures
        w == match terminal_width {
            Some(t) => if t < 80 {
                t
            } else {
                80
            },
            None => 80,
        },
{
    match terminal_width {
        Some(t) => if t < 80 {
            t
        } else {
            80
        },
        None => 80,
    }
}

/// `s` with every `'` written as `'\''`.
pub open spec fn escape_quotes(s: Seq<char>) -> Seq<char>
    decreases s.len(),
{
    if s.len() == 0 {
        Seq::empty()
    } else {
        escape_quotes(s.drop_last()) + if s.last() == '\'' {
            "'\\''"@
        } else {
            seq![s.last()]
        }
    }
}

/// `s` quoted for a POSIX shell: in single quotes, each inner `'` closed,
/// escaped and reopened.
pub open spec fn shell_quoted(s: Seq<char>) -> Seq<char> {
    "'"@ + escape_quotes(s) + "'"@
}

fn push_shell_quoted(dst: &mut Vec<char>, s: &str)
    ensures
        final(dst)@ == old(dst)@ + shell_quoted(s@),
{
    let ghost start = dst@;
    let v = chars_of(s);
    extend_str(dst, "'");
    let mut i: usize = 0;
    while i < v.len()
        invariant
            i <= v@.len(),
            dst@ == start + "'"@ + escape_quotes(v@.take(i as int)),
        decreases v@.len() - i,
    {
        let ghost before = dst@;
        assert(v@.take(i as int + 1).drop_last() =~= v@.take(i as int));
        if v[i] == '\'' {
            extend_str(dst, "'\\''");
        } else {
            dst.push(v[i]);
            assert(dst@ =~= before + seq![v@[i as int]]);
        }
        assert(dst@ =~= start + "'"@ + escape_quotes(v@.take(i as int + 1)));
        i = i + 1;
    }
    assert(v@.take(v@.len() as int) =~= v@);
    extend_str(dst, "'");
    assert(dst@ =~= start + shell_quoted(s@));
}

/// `s` quoted for a POSIX shell.
pub fn shell_quote(s: &str) -> (q: String)
    ensures
        q@ == shell_quoted(s@),
{
    let mut v: Vec<char> = Vec::new();
    push_shell_quoted(&mut v, s);
    assert(v@ =~= shell_quoted(s@));
    string_of(&v)
}

/// The `display-popup -b` value for a border style name.
pub open spec fn tmux_border(border: Seq<char>) -> Seq<char> {
    if border == "rounded"@ {
        "rounded"@
    } else if border == "double"@ {
        "double"@
    } else if border == "bold"@ {
        "heavy"@
    } else if border == "sharp"@ {
        "single"@
    } else if border == "none"@ {
        "none"@
    } else {
        "single"@
    }
}

/// Converts a border style name to the tmux `display-popup -b` value.
pub fn to_tmux_border(border: &str) -> (b: &'static str)
    ensures
        b@ == tmux_border(border@),
{
    let v = chars_of(border);
    if crate::text::chars_eq(&v, &chars_of("rounded")) {
        "rounded"
    } else if crate::text::chars_eq(&v, &chars_of("double")) {
        "double"
    } else if crate::text::chars_eq(&v, &chars_of("bold")) {
        "heavy"
    } else if crate::text::chars_eq(&v, &chars_of("sharp")) {
        "single"
    } else if crate::text::chars_eq(&v, &chars_of("none")) {
        "none"
    } else {
        "single"
    }
}


/// Where the native picker is and the files it reads and writes.
#[derive(Debug)]
pub struct PopupFiles {
    /// The path of this program
    pub exe: String,
    /// The file holding the picker's items and settings
    pub items_path: String,
    /// The file the picker writes its result to
    pub result_path: String,
}

/// A program to run for picking, with its arguments and standard input.
#[derive(Debug)]
pub struct PickerCommand {
    /// Whether this runs fzf (else the native picker in a tmux popup)
    pub fzf: bool,
    pub program: String,
    pub args: Vec<String>,
    /// What to write to the program's standard input
    pub input: String,
}

/// The shell command the popup runs: this program's hidden picker
/// subcommand with the two files.
pub open spec fn popup_command(files: PopupFiles) -> Seq<char> {
    shell_quoted(files.exe@) + " internal-picker "@ + shell_quoted(files.items_path@) + " "@
        + shell_quoted(files.result_path@)
}

/// ` title `.
pub open spec fn padded_title(title: Seq<char>) -> Seq<char> {
    " "@ + title + " "@
}

/// The arguments of `tmux display-popup` for the native picker.
pub open spec fn popup_args(
    width: nat,
    n: nat,
    config: PickerConfig,
    files: PopupFiles,
) -> Seq<Seq<char>> {
    seq![
        "display-popup"@,
        "-EE"@,
        "-w"@,
        decimal(width),
        "-h"@,
        decimal(list_height(n, picker_height_padding())),
        "-b"@,
        tmux_border(config.border@),
        "-T"@,
        padded_title(config.title@),
        popup_command(files),
    ]
}

/// The arguments of fzf.
pub open spec fn fzf_args(width: nat, n: nat, config: PickerConfig) -> Seq<Seq<char>> {
    seq![
        "--tmux"@,
        decimal(width) + ","@ + decimal(list_height(n, fzf_height_padding())),
        "--layout="@ + config.layout@,
        "--border="@ + config.border@,
        "--border-label"@,
        padded_title(config.title@),
        "--prompt"@,
        "⚡"@,
        "--bind"@,
        "tab:down,btab:up"@,
        "--print-query"@,
    ]
}

/// The entries concatenated, as fzf reads them.
pub open spec fn concat_items(items: Seq<Seq<char>>) -> Seq<char>
    decreases items.len(),
{
    if items.len() == 0 {
        Seq::empty()
    } else {
        concat_items(items.drop_last()) + items.last()
    }
}

fn title_chars(title: &str) -> (v: Vec<char>)
    ensures
        v@ == padded_title(title@),
{
    let mut v: Vec<char> = Vec::new();
    extend_str(&mut v, " ");
    extend_str(&mut v, title);
    extend_str(&mut v, " ");
    assert(v@ =~= padded_title(title@));
    v
}

fn concat_strings(items: &Vec<String>) -> (s: String)
    ensures
        s@ == concat_items(strings_view(items@)),
{
    let ghost iv = strings_view(items@);
    let mut v: Vec<char> = Vec::new();
    let mut i: usize = 0;
    while i < items.len()
        invariant
            i <= items@.len(),
            iv == strings_view(items@),
            v@ == concat_items(iv.take(i as int)),
        decreases items@.len() - i,
    {
        assert(iv.take(i as int + 1).drop_last() =~= iv.take(i as int));
        assert(iv[i as int] == items@[i as int]@);
        extend_str(&mut v, items[i].as_str());
        i = i + 1;
    }
    assert(iv.take(items@.len() as int) =~= iv);
    string_of(&v)
}

/// The native picker in a tmux popup over `n` entries.
fn popup_picker_command(width: u16, n: usize, config: &PickerConfig, files: &PopupFiles) -> (c:
    PickerCommand)
    ensures
        !c.fzf,
        c.program@ == "tmux"@,
        strings_view(c.args@) == popup_args(width as nat, n as nat, *config, *files),
        c.input@ == Seq::<char>::empty(),
{
    let mut args: Vec<String> = Vec::new();
    push_string(&mut args, "display-popup");
    push_string(&mut args, "-EE");
    push_string(&mut args, "-w");
    push_chars(&mut args, &decimal_chars(width as u64));
    push_string(&mut args, "-h");
    push_chars(&mut args, &decimal_chars(picker_height(n, 6) as u64));
    push_string(&mut args, "-b");
    push_string(&mut args, to_tmux_border(config.border.as_str()));
    push_string(&mut args, "-T");
    push_chars(&mut args, &title_chars(config.title.as_str()));
    let mut cmd: Vec<char> = Vec::new();
    push_shell_quoted(&mut cmd, files.exe.as_str());
    extend_str(&mut cmd, " internal-picker ");
    push_shell_quoted(&mut cmd, files.items_path.as_str());
    extend_str(&mut cmd, " ");
    push_shell_quoted(&mut cmd, files.result_path.as_str());
    assert(cmd@ =~= popup_command(*files));
    push_chars(&mut args, &cmd);
    assert(strings_view(args@) =~= popup_args(width as nat, n as nat, *config, *files));
    PickerCommand { fzf: false, program: String::from_str("tmux"), args, input: String::new() }
}

/// fzf over the entries `items`.
fn fzf_picker_command(width: u16, items: &Vec<String>, config: &PickerConfig) -> (c: PickerCommand)
    ensures
        c.fzf,
        c.program@ == "fzf"@,
        strings_view(c.args@) == fzf_args(width as nat, items@.len(), *config),
        c.input@ == concat_items(strings_view(items@)),
{
    let mut args: Vec<String> = Vec::new();
    push_string(&mut args, "--tmux");
    let mut size: Vec<char> = decimal_chars(width as u64);
    extend_str(&mut size, ",");
    extend_chars(&mut size, &decimal_chars(picker_height(items.len(), 5) as u64));
    push_chars(&mut args, &size);
    let mut layout: Vec<char> = Vec::new();
    extend_str(&mut layout, "--layout=");
    extend_str(&mut layout, config.layout.as_str());
    push_chars(&mut args, &layout);
    let mut border: Vec<char> = Vec::new();
    extend_str(&mut border, "--border=");
    extend_str(&mut border, config.border.as_str());
    push_chars(&mut args, &border);
    push_string(&mut args, "--border-label");
    push_chars(&mut args, &title_chars(config.title.as_str()));
    push_string(&mut args, "--prompt");
    push_string(&mut args, "⚡");
    push_string(&mut args, "--bind");
    push_string(&mut args, "tab:down,btab:up");
    push_string(&mut args, "--print-query");
    assert(strings_view(args@) =~= fzf_args(width as nat, items@.len(), *config));
    PickerCommand { fzf: true, program: String::from_str("fzf"), args, input: concat_strings(items) }
}

/// The program that shows the picker over `item_strings`: fzf when the
/// config asks for it, else the native picker in a tmux popup of the given
/// width.
pub fn dispatch_picker(
    item_strings: &Vec<String>,
    config: &PickerConfig,
    width: u16,
    files: &PopupFiles,
) -> (c: PickerCommand)
    ensures
        c.fzf == config.use_fzf,
        config.use_fzf ==> {
            &&& c.program@ == "fzf"@
            &&& strings_view(c.args@) == fzf_args(width as nat, item_strings@.len(), *config)
            &&& c.input@ == concat_items(strings_view(item_strings@))
        },
        !config.use_fzf ==> {
            &&& c.program@ == "tmux"@
            &&& strings_view(c.args@) == popup_args(
                width as nat,
                item_strings@.len(),
                *config,
                *files,
            )
            &&& c.input@ == Seq::<char>::empty()
        },
{
    if config.use_fzf {
        fzf_picker_command(width, item_strings, config)
    } else {
        popup_picker_command(width, item_strings.len(), config, files)
    }
}

/// What the native picker's result file means: nothing (after trimming)
/// is a cancel, `new:title` a new window, a decimal number an entry index.
pub open spec fn popup_output(raw: Seq<char>) -> PickerOutputModel {
    let t = trim(raw);
    if t.len() == 0 {
        PickerOutputModel::Cancelled
    } else if has_prefix(t, "new:"@) {
        PickerOutputModel::New(t.skip(4))
    } else if decimal_value(t) is Some && decimal_value(t)->0 <= usize::MAX {
        PickerOutputModel::Selected(decimal_value(t)->0 as usize)
    } else {
        PickerOutputModel::Cancelled
    }
}

/// What the user did, by the contents of its text.
pub enum PickerOutputModel {
    Cancelled,
    Selected(usize),
    New(Seq<char>),
}

impl View for PickerOutput {
    type V = PickerOutputModel;

    open spec fn view(&self) -> PickerOutputModel {
        match self {
            PickerOutput::Cancelled => PickerOutputModel::Cancelled,
            PickerOutput::Selected(i) => PickerOutputModel::Selected(*i),
            PickerOutput::New(t) => PickerOutputModel::New(t@),
        }
    }
}

/// Reads the native picker's result file.
pub fn parse_popup_result(raw: &str) -> (r: PickerOutput)
    ensures
        r@ == popup_output(raw@),
{
    let t = trim_chars(&chars_of(raw));
    if t.len() == 0 {
        return PickerOutput::Cancelled;
    }
    if starts_with(&t, &chars_of("new:")) {
        proof {
            reveal_strlit("new:");
        }
        let title = slice_chars(&t, 4, t.len());
        assert(title@ =~= t@.skip(4));
        return PickerOutput::New(string_of(&title));
    }
    match parse_decimal(&t, usize::MAX as u64) {
        Some(v) => PickerOutput::Selected(v as usize),
        None => PickerOutput::Cancelled,
    }
}


/// The first entry at or after `i` that equals `sel` once trimmed.
pub open spec fn position_from(items: Seq<Seq<char>>, sel: Seq<char>, i: int) -> Option<int>
    decreases items.len() - i,
{
    if i < 0 || i >= items.len() {
        None
    } else if trim(items[i]) == sel {
        Some(i)
    } else {
        position_from(items, sel, i + 1)
    }
}

/// What fzf's output means, with `--print-query`: the query line, then the
/// chosen entry if any. An entry is found by its trimmed text; a lone
/// non-empty query asks for a new window.
pub open spec fn fzf_output(out: Seq<char>, items: Seq<Seq<char>>) -> PickerOutputModel {
    let r = trim(out);
    let p = find_char(r, '\n');
    if r.len() == 0 {
        PickerOutputModel::Cancelled
    } else if p < r.len() {
        match position_from(items, trim(r.skip(p + 1)), 0) {
            Some(i) => PickerOutputModel::Selected(i as usize),
            None => PickerOutputModel::Cancelled,
        }
    } else if trim(r).len() > 0 {
        PickerOutputModel::New(trim(r))
    } else {
        PickerOutputModel::Cancelled
    }
}

proof fn lemma_trim_end_concat(a: Seq<char>, b: Seq<char>)
    requires
        trim_end(b).len() > 0,
    ensures
        trim_end(a + b) == a + trim_end(b),
    decreases b.len(),
{
    if b.len() > 0 && is_white_space(b.last()) {
        assert((a + b).drop_last() =~= a + b.drop_last());
        lemma_trim_end_concat(a, b.drop_last());
    }
}

proof fn lemma_trim_end_twice(s: Seq<char>)
    ensures
        trim_end(trim_end(s)) == trim_end(s),
    decreases s.len(),
{
    if s.len() > 0 && is_white_space(s.last()) {
        lemma_trim_end_twice(s.drop_last());
    }
}

proof fn lemma_find_char_after(q: Seq<char>, c: char, rest: Seq<char>)
    requires
        !q.contains(c),
    ensures
        find_char(q + seq![c] + rest, c) == q.len(),
    decreases q.len(),
{
    let s = q + seq![c] + rest;
    if q.len() > 0 {
        assert(s[0] == q[0]);
        assert(!q.drop_first().contains(c)) by {
            if q.drop_first().contains(c) {
                let j = choose|j: int| 0 <= j < q.drop_first().len() && q.drop_first()[j] == c;
                assert(q[j + 1] == c);
            }
        }
        assert(s.drop_first() =~= q.drop_first() + seq![c] + rest);
        lemma_find_char_after(q.drop_first(), c, rest);
    } else {
        assert(s[0] == c);
    }
}

proof fn lemma_position_from_first(items: Seq<Seq<char>>, sel: Seq<char>, k: int, i: int)
    requires
        0 <= k <= i < items.len(),
        trim(items[i]) == sel,
        forall|j: int| k <= j < i ==> trim(#[trigger] items[j]) != sel,
    ensures
        position_from(items, sel, k) == Some(i),
    decreases i - k,
{
    if k < i {
        lemma_position_from_first(items, sel, k + 1, i);
    }
}

/// fzf's answer finds the chosen entry: when fzf prints the query line and
/// then a line whose trimmed text is that of entry `i` (and of no earlier
/// entry), the picker's answer is entry `i`. The query line starts with a
/// character other than white space and holds no line break, and the
/// entry's text is not blank.
pub proof fn lemma_fzf_finds_entry(query: Seq<char>, line: Seq<char>, items: Seq<Seq<char>>, i: int)
    requires
        0 <= i < items.len(),
        query.len() > 0,
        !is_white_space(query[0]),
        !query.contains('\n'),
        trim(line) == trim(items[i]),
        trim(items[i]).len() > 0,
        forall|j: int| 0 <= j < i ==> trim(#[trigger] items[j]) != trim(items[i]),
    ensures
        fzf_output(query + "\n"@ + line, items) == PickerOutputModel::Selected(i as usize),
{
    reveal_strlit("\n");
    let head = query + "\n"@;
    assert(head =~= query + seq!['\n']);
    let te = trim_end(line);
    assert(te.len() > 0);
    lemma_trim_end_concat(head, line);
    let r = head + te;
    assert(r[0] == query[0]);
    assert(trim(query + "\n"@ + line) == r);
    lemma_find_char_after(query, '\n', te);
    assert(r =~= query + seq!['\n'] + te);
    assert(r.skip(query.len() as int + 1) =~= te);
    lemma_trim_end_twice(line);
    assert(trim(te) == trim(line));
    lemma_position_from_first(items, trim(items[i]), 0, i);
}

/// Reads fzf's standard output.
pub fn parse_fzf_output(out: &str, items: &Vec<String>) -> (r: PickerOutput)
    ensures
        r@ == fzf_output(out@, strings_view(items@)),
{
    let ghost iv = strings_view(items@);
    let res = trim_chars(&chars_of(out));
    if res.len() == 0 {
        return PickerOutput::Cancelled;
    }
    let p = find_char_from(&res, '\n', 0);
    assert(res@.skip(0) =~= res@);
    if p < res.len() {
        let sel = trim_chars(&slice_chars(&res, p + 1, res.len()));
        assert(res@.subrange(p + 1, res@.len() as int) =~= res@.skip(p + 1));
        let mut i: usize = 0;
        while i < items.len()
            invariant
                i <= items@.len(),
                iv == strings_view(items@),
                position_from(iv, sel@, 0) == position_from(iv, sel@, i as int),
                res@ == trim(out@),
                p < res@.len(),
                find_char(res@, '\n') == p,
                sel@ == trim(res@.skip(p + 1)),
            decreases items@.len() - i,
        {
            let t = trim_chars(&chars_of(items[i].as_str()));
            assert(iv[i as int] == items@[i as int]@);
            if chars_eq(&t, &sel) {
                assert(position_from(iv, sel@, i as int) == Some(i as int));
                assert(res@ == trim(out@));
                assert(find_char(res@, '\n') == p);
                assert(sel@ == trim(res@.skip(p + 1)));
                assert(fzf_output(out@, iv) == PickerOutputModel::Selected(i));
                return PickerOutput::Selected(i);
            }
            i = i + 1;
        }
        PickerOutput::Cancelled
    } else {
        let q = trim_chars(&res);
        if q.len() > 0 {
            PickerOutput::New(string_of(&q))
        } else {
            PickerOutput::Cancelled
        }
    }
}

/// The line each entry is shown with.
pub fn item_strings(items: &Vec<ListItem>) -> (v: Vec<String>)
    ensures
        v@.len() == items@.len(),
        forall|i: int| 0 <= i < items@.len() ==> (#[trigger] v@[i])@ == items@[i].display(),
{
    let mut v: Vec<String> = Vec::new();
    let mut i: usize = 0;
    while i < items.len()
        invariant
            i <= items@.len(),
            v@.len() == i,
            forall|j: int| 0 <= j < i ==> (#[trigger] v@[j])@ == items@[j].display(),
        decreases items@.len() - i,
    {
        v.push(items[i].display_string());
        i = i + 1;
    }
    v
}

/// The entry the picker's output chose, or the new window asked for.
pub fn select_item<'a>(items: &'a Vec<ListItem>, output: PickerOutput) -> (r: SelectItemReturn<'a>)
    ensures
        match output {
            PickerOutput::Cancelled => r is NoSelection,
            PickerOutput::Selected(i) => if i < items@.len() {
                r == SelectItemReturn::Item(&items@[i as int])
            } else {
                r is NoSelection
            },
            PickerOutput::New(t) => r == SelectItemReturn::<'a>::NewWindowTitle(t),
        },
{
    match output {
        PickerOutput::Cancelled => SelectItemReturn::NoSelection,
        PickerOutput::Selected(idx) => {
            if idx < items.len() {
                SelectItemReturn::Item(&items[idx])
            } else {
                SelectItemReturn::NoSelection
            }
        },
        PickerOutput::New(title) => SelectItemReturn::NewWindowTitle(title),
    }
}

} // verus!
