use vstd::prelude::*;

use crate::split::is_white_space;

verus! {

/// A command of the textual control surface.
#[derive(Debug, Clone, Copy, PartialEq, Eq, Structural)]
pub enum Command {
    Split,
    Start,
    Pause,
    Reset,
    SavePb,
    UndoLastSplit,
    LoadBackup,
    NextPage,
    PrevPage,
    ToggleHelp,
    ReloadAll,
    ReloadRun,
    ReloadTheme,
}

/// A message from a command listener to the window loop.
#[derive(Debug, Clone, Copy, PartialEq, Eq, Structural)]
pub enum UICommand {
    ReloadShader,
}

/// `s` without its leading whitespace.
pub open spec fn trim_start(s: Seq<char>) -> Seq<char>
    decreases s.len(),
{
    if s.len() > 0 && is_white_space(s[0]) {
        trim_start(s.drop_first())
    } else {
        s
    }
}

/// `s` without its trailing whitespace.
pub open spec fn trim_end(s: Seq<char>) -> Seq<char>
    decreases s.len(),
{
    if s.len() > 0 && is_white_space(s.last()) {
        trim_end(s.drop_last())
    } else {
        s
    }
}

/// `s` without leading and trailing whitespace.
pub open spec fn trimmed(s: Seq<char>) -> Seq<char> {
    trim_end(trim_start(s))
}

/// The command that a (trimmed) line names, if any.
pub open spec fn command_of(s: Seq<char>) -> Option<Command> {
    if s == "split"@ {
        Some(Command::Split)
    } else if s == "start"@ {
        Some(Command::Start)
    } else if s == "pause"@ {
        Some(Command::Pause)
    } else if s == "reset"@ {
        Some(Command::Reset)
    } else if s == "savepb"@ {
        Some(Command::SavePb)
    } else if s == "undolastsplit"@ {
        Some(Command::UndoLastSplit)
    } else if s == "loadbackup"@ {
        Some(Command::LoadBackup)
    } else if s == "nextpage"@ {
        Some(Command::NextPage)
    } else if s == "prevpage"@ {
        Some(Command::PrevPage)
    } else if s == "togglehelp"@ {
        Some(Command::ToggleHelp)
    } else if s == "reloadall"@ {
        Some(Command::ReloadAll)
    } else if s == "reloadrun"@ {
        Some(Command::ReloadRun)
    } else if s == "reloadtheme"@ {
        Some(Command::ReloadTheme)
    } else {
        None
    }
}

/// `s` without leading and trailing whitespace.
pub fn trim(s: &str) -> (r: &str)
    ensures
        r@ == trimmed(s@),
{
    let n = s.unicode_len();
    let mut lo: usize = 0;
    assert(s@.subrange(0, n as int) =~= s@);
    while lo < n && crate::split::is_whitespace_char(s.get_char(lo))
        invariant
            n == s@.len(),
            lo <= n,
            trim_start(s@) == trim_start(s@.subrange(lo as int, n as int)),
        decreases n - lo,
    {
        assert(s@.subrange(lo as int, n as int).drop_first() =~= s@.subrange(lo + 1, n as int));
        lo += 1;
    }
    assert(trim_start(s@) == s@.subrange(lo as int, n as int));
    let mut hi: usize = n;
    while hi > lo && crate::split::is_whitespace_char(s.get_char(hi - 1))
        invariant
            n == s@.len(),
            lo <= hi <= n,
            trim_end(s@.subrange(lo as int, n as int)) == trim_end(s@.subrange(lo as int, hi as int)),
        decreases hi - lo,
    {
        assert(s@.subrange(lo as int, hi as int).drop_last() =~= s@.subrange(lo as int, hi - 1));
        hi -= 1;
    }
    s.substring_char(lo, hi)
}

/// Whether two texts are equal.
fn same_text(a: &str, b: &str) -> (r: bool)
    ensures
        r == (a@ == b@),
{
    String::from_str(a) == String::from_str(b)
}

/// The command that a line names, ignoring whitespace around it; `None` for
/// an unknown command.
pub fn parse_command(line: &str) -> (r: Option<Command>)
    ensures
        r == command_of(trimmed(line@)),
{
    let t = trim(line);
    if same_text(t, "split") {
        Some(Command::Split)
    } else if same_text(t, "start") {
        Some(Command::Start)
    } else if same_text(t, "pause") {
        Some(Command::Pause)
    } else if same_text(t, "reset") {
        Some(Command::Reset)
    } else if same_text(t, "savepb") {
        Some(Command::SavePb)
    } else if same_text(t, "undolastsplit") {
        Some(Command::UndoLastSplit)
    } else if same_text(t, "loadbackup") {
        Some(Command::LoadBackup)
    } else if same_text(t, "nextpage") {
        Some(Command::NextPage)
    } else if same_text(t, "prevpage") {
        Some(Command::PrevPage)
    } else if same_text(t, "togglehelp") {
        Some(Command::ToggleHelp)
    } else if same_text(t, "reloadall") {
        Some(Command::ReloadAll)
    } else if same_text(t, "reloadrun") {
        Some(Command::ReloadRun)
    } else if same_text(t, "reloadtheme") {
        Some(Command::ReloadTheme)
    } else {
        None
    }
}

} // verus!
