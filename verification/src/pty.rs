//! Trusted boundary to the pseudo-terminal layer and to the few std functions
//! that have no specification of their own.
//!
//! Nothing in this file is proved. Each item says what it assumes.

use vstd::prelude::*;
use vstd::utf8::*;

verus! {

/// `portable_pty::PtyPair`: both ends of one pseudo-terminal. Opaque.
#[verifier::external_type_specification]
#[verifier::external_body]
pub struct ExPtyPair(portable_pty::PtyPair);

/// `portable_pty::CommandBuilder`: the description of a child process. Opaque;
/// what it holds is named by `command_argv`, `command_cwd` and `command_env`.
#[verifier::external_type_specification]
#[verifier::external_body]
pub struct ExCommandBuilder(portable_pty::CommandBuilder);

/// `anyhow::Error`, the error of the pseudo-terminal layer. Opaque.
#[verifier::external_type_specification]
#[verifier::external_body]
pub struct ExAnyhowError(anyhow::Error);

/// `std::io::Error`. Opaque.
#[verifier::external_type_specification]
#[verifier::external_body]
pub struct ExIoError(std::io::Error);

/// Handle of a spawned child: a `Box<dyn portable_pty::Child + Send + Sync>`.
/// A trait object over several traits cannot be declared, so the box is hidden
/// in this struct and only carried through.
#[verifier::external_body]
pub struct ChildProcess {
    pub handle: Box<dyn portable_pty::Child + Send + Sync>,
}

/// Read handle cloned from the controlling side of a pseudo-terminal:
/// a `Box<dyn std::io::Read + Send>`, hidden for the same reason.
#[verifier::external_body]
pub struct PtyReader {
    pub stream: Box<dyn std::io::Read + Send>,
}

/// Write handle to the controlling side of a pseudo-terminal:
/// a `Box<dyn std::io::Write + Send>`, hidden for the same reason.
#[verifier::external_body]
pub struct PtyWriter {
    pub stream: Box<dyn std::io::Write + Send>,
}

/// The argument vector that a `CommandBuilder` holds (`get_argv`), program first.
pub uninterp spec fn command_argv(cmd: portable_pty::CommandBuilder) -> Seq<Seq<char>>;

/// The working directory that a `CommandBuilder` holds (`get_cwd`).
pub uninterp spec fn command_cwd(cmd: portable_pty::CommandBuilder) -> Option<Seq<char>>;

/// The environment that a `CommandBuilder` holds, each variable as `get_env`
/// answers for it.
pub uninterp spec fn command_env(cmd: portable_pty::CommandBuilder) -> Map<Seq<char>, Seq<char>>;

/// What `String::from_utf8_lossy` makes of a byte sequence.
pub uninterp spec fn lossy_text(bytes: Seq<u8>) -> Seq<char>;

/// Whether `char::is_whitespace` holds: the code points with the Unicode
/// property `White_Space`.
pub open spec fn is_space(c: char) -> bool {
    ||| ('\u{9}' <= c && c <= '\u{d}')
    ||| c == ' '
    ||| c == '\u{85}'
    ||| c == '\u{a0}'
    ||| c == '\u{1680}'
    ||| ('\u{2000}' <= c && c <= '\u{200a}')
    ||| c == '\u{2028}'
    ||| c == '\u{2029}'
    ||| c == '\u{202f}'
    ||| c == '\u{205f}'
    ||| c == '\u{3000}'
}

/// A text without its leading and trailing whitespace.
pub open spec fn trimmed(s: Seq<char>) -> Seq<char>
    decreases s.len(),
{
    if s.len() > 0 && is_space(s.first()) {
        trimmed(s.drop_first())
    } else if s.len() > 0 && is_space(s.last()) {
        trimmed(s.drop_last())
    } else {
        s
    }
}

/// The decimal digit for a value below ten.
pub open spec fn digit_char(d: nat) -> char {
    if d == 0 {
        '0'
    } else if d == 1 {
        '1'
    } else if d == 2 {
        '2'
    } else if d == 3 {
        '3'
    } else if d == 4 {
        '4'
    } else if d == 5 {
        '5'
    } else if d == 6 {
        '6'
    } else if d == 7 {
        '7'
    } else if d == 8 {
        '8'
    } else {
        '9'
    }
}

/// A number in decimal, without sign or leading zeros.
pub open spec fn decimal(n: nat) -> Seq<char>
    decreases n,
{
    if n < 10 {
        seq![digit_char(n)]
    } else {
        decimal(n / 10).push(digit_char(n % 10))
    }
}

/// A text without the occurrences of `c` at either end.
pub open spec fn stripped(s: Seq<char>, c: char) -> Seq<char>
    decreases s.len(),
{
    if s.len() > 0 && s.first() == c {
        stripped(s.drop_first(), c)
    } else if s.len() > 0 && s.last() == c {
        stripped(s.drop_last(), c)
    } else {
        s
    }
}

/// `str::trim_matches` with one character, made an owned `String`: the text
/// without the occurrences of that character at either end.
#[verifier::external_body]
pub(crate) fn strip_char(s: &String, c: char) -> (text: String)
    ensures
        text@ == stripped(s@, c),
{
    s.trim_matches(c).to_owned()
}

/// `str::split_once` with one character, both parts made owned: the text
/// before the first occurrence of the character and the text after it, or
/// nothing where it does not occur.
#[verifier::external_body]
pub(crate) fn split_once_at(s: &String, c: char) -> (parts: Option<(String, String)>)
    ensures
        parts is None <==> !s@.contains(c),
        parts is Some ==> !parts->Some_0.0@.contains(c) && s@ == parts->Some_0.0@ + seq![c]
            + parts->Some_0.1@,
{
    match s.split_once(c) {
        Some((head, tail)) => Some((head.to_owned(), tail.to_owned())),
        None => None,
    }
}

/// `str::trim`, made an owned `String`: the text without the whitespace at
/// either end, whitespace being what `char::is_whitespace` accepts.
#[verifier::external_body]
pub(crate) fn trim_text(s: &String) -> (text: String)
    ensures
        text@ == trimmed(s@),
{
    s.trim().to_owned()
}

/// `usize::to_string`: the number in decimal.
#[verifier::external_body]
pub(crate) fn index_text(n: usize) -> (text: String)
    ensures
        text@ == decimal(n as nat),
{
    n.to_string()
}

/// `std::path::Path::is_absolute`. What counts as absolute differs between
/// platforms: no promise.
#[verifier::external_body]
pub(crate) fn path_is_absolute(path: &String) -> (absolute: bool)
{
    std::path::Path::new(path).is_absolute()
}

/// `std::path::Path::join`, shown as text. The separator differs between
/// platforms: no promise.
#[verifier::external_body]
pub(crate) fn path_join(base: &String, rest: &String) -> (joined: String)
{
    std::path::Path::new(base).join(rest).display().to_string()
}

/// `path_clean::clean`, shown as text. It works on the platform's reading of
/// the path's components: no promise.
#[verifier::external_body]
pub(crate) fn clean_path(path: &String) -> (cleaned: String)
{
    path_clean::clean(path).display().to_string()
}

/// `native_pty_system().openpty(..)` with the given geometry and no pixel size.
/// Whether the system grants a pseudo-terminal is not ours to say: no promise.
#[verifier::external_body]
pub(crate) fn open_pty(cols: u16, rows: u16) -> (res: Result<portable_pty::PtyPair, anyhow::Error>)
{
    let size = portable_pty::PtySize { rows, cols, pixel_width: 0, pixel_height: 0 };
    portable_pty::native_pty_system().openpty(size)
}

/// `CommandBuilder::new`: the argument vector holds the program alone and no
/// working directory is set. The environment starts from the process's own and
/// is left unstated.
#[verifier::external_body]
pub(crate) fn command_new(prog: &String) -> (cmd: portable_pty::CommandBuilder)
    ensures
        command_argv(cmd) == seq![prog@],
        command_cwd(cmd) == None::<Seq<char>>,
{
    portable_pty::CommandBuilder::new(prog)
}

/// `CommandBuilder::env`: afterwards the variable has the given value; the
/// argument vector and the working directory are untouched.
#[verifier::external_body]
pub(crate) fn command_set_env(cmd: &mut portable_pty::CommandBuilder, key: &str, value: &String)
    ensures
        command_env(*final(cmd)).contains_key(key@),
        command_env(*final(cmd))[key@] == value@,
        command_argv(*final(cmd)) == command_argv(*old(cmd)),
        command_cwd(*final(cmd)) == command_cwd(*old(cmd)),
{
    cmd.env(key, value)
}

/// `CommandBuilder::cwd`: sets the working directory and nothing else.
#[verifier::external_body]
pub(crate) fn command_set_cwd(cmd: &mut portable_pty::CommandBuilder, dir: &String)
    ensures
        command_cwd(*final(cmd)) == Some(dir@),
        command_argv(*final(cmd)) == command_argv(*old(cmd)),
        command_env(*final(cmd)) == command_env(*old(cmd)),
{
    cmd.cwd(dir)
}

/// `CommandBuilder::args`: appends the arguments in order and nothing else. It
/// panics on a builder without a program, which `requires` leaves out.
#[verifier::external_body]
pub(crate) fn command_add_args(cmd: &mut portable_pty::CommandBuilder, args: &Vec<String>)
    requires
        command_argv(*old(cmd)).len() > 0,
    ensures
        command_argv(*final(cmd)) == command_argv(*old(cmd)) + args.deep_view(),
        command_cwd(*final(cmd)) == command_cwd(*old(cmd)),
        command_env(*final(cmd)) == command_env(*old(cmd)),
{
    cmd.args(args)
}

/// `SlavePty::spawn_command` on the subordinate side of the pair. Whether the
/// child starts depends on the system: no promise.
#[verifier::external_body]
pub(crate) fn spawn_command(pair: &portable_pty::PtyPair, cmd: portable_pty::CommandBuilder) -> (res: Result<ChildProcess, anyhow::Error>)
{
    match pair.slave.spawn_command(cmd) {
        Ok(handle) => Ok(ChildProcess { handle }),
        Err(e) => Err(e),
    }
}

/// `MasterPty::try_clone_reader` on the controlling side of the pair. No promise.
#[verifier::external_body]
pub(crate) fn clone_reader(pair: &portable_pty::PtyPair) -> (res: Result<PtyReader, anyhow::Error>)
{
    match pair.master.try_clone_reader() {
        Ok(stream) => Ok(PtyReader { stream }),
        Err(e) => Err(e),
    }
}

/// `MasterPty::take_writer` on the controlling side of the pair. No promise.
#[verifier::external_body]
pub(crate) fn take_writer(pair: &portable_pty::PtyPair) -> (res: Result<PtyWriter, anyhow::Error>)
{
    match pair.master.take_writer() {
        Ok(stream) => Ok(PtyWriter { stream }),
        Err(e) => Err(e),
    }
}

/// `std::io::Write::write_all` of the text's bytes. No promise.
#[verifier::external_body]
pub(crate) fn write_all(writer: &mut PtyWriter, data: &String) -> (res: Result<(), std::io::Error>)
{
    std::io::Write::write_all(&mut writer.stream, data.as_bytes())
}

/// `MasterPty::resize` to the given geometry and no pixel size. No promise.
#[verifier::external_body]
pub(crate) fn resize_pair(pair: &portable_pty::PtyPair, cols: u16, rows: u16) -> (res: Result<(), anyhow::Error>)
{
    pair.master.resize(portable_pty::PtySize { rows, cols, pixel_width: 0, pixel_height: 0 })
}

/// `ChildKiller::kill` on the child. No promise.
#[verifier::external_body]
pub(crate) fn kill_child(process: &mut ChildProcess) -> (res: Result<(), std::io::Error>)
{
    process.handle.kill()
}

/// The `Display` text of an `anyhow::Error`. No promise.
#[verifier::external_body]
pub(crate) fn anyhow_text(e: &anyhow::Error) -> (text: String)
{
    e.to_string()
}

/// The `Display` text of a `std::io::Error`. No promise.
#[verifier::external_body]
pub(crate) fn io_text(e: &std::io::Error) -> (text: String)
{
    e.to_string()
}

/// `String::from_utf8_lossy`, made an owned `String`. The result is a function of
/// the bytes alone; on valid UTF-8 it is the text that the bytes encode.
#[verifier::external_body]
pub(crate) fn decode_lossy(bytes: &[u8]) -> (text: String)
    ensures
        text@ == lossy_text(bytes@),
        valid_utf8(bytes@) ==> text@ == decode_utf8(bytes@),
{
    String::from_utf8_lossy(bytes).into_owned()
}

} // verus!
