//! Builtin commands and aliases, resolved through a registry by name.
use vstd::prelude::*;

use crate::command::Command;

verus! {

/// The builtins the shell implements itself.
#[derive(Clone, Copy, Debug, PartialEq, Eq, Structural)]
pub enum NativeBuiltin {
    Cd,
    Exit,
    Alias,
    Command,
    Exec,
    SetPos,
    Source,
    Export,
    R,
}

/// What a builtin name stands for: a native handler, or an alias for a
/// command with arguments put before the given ones.
#[derive(Clone, Debug, PartialEq, Eq)]
pub enum Action {
    Native(NativeBuiltin),
    Alias { cmd: String, extra_args: Vec<String> },
}

#[derive(Clone, Debug)]
pub struct Builtin {
    pub action: Action,
    pub name: String,
}

impl Builtin {
    pub fn new_fn(name: String, action: NativeBuiltin) -> (r: Builtin)
        ensures
            r.name == name,
            r.action == Action::Native(action),
    {
        Builtin { action: Action::Native(action), name }
    }

    pub fn new_alias(name: String, cmd: String, extra_args: Vec<String>) -> (r: Builtin)
        ensures
            r.name == name,
            r.action == (Action::Alias { cmd, extra_args }),
    {
        Builtin { action: Action::Alias { cmd, extra_args }, name }
    }
}

/// Why running a builtin failed.
#[derive(Clone, Copy, Debug, PartialEq, Eq, Structural)]
pub enum BuiltinError {
    /// Aliases led to aliases more times than the limit allows.
    TooDeep,
    /// A required argument is absent.
    MissingArgument,
    /// An argument is not a number of the expected kind.
    InvalidNumber,
}

/// A decimal number with an optional sign, as `str::parse` reads one.
pub open spec fn parsed_int(s: Seq<char>) -> Option<int> {
    if s.len() > 0 && s[0] == '-' && all_digits(s.drop_first()) {
        Some(-digit_value(s.drop_first()))
    } else if s.len() > 0 && s[0] == '+' && all_digits(s.drop_first()) {
        Some(digit_value(s.drop_first()))
    } else if all_digits(s) {
        Some(digit_value(s))
    } else {
        None
    }
}

pub open spec fn all_digits(s: Seq<char>) -> bool {
    s.len() > 0 && forall|i: int| 0 <= i < s.len() ==> '0' <= #[trigger] s[i] <= '9'
}

pub open spec fn digit_value(s: Seq<char>) -> int
    decreases s.len(),
{
    if s.len() == 0 {
        0
    } else {
        digit_value(s.drop_last()) * 10 + (s.last() as int - '0' as int)
    }
}

/// Relies on `str::parse::<i32>`: an optional `+` or `-` followed by
/// decimal digits, in range; anything else is an error.
#[verifier::external_body]
fn parse_i32(s: &str) -> (r: Option<i32>)
    ensures
        r matches Some(v) ==> parsed_int(s@) == Some(v as int),
        r is None ==> !(parsed_int(s@) is Some && i32::MIN <= parsed_int(s@)->0 <= i32::MAX),
{
    s.parse::<i32>().ok()
}

/// Relies on `str::parse::<u8>`: decimal digits, with an optional `+`, in
/// range; a `-` sign is an error for an unsigned type.
#[verifier::external_body]
fn parse_u8(s: &str) -> (r: Option<u8>)
    ensures
        r matches Some(v) ==> parsed_int(s@) == Some(v as int),
        r is None ==> !(parsed_int(s@) is Some && 0 <= parsed_int(s@)->0 <= 255 && s@[0] != '-'),
{
    s.parse::<u8>().ok()
}

/// The exit status that `exit` takes from its arguments: the first one
/// read as an `i32`, else 0.
pub open spec fn exit_status(args: Seq<String>) -> i32 {
    if args.len() > 0 && parsed_int(args[0]@) is Some && i32::MIN <= parsed_int(args[0]@)->0
        <= i32::MAX {
        parsed_int(args[0]@)->0 as i32
    } else {
        0
    }
}

/// Quits the shell with the status given as first argument (0 without one).
pub fn exit(shell: &mut crate::shell::Shell, command: Command) -> (r: Result<(), BuiltinError>)
    ensures
        final(shell)@ == (crate::shell::ShellModel { exit_code: Some(exit_status(command.args@)), ..old(shell)@ }),
        r is Ok,
{
    let code = if command.args.len() > 0 {
        match parse_i32(command.args[0].as_str()) {
            Some(c) => c,
            None => 0,
        }
    } else {
        0
    };
    shell.exit(code);
    Ok(())
}

/// `s` reads as a `u8`: digits with an optional `+`, at most 255.
pub open spec fn is_u8_text(s: Seq<char>) -> bool {
    parsed_int(s) is Some && 0 <= parsed_int(s)->0 <= 255 && s[0] != '-'
}

/// The bytes that put the cursor where the two arguments say: column, then
/// row, each a `u8`.
pub fn set_pos(_shell: &mut crate::shell::Shell, command: Command) -> (r: Result<Vec<u8>, BuiltinError>)
    ensures
        command.args@.len() < 2 ==> r == Err::<Vec<u8>, BuiltinError>(BuiltinError::MissingArgument),
        r matches Ok(b) ==> command.args@.len() >= 2 && exists|x: u8, y: u8|
            parsed_int(command.args@[0]@) == Some(x as int) && parsed_int(command.args@[1]@) == Some(
                y as int,
            ) && b@ == crate::read_line::cursor::position_seq(x as nat, y as nat),
        command.args@.len() >= 2 && is_u8_text(command.args@[0]@) && is_u8_text(command.args@[1]@)
            ==> r is Ok,
        r matches Err(e) ==> e == BuiltinError::MissingArgument || e == BuiltinError::InvalidNumber,
        final(_shell)@ == old(_shell)@,
{
    if command.args.len() < 2 {
        return Err(BuiltinError::MissingArgument);
    }
    let x = match parse_u8(command.args[0].as_str()) {
        Some(v) => v,
        None => return Err(BuiltinError::InvalidNumber),
    };
    let y = match parse_u8(command.args[1].as_str()) {
        Some(v) => v,
        None => return Err(BuiltinError::InvalidNumber),
    };
    Ok(crate::read_line::cursor::set_position(x, y))
}

/// The command that `exec` runs: the arguments, the first as command name.
pub fn exec(command: Command) -> (r: Command)
    ensures
        command.args@.len() > 0 ==> r.command == command.args@[0] && r.args@ == command.args@.drop_first(),
        command.args@.len() == 0 ==> r.command@.len() == 0 && r.args@.len() == 0,
        r.special_action == command.special_action,
{
    command.shift()
}

/// The directory `cd` goes to: its first argument, or none for the home
/// directory.
pub fn cd(cmd: Command) -> (r: Option<String>)
    ensures
        cmd.args@.len() > 0 ==> r == Some(cmd.args@[0]),
        cmd.args@.len() == 0 ==> r is None,
{
    let mut args = cmd.args;
    if args.len() == 0 {
        None
    } else {
        Some(args.remove(0))
    }
}

/// The file that `source` runs, its first argument.
pub fn source(cmd: Command) -> (r: Result<String, BuiltinError>)
    ensures
        cmd.args@.len() > 0 ==> r == Ok::<String, BuiltinError>(cmd.args@[0]),
        cmd.args@.len() == 0 ==> r == Err::<String, BuiltinError>(BuiltinError::MissingArgument),
{
    let mut args = cmd.args;
    if args.len() == 0 {
        Err(BuiltinError::MissingArgument)
    } else {
        Ok(args.remove(0))
    }
}

/// The program that `command` runs, past any builtin of the same name: the
/// arguments, the first as command name.
pub fn command(cmd: Command) -> (r: Command)
    ensures
        cmd.args@.len() > 0 ==> r.command == cmd.args@[0] && r.args@ == cmd.args@.drop_first(),
        cmd.args@.len() == 0 ==> r.command@.len() == 0 && r.args@.len() == 0,
        r.special_action == cmd.special_action,
{
    cmd.shift()
}

/// The program that `r` runs through `exec`: `cargo run`, which rebuilds
/// and starts the shell.
pub fn r(cmd: Command) -> (out: Command)
    ensures
        out.command@ == seq!['c', 'a', 'r', 'g', 'o'],
        out.args@.len() == 1 && out.args@[0]@ == seq!['r', 'u', 'n'],
        out.special_action == cmd.special_action,
{
    let cargo = crate::utils::string_of(vec!['c', 'a', 'r', 'g', 'o'].as_slice());
    let run = crate::utils::string_of(vec!['r', 'u', 'n'].as_slice());
    let mut args: Vec<String> = Vec::new();
    args.push(cargo);
    args.push(run);
    let c = Command { command: String::new(), args, special_action: cmd.special_action };
    let out = exec(c);
    proof {
        assert(out.command@ =~= seq!['c', 'a', 'r', 'g', 'o']);
        assert(out.args@[0]@ =~= seq!['r', 'u', 'n']);
    }
    out
}

} // verus!
