//! Which shell to start on the pseudoterminal, what to tell it about the
//! terminal, and what its exit means for the host.

use vstd::prelude::*;

verus! {

/// The kind of system that the host runs on.
#[derive(Clone, Copy, Debug, PartialEq, Eq, Structural)]
pub enum Platform {
    Windows,
    Unix,
}

/// The program to start and the terminal type to announce to it.
#[derive(Clone, Debug, PartialEq, Eq)]
pub struct ShellCommand {
    /// The program that is started as the shell.
    pub program: String,
    /// The value of the terminal-type variable in the shell's environment.
    pub term: String,
}

/// The shell program for a platform: a fixed one on Windows; elsewhere the
/// one that the user's shell variable names, and `bash` where it is unset.
pub open spec fn shell_program(platform: Platform, shell_var: Option<String>) -> Seq<char> {
    match platform {
        Platform::Windows => "powershell.exe"@,
        Platform::Unix => match shell_var {
            Some(shell) => shell@,
            None => "bash"@,
        },
    }
}

/// The terminal type that lets interactive commands draw on the terminal.
pub open spec fn terminal_type(platform: Platform) -> Seq<char> {
    match platform {
        Platform::Windows => "cygwin"@,
        Platform::Unix => "xterm-256color"@,
    }
}

/// The name of the environment variable that names the user's shell.
pub fn shell_variable() -> (name: &'static str)
    ensures
        name@ == "SHELL"@,
{
    "SHELL"
}

/// The name of the environment variable that carries the terminal type.
pub fn term_variable() -> (name: &'static str)
    ensures
        name@ == "TERM"@,
{
    "TERM"
}

/// Chooses the shell to start. `shell_var` is the value of the variable
/// that `shell_variable` names, `None` where it is unset.
pub fn select_shell(platform: Platform, shell_var: Option<String>) -> (command: ShellCommand)
    ensures
        command.program@ == shell_program(platform, shell_var),
        command.term@ == terminal_type(platform),
{
    match platform {
        Platform::Windows => ShellCommand {
            program: "powershell.exe".to_owned(),
            term: "cygwin".to_owned(),
        },
        Platform::Unix => {
            let program = match shell_var {
                Some(shell) => shell,
                None => "bash".to_owned(),
            };
            ShellCommand { program, term: "xterm-256color".to_owned() }
        },
    }
}

/// The exit code that the shell reported, read as the host's own: the same
/// 32 bits as a signed number.
pub open spec fn exit_code_of(shell_code: u32) -> int {
    if shell_code <= 0x7FFF_FFFF {
        shell_code as int
    } else {
        shell_code - 0x1_0000_0000
    }
}

/// The exit code with which the host ends once its shell has ended with
/// `shell_code`.
pub fn host_exit_code(shell_code: u32) -> (code: i32)
    ensures
        code == exit_code_of(shell_code),
{
    let code: i32 = #[verifier::truncate] (shell_code as i32);
    assert(code == exit_code_of(shell_code)) by (bit_vector)
        requires
            code == shell_code as i32,
    ;
    code
}

} // verus!
