//! The shell that is attached to a session, and what its exit means.

use vstd::prelude::*;

verus! {

/// The kind of host the shell is started on.
#[derive(Debug, Clone, Copy, PartialEq, Eq, Structural)]
pub enum Platform {
    Windows,
    Posix,
}

/// The environment variable that names the terminal type.
pub const TERM_VARIABLE: &'static str = "TERM";

/// What a session that has a shell replies when asked for another.
pub const SHELL_ATTACHED: &'static str = "a shell is already attached to this session";

/// What to start inside a session: a program, and the value of the
/// terminal-type variable in its environment.
#[derive(Debug, Clone, Copy)]
pub struct ShellCommand {
    pub program: &'static str,
    pub term: &'static str,
}

/// The shell program of a platform.
pub open spec fn shell_program(platform: Platform) -> Seq<char> {
    match platform {
        Platform::Windows => "powershell.exe"@,
        Platform::Posix => "bash"@,
    }
}

/// The terminal type announced to programs under a platform's shell.
pub open spec fn shell_term(platform: Platform) -> Seq<char> {
    match platform {
        Platform::Windows => "cygwin"@,
        Platform::Posix => "xterm-256color"@,
    }
}

/// The exit code of the hosting process for a child that ended with `code`:
/// the same 32 bits, read as a signed number.
pub open spec fn process_exit_code(code: u32) -> int {
    if code <= i32::MAX {
        code as int
    } else {
        code - 0x1_0000_0000
    }
}

impl ShellCommand {
    /// The platform's default shell with its terminal type.
    pub fn for_platform(platform: Platform) -> (command: ShellCommand)
        ensures
            command.program@ == shell_program(platform),
            command.term@ == shell_term(platform),
    {
        match platform {
            Platform::Windows => ShellCommand { program: "powershell.exe", term: "cygwin" },
            Platform::Posix => ShellCommand { program: "bash", term: "xterm-256color" },
        }
    }
}

/// The code with which the hosting process ends once the shell has exited
/// with `code`.
pub fn termination_code(code: u32) -> (status: i32)
    ensures
        status == process_exit_code(code),
{
    if code <= 0x7fff_ffff {
        code as i32
    } else {
        let low: u32 = code - 0x8000_0000;
        (low as i32) - 0x7fff_ffff - 1
    }
}

} // verus!
