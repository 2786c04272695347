//! Decision logic of the features that run shell commands: the todo-editor
//! command and user-defined shell aliases. The shell itself is outside this
//! library; these functions fix what is run and what outcome each result
//! maps to.

use crate::command::CommandResult;
use crate::config::{lookup_shell_alias, Config};
use vstd::prelude::*;

verus! {

/// Build the command line that opens the todo file in the configured
/// third-party editor: the configured prefix, the todo path, and the
/// configured suffix.
pub fn run_ted(config: &Config) -> (cmd: String)
    ensures
        cmd@ == config@.ted_command_prefix + config@.todo_path + config@.ted_command_suffix,
{
    let mut cmd = String::new();
    cmd.append(config.ted_prefix_value().as_str());
    cmd.append(config.todo_path_value().as_str());
    cmd.append(config.ted_suffix_value().as_str());
    cmd
}

/// The outcome of the todo-editor command: quit after a successful launch,
/// report a failure otherwise.
pub fn ted_outcome(command_successful: bool) -> (r: CommandResult)
    ensures
        command_successful ==> r is EndProgram,
        !command_successful ==> (r matches CommandResult::Error(m) && m@
            == "The todo editor command failed! Check ted_command_template in your .remrc file"@),
{
    if command_successful {
        CommandResult::EndProgram
    } else {
        CommandResult::Error(
            String::from_str(
                "The todo editor command failed! Check ted_command_template in your .remrc file",
            ),
        )
    }
}

/// What running a shell alias comes to: either no alias of that name exists,
/// or this command is to be run, possibly quitting afterwards.
pub enum AlPlan {
    NoSuchAlias,
    RunShell { command: String, quit_after_running: bool },
}

/// Look up a shell alias and decide what to run: the first alias whose key
/// equals the given name, or a refusal when there is none.
pub fn run_al(config: &Config, alias: &str) -> (r: AlPlan)
    ensures
        match lookup_shell_alias(config@.shell_aliases, alias@) {
            Option::Some(a) => r matches AlPlan::RunShell { command, quit_after_running }
                && command@ == a.command && quit_after_running == a.quit_after_running,
            Option::None => r is NoSuchAlias,
        },
{
    match config.get_shell_alias(alias) {
        Option::Some(a) => AlPlan::RunShell {
            command: a.command,
            quit_after_running: a.quit_after_running,
        },
        Option::None => AlPlan::NoSuchAlias,
    }
}

/// The outcome of a shell alias run: quit only when the alias asks for it
/// and the command succeeded.
pub fn al_outcome(quit_after_running: bool, command_successful: bool) -> (r: CommandResult)
    ensures
        quit_after_running && command_successful ==> r is EndProgram,
        !(quit_after_running && command_successful) ==> r is Nominal,
{
    if command_successful && quit_after_running {
        CommandResult::EndProgram
    } else {
        CommandResult::Nominal
    }
}

/// The outcome when no shell alias of the requested name exists.
pub fn al_missing() -> (r: CommandResult)
    ensures
        r matches CommandResult::Error(m) && m@ == "The shell alias doesn't exist"@,
{
    CommandResult::Error(String::from_str("The shell alias doesn't exist"))
}

} // verus!
