//! The two command registries: the interactive command table and the
//! config-line command table. Ordering matters — the dispatcher picks the
//! first matching entry, so the more specific arity of a shared name comes
//! first.

use crate::command::{arity_fits, reg_view, Action, ArgsLim, Command, CommandV};
use crate::text::views_of;
use vstd::prelude::*;

verus! {

/// The interactive command table, in dispatch order.
pub open spec fn rem_table() -> Seq<CommandV> {
    seq![
        CommandV { names: seq!["score"@], args_lim: ArgsLim::NoArgs, action: Action::Score },
        CommandV {
            names: seq!["version"@, "ver"@],
            args_lim: ArgsLim::NoArgs,
            action: Action::Version,
        },
        CommandV { names: seq!["remfetch"@], args_lim: ArgsLim::NoArgs, action: Action::Remfetch },
        CommandV { names: seq!["bye"@], args_lim: ArgsLim::NoArgs, action: Action::Bye },
        CommandV { names: seq!["ping"@], args_lim: ArgsLim::NoArgs, action: Action::Ping },
        CommandV { names: seq!["help"@], args_lim: ArgsLim::NoArgs, action: Action::Help },
        CommandV {
            names: seq!["wipe"@, "clear"@],
            args_lim: ArgsLim::NoArgs,
            action: Action::Wipe,
        },
        CommandV { names: seq!["pwd"@], args_lim: ArgsLim::NoArgs, action: Action::Pwd },
        CommandV {
            names: seq!["tip"@, "b"@],
            args_lim: ArgsLim::EndlessLastArg(2),
            action: Action::TipGrep,
        },
        CommandV {
            names: seq!["tip"@, "b"@],
            args_lim: ArgsLim::EndlessLastArg(1),
            action: Action::TipLoad,
        },
        CommandV { names: seq!["tip-ls"@], args_lim: ArgsLim::NoArgs, action: Action::TipLs },
        CommandV {
            names: seq!["grep"@],
            args_lim: ArgsLim::EndlessLastArg(1),
            action: Action::Grep,
        },
        CommandV { names: seq!["line"@], args_lim: ArgsLim::Fixed(1), action: Action::Line },
        CommandV { names: seq!["tda"@], args_lim: ArgsLim::EndlessLastArg(1), action: Action::Tda },
        CommandV { names: seq!["tdt"@], args_lim: ArgsLim::NoArgs, action: Action::TdtOne },
        CommandV { names: seq!["tdt"@], args_lim: ArgsLim::Fixed(1), action: Action::TdtArg },
        CommandV { names: seq!["tdt2"@], args_lim: ArgsLim::NoArgs, action: Action::TdtTwo },
        CommandV { names: seq!["tdc"@], args_lim: ArgsLim::Fixed(1), action: Action::Tdc },
        CommandV { names: seq!["tde"@], args_lim: ArgsLim::EndlessLastArg(1), action: Action::Tde },
        CommandV {
            names: seq!["tdae"@],
            args_lim: ArgsLim::EndlessLastArg(1),
            action: Action::Tdae,
        },
        CommandV { names: seq!["tdn"@], args_lim: ArgsLim::NoArgs, action: Action::Tdn },
        CommandV { names: seq!["ted"@], args_lim: ArgsLim::NoArgs, action: Action::Ted },
        CommandV { names: seq!["al"@], args_lim: ArgsLim::Fixed(1), action: Action::Al },
        CommandV { names: seq!["al-ls"@], args_lim: ArgsLim::NoArgs, action: Action::AlLs },
        CommandV { names: seq!["print"@], args_lim: ArgsLim::NoArgs, action: Action::Print },
        CommandV { names: seq!["copy"@, "y"@], args_lim: ArgsLim::NoArgs, action: Action::Yank },
        CommandV {
            names: seq!["paste"@, "p"@],
            args_lim: ArgsLim::NoArgs,
            action: Action::Paste,
        },
        CommandV {
            names: seq!["q"@, "exit"@, "quit"@],
            args_lim: ArgsLim::NoArgs,
            action: Action::Quit,
        },
        CommandV { names: seq!["time"@], args_lim: ArgsLim::NoArgs, action: Action::Time },
    ]
}

/// The config-line command table, in dispatch order.
pub open spec fn config_table() -> Seq<CommandV> {
    seq![
        CommandV {
            names: seq!["tip"@],
            args_lim: ArgsLim::EndlessLastArg(2),
            action: Action::CfgTip,
        },
        CommandV {
            names: seq!["shell_alias"@],
            args_lim: ArgsLim::EndlessLastArg(2),
            action: Action::CfgShellAlias,
        },
        CommandV {
            names: seq!["shell_alias_quitting"@],
            args_lim: ArgsLim::EndlessLastArg(2),
            action: Action::CfgShellAliasQuitting,
        },
        CommandV {
            names: seq!["rem_alias"@],
            args_lim: ArgsLim::EndlessLastArg(2),
            action: Action::CfgRemAlias,
        },
        CommandV {
            names: seq!["todo"@],
            args_lim: ArgsLim::EndlessLastArg(1),
            action: Action::CfgTodo,
        },
        CommandV {
            names: seq!["ted_command_prefix"@],
            args_lim: ArgsLim::EndlessLastArg(1),
            action: Action::CfgTedPrefix,
        },
        CommandV {
            names: seq!["score_p"@],
            args_lim: ArgsLim::EndlessLastArg(1),
            action: Action::CfgScoreP,
        },
        CommandV {
            names: seq!["score_n"@],
            args_lim: ArgsLim::EndlessLastArg(1),
            action: Action::CfgScoreN,
        },
        CommandV {
            names: seq!["score_divby"@],
            args_lim: ArgsLim::Fixed(1),
            action: Action::CfgScoreDivby,
        },
        CommandV {
            names: seq!["score_formula_number"@],
            args_lim: ArgsLim::EndlessLastArg(1),
            action: Action::CfgScoreFormulaNumber,
        },
    ]
}

/// A command with one name.
fn cmd1(name: &str, args_lim: ArgsLim, action: Action) -> (r: Command)
    ensures
        r@ == (CommandV { names: seq![name@], args_lim, action }),
{
    let mut names: Vec<String> = Vec::new();
    names.push(name.to_owned());
    proof {
        assert(views_of(names@) =~= seq![name@]);
    }
    Command::new(names, args_lim, action)
}

/// A command with two names.
fn cmd2(name_a: &str, name_b: &str, args_lim: ArgsLim, action: Action) -> (r: Command)
    ensures
        r@ == (CommandV { names: seq![name_a@, name_b@], args_lim, action }),
{
    let mut names: Vec<String> = Vec::new();
    names.push(name_a.to_owned());
    names.push(name_b.to_owned());
    proof {
        assert(views_of(names@) =~= seq![name_a@, name_b@]);
    }
    Command::new(names, args_lim, action)
}

/// A command with three names.
fn cmd3(name_a: &str, name_b: &str, name_c: &str, args_lim: ArgsLim, action: Action) -> (r:
    Command)
    ensures
        r@ == (CommandV { names: seq![name_a@, name_b@, name_c@], args_lim, action }),
{
    let mut names: Vec<String> = Vec::new();
    names.push(name_a.to_owned());
    names.push(name_b.to_owned());
    names.push(name_c.to_owned());
    proof {
        assert(views_of(names@) =~= seq![name_a@, name_b@, name_c@]);
    }
    Command::new(names, args_lim, action)
}

/// Build the interactive command table.
pub fn get_rem_commands() -> (r: Vec<Command>)
    ensures
        reg_view(r@) == rem_table(),
        forall|i: int| 0 <= i < r@.len() ==> arity_fits(#[trigger] reg_view(r@)[i].args_lim),
{
    let mut r: Vec<Command> = Vec::new();
    r.push(cmd1("score", ArgsLim::NoArgs, Action::Score));
    r.push(cmd2("version", "ver", ArgsLim::NoArgs, Action::Version));
    r.push(cmd1("remfetch", ArgsLim::NoArgs, Action::Remfetch));
    r.push(cmd1("bye", ArgsLim::NoArgs, Action::Bye));
    r.push(cmd1("ping", ArgsLim::NoArgs, Action::Ping));
    r.push(cmd1("help", ArgsLim::NoArgs, Action::Help));
    r.push(cmd2("wipe", "clear", ArgsLim::NoArgs, Action::Wipe));
    r.push(cmd1("pwd", ArgsLim::NoArgs, Action::Pwd));
    r.push(cmd2("tip", "b", ArgsLim::EndlessLastArg(2), Action::TipGrep));
    r.push(cmd2("tip", "b", ArgsLim::EndlessLastArg(1), Action::TipLoad));
    r.push(cmd1("tip-ls", ArgsLim::NoArgs, Action::TipLs));
    r.push(cmd1("grep", ArgsLim::EndlessLastArg(1), Action::Grep));
    r.push(cmd1("line", ArgsLim::Fixed(1), Action::Line));
    r.push(cmd1("tda", ArgsLim::EndlessLastArg(1), Action::Tda));
    r.push(cmd1("tdt", ArgsLim::NoArgs, Action::TdtOne));
    r.push(cmd1("tdt", ArgsLim::Fixed(1), Action::TdtArg));
    r.push(cmd1("tdt2", ArgsLim::NoArgs, Action::TdtTwo));
    r.push(cmd1("tdc", ArgsLim::Fixed(1), Action::Tdc));
    r.push(cmd1("tde", ArgsLim::EndlessLastArg(1), Action::Tde));
    r.push(cmd1("tdae", ArgsLim::EndlessLastArg(1), Action::Tdae));
    r.push(cmd1("tdn", ArgsLim::NoArgs, Action::Tdn));
    r.push(cmd1("ted", ArgsLim::NoArgs, Action::Ted));
    r.push(cmd1("al", ArgsLim::Fixed(1), Action::Al));
    r.push(cmd1("al-ls", ArgsLim::NoArgs, Action::AlLs));
    r.push(cmd1("print", ArgsLim::NoArgs, Action::Print));
    r.push(cmd2("copy", "y", ArgsLim::NoArgs, Action::Yank));
    r.push(cmd2("paste", "p", ArgsLim::NoArgs, Action::Paste));
    r.push(cmd3("q", "exit", "quit", ArgsLim::NoArgs, Action::Quit));
    r.push(cmd1("time", ArgsLim::NoArgs, Action::Time));
    proof {
        assert(reg_view(r@) =~= rem_table());
    }
    r
}

/// Build the config-line command table.
pub fn get_config_commands() -> (r: Vec<Command>)
    ensures
        reg_view(r@) == config_table(),
        forall|i: int| 0 <= i < r@.len() ==> arity_fits(#[trigger] reg_view(r@)[i].args_lim),
{
    let mut r: Vec<Command> = Vec::new();
    r.push(cmd1("tip", ArgsLim::EndlessLastArg(2), Action::CfgTip));
    r.push(cmd1("shell_alias", ArgsLim::EndlessLastArg(2), Action::CfgShellAlias));
    r.push(cmd1("shell_alias_quitting", ArgsLim::EndlessLastArg(2), Action::CfgShellAliasQuitting));
    r.push(cmd1("rem_alias", ArgsLim::EndlessLastArg(2), Action::CfgRemAlias));
    r.push(cmd1("todo", ArgsLim::EndlessLastArg(1), Action::CfgTodo));
    r.push(cmd1("ted_command_prefix", ArgsLim::EndlessLastArg(1), Action::CfgTedPrefix));
    r.push(cmd1("score_p", ArgsLim::EndlessLastArg(1), Action::CfgScoreP));
    r.push(cmd1("score_n", ArgsLim::EndlessLastArg(1), Action::CfgScoreN));
    r.push(cmd1("score_divby", ArgsLim::Fixed(1), Action::CfgScoreDivby));
    r.push(cmd1("score_formula_number", ArgsLim::EndlessLastArg(1), Action::CfgScoreFormulaNumber));
    proof {
        assert(reg_view(r@) =~= config_table());
    }
    r
}

} // verus!
