//! The session state shared by every command, and the config-line loader
//! that populates it by dispatching each line of the config file through the
//! config command table.

use crate::command::{
    arity_min, dispatch_spec, lemma_dispatch_args, run_command, Action,
};
use crate::command_lists::{config_table, get_config_commands};
use crate::config::{default_config, Config, ConfigV, ShellAliasV};
use crate::remdata::{RemData, RemDataV};
use crate::text::{trim_spec, trim_str, views_of};
use crate::utils::{lines_spec, split_lines};
use vstd::prelude::*;

verus! {

/// One tracked todo line: an ID (a string of lower-case letters) and the
/// corresponding line number (not index).
pub struct IdEntry {
    pub id: String,
    pub line_number: usize,
}

impl View for IdEntry {
    type V = (Seq<char>, usize);

    open spec fn view(&self) -> (Seq<char>, usize) {
        (self.id@, self.line_number)
    }
}

/// The session state: program data, counters, the loaded file buffer, the
/// tracked todo IDs and the configuration.
pub struct RemState {
    pub rem_data: RemData,
    pub ping_count: u32,
    pub to_copy_val: String,
    pub file_loaded: String,
    /// Store the ID (string of lowercase letters) and corresponding line
    /// NUMBER (not index).
    pub todos_ids: Vec<IdEntry>,
    pub config: Config,
}

/// The mathematical content of a `RemState`.
#[verifier::ext_equal]
pub struct RemStateV {
    pub rem_data: RemDataV,
    pub ping_count: u32,
    pub to_copy_val: Seq<char>,
    pub file_loaded: Seq<char>,
    pub todos_ids: Seq<(Seq<char>, usize)>,
    pub config: ConfigV,
}

impl View for RemState {
    type V = RemStateV;

    open spec fn view(&self) -> RemStateV {
        RemStateV {
            rem_data: self.rem_data@,
            ping_count: self.ping_count,
            to_copy_val: self.to_copy_val@,
            file_loaded: self.file_loaded@,
            todos_ids: self.todos_ids@.map_values(|e: IdEntry| e@),
            config: self.config@,
        }
    }
}

// ---------------------------------------------------------------------------
// Spec: the effect of config lines
// ---------------------------------------------------------------------------

/// Whether a config line is skipped outright: blank, or a comment whose
/// first non-whitespace character is a hash.
pub open spec fn line_skipped(l: Seq<char>) -> bool {
    trim_spec(l).len() == 0 || trim_spec(l)[0] == '#'
}

/// How many arguments a config action reads.
pub open spec fn config_action_floor(a: Action) -> nat {
    match a {
        Action::CfgTip => 2,
        Action::CfgShellAlias => 2,
        Action::CfgShellAliasQuitting => 2,
        Action::CfgRemAlias => 2,
        Action::CfgTodo => 1,
        Action::CfgTedPrefix => 1,
        Action::CfgScoreP => 1,
        Action::CfgScoreN => 1,
        Action::CfgScoreDivby => 1,
        Action::CfgScoreFormulaNumber => 1,
        _ => 0,
    }
}

/// What one config action does to the configuration. Keys are trimmed, as
/// the config commands do; an action that is not a config action changes
/// nothing.
pub open spec fn config_effect(cfg: ConfigV, a: Action, args: Seq<Seq<char>>) -> ConfigV {
    match a {
        Action::CfgTip => ConfigV { tips: cfg.tips.push((trim_spec(args[0]), args[1])), ..cfg },
        Action::CfgShellAlias => ConfigV {
            shell_aliases: cfg.shell_aliases.push(
                ShellAliasV {
                    key: trim_spec(args[0]),
                    command: args[1],
                    quit_after_running: false,
                },
            ),
            ..cfg
        },
        Action::CfgShellAliasQuitting => ConfigV {
            shell_aliases: cfg.shell_aliases.push(
                ShellAliasV { key: trim_spec(args[0]), command: args[1], quit_after_running: true },
            ),
            ..cfg
        },
        Action::CfgRemAlias => ConfigV {
            rem_aliases: cfg.rem_aliases.push((trim_spec(args[0]), args[1])),
            ..cfg
        },
        Action::CfgTodo => ConfigV { todo_path: args[0], ..cfg },
        Action::CfgTedPrefix => ConfigV { ted_command_prefix: args[0], ..cfg },
        Action::CfgScoreP => ConfigV { score_positive: cfg.score_positive.push(args[0]), ..cfg },
        Action::CfgScoreN => ConfigV { score_negative: cfg.score_negative.push(args[0]), ..cfg },
        Action::CfgScoreDivby => ConfigV { score_divby: args[0], ..cfg },
        Action::CfgScoreFormulaNumber => ConfigV { score_formula_number: args[0], ..cfg },
        _ => cfg,
    }
}

/// What one config line does to the configuration: a skipped or unrecognized
/// line changes nothing, a dispatched line applies its command's effect.
pub open spec fn config_line_step(cfg: ConfigV, line: Seq<char>) -> ConfigV {
    if line_skipped(line) {
        cfg
    } else {
        match dispatch_spec(line, config_table()) {
            Option::Some((i, args)) => config_effect(cfg, config_table()[i].action, args),
            Option::None => cfg,
        }
    }
}

/// Whether a config line draws a warning: it is not skipped and no config
/// command recognizes it.
pub open spec fn config_line_warns(line: Seq<char>) -> bool {
    !line_skipped(line) && dispatch_spec(line, config_table()) is None
}

/// The configuration after every line has been applied in order. Lines are
/// independent: each is applied to the result of the previous ones, and a
/// bad line leaves its neighbours' effects intact.
pub open spec fn config_fold(cfg: ConfigV, lines: Seq<Seq<char>>) -> ConfigV
    decreases lines.len(),
{
    if lines.len() == 0 {
        cfg
    } else {
        config_line_step(config_fold(cfg, lines.drop_last()), lines.last())
    }
}

/// The lines that draw warnings, in order.
pub open spec fn warned_lines(lines: Seq<Seq<char>>) -> Seq<Seq<char>>
    decreases lines.len(),
{
    if lines.len() == 0 {
        Seq::<Seq<char>>::empty()
    } else {
        warned_lines(lines.drop_last()) + (if config_line_warns(lines.last()) {
            seq![lines.last()]
        } else {
            Seq::<Seq<char>>::empty()
        })
    }
}

// ---------------------------------------------------------------------------
// Applying config actions
// ---------------------------------------------------------------------------

/// Every config table entry declares at least as many arguments as its
/// action reads.
proof fn lemma_config_table_floor(i: int)
    requires
        0 <= i < config_table().len(),
    ensures
        config_action_floor(config_table()[i].action) <= arity_min(config_table()[i].args_lim),
{
}

/// Apply one config action to the configuration.
pub fn apply_config_action(config: &mut Config, action: Action, args: &Vec<String>)
    requires
        args@.len() >= config_action_floor(action),
    ensures
        final(config)@ == config_effect(old(config)@, action, views_of(args@)),
{
    proof {
        if args@.len() > 0 {
            assert(views_of(args@)[0] == args@[0]@);
        }
        if args@.len() > 1 {
            assert(views_of(args@)[1] == args@[1]@);
        }
    }
    match action {
        Action::CfgTip => {
            config.add_tip(trim_str(args[0].as_str()), args[1].as_str());
        },
        Action::CfgShellAlias => {
            config.add_shell_alias(trim_str(args[0].as_str()), args[1].as_str(), false);
        },
        Action::CfgShellAliasQuitting => {
            config.add_shell_alias(trim_str(args[0].as_str()), args[1].as_str(), true);
        },
        Action::CfgRemAlias => {
            config.add_rem_alias(trim_str(args[0].as_str()), args[1].as_str());
        },
        Action::CfgTodo => {
            config.set_todo_path(args[0].clone());
        },
        Action::CfgTedPrefix => {
            config.set_ted_command_prefix(args[0].clone());
        },
        Action::CfgScoreP => {
            config.add_score_factor(args[0].clone(), true);
        },
        Action::CfgScoreN => {
            config.add_score_factor(args[0].clone(), false);
        },
        Action::CfgScoreDivby => {
            config.set_score_divby(args[0].clone());
        },
        Action::CfgScoreFormulaNumber => {
            config.set_score_formula_number(args[0].clone());
        },
        _ => {},
    }
}

// ---------------------------------------------------------------------------
// The RemState type
// ---------------------------------------------------------------------------

impl RemState {
    /// Whether a config line is blank or a comment.
    fn is_empty_or_comment(line: &str) -> (r: bool)
        ensures
            r == line_skipped(line@),
    {
        let t = trim_str(line);
        if t.unicode_len() == 0 {
            true
        } else {
            t.get_char(0) == '#'
        }
    }

    /// Return a new RemState with nothing loaded; the configuration is
    /// populated afterwards by feeding it the config file's contents.
    pub fn new(rem_data: RemData) -> (r: RemState)
        ensures
            r@ == (RemStateV {
                rem_data: rem_data@,
                ping_count: 0,
                to_copy_val: "[empty]"@,
                file_loaded: Seq::<char>::empty(),
                todos_ids: Seq::<(Seq<char>, usize)>::empty(),
                config: default_config(),
            }),
    {
        let r = RemState {
            rem_data,
            ping_count: 0,
            to_copy_val: String::from_str("[empty]"),
            file_loaded: String::new(),
            todos_ids: Vec::new(),
            config: Config::new(),
        };
        proof {
            assert(r.todos_ids@.map_values(|e: IdEntry| e@) =~= Seq::<
                (Seq<char>, usize),
            >::empty());
        }
        r
    }

    /// Count a ping; the new count is returned for display.
    pub fn ping(&mut self) -> (r: u32)
        requires
            old(self)@.ping_count < u32::MAX,
        ensures
            final(self)@ == (RemStateV {
                ping_count: (old(self)@.ping_count + 1) as u32,
                ..old(self)@
            }),
            r == final(self)@.ping_count,
    {
        self.ping_count = self.ping_count + 1;
        self.ping_count
    }

    /// The current time, formatted; it is also noted as the value to copy.
    pub fn run_time(&mut self) -> (out: String)
        ensures
            final(self)@ == (RemStateV { to_copy_val: out@, ..old(self)@ }),
    {
        let output = crate::utils::get_time_formatted();
        self.to_copy_val = output.clone();
        output
    }

    /// Feed the config file's contents through the config command table, one
    /// line at a time. Every non-blank, non-comment line is dispatched; a
    /// recognized line applies its command's effect to the configuration,
    /// and an unrecognized line is reported back — loading is best-effort
    /// and line-independent, so one bad line never stops the rest.
    pub fn load_config_from(&mut self, contents: &str) -> (warnings: Vec<String>)
        ensures
            final(self)@ == (RemStateV {
                config: config_fold(old(self)@.config, lines_spec(contents@)),
                ..old(self)@
            }),
            views_of(warnings@) == warned_lines(lines_spec(contents@)),
    {
        let lines = split_lines(contents);
        let config_commands = get_config_commands();
        let mut warnings: Vec<String> = Vec::new();
        let ghost ls = lines_spec(contents@);
        let ghost cfg0 = self@.config;
        proof {
            assert(ls.take(0) =~= Seq::<Seq<char>>::empty());
            assert(views_of(warnings@) =~= warned_lines(ls.take(0)));
        }
        let mut k: usize = 0;
        while k < lines.len()
            invariant
                0 <= k <= lines@.len(),
                views_of(lines@) == ls,
                ls.len() == lines@.len(),
                crate::command::reg_view(config_commands@) == config_table(),
                forall|j: int|
                    0 <= j < config_commands@.len() ==> crate::command::arity_fits(
                        #[trigger] crate::command::reg_view(config_commands@)[j].args_lim,
                    ),
                self@ == (RemStateV { config: config_fold(cfg0, ls.take(k as int)), ..old(self)@ }),
                views_of(warnings@) =~= warned_lines(ls.take(k as int)),
            decreases lines@.len() - k,
        {
            let ghost line_v = ls[k as int];
            proof {
                assert(ls.take(k + 1).drop_last() =~= ls.take(k as int));
                assert(ls.take(k + 1).last() == line_v);
                assert(views_of(lines@)[k as int] == lines@[k as int]@);
            }
            if !Self::is_empty_or_comment(lines[k].as_str()) {
                let dispatched = run_command(lines[k].as_str(), &config_commands);
                match dispatched {
                    Option::Some(pi) => {
                        proof {
                            lemma_dispatch_args(
                                line_v,
                                config_table(),
                                pi.index as int,
                                views_of(pi.args@),
                            );
                            lemma_config_table_floor(pi.index as int);
                            assert(crate::command::reg_view(config_commands@)[pi.index as int]
                                == config_table()[pi.index as int]);
                        }
                        let action = config_commands[pi.index].action();
                        apply_config_action(&mut self.config, action, &pi.args);
                    },
                    Option::None => {
                        let w = lines[k].clone();
                        proof {
                            assert(views_of(warnings@.push(w)) =~= views_of(warnings@).push(w@));
                            assert(warned_lines(ls.take(k + 1)) =~= warned_lines(
                                ls.take(k as int),
                            ).push(line_v));
                        }
                        warnings.push(w);
                    },
                }
            }
            k = k + 1;
        }
        proof {
            assert(ls.take(ls.len() as int) =~= ls);
        }
        warnings
    }
}

} // verus!
