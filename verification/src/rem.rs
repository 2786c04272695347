//! The session driver: it holds the state and resolves raw user input —
//! dispatching against the interactive command table, and, when nothing
//! matches, expanding user-defined aliases recursively under a fixed depth
//! ceiling.

use crate::command::{
    dispatch_spec, first_token, reg_view, run_command, CommandV,
};
use crate::command_lists::{get_rem_commands, rem_table};
use crate::config::lookup_pair;
use crate::remdata::RemData;
use crate::remstate::{RemState, RemStateV};
use crate::text::{find_char, lemma_first_occ_props, views_of};
use vstd::prelude::*;

verus! {

/// Each redispatch of an alias's replacement text counts one level; past
/// this many levels, resolution stops with a diagnostic.
pub const MAX_RECURSION_LEVEL: u32 = 100;

/// What resolving one raw input line comes to: a matched command to execute
/// with its parsed arguments, an unrecognized input, or the recursion-depth
/// ceiling.
pub enum Resolution {
    Execute { index: usize, args: Vec<String> },
    Unrecognized,
    RecursionLimit,
}

/// The mathematical content of a `Resolution`.
#[verifier::ext_equal]
pub enum ResolutionV {
    Execute { index: int, args: Seq<Seq<char>> },
    Unrecognized,
    RecursionLimit,
}

impl View for Resolution {
    type V = ResolutionV;

    open spec fn view(&self) -> ResolutionV {
        match self {
            Resolution::Execute { index, args } => ResolutionV::Execute {
                index: *index as int,
                args: views_of(args@),
            },
            Resolution::Unrecognized => ResolutionV::Unrecognized,
            Resolution::RecursionLimit => ResolutionV::RecursionLimit,
        }
    }
}

/// How a line resolves against a registry and an alias table, starting at
/// the given depth: past the ceiling resolution aborts; a dispatched line is
/// executed; otherwise the line's first token is looked up among the aliases
/// and the replacement text is resolved one level deeper; a miss is
/// unrecognized.
pub open spec fn resolve_spec(
    line: Seq<char>,
    reg: Seq<CommandV>,
    aliases: Seq<(Seq<char>, Seq<char>)>,
    depth: nat,
) -> ResolutionV
    decreases 101 - depth,
{
    if depth > MAX_RECURSION_LEVEL {
        ResolutionV::RecursionLimit
    } else {
        match dispatch_spec(line, reg) {
            Option::Some((i, args)) => ResolutionV::Execute { index: i, args },
            Option::None => {
                match lookup_pair(aliases, first_token(line)) {
                    Option::Some(replacement) => resolve_spec(replacement, reg, aliases, depth + 1),
                    Option::None => ResolutionV::Unrecognized,
                }
            },
        }
    }
}

/// The recursion bound: for an alias whose replacement is its own line again
/// (and which no command matches), resolution always ends with the
/// depth-limit diagnostic — at any starting depth, under any registry and
/// alias table with that cycle — rather than expanding forever.
pub proof fn lemma_self_alias_hits_limit(
    line: Seq<char>,
    reg: Seq<CommandV>,
    aliases: Seq<(Seq<char>, Seq<char>)>,
    depth: nat,
)
    requires
        dispatch_spec(line, reg) is None,
        lookup_pair(aliases, first_token(line)) == Option::Some(line),
    ensures
        resolve_spec(line, reg, aliases, depth) == ResolutionV::RecursionLimit,
    decreases 101 - depth,
{
    if depth > MAX_RECURSION_LEVEL {
    } else {
        lemma_self_alias_hits_limit(line, reg, aliases, depth + 1);
    }
}

/// Stores state and runs commands from user input.
pub struct Rem {
    pub state: RemState,
}

impl Rem {
    pub fn new(rem_data: RemData) -> (r: Rem)
        ensures
            r.state@ == (RemStateV {
                rem_data: rem_data@,
                ping_count: 0,
                to_copy_val: "[empty]"@,
                file_loaded: Seq::<char>::empty(),
                todos_ids: Seq::<(Seq<char>, usize)>::empty(),
                config: crate::config::default_config(),
            }),
    {
        Rem { state: RemState::new(rem_data) }
    }

    /// The first space-delimited token of an input line.
    fn first_arg(input: &str) -> (r: &str)
        ensures
            r@ == first_token(input@),
    {
        let e = find_char(input, ' ');
        proof {
            lemma_first_occ_props(input@, ' ');
            assert(input@.subrange(0, e as int) =~= first_token(input@));
        }
        input.substring_char(0, e)
    }

    /// Resolve a raw user-inputted line: dispatch it against the interactive
    /// command table; when nothing matches, look the line's first token up
    /// among the rem aliases and feed the replacement text back in, one
    /// depth level at a time, aborting past the ceiling.
    pub fn respond_to_input(&self, input: &str, recursion_level: u32) -> (r: Resolution)
        ensures
            r@ == resolve_spec(
                input@,
                rem_table(),
                self.state@.config.rem_aliases,
                recursion_level as nat,
            ),
    {
        let ghost aliases = self.state@.config.rem_aliases;
        if recursion_level > MAX_RECURSION_LEVEL {
            return Resolution::RecursionLimit;
        }
        let commands = get_rem_commands();
        let mut current: String = input.to_owned();
        let mut depth: u32 = recursion_level;
        loop
            invariant
                depth <= 101,
                reg_view(commands@) == rem_table(),
                forall|j: int|
                    0 <= j < commands@.len() ==> crate::command::arity_fits(
                        #[trigger] reg_view(commands@)[j].args_lim,
                    ),
                aliases == self.state@.config.rem_aliases,
                resolve_spec(current@, rem_table(), aliases, depth as nat) == resolve_spec(
                    input@,
                    rem_table(),
                    aliases,
                    recursion_level as nat,
                ),
            decreases 102 - depth,
        {
            if depth > MAX_RECURSION_LEVEL {
                return Resolution::RecursionLimit;
            }
            match run_command(current.as_str(), &commands) {
                Option::Some(pi) => {
                    return Resolution::Execute { index: pi.index, args: pi.args };
                },
                Option::None => {
                    let replacement = self.state.config.get_rem_alias_value(
                        Self::first_arg(current.as_str()),
                    );
                    match replacement {
                        Option::Some(v) => {
                            current = v;
                            depth = depth + 1;
                        },
                        Option::None => {
                            return Resolution::Unrecognized;
                        },
                    }
                },
            }
        }
    }
}

} // verus!
