//! The command-matching engine: per-command arity rules, the tokenizer that
//! honours a verbatim trailing argument, and the first-match dispatcher over
//! a registry of commands.

use crate::text::{
    count_char, count_occ, find_char, first_occ, join_spec, lemma_first_occ_props, lemma_split_len,
    lemma_splitn_split, lower_seq, split_all, split_first_n, split_spec, splitn_spec, str_eq,
    to_lower, views_of,
};
use vstd::prelude::*;

verus! {

/// Outcome of running one command: keep going, report a failure, or quit.
pub enum CommandResult {
    Nominal,
    Error(String),
    EndProgram,
}

/// The number and structure of arguments that a command expects.
#[derive(Clone, Copy, PartialEq, Eq, Structural, Debug)]
pub enum ArgsLim {
    /// There are this many arguments total, and the last of them keeps the
    /// rest of the line verbatim, embedded spaces included.
    EndlessLastArg(usize),
    /// The number of arguments must be precisely this value.
    Fixed(usize),
    /// There must be no arguments.
    NoArgs,
}

/// Which operation a matched command performs. The registry is a data-driven
/// dispatch table: the dispatcher selects an entry and hands this tag, with
/// the parsed arguments, to whoever executes the operation.
#[derive(Clone, Copy, PartialEq, Eq, Structural, Debug)]
pub enum Action {
    Score,
    Version,
    Remfetch,
    Bye,
    Ping,
    Help,
    Wipe,
    Pwd,
    TipGrep,
    TipLoad,
    TipLs,
    Grep,
    Line,
    Tda,
    TdtOne,
    TdtArg,
    TdtTwo,
    Tdc,
    Tde,
    Tdae,
    Tdn,
    Ted,
    Al,
    AlLs,
    Print,
    Yank,
    Paste,
    Quit,
    Time,
    CfgTip,
    CfgShellAlias,
    CfgShellAliasQuitting,
    CfgRemAlias,
    CfgTodo,
    CfgTedPrefix,
    CfgScoreP,
    CfgScoreN,
    CfgScoreDivby,
    CfgScoreFormulaNumber,
}

/// One entry of a command registry: a set of accepted names, an arity rule,
/// and the operation to perform on a match.
pub struct Command {
    names: Vec<String>,
    /// The number and structure of arguments that the command expects.
    args_lim: ArgsLim,
    action: Action,
}

/// The mathematical content of a `Command`.
pub struct CommandV {
    pub names: Seq<Seq<char>>,
    pub args_lim: ArgsLim,
    pub action: Action,
}

impl View for Command {
    type V = CommandV;

    closed spec fn view(&self) -> CommandV {
        CommandV { names: views_of(self.names@), args_lim: self.args_lim, action: self.action }
    }
}

/// The views of a registry's entries.
pub open spec fn reg_view(reg: Seq<Command>) -> Seq<CommandV> {
    reg.map_values(|c: Command| c@)
}

// ---------------------------------------------------------------------------
// Matching
// ---------------------------------------------------------------------------

/// Whether a supplied argument count satisfies an arity rule.
pub open spec fn arity_accepts(a: ArgsLim, k: nat) -> bool {
    match a {
        ArgsLim::EndlessLastArg(n) => k >= n,
        ArgsLim::Fixed(n) => k == n,
        ArgsLim::NoArgs => k == 0,
    }
}

/// Whether an input with the given command name and supplied argument count
/// matches a command.
pub open spec fn spec_matches(c: CommandV, name: Seq<char>, k: nat) -> bool {
    c.names.contains(name) && arity_accepts(c.args_lim, k)
}

/// A fixed-arity command matches exactly when the name is one of the
/// command's names and the supplied count equals the declared count.
pub proof fn lemma_matches_fixed(c: CommandV, name: Seq<char>, k: nat, n: usize)
    requires
        c.args_lim == ArgsLim::Fixed(n),
    ensures
        spec_matches(c, name, k) <==> (c.names.contains(name) && k == n),
{
}

/// A command with a trailing free-text argument matches exactly when the name
/// is one of the command's names and the supplied count is at least the
/// declared count.
pub proof fn lemma_matches_endless(c: CommandV, name: Seq<char>, k: nat, n: usize)
    requires
        c.args_lim == ArgsLim::EndlessLastArg(n),
    ensures
        spec_matches(c, name, k) <==> (c.names.contains(name) && k >= n),
{
}

// ---------------------------------------------------------------------------
// Parsing
// ---------------------------------------------------------------------------

/// Every piece lower-cased.
pub open spec fn lower_all(args: Seq<Seq<char>>) -> Seq<Seq<char>> {
    args.map_values(|a: Seq<char>| lower_seq(a))
}

/// Every piece but the last lower-cased; the last kept verbatim.
pub open spec fn lower_non_trailing(args: Seq<Seq<char>>) -> Seq<Seq<char>> {
    Seq::new(
        args.len(),
        |i: int|
            if i < args.len() - 1 {
                lower_seq(args[i])
            } else {
                args[i]
            },
    )
}

/// The argument vector a command's arity rule extracts from a full input
/// line: the leading name token is discarded; a trailing free-text argument
/// keeps its case and its embedded spaces, all other arguments are
/// lower-cased.
pub open spec fn parse_spec(a: ArgsLim, line: Seq<char>) -> Seq<Seq<char>> {
    match a {
        ArgsLim::EndlessLastArg(n) => lower_non_trailing(
            splitn_spec(line, n as nat + 1, ' ').drop_first(),
        ),
        _ => lower_all(split_spec(line, ' ').drop_first()),
    }
}

/// The first space-delimited token of a line, verbatim.
pub open spec fn first_token(line: Seq<char>) -> Seq<char> {
    line.take(first_occ(line, ' '))
}

/// The command name of a line: its first space-delimited token, lower-cased.
pub open spec fn line_name(line: Seq<char>) -> Seq<char> {
    lower_seq(first_token(line))
}

/// The supplied argument count of a line: every single space is a delimiter,
/// so the count is the number of spaces.
pub open spec fn line_num_args(line: Seq<char>) -> nat {
    count_occ(line, ' ')
}

/// An `EndlessLastArg` count one can actually split at (one more piece than
/// arguments must fit in `usize`).
pub open spec fn arity_fits(a: ArgsLim) -> bool {
    match a {
        ArgsLim::EndlessLastArg(n) => n < usize::MAX,
        _ => true,
    }
}

/// For a `Fixed` or `NoArgs` arity, the parsed argument vector has exactly
/// one entry per supplied argument: parsing is length-faithful.
pub proof fn lemma_parse_count_faithful(a: ArgsLim, line: Seq<char>)
    requires
        a is Fixed || a is NoArgs,
    ensures
        parse_spec(a, line).len() == line_num_args(line),
{
    lemma_split_len(line, ' ');
}

/// The trailing-argument law: for `EndlessLastArg(n)` and a line supplying at
/// least `n` arguments, parsing yields exactly `n` arguments; the first
/// `n - 1` are the lower-cased tokens after the name, and the last is the
/// rest of the line verbatim — the remaining tokens joined back with the very
/// spaces that separated them.
pub proof fn lemma_endless_parse(line: Seq<char>, n: usize)
    requires
        1 <= n < usize::MAX,
        line_num_args(line) >= n,
    ensures
        parse_spec(ArgsLim::EndlessLastArg(n), line).len() == n,
        forall|i: int|
            0 <= i < n - 1 ==> parse_spec(ArgsLim::EndlessLastArg(n), line)[i] == lower_seq(
                split_spec(line, ' ')[i + 1],
            ),
        parse_spec(ArgsLim::EndlessLastArg(n), line)[n - 1] == join_spec(
            split_spec(line, ' ').skip(n as int),
            ' ',
        ),
{
    let sp = split_spec(line, ' ');
    let cap = n as nat + 1;
    let spn = splitn_spec(line, cap, ' ');
    lemma_split_len(line, ' ');
    lemma_splitn_split(line, cap, ' ');
    assert(spn.len() == cap);
    let parsed = parse_spec(ArgsLim::EndlessLastArg(n), line);
    assert(parsed.len() == n);
    assert forall|i: int| 0 <= i < n - 1 implies parsed[i] == lower_seq(sp[i + 1]) by {
        assert(spn.drop_first()[i] == spn[i + 1]);
        assert(spn[i + 1] == sp[i + 1]);
    }
    assert(parsed[n - 1] == spn.drop_first()[n - 1]);
    assert(spn.drop_first()[n - 1] == spn[n as int]);
    if sp.len() <= cap {
        assert(sp.len() == cap);
        assert(spn[n as int] == sp[n as int]);
        assert(sp.skip(n as int).len() == 1);
        assert(join_spec(sp.skip(n as int), ' ') == sp.skip(n as int)[0]);
        assert(sp.skip(n as int)[0] == sp[n as int]);
    } else {
        assert(spn[n as int] == spn.last());
        assert(spn.last() == join_spec(sp.skip(cap - 1), ' '));
    }
}

// ---------------------------------------------------------------------------
// The Command type
// ---------------------------------------------------------------------------

impl Command {
    pub fn new(names: Vec<String>, args_lim: ArgsLim, action: Action) -> (r: Command)
        ensures
            r@ == (CommandV { names: views_of(names@), args_lim, action }),
    {
        Command { names, args_lim, action }
    }

    /// The operation this command performs.
    pub fn action(&self) -> (r: Action)
        ensures
            r == self@.action,
    {
        self.action
    }

    /// Whether `name` is one of this command's names.
    fn name_in(&self, name: &str) -> (r: bool)
        ensures
            r == self@.names.contains(name@),
    {
        let mut i: usize = 0;
        while i < self.names.len()
            invariant
                0 <= i <= self.names@.len(),
                forall|j: int| 0 <= j < i ==> views_of(self.names@)[j] != name@,
            decreases self.names@.len() - i,
        {
            if str_eq(self.names[i].as_str(), name) {
                proof {
                    assert(views_of(self.names@)[i as int] == name@);
                }
                return true;
            }
            i = i + 1;
        }
        false
    }

    /// Whether a user's inputted command name and supplied argument count
    /// match this command's structure.
    pub fn matches(&self, name: &str, num_args: usize) -> (r: bool)
        ensures
            r == spec_matches(self@, name@, num_args as nat),
    {
        if !self.name_in(name) {
            return false;
        }
        match self.args_lim {
            ArgsLim::EndlessLastArg(needed_args) => num_args >= needed_args,
            ArgsLim::Fixed(needed_args) => num_args == needed_args,
            ArgsLim::NoArgs => num_args == 0,
        }
    }

    /// Split a full input line into this command's argument vector, dropping
    /// the leading command-name token. This assumes that the command already
    /// matches, and does not check argument counts.
    pub fn parse_input(&self, full_input: &str) -> (r: Vec<String>)
        requires
            arity_fits(self@.args_lim),
        ensures
            views_of(r@) == parse_spec(self@.args_lim, full_input@),
    {
        let pieces: Vec<String> = match self.args_lim {
            ArgsLim::EndlessLastArg(needed_args) => split_first_n(
                full_input,
                needed_args + 1,
                ' ',
            ),
            _ => split_all(full_input, ' '),
        };
        let ghost target = parse_spec(self@.args_lim, full_input@);
        proof {
            assert(target.len() == views_of(pieces@).drop_first().len());
        }
        let endless = match self.args_lim {
            ArgsLim::EndlessLastArg(_) => true,
            _ => false,
        };
        let mut r: Vec<String> = Vec::new();
        let mut i: usize = 1;
        while i < pieces.len()
            invariant
                1 <= i <= pieces@.len(),
                target.len() == pieces@.len() - 1,
                target == parse_spec(self@.args_lim, full_input@),
                views_of(pieces@) == (match self@.args_lim {
                    ArgsLim::EndlessLastArg(n) => splitn_spec(full_input@, n as nat + 1, ' '),
                    _ => split_spec(full_input@, ' '),
                }),
                endless == (self@.args_lim is EndlessLastArg),
                views_of(r@) =~= target.take(i - 1),
            decreases pieces@.len() - i,
        {
            let piece: String = if endless && i + 1 == pieces.len() {
                pieces[i].clone()
            } else {
                to_lower(pieces[i].as_str())
            };
            proof {
                assert(views_of(pieces@)[i as int] == pieces@[i as int]@);
                assert(target[i - 1] == piece@);
                assert(views_of(r@.push(piece)) =~= views_of(r@).push(piece@));
                assert(target.take(i as int) =~= target.take(i - 1).push(target[i - 1]));
            }
            r.push(piece);
            i = i + 1;
        }
        proof {
            assert(views_of(r@) =~= target);
        }
        r
    }
}

// ---------------------------------------------------------------------------
// Dispatch
// ---------------------------------------------------------------------------

/// The index of the first command in the registry that matches, if any.
pub open spec fn first_match(reg: Seq<CommandV>, name: Seq<char>, k: nat) -> Option<int>
    decreases reg.len(),
{
    if reg.len() == 0 {
        Option::None
    } else if spec_matches(reg[0], name, k) {
        Option::Some(0int)
    } else {
        match first_match(reg.drop_first(), name, k) {
            Option::Some(i) => Option::Some(i + 1),
            Option::None => Option::None,
        }
    }
}

/// What `first_match` finds is a match, everything before it is not, and a
/// `None` means nothing in the registry matches.
pub proof fn lemma_first_match(reg: Seq<CommandV>, name: Seq<char>, k: nat)
    ensures
        match first_match(reg, name, k) {
            Option::Some(i) => 0 <= i < reg.len() && spec_matches(reg[i], name, k) && forall|
                j: int,
            | 0 <= j < i ==> !spec_matches(reg[j], name, k),
            Option::None => forall|j: int| 0 <= j < reg.len() ==> !spec_matches(reg[j], name, k),
        },
    decreases reg.len(),
{
    if reg.len() == 0 {
    } else if spec_matches(reg[0], name, k) {
    } else {
        lemma_first_match(reg.drop_first(), name, k);
        match first_match(reg.drop_first(), name, k) {
            Option::Some(i) => {
                assert(reg.drop_first()[i] == reg[i + 1]);
                assert forall|j: int| 0 <= j < i + 1 implies !spec_matches(reg[j], name, k) by {
                    if j > 0 {
                        assert(reg.drop_first()[j - 1] == reg[j]);
                    }
                }
            },
            Option::None => {
                assert forall|j: int| 0 <= j < reg.len() implies !spec_matches(reg[j], name, k) by {
                    if j > 0 {
                        assert(reg.drop_first()[j - 1] == reg[j]);
                    }
                }
            },
        }
    }
}

/// A scan that found a match at `i`, with no match before it, found the first
/// match.
pub proof fn lemma_first_match_is(reg: Seq<CommandV>, name: Seq<char>, k: nat, i: int)
    requires
        0 <= i < reg.len(),
        spec_matches(reg[i], name, k),
        forall|j: int| 0 <= j < i ==> !spec_matches(reg[j], name, k),
    ensures
        first_match(reg, name, k) == Option::Some(i),
{
    lemma_first_match(reg, name, k);
    match first_match(reg, name, k) {
        Option::Some(f) => {
            if f < i {
                assert(spec_matches(reg[f], name, k));
            } else if f > i {
                assert(!spec_matches(reg[i], name, k));
            }
        },
        Option::None => {
            assert(!spec_matches(reg[i], name, k));
        },
    }
}

/// What dispatching a line against a registry finds: the first matching
/// entry's index together with the line parsed under that entry's arity rule,
/// or nothing.
pub open spec fn dispatch_spec(line: Seq<char>, reg: Seq<CommandV>) -> Option<
    (int, Seq<Seq<char>>),
> {
    if line.len() == 0 {
        Option::None
    } else {
        match first_match(reg, line_name(line), line_num_args(line)) {
            Option::Some(i) => Option::Some((i, parse_spec(reg[i].args_lim, line))),
            Option::None => Option::None,
        }
    }
}

/// The fewest arguments an arity rule ever lets through.
pub open spec fn arity_min(a: ArgsLim) -> nat {
    match a {
        ArgsLim::EndlessLastArg(n) => n as nat,
        ArgsLim::Fixed(n) => n as nat,
        ArgsLim::NoArgs => 0,
    }
}

/// Dispatch guarantees arity: the argument vector handed on by a successful
/// dispatch has at least as many entries as the matched rule declares, so a
/// handler may index its declared arguments without checking.
pub proof fn lemma_dispatch_args(line: Seq<char>, reg: Seq<CommandV>, i: int, args: Seq<Seq<char>>)
    requires
        dispatch_spec(line, reg) == Option::Some((i, args)),
        forall|j: int| 0 <= j < reg.len() ==> arity_fits(#[trigger] reg[j].args_lim),
    ensures
        0 <= i < reg.len(),
        args.len() >= arity_min(reg[i].args_lim),
        spec_matches(reg[i], line_name(line), line_num_args(line)),
{
    let name = line_name(line);
    let k = line_num_args(line);
    lemma_first_match(reg, name, k);
    assert(first_match(reg, name, k) == Option::Some(i));
    assert(spec_matches(reg[i], name, k));
    match reg[i].args_lim {
        ArgsLim::EndlessLastArg(n) => {
            if n >= 1 {
                lemma_endless_parse(line, n);
            }
        },
        ArgsLim::Fixed(n) => {
            lemma_parse_count_faithful(reg[i].args_lim, line);
        },
        ArgsLim::NoArgs => {},
    }
}

/// The result of matching a line against a registry: the matched entry's
/// index and the argument vector parsed under its arity rule.
pub struct ParsedInvocation {
    pub command_name: String,
    pub args: Vec<String>,
    pub index: usize,
}

/// Pre-pass over a raw input line: its lower-cased command name and its
/// supplied argument count, or nothing for an empty line.
pub fn process_input(full_input: &str) -> (r: Option<(usize, String)>)
    ensures
        match r {
            Option::Some(p) => full_input@.len() > 0 && p.0 as nat == line_num_args(full_input@)
                && p.1@ == line_name(full_input@),
            Option::None => full_input@.len() == 0,
        },
{
    if full_input.unicode_len() == 0 {
        return Option::None;
    }
    let num_args = count_char(full_input, ' ');
    let e = find_char(full_input, ' ');
    proof {
        lemma_first_occ_props(full_input@, ' ');
        assert(full_input@.subrange(0, e as int) =~= full_input@.take(e as int));
    }
    let name = to_lower(full_input.substring_char(0, e));
    Option::Some((num_args, name))
}

/// Find the first command in the registry that matches the line's name and
/// supplied argument count, and parse the line under its arity rule. A `None`
/// says that the line is empty or that no entry matched — which is distinct
/// from a command running and failing.
pub fn run_command(full_input: &str, command_list: &Vec<Command>) -> (r: Option<ParsedInvocation>)
    requires
        forall|i: int|
            0 <= i < command_list@.len() ==> arity_fits(
                #[trigger] reg_view(command_list@)[i].args_lim,
            ),
    ensures
        match r {
            Option::Some(p) => dispatch_spec(full_input@, reg_view(command_list@))
                == Option::Some((p.index as int, views_of(p.args@))) && p.command_name@
                == line_name(full_input@) && p.index < command_list@.len(),
            Option::None => dispatch_spec(full_input@, reg_view(command_list@)) is None,
        },
{
    let processed = process_input(full_input);
    match processed {
        Option::None => Option::None,
        Option::Some((num_args, command_name)) => {
            let ghost reg = reg_view(command_list@);
            let mut i: usize = 0;
            while i < command_list.len()
                invariant
                    0 <= i <= command_list@.len(),
                    reg == reg_view(command_list@),
                    command_name@ == line_name(full_input@),
                    num_args as nat == line_num_args(full_input@),
                    full_input@.len() > 0,
                    forall|j: int|
                        0 <= j < i ==> !spec_matches(
                            reg[j],
                            command_name@,
                            num_args as nat,
                        ),
                    forall|j: int| 0 <= j < reg.len() ==> arity_fits(#[trigger] reg[j].args_lim),
                decreases command_list@.len() - i,
            {
                proof {
                    assert(reg[i as int] == command_list@[i as int]@);
                }
                if command_list[i].matches(command_name.as_str(), num_args) {
                    let parsed = command_list[i].parse_input(full_input);
                    proof {
                        lemma_first_match_is(reg, command_name@, num_args as nat, i as int);
                    }
                    return Option::Some(
                        ParsedInvocation { command_name, args: parsed, index: i },
                    );
                }
                i = i + 1;
            }
            proof {
                lemma_first_match(reg, command_name@, num_args as nat);
                if first_match(reg, command_name@, num_args as nat) is Some {
                    let f = first_match(reg, command_name@, num_args as nat)->Some_0;
                    assert(!spec_matches(reg[f], command_name@, num_args as nat));
                }
            }
            Option::None
        },
    }
}

} // verus!
