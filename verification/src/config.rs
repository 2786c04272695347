//! The session configuration store: tip mappings, shell aliases, rem aliases,
//! score categories and the paths and templates the features read.

use crate::text::{str_eq, str_starts_with, views_of};
use vstd::prelude::*;

verus! {

/// Stores a tip key/value pair.
struct Pair {
    key: String,
    value: String,
}

/// A user-defined shell alias: a key, the command it runs, and whether the
/// program quits after running it.
pub struct ShellAlias {
    pub key: String,
    pub command: String,
    pub quit_after_running: bool,
}

/// The mathematical content of a `ShellAlias`.
#[verifier::ext_equal]
pub struct ShellAliasV {
    pub key: Seq<char>,
    pub command: Seq<char>,
    pub quit_after_running: bool,
}

impl View for ShellAlias {
    type V = ShellAliasV;

    open spec fn view(&self) -> ShellAliasV {
        ShellAliasV {
            key: self.key@,
            command: self.command@,
            quit_after_running: self.quit_after_running,
        }
    }
}

/// The mathematical content of a `Config`. Tips and rem aliases are key/value
/// pairs; the division factor of the score formula is kept as the text it was
/// configured with.
#[verifier::ext_equal]
pub struct ConfigV {
    pub tips: Seq<(Seq<char>, Seq<char>)>,
    pub shell_aliases: Seq<ShellAliasV>,
    pub rem_aliases: Seq<(Seq<char>, Seq<char>)>,
    pub todo_path: Seq<char>,
    pub score_positive: Seq<Seq<char>>,
    pub score_negative: Seq<Seq<char>>,
    pub score_divby: Seq<char>,
    pub score_formula_number: Seq<char>,
    pub ted_command_prefix: Seq<char>,
    pub ted_command_suffix: Seq<char>,
}

/// Stores a rem config based on the remrc file.
pub struct Config {
    tips: Vec<Pair>,
    shell_aliases: Vec<ShellAlias>,
    rem_aliases: Vec<Pair>,
    pub todo_path: String,
    score_positive: Vec<String>,
    score_negative: Vec<String>,
    /// The score division factor, as the text it was configured with.
    pub score_divby: String,
    pub score_formula_number: String,
    pub ted_command_prefix: String,
    pub ted_command_suffix: String,
}

/// The views of a sequence of key/value pairs.
spec fn pair_views(pairs: Seq<Pair>) -> Seq<(Seq<char>, Seq<char>)> {
    pairs.map_values(|p: Pair| (p.key@, p.value@))
}

impl View for Config {
    type V = ConfigV;

    closed spec fn view(&self) -> ConfigV {
        ConfigV {
            tips: pair_views(self.tips@),
            shell_aliases: self.shell_aliases@.map_values(|a: ShellAlias| a@),
            rem_aliases: pair_views(self.rem_aliases@),
            todo_path: self.todo_path@,
            score_positive: views_of(self.score_positive@),
            score_negative: views_of(self.score_negative@),
            score_divby: self.score_divby@,
            score_formula_number: self.score_formula_number@,
            ted_command_prefix: self.ted_command_prefix@,
            ted_command_suffix: self.ted_command_suffix@,
        }
    }
}

// ---------------------------------------------------------------------------
// Spec: lookups
// ---------------------------------------------------------------------------

/// The value of the first pair whose key equals `key`, if any.
pub open spec fn lookup_pair(pairs: Seq<(Seq<char>, Seq<char>)>, key: Seq<char>) -> Option<
    Seq<char>,
>
    decreases pairs.len(),
{
    if pairs.len() == 0 {
        Option::None
    } else if pairs[0].0 == key {
        Option::Some(pairs[0].1)
    } else {
        lookup_pair(pairs.drop_first(), key)
    }
}

/// The value of the first pair whose key starts with `start`, if any.
pub open spec fn lookup_prefix(pairs: Seq<(Seq<char>, Seq<char>)>, start: Seq<char>) -> Option<
    Seq<char>,
>
    decreases pairs.len(),
{
    if pairs.len() == 0 {
        Option::None
    } else if start.is_prefix_of(pairs[0].0) {
        Option::Some(pairs[0].1)
    } else {
        lookup_prefix(pairs.drop_first(), start)
    }
}

/// The first shell alias whose key equals `key`, if any.
pub open spec fn lookup_shell_alias(aliases: Seq<ShellAliasV>, key: Seq<char>) -> Option<
    ShellAliasV,
>
    decreases aliases.len(),
{
    if aliases.len() == 0 {
        Option::None
    } else if aliases[0].key == key {
        Option::Some(aliases[0])
    } else {
        lookup_shell_alias(aliases.drop_first(), key)
    }
}

// ---------------------------------------------------------------------------
// Spec: display strings
// ---------------------------------------------------------------------------

/// One displayed pair: three spaces, the key, a separator, the value, and a
/// line break.
pub open spec fn display_pair(key: Seq<char>, value: Seq<char>) -> Seq<char> {
    "   "@ + key + " : "@ + value + "\n"@
}

/// All pairs displayed in order.
pub open spec fn display_pairs(pairs: Seq<(Seq<char>, Seq<char>)>) -> Seq<char>
    decreases pairs.len(),
{
    if pairs.len() == 0 {
        Seq::<char>::empty()
    } else {
        display_pairs(pairs.drop_last()) + display_pair(pairs.last().0, pairs.last().1)
    }
}

/// One displayed shell alias; a quitting alias is marked.
pub open spec fn display_shell_alias(a: ShellAliasV) -> Seq<char> {
    "   "@ + a.key + (if a.quit_after_running {
        " (Q)"@
    } else {
        Seq::<char>::empty()
    }) + " : "@ + a.command + "\n"@
}

/// All shell aliases displayed in order.
pub open spec fn display_shell_aliases_spec(aliases: Seq<ShellAliasV>) -> Seq<char>
    decreases aliases.len(),
{
    if aliases.len() == 0 {
        Seq::<char>::empty()
    } else {
        display_shell_aliases_spec(aliases.drop_last()) + display_shell_alias(aliases.last())
    }
}

// ---------------------------------------------------------------------------
// The Config type
// ---------------------------------------------------------------------------

/// The configuration before any config line has been applied.
pub open spec fn default_config() -> ConfigV {
    ConfigV {
        tips: Seq::<(Seq<char>, Seq<char>)>::empty(),
        shell_aliases: Seq::<ShellAliasV>::empty(),
        rem_aliases: Seq::<(Seq<char>, Seq<char>)>::empty(),
        todo_path: "default_todos.md"@,
        score_positive: Seq::<Seq<char>>::empty(),
        score_negative: Seq::<Seq<char>>::empty(),
        score_divby: "5.0"@,
        score_formula_number: "1"@,
        ted_command_prefix: "gvim + "@,
        ted_command_suffix: ""@,
    }
}

impl Config {
    /// Make a new Config (the user's configuration is loaded afterwards by
    /// dispatching the lines of the config file).
    pub fn new() -> (r: Config)
        ensures
            r@ == default_config(),
    {
        let r = Config {
            tips: Vec::new(),
            shell_aliases: Vec::new(),
            rem_aliases: Vec::new(),
            todo_path: String::from_str("default_todos.md"),
            score_positive: Vec::new(),
            score_negative: Vec::new(),
            score_divby: String::from_str("5.0"),
            score_formula_number: String::from_str("1"),
            ted_command_prefix: String::from_str("gvim + "),
            ted_command_suffix: String::from_str(""),
        };
        proof {
            assert(pair_views(r.tips@) =~= Seq::<(Seq<char>, Seq<char>)>::empty());
            assert(pair_views(r.rem_aliases@) =~= Seq::<(Seq<char>, Seq<char>)>::empty());
            assert(r.shell_aliases@.map_values(|a: ShellAlias| a@) =~= Seq::<
                ShellAliasV,
            >::empty());
            assert(views_of(r.score_positive@) =~= Seq::<Seq<char>>::empty());
            assert(views_of(r.score_negative@) =~= Seq::<Seq<char>>::empty());
        }
        r
    }

    pub fn add_tip(&mut self, key: &str, value: &str)
        ensures
            final(self)@ == (ConfigV {
                tips: old(self)@.tips.push((key@, value@)),
                ..old(self)@
            }),
    {
        let p = Pair { key: key.to_owned(), value: value.to_owned() };
        proof {
            assert(pair_views(self.tips@.push(p)) =~= pair_views(self.tips@).push(
                (key@, value@),
            ));
        }
        self.tips.push(p);
    }

    pub fn add_shell_alias(&mut self, key: &str, command: &str, quit_after_running: bool)
        ensures
            final(self)@ == (ConfigV {
                shell_aliases: old(self)@.shell_aliases.push(
                    ShellAliasV { key: key@, command: command@, quit_after_running },
                ),
                ..old(self)@
            }),
    {
        let a = ShellAlias { key: key.to_owned(), command: command.to_owned(), quit_after_running };
        proof {
            assert(self.shell_aliases@.push(a).map_values(|x: ShellAlias| x@)
                =~= self.shell_aliases@.map_values(|x: ShellAlias| x@).push(a@));
        }
        self.shell_aliases.push(a);
    }

    pub fn add_rem_alias(&mut self, key: &str, value: &str)
        ensures
            final(self)@ == (ConfigV {
                rem_aliases: old(self)@.rem_aliases.push((key@, value@)),
                ..old(self)@
            }),
    {
        let p = Pair { key: key.to_owned(), value: value.to_owned() };
        proof {
            assert(pair_views(self.rem_aliases@.push(p)) =~= pair_views(self.rem_aliases@).push(
                (key@, value@),
            ));
        }
        self.rem_aliases.push(p);
    }

    pub fn add_score_factor(&mut self, descr: String, positive: bool)
        ensures
            positive ==> final(self)@ == (ConfigV {
                score_positive: old(self)@.score_positive.push(descr@),
                ..old(self)@
            }),
            !positive ==> final(self)@ == (ConfigV {
                score_negative: old(self)@.score_negative.push(descr@),
                ..old(self)@
            }),
    {
        proof {
            assert(views_of(self.score_positive@.push(descr)) =~= views_of(
                self.score_positive@,
            ).push(descr@));
            assert(views_of(self.score_negative@.push(descr)) =~= views_of(
                self.score_negative@,
            ).push(descr@));
        }
        if positive {
            self.score_positive.push(descr);
        } else {
            self.score_negative.push(descr);
        }
    }

    /// Get the value of the first tip whose key starts with `start`.
    pub fn get_tip_value(&self, start: &str) -> (r: Option<String>)
        ensures
            match r {
                Option::Some(v) => lookup_prefix(self@.tips, start@) == Option::Some(v@),
                Option::None => lookup_prefix(self@.tips, start@) is None,
            },
    {
        let ghost pairs = self@.tips;
        let mut i: usize = 0;
        proof {
            assert(pairs.skip(0) =~= pairs);
        }
        while i < self.tips.len()
            invariant
                0 <= i <= self.tips@.len(),
                pairs == pair_views(self.tips@),
                lookup_prefix(pairs, start@) == lookup_prefix(
                    pairs.skip(i as int),
                    start@,
                ),
            decreases self.tips@.len() - i,
        {
            proof {
                assert(pairs[i as int] == (self.tips@[i as int].key@, self.tips@[i as int].value@));
                assert(pairs.skip(i as int)[0] == pairs[i as int]);
                assert(pairs.skip(i as int).drop_first() =~= pairs.skip(i + 1));
            }
            if str_starts_with(self.tips[i].key.as_str(), start) {
                return Option::Some(self.tips[i].value.clone());
            }
            i = i + 1;
        }
        proof {
            assert(pairs.skip(pairs.len() as int) =~= Seq::<(Seq<char>, Seq<char>)>::empty());
        }
        Option::None
    }

    /// Get the information about the first shell alias matching `search_for`.
    pub fn get_shell_alias(&self, search_for: &str) -> (r: Option<ShellAlias>)
        ensures
            match r {
                Option::Some(a) => lookup_shell_alias(self@.shell_aliases, search_for@)
                    == Option::Some(a@),
                Option::None => lookup_shell_alias(self@.shell_aliases, search_for@) is None,
            },
    {
        let ghost aliases = self@.shell_aliases;
        let mut i: usize = 0;
        proof {
            assert(aliases.skip(0) =~= aliases);
        }
        while i < self.shell_aliases.len()
            invariant
                0 <= i <= self.shell_aliases@.len(),
                aliases == self.shell_aliases@.map_values(|a: ShellAlias| a@),
                lookup_shell_alias(aliases, search_for@) == lookup_shell_alias(
                    aliases.skip(i as int),
                    search_for@,
                ),
            decreases self.shell_aliases@.len() - i,
        {
            proof {
                assert(aliases[i as int] == self.shell_aliases@[i as int]@);
                assert(aliases.skip(i as int)[0] == aliases[i as int]);
                assert(aliases.skip(i as int).drop_first() =~= aliases.skip(i + 1));
            }
            if str_eq(self.shell_aliases[i].key.as_str(), search_for) {
                let a = ShellAlias {
                    key: self.shell_aliases[i].key.clone(),
                    command: self.shell_aliases[i].command.clone(),
                    quit_after_running: self.shell_aliases[i].quit_after_running,
                };
                return Option::Some(a);
            }
            i = i + 1;
        }
        proof {
            assert(aliases.skip(aliases.len() as int) =~= Seq::<ShellAliasV>::empty());
        }
        Option::None
    }

    /// Get the value of the first rem alias matching `search_for`.
    pub fn get_rem_alias_value(&self, search_for: &str) -> (r: Option<String>)
        ensures
            match r {
                Option::Some(v) => lookup_pair(self@.rem_aliases, search_for@) == Option::Some(
                    v@,
                ),
                Option::None => lookup_pair(self@.rem_aliases, search_for@) is None,
            },
    {
        let ghost pairs = self@.rem_aliases;
        let mut i: usize = 0;
        proof {
            assert(pairs.skip(0) =~= pairs);
        }
        while i < self.rem_aliases.len()
            invariant
                0 <= i <= self.rem_aliases@.len(),
                pairs == pair_views(self.rem_aliases@),
                lookup_pair(pairs, search_for@) == lookup_pair(pairs.skip(i as int), search_for@),
            decreases self.rem_aliases@.len() - i,
        {
            proof {
                assert(pairs[i as int] == (
                    self.rem_aliases@[i as int].key@,
                    self.rem_aliases@[i as int].value@,
                ));
                assert(pairs.skip(i as int)[0] == pairs[i as int]);
                assert(pairs.skip(i as int).drop_first() =~= pairs.skip(i + 1));
            }
            if str_eq(self.rem_aliases[i].key.as_str(), search_for) {
                return Option::Some(self.rem_aliases[i].value.clone());
            }
            i = i + 1;
        }
        proof {
            assert(pairs.skip(pairs.len() as int) =~= Seq::<(Seq<char>, Seq<char>)>::empty());
        }
        Option::None
    }

    /// Display all tips.
    pub fn display_tips(&self) -> (r: String)
        ensures
            r@ == display_pairs(self@.tips),
    {
        let ghost pairs = self@.tips;
        let mut r = String::new();
        let mut i: usize = 0;
        while i < self.tips.len()
            invariant
                0 <= i <= self.tips@.len(),
                pairs == pair_views(self.tips@),
                r@ == display_pairs(pairs.take(i as int)),
            decreases self.tips@.len() - i,
        {
            proof {
                assert(pairs[i as int] == (self.tips@[i as int].key@, self.tips@[i as int].value@));
                assert(pairs.take(i + 1).drop_last() =~= pairs.take(i as int));
                assert(pairs.take(i + 1).last() == pairs[i as int]);
            }
            r.append("   ");
            r.append(self.tips[i].key.as_str());
            r.append(" : ");
            r.append(self.tips[i].value.as_str());
            r.append("\n");
            i = i + 1;
        }
        proof {
            assert(pairs.take(pairs.len() as int) =~= pairs);
        }
        r
    }

    /// Display all rem aliases.
    pub fn display_rem_aliases(&self) -> (r: String)
        ensures
            r@ == display_pairs(self@.rem_aliases),
    {
        let ghost pairs = self@.rem_aliases;
        let mut r = String::new();
        let mut i: usize = 0;
        while i < self.rem_aliases.len()
            invariant
                0 <= i <= self.rem_aliases@.len(),
                pairs == pair_views(self.rem_aliases@),
                r@ == display_pairs(pairs.take(i as int)),
            decreases self.rem_aliases@.len() - i,
        {
            proof {
                assert(pairs[i as int] == (
                    self.rem_aliases@[i as int].key@,
                    self.rem_aliases@[i as int].value@,
                ));
                assert(pairs.take(i + 1).drop_last() =~= pairs.take(i as int));
                assert(pairs.take(i + 1).last() == pairs[i as int]);
            }
            r.append("   ");
            r.append(self.rem_aliases[i].key.as_str());
            r.append(" : ");
            r.append(self.rem_aliases[i].value.as_str());
            r.append("\n");
            i = i + 1;
        }
        proof {
            assert(pairs.take(pairs.len() as int) =~= pairs);
        }
        r
    }

    /// Display all shell aliases.
    pub fn display_shell_aliases(&self) -> (r: String)
        ensures
            r@ == display_shell_aliases_spec(self@.shell_aliases),
    {
        let ghost aliases = self@.shell_aliases;
        let mut r = String::new();
        let mut i: usize = 0;
        while i < self.shell_aliases.len()
            invariant
                0 <= i <= self.shell_aliases@.len(),
                aliases == self.shell_aliases@.map_values(|a: ShellAlias| a@),
                r@ == display_shell_aliases_spec(aliases.take(i as int)),
            decreases self.shell_aliases@.len() - i,
        {
            proof {
                assert(aliases[i as int] == self.shell_aliases@[i as int]@);
                assert(aliases.take(i + 1).drop_last() =~= aliases.take(i as int));
                assert(aliases.take(i + 1).last() == aliases[i as int]);
            }
            r.append("   ");
            r.append(self.shell_aliases[i].key.as_str());
            if self.shell_aliases[i].quit_after_running {
                r.append(" (Q)");
            }
            r.append(" : ");
            r.append(self.shell_aliases[i].command.as_str());
            r.append("\n");
            i = i + 1;
        }
        proof {
            assert(aliases.take(aliases.len() as int) =~= aliases);
        }
        r
    }

    /// Set the todo file path.
    pub fn set_todo_path(&mut self, path: String)
        ensures
            final(self)@ == (ConfigV { todo_path: path@, ..old(self)@ }),
    {
        self.todo_path = path;
    }

    /// Set the command prefix the todo editor is launched with.
    pub fn set_ted_command_prefix(&mut self, prefix: String)
        ensures
            final(self)@ == (ConfigV { ted_command_prefix: prefix@, ..old(self)@ }),
    {
        self.ted_command_prefix = prefix;
    }

    /// Set the score division factor text.
    pub fn set_score_divby(&mut self, divby: String)
        ensures
            final(self)@ == (ConfigV { score_divby: divby@, ..old(self)@ }),
    {
        self.score_divby = divby;
    }

    /// Set the score formula number.
    pub fn set_score_formula_number(&mut self, number: String)
        ensures
            final(self)@ == (ConfigV { score_formula_number: number@, ..old(self)@ }),
    {
        self.score_formula_number = number;
    }

    /// The todo file path.
    pub fn todo_path_value(&self) -> (r: &String)
        ensures
            r@ == self@.todo_path,
    {
        &self.todo_path
    }

    /// The command prefix the todo editor is launched with.
    pub fn ted_prefix_value(&self) -> (r: &String)
        ensures
            r@ == self@.ted_command_prefix,
    {
        &self.ted_command_prefix
    }

    /// The command suffix the todo editor is launched with.
    pub fn ted_suffix_value(&self) -> (r: &String)
        ensures
            r@ == self@.ted_command_suffix,
    {
        &self.ted_command_suffix
    }

    /// Get all positive score categories.
    pub fn score_positive(&self) -> (r: Vec<String>)
        ensures
            views_of(r@) == self@.score_positive,
    {
        let mut r: Vec<String> = Vec::new();
        let mut i: usize = 0;
        while i < self.score_positive.len()
            invariant
                0 <= i <= self.score_positive@.len(),
                views_of(r@) =~= views_of(self.score_positive@).take(i as int),
            decreases self.score_positive@.len() - i,
        {
            let s = self.score_positive[i].clone();
            proof {
                assert(views_of(r@.push(s)) =~= views_of(r@).push(s@));
            }
            r.push(s);
            i = i + 1;
        }
        proof {
            assert(views_of(self.score_positive@).take(self.score_positive@.len() as int)
                =~= views_of(self.score_positive@));
        }
        r
    }

    /// Get all negative score categories.
    pub fn score_negative(&self) -> (r: Vec<String>)
        ensures
            views_of(r@) == self@.score_negative,
    {
        let mut r: Vec<String> = Vec::new();
        let mut i: usize = 0;
        while i < self.score_negative.len()
            invariant
                0 <= i <= self.score_negative@.len(),
                views_of(r@) =~= views_of(self.score_negative@).take(i as int),
            decreases self.score_negative@.len() - i,
        {
            let s = self.score_negative[i].clone();
            proof {
                assert(views_of(r@.push(s)) =~= views_of(r@).push(s@));
            }
            r.push(s);
            i = i + 1;
        }
        proof {
            assert(views_of(self.score_negative@).take(self.score_negative@.len() as int)
                =~= views_of(self.score_negative@));
        }
        r
    }
}

} // verus!
