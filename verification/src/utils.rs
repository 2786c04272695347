//! Utilities: line splitting of file contents, editing the last line of a
//! text, todo IDs, markdown strikethrough, the trailing portion of a line,
//! and the clock- and home-directory-backed helpers.

use crate::text::{
    find_char, first_occ, split_all, split_spec, trim_spec, trim_str, views_of,
};
use vstd::prelude::*;

verus! {

// ---------------------------------------------------------------------------
// Lines of a text
// ---------------------------------------------------------------------------

/// One carriage return stripped from the end of a line, as `str::lines` does.
pub open spec fn strip_cr(l: Seq<char>) -> Seq<char> {
    if l.len() > 0 && l.last() == '\r' {
        l.drop_last()
    } else {
        l
    }
}

/// The lines of a text: split at every line feed, a final line ending is
/// optional, and a carriage return before a line feed is stripped.
pub open spec fn lines_spec(s: Seq<char>) -> Seq<Seq<char>> {
    if s.len() == 0 {
        Seq::<Seq<char>>::empty()
    } else {
        let raw = split_spec(s, '\n');
        let kept = if s.last() == '\n' {
            raw.drop_last()
        } else {
            raw
        };
        kept.map_values(|l: Seq<char>| strip_cr(l))
    }
}

/// One line with a possible carriage return stripped from its end.
fn strip_cr_exec(l: &String) -> (r: String)
    ensures
        r@ == strip_cr(l@),
{
    let n = l.as_str().unicode_len();
    if n > 0 && l.as_str().get_char(n - 1) == '\r' {
        proof {
            assert(l@.subrange(0, l@.len() - 1) =~= l@.drop_last());
        }
        l.as_str().substring_char(0, n - 1).to_owned()
    } else {
        l.clone()
    }
}

/// The lines of `s`.
pub fn split_lines(s: &str) -> (r: Vec<String>)
    ensures
        views_of(r@) == lines_spec(s@),
{
    let n = s.unicode_len();
    if n == 0 {
        let r: Vec<String> = Vec::new();
        proof {
            assert(views_of(r@) =~= lines_spec(s@));
        }
        return r;
    }
    let raw = split_all(s, '\n');
    let keep: usize = if s.get_char(n - 1) == '\n' {
        proof {
            assert(split_spec(s@, '\n').len() >= 1) by {
                crate::text::lemma_split_len(s@, '\n');
            }
        }
        raw.len() - 1
    } else {
        raw.len()
    };
    let ghost kept = if s@.last() == '\n' {
        views_of(raw@).drop_last()
    } else {
        views_of(raw@)
    };
    proof {
        assert(keep as int == kept.len());
        assert(forall|j: int| 0 <= j < kept.len() ==> kept[j] == views_of(raw@)[j]);
    }
    let mut r: Vec<String> = Vec::new();
    let mut i: usize = 0;
    while i < keep
        invariant
            0 <= i <= keep <= raw@.len(),
            keep as int == kept.len(),
            forall|j: int| 0 <= j < kept.len() ==> kept[j] == views_of(raw@)[j],
            views_of(r@) =~= kept.map_values(|l: Seq<char>| strip_cr(l)).take(i as int),
        decreases keep - i,
    {
        let piece = strip_cr_exec(&raw[i]);
        proof {
            assert(views_of(raw@)[i as int] == raw@[i as int]@);
            assert(views_of(r@.push(piece)) =~= views_of(r@).push(piece@));
            let m = kept.map_values(|l: Seq<char>| strip_cr(l));
            assert(m.take(i + 1) =~= m.take(i as int).push(m[i as int]));
        }
        r.push(piece);
        i = i + 1;
    }
    proof {
        let m = kept.map_values(|l: Seq<char>| strip_cr(l));
        assert(m.take(m.len() as int) =~= m);
        assert(views_of(r@) =~= lines_spec(s@));
    }
    r
}

// ---------------------------------------------------------------------------
// Editing the last line of a text
// ---------------------------------------------------------------------------

/// Lines re-assembled into file contents, one line feed after each.
pub open spec fn rebuilt_lines(lines: Seq<Seq<char>>) -> Seq<char>
    decreases lines.len(),
{
    if lines.len() == 0 {
        Seq::<char>::empty()
    } else {
        rebuilt_lines(lines.drop_last()) + lines.last() + "\n"@
    }
}

/// The contents with the last line replaced (or, when `append` is set, with
/// `new_last_line` added onto it); nothing for contents without a line.
pub open spec fn edited_contents(contents: Seq<char>, new_last_line: Seq<char>, append: bool) -> Option<
    Seq<char>,
> {
    let ls = lines_spec(contents);
    if ls.len() == 0 {
        Option::None
    } else {
        let last = if append {
            ls.last() + new_last_line
        } else {
            new_last_line
        };
        Option::Some(rebuilt_lines(ls.drop_last()) + last + "\n"@)
    }
}

/// Edit the last line of a text: replace it with `new_last_line`, or, if
/// `append` is set, add `new_last_line` onto it. Returns the new contents,
/// or nothing when the text has no lines at all.
pub fn edit_last_line_of_file(contents: &str, new_last_line: &str, append: bool) -> (r: Option<
    String,
>)
    ensures
        match r {
            Option::Some(s) => edited_contents(contents@, new_last_line@, append)
                == Option::Some(s@),
            Option::None => edited_contents(contents@, new_last_line@, append) is None,
        },
{
    let lines = split_lines(contents);
    if lines.len() == 0 {
        return Option::None;
    }
    let ghost ls = lines_spec(contents@);
    let mut newcontents = String::new();
    let mut i: usize = 0;
    while i < lines.len() - 1
        invariant
            0 <= i <= lines@.len() - 1,
            views_of(lines@) == ls,
            ls.len() == lines@.len(),
            newcontents@ == rebuilt_lines(ls.take(i as int)),
        decreases lines@.len() - 1 - i,
    {
        proof {
            assert(ls.take(i + 1).drop_last() =~= ls.take(i as int));
            assert(ls.take(i + 1).last() == views_of(lines@)[i as int]);
            assert(views_of(lines@)[i as int] == lines@[i as int]@);
        }
        newcontents.append(lines[i].as_str());
        newcontents.append("\n");
        i = i + 1;
    }
    proof {
        assert(ls.take(ls.len() - 1) =~= ls.drop_last());
    }
    if append {
        proof {
            assert(views_of(lines@)[lines@.len() - 1] == lines@[lines@.len() - 1]@);
            assert(ls.last() == lines@[lines@.len() - 1]@);
        }
        newcontents.append(lines[lines.len() - 1].as_str());
    }
    newcontents.append(new_last_line);
    newcontents.append("\n");
    proof {
        let lastpiece = if append {
            ls.last() + new_last_line@
        } else {
            new_last_line@
        };
        assert(newcontents@ =~= rebuilt_lines(ls.drop_last()) + lastpiece + "\n"@);
    }
    Option::Some(newcontents)
}

// ---------------------------------------------------------------------------
// Todo IDs
// ---------------------------------------------------------------------------

/// The letter after `c`.
pub open spec fn succ_char(c: char) -> char {
    ((c as u8) + 1) as char
}

/// The ID after `s`, counting through strings of lower-case letters: the last
/// letter is incremented, a `z` wraps to `a` and carries, and a carry out of
/// the front prepends an `a`.
pub open spec fn next_id_spec(s: Seq<char>) -> Seq<char>
    decreases s.len(),
{
    if s.len() == 0 {
        seq!['a']
    } else if s.last() == 'z' {
        next_id_spec(s.drop_last()).push('a')
    } else {
        s.drop_last().push(succ_char(s.last()))
    }
}

proof fn lemma_next_id_all_z(s: Seq<char>)
    requires
        forall|j: int| 0 <= j < s.len() ==> s[j] == 'z',
    ensures
        next_id_spec(s) == Seq::new(s.len() + 1, |i: int| 'a'),
    decreases s.len(),
{
    if s.len() == 0 {
        assert(next_id_spec(s) =~= Seq::new(1, |i: int| 'a'));
    } else {
        lemma_next_id_all_z(s.drop_last());
        assert(next_id_spec(s) =~= Seq::new(s.len() + 1, |i: int| 'a'));
    }
}

proof fn lemma_next_id_carry(s: Seq<char>, p: int)
    requires
        0 <= p < s.len(),
        s[p] != 'z',
        forall|j: int| p < j < s.len() ==> s[j] == 'z',
    ensures
        next_id_spec(s) == s.take(p).push(succ_char(s[p])) + Seq::new(
            (s.len() - 1 - p) as nat,
            |i: int| 'a',
        ),
    decreases s.len(),
{
    if p == s.len() - 1 {
        assert(s.drop_last() =~= s.take(p));
        assert(next_id_spec(s) =~= s.take(p).push(succ_char(s[p])) + Seq::new(0, |i: int| 'a'));
    } else {
        assert(s.last() == 'z');
        assert(s.drop_last()[p] == s[p]);
        assert forall|j: int| p < j < s.drop_last().len() implies s.drop_last()[j] == 'z' by {
            assert(s.drop_last()[j] == s[j]);
        }
        lemma_next_id_carry(s.drop_last(), p);
        assert(s.drop_last().take(p) =~= s.take(p));
        assert(next_id_spec(s) =~= s.take(p).push(succ_char(s[p])) + Seq::new(
            (s.len() - 1 - p) as nat,
            |i: int| 'a',
        ));
    }
}

/// Generate a new ID based on the prior one, counting through strings of
/// lower-case letters ("a", "b", ..., "z", "aa", ..., "zz", "aaa", ...).
pub fn generate_next_id(currid: String) -> (r: String)
    requires
        forall|j: int| 0 <= j < currid@.len() ==> 'a' <= #[trigger] currid@[j] <= 'z',
    ensures
        r@ == next_id_spec(currid@),
{
    let s = currid.as_str();
    let n = s.unicode_len();
    // Find the last position that is not a 'z'; everything after it carries.
    let mut p: usize = n;
    while p > 0 && s.get_char(p - 1) == 'z'
        invariant
            0 <= p <= n == s@.len(),
            forall|j: int| p <= j < s@.len() ==> s@[j] == 'z',
        decreases p,
    {
        p = p - 1;
    }
    let mut r = String::new();
    if p == 0 {
        // Every letter carries: one more 'a' than the current length.
        proof {
            lemma_next_id_all_z(s@);
        }
        r.push('a');
        proof {
            assert(r@ =~= Seq::new(1, |k: int| 'a'));
        }
        let mut i: usize = 0;
        while i < n
            invariant
                0 <= i <= n,
                r@ =~= Seq::new((i + 1) as nat, |k: int| 'a'),
            decreases n - i,
        {
            r.push('a');
            proof {
                assert(r@ =~= Seq::new((i + 2) as nat, |k: int| 'a'));
            }
            i = i + 1;
        }
        proof {
            assert(r@ =~= next_id_spec(currid@));
        }
    } else {
        proof {
            lemma_next_id_carry(s@, p - 1);
        }
        let mut i: usize = 0;
        while i < p - 1
            invariant
                0 <= i <= p - 1 < n == s@.len(),
                forall|j: int| 0 <= j < s@.len() ==> 'a' <= #[trigger] s@[j] <= 'z',
                r@ =~= s@.take(i as int),
            decreases p - 1 - i,
        {
            r.push(s.get_char(i));
            proof {
                assert(r@ =~= s@.take(i + 1));
            }
            i = i + 1;
        }
        let c = s.get_char(p - 1);
        assert('a' <= c && c < 'z');
        let next: char = ((c as u8) + 1) as char;
        r.push(next);
        proof {
            assert(r@ =~= s@.take(p - 1).push(succ_char(s@[p - 1])) + Seq::new(0, |t: int| 'a'));
        }
        let mut k: usize = p;
        while k < n
            invariant
                p <= k <= n == s@.len(),
                p >= 1,
                r@ =~= s@.take(p - 1).push(succ_char(s@[p - 1])) + Seq::new(
                    (k - p) as nat,
                    |t: int| 'a',
                ),
            decreases n - k,
        {
            r.push('a');
            proof {
                assert(r@ =~= s@.take(p - 1).push(succ_char(s@[p - 1])) + Seq::new(
                    (k + 1 - p) as nat,
                    |t: int| 'a',
                ));
            }
            k = k + 1;
        }
        proof {
            assert(r@ =~= next_id_spec(currid@));
        }
    }
    r
}

// ---------------------------------------------------------------------------
// Trailing portion of a line
// ---------------------------------------------------------------------------

/// What is left of `s` after consuming `k` space characters (and everything
/// before them).
pub open spec fn after_spaces(s: Seq<char>, k: nat) -> Seq<char>
    decreases s.len(),
{
    if k == 0 || s.len() == 0 {
        s
    } else if s[0] == ' ' {
        after_spaces(s.drop_first(), (k - 1) as nat)
    } else {
        after_spaces(s.drop_first(), k)
    }
}

/// The trailing portion of a line of input: everything after the `n - 1`-th
/// word of the trimmed line.
pub open spec fn trailing_spec(line: Seq<char>, n: nat) -> Seq<char> {
    after_spaces(
        trim_spec(line),
        if n == 0 {
            0
        } else {
            (n - 1) as nat
        },
    )
}

/// Get the trailing nth section of a line of input (everything after the
/// `n - 1`-th word). For example, if `n` is 2, get everything after the
/// first word.
pub fn trailing_portion_of_input(line: &str, n: usize) -> (r: String)
    ensures
        r@ == trailing_spec(line@, n as nat),
{
    let t = trim_str(line);
    let needed: usize = if n == 0 {
        0
    } else {
        n - 1
    };
    let len = t.unicode_len();
    let mut i: usize = 0;
    let mut g: usize = 0;
    proof {
        assert(t@.skip(0) =~= t@);
    }
    while i < len && g < needed
        invariant
            0 <= i <= len == t@.len(),
            g <= needed,
            after_spaces(t@, needed as nat) == after_spaces(t@.skip(i as int), (needed - g) as nat),
        decreases len - i,
    {
        let ghost u = t@.skip(i as int);
        proof {
            assert(u[0] == t@[i as int]);
            assert(u.drop_first() =~= t@.skip(i + 1));
        }
        if t.get_char(i) == ' ' {
            g = g + 1;
        }
        i = i + 1;
    }
    proof {
        if g == needed {
            assert(after_spaces(t@.skip(i as int), 0) == t@.skip(i as int));
        } else {
            assert(i == len);
            assert(t@.skip(i as int) =~= Seq::<char>::empty());
            assert(after_spaces(Seq::<char>::empty(), (needed - g) as nat)
                =~= Seq::<char>::empty());
        }
        assert(t@.subrange(i as int, len as int) =~= t@.skip(i as int));
    }
    t.substring_char(i, len).to_owned()
}

// ---------------------------------------------------------------------------
// Markdown strikethrough
// ---------------------------------------------------------------------------

/// `s` with every tilde removed.
pub open spec fn remove_tildes(s: Seq<char>) -> Seq<char>
    decreases s.len(),
{
    if s.len() == 0 {
        s
    } else if s.last() == '~' {
        remove_tildes(s.drop_last())
    } else {
        remove_tildes(s.drop_last()).push(s.last())
    }
}

/// A line of markdown with its strikethrough toggled. A line that holds a
/// tilde is uncleared: every tilde is removed. Otherwise the line is cleared:
/// the text two characters after the first dash is wrapped in `~~` pairs, a
/// short line gets the closing pair only, and a line without a dash is
/// wrapped whole.
pub open spec fn strikethrough_spec(s: Seq<char>) -> Seq<char> {
    if count_tildes_positive(s) {
        remove_tildes(s)
    } else {
        let i = first_occ(s, '-');
        if i == s.len() {
            "~~"@ + s + "~~"@
        } else if i + 2 < s.len() {
            s.take(i + 2) + "~~"@ + s.skip(i + 2) + "~~"@
        } else {
            s + "~~"@
        }
    }
}

/// Whether `s` holds a tilde.
pub open spec fn count_tildes_positive(s: Seq<char>) -> bool {
    first_occ(s, '~') < s.len()
}

/// Strikethrough a line of text in markdown: either clear (strikethrough) or
/// unclear (remove strikethrough), depending on whether the line is already
/// cleared.
pub fn strikethrough_text(target: &str) -> (r: String)
    ensures
        r@ == strikethrough_spec(target@),
{
    let n = target.unicode_len();
    let tilde_at = find_char(target, '~');
    if tilde_at < n {
        // Unclear (remove strikethrough).
        let mut r = String::new();
        let mut i: usize = 0;
        while i < n
            invariant
                0 <= i <= n == target@.len(),
                r@ == remove_tildes(target@.take(i as int)),
            decreases n - i,
        {
            let c = target.get_char(i);
            proof {
                assert(target@.take(i + 1).drop_last() =~= target@.take(i as int));
                assert(target@.take(i + 1).last() == target@[i as int]);
            }
            if c != '~' {
                r.push(c);
            }
            i = i + 1;
        }
        proof {
            assert(target@.take(n as int) =~= target@);
        }
        r
    } else {
        // Clear (strikethrough): wrap the contents after the first dash.
        let dash_at = find_char(target, '-');
        proof {
            crate::text::lemma_first_occ_props(target@, '-');
        }
        let mut r = String::new();
        if dash_at == n {
            r.append("~~");
            r.append(target);
            r.append("~~");
        } else if n - dash_at > 2 {
            proof {
                assert(target@.subrange(0, dash_at + 2) =~= target@.take(dash_at + 2));
                assert(target@.subrange(dash_at + 2, n as int) =~= target@.skip(dash_at + 2));
            }
            r.append(target.substring_char(0, dash_at + 2));
            r.append("~~");
            r.append(target.substring_char(dash_at + 2, n));
            r.append("~~");
        } else {
            r.append(target);
            r.append("~~");
        }
        r
    }
}

// ---------------------------------------------------------------------------
// Clock and home directory
// ---------------------------------------------------------------------------

/// Relies on chrono::Local::now and chrono's strftime-style formatting: the
/// current local date and time, rendered as year/month/day hour:minute. The
/// result depends on the clock, so nothing is promised of it.
#[verifier::external_body]
pub fn get_time_formatted() -> String {
    chrono::Local::now().format("%Y/%m/%d %H:%M").to_string()
}

/// Relies on chrono::Local::now and chrono's strftime-style formatting: the
/// current local date, rendered as year/month/day. The result depends on the
/// clock, so nothing is promised of it.
#[verifier::external_body]
pub fn get_date_only_formatted() -> String {
    chrono::Local::now().format("%Y/%m/%d").to_string()
}

/// Relies on home::home_dir: the platform's home directory for the current
/// user, as text; nothing when the platform reports none or the path is not
/// valid text. The result depends on the environment, so nothing is promised
/// of it.
#[verifier::external_body]
fn home_dir_text() -> Option<String> {
    match home::home_dir() {
        Some(p) => p.into_os_string().into_string().ok(),
        None => None,
    }
}

/// Relies on std::path::PathBuf::push: `name` appended below `base` with the
/// platform's separator; empty when the joined path is not valid text. The
/// separator depends on the platform, so nothing is promised of the result.
#[verifier::external_body]
fn path_join(base: &str, name: &str) -> String {
    let mut p = std::path::PathBuf::from(base);
    p.push(name);
    p.into_os_string().into_string().unwrap_or_default()
}

/// Get the current config directory (for the .remrc file): the home
/// directory plus ".remrc", or empty when no usable home directory exists.
pub fn get_config_path() -> String {
    match home_dir_text() {
        Option::Some(h) => {
            if h.as_str().unicode_len() > 0 {
                path_join(h.as_str(), ".remrc")
            } else {
                String::new()
            }
        },
        Option::None => String::new(),
    }
}

} // verus!
