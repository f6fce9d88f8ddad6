//! Further completion helpers: fuzzy and case-insensitive matching, ranked candidates,
//! multi-column layout, described commands and contextual hints.

use vstd::prelude::*;

use crate::completer::{Pair, ShellHelper};
use crate::introspection::first_index_of;
use crate::text::{byte_len, chars_of, lowercase, split_whitespace, split_ws, str_eq, to_lowercase};

verus! {

/// Whether `needle` occurs in `hay` as a contiguous run.
pub open spec fn contains_seq(hay: Seq<char>, needle: Seq<char>) -> bool {
    exists|i: int|
        0 <= i <= hay.len() - needle.len() && #[trigger] hay.subrange(i, i + needle.len())
            == needle
}

/// How many characters of `p` are found, in order, by scanning `c` left to right and taking the
/// first occurrence of each after the previous one.
pub open spec fn greedy_count(p: Seq<char>, c: Seq<char>) -> nat
    decreases p.len(),
{
    if p.len() == 0 {
        0
    } else {
        let i = first_index_of(c, p[0]);
        if i >= c.len() {
            0
        } else {
            1 + greedy_count(p.drop_first(), c.skip(i + 1))
        }
    }
}

/// Whether that scan continues past a matched character that takes more than one byte, the
/// case in which the byte-indexed scan slices a string inside a character.
pub open spec fn greedy_splits_char(p: Seq<char>, c: Seq<char>) -> bool
    decreases p.len(),
{
    if p.len() <= 1 {
        false
    } else {
        let i = first_index_of(c, p[0]);
        if i >= c.len() {
            false
        } else {
            (p[0] as u32) >= 0x80 || greedy_splits_char(p.drop_first(), c.skip(i + 1))
        }
    }
}

/// Whether the fuzzy score of the lower-cased pattern `p` against the lower-cased candidate `c`
/// is computed without slicing inside a character or overflowing.
pub open spec fn fuzzy_defined(p: Seq<char>, c: Seq<char>) -> bool {
    ||| p.is_prefix_of(c)
    ||| contains_seq(c, p)
    ||| !greedy_splits_char(p, c) && 100 * greedy_count(p, c) <= usize::MAX
}

/// The fuzzy score of the lower-cased pattern `p` against the lower-cased candidate `c`: a
/// prefix scores 1000 plus the pattern's length in bytes, a substring 500 plus that length, a
/// scattered subsequence 100 per character, and anything else 0.
pub open spec fn fuzzy_value(p: Seq<char>, c: Seq<char>) -> int {
    if p.is_prefix_of(c) {
        1000 + byte_len(p)
    } else if contains_seq(c, p) {
        500 + byte_len(p)
    } else if greedy_count(p, c) == p.len() {
        100 * p.len() as int
    } else {
        0
    }
}

/// Whether `needle` occurs in `hay` (`str::contains`).
pub fn contains_chars(hay: &Vec<char>, needle: &Vec<char>) -> (b: bool)
    ensures
        b == contains_seq(hay@, needle@),
{
    if needle.len() > hay.len() {
        return false;
    }
    let hl = hay.len();
    let last = hl - needle.len();
    let mut i: usize = 0;
    loop
        invariant
            hl == hay@.len(),
            i <= last,
            last == hay@.len() - needle@.len(),
            needle@.len() <= hay@.len(),
            forall|k: int| 0 <= k < i ==> #[trigger] hay@.subrange(k, k + needle@.len()) != needle@,
        decreases last - i,
    {
        let mut j: usize = 0;
        let mut same = true;
        while same && j < needle.len()
            invariant
                hl == hay@.len(),
                i <= last,
                last == hay@.len() - needle@.len(),
                needle@.len() <= hay@.len(),
                i + needle@.len() <= hay@.len(),
                j <= needle@.len(),
                forall|q: int| 0 <= q < j ==> hay@[i + q] == needle@[q],
                !same ==> j < needle@.len() && hay@[i + j] != needle@[j as int],
            decreases needle.len() - j, if same { 1int } else { 0int },
        {
            if hay[i + j] == needle[j] {
                j = j + 1;
            } else {
                same = false;
            }
        }
        if same {
            assert(hay@.subrange(i as int, i + needle@.len()) =~= needle@);
            return true;
        }
        assert(hay@.subrange(i as int, i + needle@.len())[j as int] != needle@[j as int]);
        if i == last {
            return false;
        }
        i = i + 1;
    }
}

/// The fuzzy score of an already lower-cased pattern against an already lower-cased candidate.
pub fn fuzzy_score_lowered(p: &str, c: &str) -> (score: usize)
    requires
        fuzzy_defined(p@, c@),
        byte_len(p@) <= isize::MAX,
    ensures
        score == fuzzy_value(p@, c@),
{
    let pc = chars_of(p);
    let cc = chars_of(c);
    if crate::text::starts_with(c, p) {
        return 1000 + p.len();
    }
    if contains_chars(&cc, &pc) {
        return 500 + p.len();
    }
    let mut score: usize = 0;
    let mut last: usize = 0;
    let mut k: usize = 0;
    proof {
        assert(cc@.skip(0) =~= cc@);
        assert(pc@.skip(0) =~= pc@);
    }
    while k < pc.len()
        invariant
            k <= pc@.len(),
            last <= cc@.len(),
            pc@ == p@,
            cc@ == c@,
            score == 100 * k,
            k + greedy_count(pc@.skip(k as int), cc@.skip(last as int)) == greedy_count(p@, c@),
            greedy_count(p@, c@) == p@.len() <==> greedy_count(pc@.skip(k as int), cc@.skip(
                last as int,
            )) == pc@.len() - k,
            100 * greedy_count(p@, c@) <= usize::MAX,
            !p@.is_prefix_of(c@),
            !contains_seq(c@, p@),
        decreases pc.len() - k,
    {
        let ch = pc[k];
        let ghost rest = cc@.skip(last as int);
        let ghost pr = pc@.skip(k as int);
        assert(pr[0] == ch);
        // Find `ch` in the rest of the candidate.
        let mut idx: usize = last;
        proof {
            crate::introspection::lemma_first_index_bounds(rest, ch);
        }
        while idx < cc.len() && cc[idx] != ch
            invariant
                last <= idx <= cc@.len(),
                rest == cc@.skip(last as int),
                forall|q: int| last <= q < idx ==> cc@[q] != ch,
                idx - last <= first_index_of(rest, ch),
                first_index_of(rest, ch) <= rest.len(),
                forall|q: int| 0 <= q < first_index_of(rest, ch) ==> rest[q] != ch,
                first_index_of(rest, ch) < rest.len() ==> rest[first_index_of(rest, ch)] == ch,
            decreases cc.len() - idx,
        {
            assert(rest[idx - last] == cc@[idx as int]);
            idx = idx + 1;
        }
        if idx == cc.len() {
            proof {
                assert(first_index_of(rest, ch) >= rest.len());
                assert(greedy_count(pr, rest) == 0);
            }
            return 0;
        }
        proof {
            assert(rest[idx - last] == cc@[idx as int]);
            assert(first_index_of(rest, ch) == idx - last);
            assert(pr.drop_first() =~= pc@.skip(k + 1));
            assert(rest.skip(idx - last + 1) =~= cc@.skip(idx + 1));
        }
        score = score + 100;
        last = idx + 1;
        k = k + 1;
    }
    proof {
        assert(pc@.skip(k as int).len() == 0);
    }
    score
}

/// The greedy scan of [`greedy_count`] and [`greedy_splits_char`], computed.
fn greedy_scan(p: &Vec<char>, c: &Vec<char>) -> (r: (usize, bool))
    ensures
        r.0 == greedy_count(p@, c@),
        r.1 == greedy_splits_char(p@, c@),
{
    let mut count: usize = 0;
    let mut splits = false;
    let mut last: usize = 0;
    let mut k: usize = 0;
    proof {
        assert(c@.skip(0) =~= c@);
        assert(p@.skip(0) =~= p@);
    }
    while k < p.len()
        invariant
            k <= p@.len(),
            last <= c@.len(),
            count == k,
            k + greedy_count(p@.skip(k as int), c@.skip(last as int)) == greedy_count(p@, c@),
            greedy_splits_char(p@, c@) == (splits || greedy_splits_char(
                p@.skip(k as int),
                c@.skip(last as int),
            )),
        decreases p.len() - k,
    {
        let ch = p[k];
        let ghost rest = c@.skip(last as int);
        let ghost pr = p@.skip(k as int);
        assert(pr[0] == ch);
        let mut idx: usize = last;
        proof {
            crate::introspection::lemma_first_index_bounds(rest, ch);
        }
        while idx < c.len() && c[idx] != ch
            invariant
                last <= idx <= c@.len(),
                rest == c@.skip(last as int),
                forall|q: int| last <= q < idx ==> c@[q] != ch,
                idx - last <= first_index_of(rest, ch),
                first_index_of(rest, ch) <= rest.len(),
                forall|q: int| 0 <= q < first_index_of(rest, ch) ==> rest[q] != ch,
                first_index_of(rest, ch) < rest.len() ==> rest[first_index_of(rest, ch)] == ch,
            decreases c.len() - idx,
        {
            assert(rest[idx - last] == c@[idx as int]);
            idx = idx + 1;
        }
        if idx == c.len() {
            proof {
                assert(first_index_of(rest, ch) >= rest.len());
            }
            return (count, splits);
        }
        proof {
            assert(rest[idx - last] == c@[idx as int]);
            assert(first_index_of(rest, ch) == idx - last);
            assert(pr.drop_first() =~= p@.skip(k + 1));
            assert(rest.skip(idx - last + 1) =~= c@.skip(idx + 1));
        }
        if k + 1 < p.len() && (ch as u32) >= 0x80 {
            splits = true;
        }
        count = count + 1;
        last = idx + 1;
        k = k + 1;
    }
    (count, splits)
}

/// Simple fuzzy matching score of `pattern` against `candidate`, both compared in lower case.
pub fn fuzzy_score(pattern: &str, candidate: &str) -> (score: usize)
    requires
        fuzzy_defined(lowercase(pattern@), lowercase(candidate@)),
    ensures
        score == fuzzy_value(lowercase(pattern@), lowercase(candidate@)),
{
    let p = to_lowercase(pattern);
    let c = to_lowercase(candidate);
    fuzzy_score_lowered(p.as_str(), c.as_str())
}

/// Whether the fuzzy score of an already lower-cased pattern and candidate is defined.
pub fn fuzzy_is_defined(p: &str, c: &str) -> (b: bool)
    ensures
        b == fuzzy_defined(p@, c@),
{
    if crate::text::starts_with(c, p) {
        return true;
    }
    let pc = chars_of(p);
    let cc = chars_of(c);
    if contains_chars(&cc, &pc) {
        return true;
    }
    let (count, splits) = greedy_scan(&pc, &cc);
    !splits && count <= usize::MAX / 100
}

/// The fuzzy score of `pattern` against `candidate`, or `None` where the score is not defined
/// (where computing it would slice inside a character or overflow).
pub fn try_fuzzy_score(pattern: &str, candidate: &str) -> (score: Option<usize>)
    ensures
        match score {
            Some(v) => fuzzy_defined(lowercase(pattern@), lowercase(candidate@)) && v == fuzzy_value(
                lowercase(pattern@),
                lowercase(candidate@),
            ),
            None => !fuzzy_defined(lowercase(pattern@), lowercase(candidate@)),
        },
{
    let p = to_lowercase(pattern);
    let c = to_lowercase(candidate);
    if fuzzy_is_defined(p.as_str(), c.as_str()) {
        Some(fuzzy_score(pattern, candidate))
    } else {
        None
    }
}


/// `n` spaces.
pub open spec fn spaces(n: int) -> Seq<char> {
    Seq::new(if n > 0 { n as nat } else { 0 }, |i: int| ' ')
}

/// The largest byte length among `items`, or 0 for none.
pub open spec fn max_byte_len(items: Seq<Seq<char>>) -> int
    decreases items.len(),
{
    if items.len() == 0 {
        0
    } else {
        let m = max_byte_len(items.drop_last());
        if byte_len(items.last()) > m {
            byte_len(items.last())
        } else {
            m
        }
    }
}

/// The first `items.len()` cells of a grid with `cols` columns of `width` bytes each: every item
/// padded with spaces to `width` bytes, and a line break after every `cols`-th item.
pub open spec fn grid(items: Seq<Seq<char>>, width: int, cols: int) -> Seq<char>
    decreases items.len(),
{
    if items.len() == 0 {
        Seq::empty()
    } else {
        let cell = items.last() + spaces(width - byte_len(items.last()));
        let line_end = if (items.len() as int) % cols == 0 {
            seq!['\n']
        } else {
            Seq::empty()
        };
        grid(items.drop_last(), width, cols) + cell + line_end
    }
}

/// `items` laid out in as many columns as fit in `term_width` bytes (at least one), each column
/// two bytes wider than the longest item.
pub open spec fn column_layout(items: Seq<Seq<char>>, term_width: int) -> Seq<char> {
    if items.len() == 0 {
        Seq::empty()
    } else {
        let width = max_byte_len(items) + 2;
        let cols = if term_width / width >= 1 {
            term_width / width
        } else {
            1
        };
        grid(items, width, cols)
    }
}

proof fn lemma_max_byte_len(items: Seq<Seq<char>>)
    ensures
        forall|i: int| 0 <= i < items.len() ==> byte_len(#[trigger] items[i]) <= max_byte_len(items),
        0 <= max_byte_len(items),
        items.len() > 0 ==> exists|i: int|
            0 <= i < items.len() && byte_len(#[trigger] items[i]) == max_byte_len(items),
    decreases items.len(),
{
    if items.len() > 0 {
        lemma_max_byte_len(items.drop_last());
        assert forall|i: int| 0 <= i < items.len() implies byte_len(#[trigger] items[i])
            <= max_byte_len(items) by {
            if i < items.len() - 1 {
                assert(items[i] == items.drop_last()[i]);
            }
        }
        if byte_len(items.last()) <= max_byte_len(items.drop_last()) && items.len() > 1 {
            let j = choose|j: int|
                0 <= j < items.drop_last().len() && byte_len(#[trigger] items.drop_last()[j])
                    == max_byte_len(items.drop_last());
            assert(items[j] == items.drop_last()[j]);
            assert(byte_len(items[j]) == max_byte_len(items));
        } else {
            assert(byte_len(items[items.len() - 1]) == max_byte_len(items));
        }
    }
}

/// Number of bytes of `s` (`str::len`).
fn str_byte_len(s: &str) -> (n: usize)
    requires
        byte_len(s@) <= usize::MAX,
    ensures
        n == byte_len(s@),
{
    s.len()
}

/// Lays out text in columns.
pub trait MultiColumnDisplay {
    /// `items` laid out in as many columns of equal width as fit in `term_width` bytes.
    fn format_columns(&self, items: Vec<String>, term_width: usize) -> (r: String)
        requires
            forall|i: int| 0 <= i < items@.len() ==> byte_len(#[trigger] items@[i]@) + 2 <= usize::MAX,
        ensures
            r@ == column_layout(crate::text::views(items@), term_width as int),
    ;
}

impl MultiColumnDisplay for ShellHelper {
    fn format_columns(&self, items: Vec<String>, term_width: usize) -> (r: String) {
        let ghost its = crate::text::views(items@);
        if items.len() == 0 {
            return String::new();
        }
        let mut max_len: usize = 0;
        let mut i: usize = 0;
        while i < items.len()
            invariant
                i <= items@.len(),
                its == crate::text::views(items@),
                forall|k: int| 0 <= k < items@.len() ==> byte_len(#[trigger] items@[k]@) + 2 <= usize::MAX,
                max_len == max_byte_len(its.take(i as int)),
            decreases items.len() - i,
        {
            assert(its.take(i + 1).drop_last() =~= its.take(i as int));
            assert(its[i as int] == items@[i as int]@);
            let n = str_byte_len(items[i].as_str());
            if n > max_len {
                max_len = n;
            }
            i = i + 1;
        }
        assert(its.take(items.len() as int) =~= its);
        proof {
            lemma_max_byte_len(its);
            let j = choose|j: int| 0 <= j < its.len() && byte_len(#[trigger] its[j]) == max_byte_len(its);
            assert(its[j] == items@[j]@);
        }
        let col_width = max_len + 2;
        let num_cols = if term_width / col_width >= 1 {
            term_width / col_width
        } else {
            1
        };
        let mut output = String::new();
        let mut k: usize = 0;
        while k < items.len()
            invariant
                k <= items@.len(),
                its == crate::text::views(items@),
                its.len() > 0,
                forall|q: int| 0 <= q < items@.len() ==> byte_len(#[trigger] items@[q]@) + 2 <= usize::MAX,
                col_width == max_byte_len(its) + 2,
                num_cols >= 1,
                forall|q: int| 0 <= q < its.len() ==> byte_len(#[trigger] its[q]) <= max_byte_len(its),
                output@ == grid(its.take(k as int), col_width as int, num_cols as int),
            decreases items.len() - k,
        {
            assert(its[k as int] == items@[k as int]@);
            let item = items[k].as_str();
            crate::text::push_str(&mut output, item);
            let pad = col_width - str_byte_len(item);
            let mut p: usize = 0;
            let ghost base = output@;
            while p < pad
                invariant
                    p <= pad,
                    output@ == base + spaces(p as int),
                decreases pad - p,
            {
                crate::text::push_char(&mut output, ' ');
                assert(spaces(p + 1) =~= spaces(p as int).push(' '));
                p = p + 1;
            }
            if (k + 1) % num_cols == 0 {
                crate::text::push_char(&mut output, '\n');
            }
            proof {
                let t = its.take(k + 1);
                assert(t.drop_last() =~= its.take(k as int));
                assert(t.last() == its[k as int]);
            }
            assert(output@ =~= grid(its.take(k + 1), col_width as int, num_cols as int));
            k = k + 1;
        }
        assert(its.take(items.len() as int) =~= its);
        output
    }
}

/// A completion candidate with a description.
#[derive(Debug)]
pub struct DescriptivePair {
    /// Text that replaces the word being completed
    pub replacement: String,
    /// Text shown in the candidate list
    pub display: String,
    /// What the command does
    pub description: String,
}

/// The described commands.
pub open spec fn described_commands() -> Seq<(Seq<char>, Seq<char>)> {
    seq![
        ("help"@, "Show help information"@),
        ("actors"@, "List all actors"@),
        ("registry"@, "Show registered actors"@),
        ("info"@, "Show actor details"@),
        ("send"@, "Send a cast message"@),
        ("call"@, "Send an RPC message"@),
        ("stop"@, "Stop an actor"@),
        ("stats"@, "Show system statistics"@),
        ("tree"@, "Show process group tree"@),
        ("cluster"@, "Show cluster topology"@),
    ]
}

/// The described commands that start with `prefix`, in order.
pub open spec fn described_matches(list: Seq<(Seq<char>, Seq<char>)>, prefix: Seq<char>) -> Seq<
    (Seq<char>, Seq<char>),
>
    decreases list.len(),
{
    if list.len() == 0 {
        Seq::empty()
    } else {
        let r = described_matches(list.drop_last(), prefix);
        if prefix.is_prefix_of(list.last().0) {
            r.push(list.last())
        } else {
            r
        }
    }
}

/// The shown line of a described command: the name left-aligned in 15 characters, a dash, and
/// the description.
pub open spec fn described_display(cmd: Seq<char>, desc: Seq<char>) -> Seq<char> {
    cmd + spaces(15 - cmd.len()) + " - "@ + desc
}

/// Completes command names, each with a description.
pub trait DescriptiveCompletion {
    /// The described commands whose names start with `prefix`.
    fn complete_with_descriptions(&self, prefix: &str) -> (r: Vec<DescriptivePair>)
        ensures
            r@.len() == described_matches(described_commands(), prefix@).len(),
            forall|i: int|
                0 <= i < r@.len() ==> {
                    let (cmd, desc) = described_matches(described_commands(), prefix@)[i];
                    &&& (#[trigger] r@[i]).replacement@ == cmd
                    &&& r@[i].description@ == desc
                    &&& r@[i].display@ == described_display(cmd, desc)
                },
    ;
}

/// A string literal list of the described commands.
fn described_list() -> (v: Vec<(&'static str, &'static str)>)
    ensures
        v@.len() == described_commands().len(),
        forall|i: int|
            0 <= i < v@.len() ==> (#[trigger] v@[i]).0@ == described_commands()[i].0 && v@[i].1@
                == described_commands()[i].1,
{
    let v = vec![
        ("help", "Show help information"),
        ("actors", "List all actors"),
        ("registry", "Show registered actors"),
        ("info", "Show actor details"),
        ("send", "Send a cast message"),
        ("call", "Send an RPC message"),
        ("stop", "Stop an actor"),
        ("stats", "Show system statistics"),
        ("tree", "Show process group tree"),
        ("cluster", "Show cluster topology"),
    ];
    v
}

impl DescriptiveCompletion for ShellHelper {
    fn complete_with_descriptions(&self, prefix: &str) -> (r: Vec<DescriptivePair>) {
        let list = described_list();
        let mut r: Vec<DescriptivePair> = Vec::new();
        let mut i: usize = 0;
        while i < list.len()
            invariant
                i <= list@.len(),
                list@.len() == described_commands().len(),
                forall|q: int|
                    0 <= q < list@.len() ==> (#[trigger] list@[q]).0@ == described_commands()[q].0
                        && list@[q].1@ == described_commands()[q].1,
                r@.len() == described_matches(described_commands().take(i as int), prefix@).len(),
                forall|q: int|
                    0 <= q < r@.len() ==> {
                        let (cmd, desc) = described_matches(
                            described_commands().take(i as int),
                            prefix@,
                        )[q];
                        &&& (#[trigger] r@[q]).replacement@ == cmd
                        &&& r@[q].description@ == desc
                        &&& r@[q].display@ == described_display(cmd, desc)
                    },
            decreases list.len() - i,
        {
            let (cmd, desc) = list[i];
            let ghost t = described_commands().take(i + 1);
            assert(t.drop_last() =~= described_commands().take(i as int));
            assert(t.last() == (cmd@, desc@));
            if crate::text::starts_with(cmd, prefix) {
                let cs = chars_of(cmd);
                let mut display = String::new();
                crate::text::push_str(&mut display, cmd);
                let mut p: usize = cs.len();
                let ghost base = display@;
                assert(spaces(0) =~= Seq::<char>::empty());
                while p < 15
                    invariant
                        cs@.len() <= p <= 15 || (cs@.len() > 15 && p == cs@.len()),
                        display@ == base + spaces(p - cs@.len()),
                    decreases 15 - p,
                {
                    crate::text::push_char(&mut display, ' ');
                    assert(spaces(p + 1 - cs@.len()) =~= spaces(p - cs@.len()).push(' '));
                    p = p + 1;
                }
                assert(spaces(p - cs@.len()) =~= spaces(15 - cs@.len()));
                crate::text::push_str(&mut display, " - ");
                crate::text::push_str(&mut display, desc);
                r.push(
                    DescriptivePair {
                        replacement: cmd.to_owned(),
                        display,
                        description: desc.to_owned(),
                    },
                );
            }
            i = i + 1;
        }
        assert(described_commands().take(list.len() as int) =~= described_commands());
        r
    }
}

/// The hint shown after a command that was typed without its arguments.
pub open spec fn contextual_hint(line: Seq<char>) -> Option<Seq<char>> {
    let parts = split_ws(line);
    if parts.len() != 1 {
        None
    } else {
        let w = parts[0];
        if w == "send"@ || w == "call"@ {
            Some(" <actor> <json_message>"@)
        } else if w == "info"@ || w == "stop"@ {
            Some(" <actor_name>"@)
        } else if w == "pg"@ {
            Some(" list | members <group>"@)
        } else if w == "cluster"@ {
            Some(" [nodes|groups|actors]"@)
        } else {
            None
        }
    }
}

/// Hints at the arguments a command expects.
pub trait ContextualHints {
    /// The argument hint for `line`, if its only word is a command that takes arguments.
    fn get_hint(&self, line: &str, pos: usize) -> (r: Option<String>)
        ensures
            match r {
                Some(h) => contextual_hint(line@) == Some(h@),
                None => contextual_hint(line@) is None,
            },
    ;
}

impl ContextualHints for ShellHelper {
    fn get_hint(&self, line: &str, pos: usize) -> (r: Option<String>) {
        let parts = split_whitespace(line);
        if parts.len() != 1 {
            return None;
        }
        let w = parts[0].as_str();
        if str_eq(w, "send") || str_eq(w, "call") {
            Some(" <actor> <json_message>".to_owned())
        } else if str_eq(w, "info") || str_eq(w, "stop") {
            Some(" <actor_name>".to_owned())
        } else if str_eq(w, "pg") {
            Some(" list | members <group>".to_owned())
        } else if str_eq(w, "cluster") {
            Some(" [nodes|groups|actors]".to_owned())
        } else {
            None
        }
    }
}

/// Why a candidate was ranked where it is.
#[derive(Debug, Clone, Copy, PartialEq, Eq, Structural)]
pub enum CompletionReason {
    ExactPrefix,
    RecentlyUsed,
    FrequentlyUsed,
    Contains,
    Fuzzy,
}

/// `x` placed into `s` after every entry whose key is at least its own, and before the others.
pub open spec fn insert_desc<T>(s: Seq<(T, usize)>, x: (T, usize)) -> Seq<(T, usize)>
    decreases s.len(),
{
    if s.len() == 0 {
        seq![x]
    } else if s.last().1 >= x.1 {
        s.push(x)
    } else {
        insert_desc(s.drop_last(), x).push(s.last())
    }
}

/// `s` sorted by key, highest first, entries with equal keys kept in their order (a stable sort,
/// as `sort_by` with the keys compared in reverse does).
pub open spec fn sort_desc<T>(s: Seq<(T, usize)>) -> Seq<(T, usize)>
    decreases s.len(),
{
    if s.len() == 0 {
        Seq::empty()
    } else {
        insert_desc(sort_desc(s.drop_last()), s.last())
    }
}

proof fn lemma_insert_desc_at<T>(s: Seq<(T, usize)>, x: (T, usize), j: int)
    requires
        0 <= j <= s.len(),
        forall|k: int| j <= k < s.len() ==> (#[trigger] s[k]).1 < x.1,
        j > 0 ==> s[j - 1].1 >= x.1,
    ensures
        insert_desc(s, x) == s.insert(j, x),
    decreases s.len(),
{
    if s.len() == 0 {
        assert(s.insert(j, x) =~= seq![x]);
    } else if s.last().1 >= x.1 {
        assert(j == s.len());
        assert(s.insert(j, x) =~= s.push(x));
    } else {
        let p = s.drop_last();
        assert forall|k: int| j <= k < p.len() implies (#[trigger] p[k]).1 < x.1 by {
            assert(p[k] == s[k]);
        }
        if j > 0 {
            assert(p[j - 1] == s[j - 1]);
        }
        lemma_insert_desc_at(p, x, j);
        assert(p.insert(j, x).push(s.last()) =~= s.insert(j, x));
    }
}

/// Insert `x` into the list `v` (sorted by key, highest first) after every entry whose key is
/// at least its own.
fn insert_by_key<T>(v: &mut Vec<(T, usize)>, x: (T, usize))
    ensures
        final(v)@ == insert_desc(old(v)@, x),
{
    let mut j = v.len();
    while j > 0 && v[j - 1].1 < x.1
        invariant
            j <= v@.len(),
            v@ == old(v)@,
            forall|k: int| j <= k < v@.len() ==> (#[trigger] v@[k]).1 < x.1,
        decreases j,
    {
        j = j - 1;
    }
    proof {
        lemma_insert_desc_at(v@, x, j as int);
    }
    v.insert(j, x);
}

/// Stable sort by key, highest first.
fn sort_by_key_desc<T>(items: Vec<(T, usize)>) -> (r: Vec<(T, usize)>)
    ensures
        r@ == sort_desc(items@),
{
    let mut out: Vec<(T, usize)> = Vec::new();
    let mut rest = items;
    let ghost orig = rest@;
    let ghost mut i: int = 0;
    proof {
        assert(orig.take(0) =~= Seq::<(T, usize)>::empty());
    }
    while rest.len() > 0
        invariant
            0 <= i <= orig.len(),
            rest@ == orig.skip(i),
            out@ == sort_desc(orig.take(i)),
        decreases rest@.len(),
    {
        assert(rest@.len() == orig.len() - i);
        let x = rest.remove(0);
        proof {
            assert(x == orig[i]) by {
                assert(orig.skip(i)[0] == orig[i]);
            }
            assert(rest@ =~= orig.skip(i + 1));
            assert(orig.take(i + 1).drop_last() =~= orig.take(i));
        }
        insert_by_key(&mut out, x);
        proof {
            i = i + 1;
        }
    }
    proof {
        assert(orig.take(i) =~= orig);
    }
    out
}

/// Inserting into a list sorted by key, highest first, keeps it so.
proof fn lemma_insert_desc_sorted<T>(s: Seq<(T, usize)>, x: (T, usize))
    requires
        forall|a: int, b: int| 0 <= a < b < s.len() ==> (#[trigger] s[a]).1 >= (#[trigger] s[b]).1,
    ensures
        forall|a: int, b: int|
            0 <= a < b < insert_desc(s, x).len() ==> (#[trigger] insert_desc(s, x)[a]).1 >= (
            #[trigger] insert_desc(s, x)[b]).1,
        insert_desc(s, x).len() == s.len() + 1,
        insert_desc(s, x).to_multiset() == s.to_multiset().insert(x),
    decreases s.len(),
{
    broadcast use {vstd::multiset::group_multiset_axioms, vstd::seq_lib::group_to_multiset_ensures};
    if s.len() == 0 {
        assert(seq![x] =~= s.push(x));
    } else if s.last().1 >= x.1 {
        let r = s.push(x);
        assert forall|a: int, b: int| 0 <= a < b < r.len() implies (#[trigger] r[a]).1 >= (#[trigger] r[b]).1 by {
            if b == s.len() && a < s.len() - 1 {
                assert(s[a].1 >= s[s.len() - 1].1);
            }
        }
    } else {
        let p = s.drop_last();
        lemma_insert_desc_sorted(p, x);
        let q = insert_desc(p, x);
        let r = q.push(s.last());
        assert forall|a: int, b: int| 0 <= a < b < r.len() implies (#[trigger] r[a]).1 >= (#[trigger] r[b]).1 by {
            if b == r.len() - 1 {
                // Every entry of q is an entry of s but the last, or x; both are no smaller.
                assert(q.to_multiset().contains(q[a]));
                assert(q.contains(q[a]));
                if q[a] != x {
                    assert(p.to_multiset().contains(q[a]));
                    assert(p.contains(q[a]));
                    let k = p.index_of(q[a]);
                    assert(s[k] == p[k]);
                }
            }
        }
        assert(s =~= p.push(s.last()));
        assert(s.to_multiset() == p.to_multiset().insert(s.last()));
        assert(r.to_multiset() == q.to_multiset().insert(s.last()));
        assert(r.to_multiset() =~= s.to_multiset().insert(x));
    }
}

/// A stable sort by key, highest first, orders its result by key and keeps every entry.
pub proof fn lemma_sort_desc_sorted<T>(s: Seq<(T, usize)>)
    ensures
        forall|a: int, b: int|
            0 <= a < b < sort_desc(s).len() ==> (#[trigger] sort_desc(s)[a]).1 >= (
            #[trigger] sort_desc(s)[b]).1,
        sort_desc(s).to_multiset() == s.to_multiset(),
    decreases s.len(),
{
    broadcast use {vstd::multiset::group_multiset_axioms, vstd::seq_lib::group_to_multiset_ensures};
    if s.len() == 0 {
        assert(sort_desc(s) =~= s);
    } else {
        lemma_sort_desc_sorted(s.drop_last());
        lemma_insert_desc_sorted(sort_desc(s.drop_last()), s.last());
        assert(s =~= s.drop_last().push(s.last()));
    }
}

/// A candidate offered as itself.
pub open spec fn pair_of(c: String, p: Pair) -> bool {
    p.display@ == c@ && p.replacement@ == c@
}

fn pair_for(c: &String) -> (p: Pair)
    ensures
        pair_of(*c, p),
{
    Pair { display: c.clone(), replacement: c.clone() }
}

/// Case-insensitive completion over a list of candidates.
pub trait CaseInsensitiveCompletion {
    /// The candidates that start with `line` when both are lower-cased, in order.
    fn complete_case_insensitive(&self, line: &str, candidates: &[String]) -> (r: Vec<Pair>)
        ensures
            r@.len() == case_insensitive_matches(line@, candidates@).len(),
            forall|i: int|
                0 <= i < r@.len() ==> pair_of(
                    case_insensitive_matches(line@, candidates@)[i],
                    #[trigger] r@[i],
                ),
    ;
}

/// The candidates whose lower-cased form starts with the lower-cased `line`, in order.
pub open spec fn case_insensitive_matches(line: Seq<char>, cands: Seq<String>) -> Seq<String>
    decreases cands.len(),
{
    if cands.len() == 0 {
        Seq::empty()
    } else {
        let r = case_insensitive_matches(line, cands.drop_last());
        if lowercase(line).is_prefix_of(lowercase(cands.last()@)) {
            r.push(cands.last())
        } else {
            r
        }
    }
}

impl CaseInsensitiveCompletion for ShellHelper {
    fn complete_case_insensitive(&self, line: &str, candidates: &[String]) -> (r: Vec<Pair>) {
        let line_lower = to_lowercase(line);
        let mut r: Vec<Pair> = Vec::new();
        let mut i: usize = 0;
        while i < candidates.len()
            invariant
                i <= candidates@.len(),
                line_lower@ == lowercase(line@),
                r@.len() == case_insensitive_matches(line@, candidates@.take(i as int)).len(),
                forall|k: int|
                    0 <= k < r@.len() ==> pair_of(
                        case_insensitive_matches(line@, candidates@.take(i as int))[k],
                        #[trigger] r@[k],
                    ),
            decreases candidates.len() - i,
        {
            proof {
                assert(candidates@.take(i + 1).drop_last() =~= candidates@.take(i as int));
            }
            let c = &candidates[i];
            let lower = to_lowercase(c.as_str());
            if crate::text::starts_with(lower.as_str(), line_lower.as_str()) {
                r.push(pair_for(c));
            }
            i = i + 1;
        }
        proof {
            assert(candidates@.take(i as int) =~= candidates@);
        }
        r
    }
}

/// The candidates that have a fuzzy score, each with its score, in order.
pub open spec fn fuzzy_matches(pattern: Seq<char>, cands: Seq<String>) -> Seq<(String, usize)>
    decreases cands.len(),
{
    if cands.len() == 0 {
        Seq::empty()
    } else {
        let r = fuzzy_matches(pattern, cands.drop_last());
        let v = fuzzy_value(lowercase(pattern), lowercase(cands.last()@));
        if v > 0 {
            r.push((cands.last(), v as usize))
        } else {
            r
        }
    }
}

/// The scored candidates with their texts offered as pairs.
pub open spec fn as_pairs(s: Seq<(String, usize)>, r: Seq<(Pair, usize)>) -> bool {
    &&& r.len() == s.len()
    &&& forall|i: int| 0 <= i < r.len() ==> pair_of(s[i].0, #[trigger] r[i].0) && r[i].1 == s[i].1
}

/// Fuzzy completion over a list of candidates.
pub trait FuzzyCompletion {
    /// The candidates with a positive fuzzy score against `pattern`, each with its score,
    /// highest score first (candidates with equal scores stay in their order).
    fn complete_fuzzy(&self, pattern: &str, candidates: &[String]) -> (r: Vec<(Pair, usize)>)
        requires
            forall|i: int|
                0 <= i < candidates@.len() ==> fuzzy_defined(
                    lowercase(pattern@),
                    lowercase(#[trigger] candidates@[i]@),
                ),
        ensures
            exists|scored: Seq<(Pair, usize)>|
                as_pairs(fuzzy_matches(pattern@, candidates@), scored) && r@ == sort_desc(scored),
    ;
}

impl FuzzyCompletion for ShellHelper {
    fn complete_fuzzy(&self, pattern: &str, candidates: &[String]) -> (r: Vec<(Pair, usize)>) {
        let mut scored: Vec<(Pair, usize)> = Vec::new();
        let mut i: usize = 0;
        while i < candidates.len()
            invariant
                i <= candidates@.len(),
                forall|k: int|
                    0 <= k < candidates@.len() ==> fuzzy_defined(
                        lowercase(pattern@),
                        lowercase(#[trigger] candidates@[k]@),
                    ),
                as_pairs(fuzzy_matches(pattern@, candidates@.take(i as int)), scored@),
            decreases candidates.len() - i,
        {
            proof {
                assert(candidates@.take(i + 1).drop_last() =~= candidates@.take(i as int));
            }
            let c = &candidates[i];
            let score = fuzzy_score(pattern, c.as_str());
            if score > 0 {
                scored.push((pair_for(c), score));
            }
            i = i + 1;
        }
        proof {
            assert(candidates@.take(i as int) =~= candidates@);
        }
        let ghost sv = scored@;
        let r = sort_by_key_desc(scored);
        r
    }
}

impl ShellHelper {
    /// Fuzzy completion where every candidate's score is defined, or `None` where some
    /// candidate's score is not (where computing it would slice inside a character or overflow).
    pub fn try_complete_fuzzy(&self, pattern: &str, candidates: &[String]) -> (r: Option<
        Vec<(Pair, usize)>,
    >)
        ensures
            match r {
                Some(v) => {
                    &&& forall|i: int|
                        0 <= i < candidates@.len() ==> fuzzy_defined(
                            lowercase(pattern@),
                            lowercase(#[trigger] candidates@[i]@),
                        )
                    &&& exists|scored: Seq<(Pair, usize)>|
                        as_pairs(fuzzy_matches(pattern@, candidates@), scored) && v@ == sort_desc(
                            scored,
                        )
                },
                None => exists|i: int|
                    0 <= i < candidates@.len() && !fuzzy_defined(
                        lowercase(pattern@),
                        lowercase(#[trigger] candidates@[i]@),
                    ),
            },
    {
        let p = to_lowercase(pattern);
        let mut i: usize = 0;
        while i < candidates.len()
            invariant
                i <= candidates@.len(),
                p@ == lowercase(pattern@),
                forall|k: int|
                    0 <= k < i ==> fuzzy_defined(lowercase(pattern@), lowercase(#[trigger] candidates@[k]@)),
            decreases candidates.len() - i,
        {
            let c = to_lowercase(candidates[i].as_str());
            if !fuzzy_is_defined(p.as_str(), c.as_str()) {
                return None;
            }
            i = i + 1;
        }
        Some(self.complete_fuzzy(pattern, candidates))
    }
}

/// A completion candidate with its rank and the reason for it.
#[derive(Debug)]
pub struct RankedCandidate {
    pub pair: Pair,
    pub rank: usize,
    pub reason: CompletionReason,
}

/// Whether `name` is among the last five entries of `history`.
pub open spec fn recently_used(history: Seq<String>, name: Seq<char>) -> bool {
    exists|i: int|
        0 <= i < history.len() && history.len() - 5 <= i && #[trigger] history[i]@ == name
}

/// The rank and reason of a candidate for `pattern` (lower-cased): a prefix match ranks 1000,
/// or 1100 if the candidate is among the last five history entries; a match elsewhere ranks 500;
/// other candidates are not offered.
pub open spec fn smart_rank(pattern_lower: Seq<char>, cand: Seq<char>, history: Seq<String>) -> Option<
    (usize, CompletionReason),
> {
    let cl = lowercase(cand);
    if pattern_lower.is_prefix_of(cl) {
        if recently_used(history, cand) {
            Some((1100usize, CompletionReason::RecentlyUsed))
        } else {
            Some((1000usize, CompletionReason::ExactPrefix))
        }
    } else if contains_seq(cl, pattern_lower) {
        Some((500usize, CompletionReason::Contains))
    } else {
        None
    }
}

/// The ranked candidates in their order, before sorting.
pub open spec fn smart_matches(pattern: Seq<char>, cands: Seq<String>, history: Seq<String>) -> Seq<
    (String, usize, CompletionReason),
>
    decreases cands.len(),
{
    if cands.len() == 0 {
        Seq::empty()
    } else {
        let r = smart_matches(pattern, cands.drop_last(), history);
        match smart_rank(lowercase(pattern), cands.last()@, history) {
            Some((rank, reason)) => r.push((cands.last(), rank, reason)),
            None => r,
        }
    }
}

/// The ranked candidates as keyed entries.
pub open spec fn as_ranked(s: Seq<(String, usize, CompletionReason)>, r: Seq<(RankedCandidate, usize)>) -> bool {
    &&& r.len() == s.len()
    &&& forall|i: int|
        0 <= i < r.len() ==> {
            &&& pair_of(s[i].0, (#[trigger] r[i]).0.pair)
            &&& r[i].0.rank == s[i].1
            &&& r[i].0.reason == s[i].2
            &&& r[i].1 == s[i].1
        }
}

/// Completion ranked by kind of match and recent use.
pub trait SmartCompletion {
    /// The candidates that match `pattern` (case-insensitively) as a prefix or elsewhere, ranked
    /// by [`smart_rank`], highest rank first (equal ranks stay in their order).
    fn complete_smart(&self, pattern: &str, candidates: &[String], history: &[String]) -> (r: Vec<
        RankedCandidate,
    >)
        ensures
            exists|keyed: Seq<(RankedCandidate, usize)>|
                as_ranked(smart_matches(pattern@, candidates@, history@), keyed) && r@
                    == sort_desc(keyed).map_values(|e: (RankedCandidate, usize)| e.0),
    ;
}

fn recent_in(history: &[String], name: &str) -> (b: bool)
    ensures
        b == recently_used(history@, name@),
{
    let n = history.len();
    let start: usize = if n > 5 {
        n - 5
    } else {
        0
    };
    let mut i = start;
    while i < n
        invariant
            start <= i <= n,
            n == history@.len(),
            start as int == (if n > 5 { n - 5 } else { 0 }),
            forall|k: int| start <= k < i ==> history@[k]@ != name@,
        decreases n - i,
    {
        if str_eq(history[i].as_str(), name) {
            return true;
        }
        i = i + 1;
    }
    false
}

impl SmartCompletion for ShellHelper {
    fn complete_smart(&self, pattern: &str, candidates: &[String], history: &[String]) -> (r: Vec<
        RankedCandidate,
    >) {
        let pattern_lower = to_lowercase(pattern);
        let pl = chars_of(pattern_lower.as_str());
        let mut keyed: Vec<(RankedCandidate, usize)> = Vec::new();
        let mut i: usize = 0;
        while i < candidates.len()
            invariant
                i <= candidates@.len(),
                pattern_lower@ == lowercase(pattern@),
                pl@ == pattern_lower@,
                as_ranked(smart_matches(pattern@, candidates@.take(i as int), history@), keyed@),
            decreases candidates.len() - i,
        {
            proof {
                assert(candidates@.take(i + 1).drop_last() =~= candidates@.take(i as int));
            }
            let c = &candidates[i];
            let lower = to_lowercase(c.as_str());
            if crate::text::starts_with(lower.as_str(), pattern_lower.as_str()) {
                let recent = recent_in(history, c.as_str());
                let rank: usize = if recent {
                    1100
                } else {
                    1000
                };
                let reason = if recent {
                    CompletionReason::RecentlyUsed
                } else {
                    CompletionReason::ExactPrefix
                };
                keyed.push((RankedCandidate { pair: pair_for(c), rank, reason }, rank));
            } else {
                let lc = chars_of(lower.as_str());
                if contains_chars(&lc, &pl) {
                    keyed.push((RankedCandidate { pair: pair_for(c), rank: 500, reason: CompletionReason::Contains }, 500));
                }
            }
            i = i + 1;
        }
        proof {
            assert(candidates@.take(i as int) =~= candidates@);
        }
        let ghost kv = keyed@;
        let sorted = sort_by_key_desc(keyed);
        let mut r: Vec<RankedCandidate> = Vec::new();
        let mut rest = sorted;
        let ghost sv = rest@;
        let ghost mut j: int = 0;
        proof {
            assert(r@ =~= sv.take(0).map_values(|e: (RankedCandidate, usize)| e.0));
        }
        while rest.len() > 0
            invariant
                0 <= j <= sv.len(),
                rest@ == sv.skip(j),
                r@ == sv.take(j).map_values(|e: (RankedCandidate, usize)| e.0),
            decreases rest@.len(),
        {
            assert(rest@.len() == sv.len() - j);
            let e = rest.remove(0);
            proof {
                assert(e == sv[j]) by {
                    assert(sv.skip(j)[0] == sv[j]);
                }
                assert(rest@ =~= sv.skip(j + 1));
            }
            r.push(e.0);
            proof {
                assert(r@ =~= sv.take(j + 1).map_values(|e: (RankedCandidate, usize)| e.0));
                j = j + 1;
            }
        }
        proof {
            assert(sv.take(j) =~= sv);
        }
        r
    }
}

/// The file-path candidates among the entries of a directory (each a name and whether it is a
/// directory), in order: those whose name starts with `prefix`, shown with a `/` after directory
/// names and replaced by the bare name.
pub open spec fn path_candidates(prefix: Seq<char>, entries: Seq<(String, bool)>) -> Seq<(Seq<char>, Seq<char>)>
    decreases entries.len(),
{
    if entries.len() == 0 {
        Seq::empty()
    } else {
        let r = path_candidates(prefix, entries.drop_last());
        let (name, is_dir) = entries.last();
        if prefix.is_prefix_of(name@) {
            r.push((if is_dir { name@.push('/') } else { name@ }, name@))
        } else {
            r
        }
    }
}

/// The completions for a partial path among the entries of its directory.
pub fn file_path_candidates(prefix: &str, entries: &Vec<(String, bool)>) -> (r: Vec<Pair>)
    ensures
        r@.len() == path_candidates(prefix@, entries@).len(),
        forall|i: int|
            0 <= i < r@.len() ==> (#[trigger] r@[i]).display@ == path_candidates(prefix@, entries@)[i].0
                && r@[i].replacement@ == path_candidates(prefix@, entries@)[i].1,
{
    let mut r: Vec<Pair> = Vec::new();
    let mut i: usize = 0;
    while i < entries.len()
        invariant
            i <= entries@.len(),
            r@.len() == path_candidates(prefix@, entries@.take(i as int)).len(),
            forall|k: int|
                0 <= k < r@.len() ==> (#[trigger] r@[k]).display@ == path_candidates(
                    prefix@,
                    entries@.take(i as int),
                )[k].0 && r@[k].replacement@ == path_candidates(prefix@, entries@.take(i as int))[k].1,
        decreases entries.len() - i,
    {
        proof {
            assert(entries@.take(i + 1).drop_last() =~= entries@.take(i as int));
        }
        let (name, is_dir) = &entries[i];
        if crate::text::starts_with(name.as_str(), prefix) {
            let mut display = name.clone();
            if *is_dir {
                crate::text::push_char(&mut display, '/');
            }
            r.push(Pair { display, replacement: name.clone() });
        }
        i = i + 1;
    }
    proof {
        assert(entries@.take(i as int) =~= entries@);
    }
    r
}


proof fn lemma_byte_len_at_least(s: Seq<char>)
    ensures
        byte_len(s) >= s.len(),
    decreases s.len(),
{
    if s.len() > 0 {
        lemma_byte_len_at_least(s.drop_first());
        assert(vstd::utf8::encode_scalar(s[0] as u32).len() >= 1);
    }
}

proof fn lemma_prefix_contained(c: Seq<char>, p: Seq<char>)
    requires
        p.is_prefix_of(c),
    ensures
        contains_seq(c, p),
{
    let i: int = 0;
    assert(c.subrange(i, i + p.len()) =~= p);
}

/// The fuzzy tiers: a candidate that the (lower-cased) pattern starts scores higher than one it
/// does not start, and a candidate that contains the pattern scores higher than one that does
/// not contain it. A scattered match scores 100 per character, so the first holds for patterns
/// of at most 10 characters and the second for patterns of at most 5; an ASCII pattern of 11
/// (or 6) characters scattered through a candidate outscores the prefix (or substring) tier.
pub proof fn lemma_fuzzy_tiers(p: Seq<char>, c1: Seq<char>, c2: Seq<char>)
    ensures
        p.len() <= 10 && p.is_prefix_of(c1) && !p.is_prefix_of(c2) ==> fuzzy_value(p, c1)
            > fuzzy_value(p, c2),
        p.len() <= 5 && contains_seq(c1, p) && !contains_seq(c2, p) ==> fuzzy_value(p, c1)
            > fuzzy_value(p, c2),
{
    lemma_byte_len_at_least(p);
    if p.is_prefix_of(c2) {
        lemma_prefix_contained(c2, p);
    }
}


/// The number of line breaks in `s`.
pub open spec fn line_breaks(s: Seq<char>) -> nat
    decreases s.len(),
{
    if s.len() == 0 {
        0
    } else {
        line_breaks(s.drop_last()) + if s.last() == '\n' {
            1nat
        } else {
            0nat
        }
    }
}

proof fn lemma_line_breaks_add(a: Seq<char>, b: Seq<char>)
    ensures
        line_breaks(a + b) == line_breaks(a) + line_breaks(b),
    decreases b.len(),
{
    if b.len() == 0 {
        assert(a + b =~= a);
    } else {
        lemma_line_breaks_add(a, b.drop_last());
        assert((a + b).drop_last() =~= a + b.drop_last());
    }
}

proof fn lemma_line_breaks_none(s: Seq<char>)
    requires
        !s.contains('\n'),
    ensures
        line_breaks(s) == 0,
    decreases s.len(),
{
    if s.len() > 0 {
        assert(s.drop_last().len() < s.len());
        assert(!s.drop_last().contains('\n')) by {
            if s.drop_last().contains('\n') {
                let k = s.drop_last().index_of('\n');
                assert(s[k] == '\n');
            }
        }
        lemma_line_breaks_none(s.drop_last());
        assert(s[s.len() - 1] != '\n');
    }
}

proof fn lemma_div_step(n: int, c: int)
    requires
        n >= 1,
        c > 0,
    ensures
        n / c == (n - 1) / c + if n % c == 0 {
            1int
        } else {
            0int
        },
{
    vstd::arithmetic::div_mod::lemma_fundamental_div_mod(n, c);
    vstd::arithmetic::div_mod::lemma_fundamental_div_mod(n - 1, c);
    let q = n / c;
    let r = n % c;
    let q1 = (n - 1) / c;
    let r1 = (n - 1) % c;
    assert(0 <= r < c && 0 <= r1 < c);
    if r == 0 {
        assert(c * q == n);
        assert(c * q1 + r1 == n - 1);
        assert(c * (q - q1) == r1 + 1) by (nonlinear_arith)
            requires
                c * q == n,
                c * q1 + r1 == n - 1,
        ;
        if q - q1 >= 2 {
            assert(c * (q - q1) >= 2 * c) by (nonlinear_arith)
                requires
                    q - q1 >= 2,
                    c > 0,
            ;
        }
        if q - q1 <= 0 {
            assert(c * (q - q1) <= 0) by (nonlinear_arith)
                requires
                    q - q1 <= 0,
                    c > 0,
            ;
        }
    } else {
        assert(c * q + r == n);
        assert(c * q1 + r1 == n - 1);
        assert(c * (q - q1) == r1 + 1 - r) by (nonlinear_arith)
            requires
                c * q + r == n,
                c * q1 + r1 == n - 1,
        ;
        if q - q1 >= 1 {
            assert(c * (q - q1) >= c) by (nonlinear_arith)
                requires
                    q - q1 >= 1,
                    c > 0,
            ;
        }
        if q - q1 <= -1 {
            assert(c * (q - q1) <= -c) by (nonlinear_arith)
                requires
                    q - q1 <= -1,
                    c > 0,
            ;
        }
    }
}

proof fn lemma_grid_breaks(items: Seq<Seq<char>>, width: int, cols: int)
    requires
        cols > 0,
        forall|i: int| 0 <= i < items.len() ==> !(#[trigger] items[i]).contains('\n'),
    ensures
        line_breaks(grid(items, width, cols)) == (items.len() as int) / cols,
    decreases items.len(),
{
    if items.len() > 0 {
        let prev = items.drop_last();
        assert forall|i: int| 0 <= i < prev.len() implies !(#[trigger] prev[i]).contains('\n') by {
            assert(prev[i] == items[i]);
        }
        lemma_grid_breaks(prev, width, cols);
        let last = items.last();
        assert(!items[items.len() - 1].contains('\n'));
        let pad = spaces(width - byte_len(last));
        assert(!pad.contains('\n')) by {
            if pad.contains('\n') {
                let k = pad.index_of('\n');
                assert(pad[k] == ' ');
            }
        }
        let cell = last + pad;
        assert(!cell.contains('\n')) by {
            if cell.contains('\n') {
                let k = cell.index_of('\n');
                if k < last.len() {
                    assert(last[k] == '\n');
                } else {
                    assert(pad[k - last.len()] == '\n');
                }
            }
        }
        lemma_line_breaks_none(cell);
        let line_end = if (items.len() as int) % cols == 0 {
            seq!['\n']
        } else {
            Seq::<char>::empty()
        };
        lemma_line_breaks_add(grid(prev, width, cols), cell);
        lemma_line_breaks_add(grid(prev, width, cols) + cell, line_end);
        if (items.len() as int) % cols == 0 {
            assert(seq!['\n'].drop_last() =~= Seq::<char>::empty());
            assert(line_breaks(Seq::<char>::empty()) == 0);
            assert(seq!['\n'].last() == '\n');
            assert(line_breaks(seq!['\n']) == 1);
        } else {
            assert(line_breaks(Seq::<char>::empty()) == 0);
        }
        lemma_div_step(items.len() as int, cols);
    }
}

proof fn lemma_grid_prefix(items: Seq<Seq<char>>, width: int, cols: int, k: int)
    requires
        0 <= k <= items.len(),
    ensures
        grid(items.take(k), width, cols).is_prefix_of(grid(items, width, cols)),
    decreases items.len() - k,
{
    if k == items.len() {
        assert(items.take(k) =~= items);
    } else {
        lemma_grid_prefix(items, width, cols, k + 1);
        let t = items.take(k + 1);
        assert(t.drop_last() =~= items.take(k));
        let g = grid(t, width, cols);
        let gk = grid(items.take(k), width, cols);
        assert(gk.is_prefix_of(g));
    }
}

/// How `format_columns` lays out items that hold no line break: as many columns as fit in the
/// terminal width, at least one, where a column is two bytes wider than the longest item. So the
/// text has one line break per full row, `n / max(1, term_width / (longest + 2))` in all; and
/// where two columns fit, the first two items share the first line, the first padded to the
/// column width.
pub proof fn lemma_column_layout(items: Seq<Seq<char>>, term_width: int)
    requires
        items.len() > 0,
        forall|i: int| 0 <= i < items.len() ==> !(#[trigger] items[i]).contains('\n'),
    ensures
        ({
            let w = max_byte_len(items) + 2;
            let cols = if term_width / w >= 1 {
                term_width / w
            } else {
                1
            };
            &&& line_breaks(column_layout(items, term_width)) == (items.len() as int) / cols
            &&& items.len() >= 2 && 2 * w <= term_width ==> (items[0] + spaces(
                w - byte_len(items[0]),
            ) + items[1]).is_prefix_of(column_layout(items, term_width))
        }),
{
    lemma_max_byte_len(items);
    let w = max_byte_len(items) + 2;
    let cols = if term_width / w >= 1 {
        term_width / w
    } else {
        1
    };
    lemma_grid_breaks(items, w, cols);
    if items.len() >= 2 && 2 * w <= term_width {
        assert(term_width / w >= 2) by {
            vstd::arithmetic::div_mod::lemma_div_is_ordered(2 * w, term_width, w);
            vstd::arithmetic::div_mod::lemma_div_multiples_vanish(2, w);
        }
        lemma_grid_prefix(items, w, cols, 2);
        let t2 = items.take(2);
        let t1 = t2.drop_last();
        assert(t1.drop_last() =~= Seq::<Seq<char>>::empty());
        assert(1int % cols == 1) by {
            vstd::arithmetic::div_mod::lemma_small_mod(1, cols as nat);
        }
        let cell0 = items[0] + spaces(w - byte_len(items[0]));
        assert(t1.len() == 1 && t1.last() == items[0]);
        assert(grid(t1.drop_last(), w, cols) == Seq::<char>::empty());
        assert((t1.len() as int) % cols != 0);
        assert(grid(t1, w, cols) =~= cell0);
        assert(t2.last() == items[1] && t2.len() == 2);
        let g2 = grid(t2, w, cols);
        let cell1 = items[1] + spaces(w - byte_len(items[1]));
        let end2 = if 2int % cols == 0 {
            seq!['\n']
        } else {
            Seq::<char>::empty()
        };
        assert(g2 == cell0 + cell1 + end2);
        assert((cell0 + items[1]).is_prefix_of(g2)) by {
            assert forall|i: int| 0 <= i < (cell0 + items[1]).len() implies (cell0 + items[1])[i]
                == g2[i] by {
                if i < cell0.len() {
                } else {
                    assert(cell1[i - cell0.len()] == items[1][i - cell0.len()]);
                }
            }
        }
    }
}

} // verus!
