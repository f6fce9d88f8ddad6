//! Tab completion for the shell: commands, aliases, subcommands, actor, process group and node
//! names, and hints that show what an alias expands to.

use vstd::prelude::*;
use vstd::utf8::{decode_utf8, encode_utf8};

use crate::text::{
    chars_of, lemma_lex_total, lemma_lex_trans, lex_le, split_whitespace, split_ws, starts_with,
    str_eq, str_le, views, word_start, word_start_offset,
};

verus! {

/// A completion candidate: the text shown and the text inserted.
#[derive(Debug)]
pub struct Pair {
    /// Text shown in the candidate list
    pub display: String,
    /// Text that replaces the word being completed
    pub replacement: String,
}

/// The shown texts of a list of candidates.
pub open spec fn displays(v: Seq<Pair>) -> Seq<Seq<char>> {
    v.map_values(|p: Pair| p.display@)
}

/// Every candidate inserts the text it shows.
pub open spec fn plain(v: Seq<Pair>) -> bool {
    forall|i: int| 0 <= i < v.len() ==> (#[trigger] v[i]).display@ == v[i].replacement@
}

/// The candidates are in the order of their shown texts.
pub open spec fn sorted_by_display(v: Seq<Pair>) -> bool {
    forall|i: int, j: int|
        0 <= i < j < v.len() ==> lex_le((#[trigger] v[i]).display@, (#[trigger] v[j]).display@)
}

/// The items of `items` that start with `p`, in order.
pub open spec fn prefixed(items: Seq<Seq<char>>, p: Seq<char>) -> Seq<Seq<char>>
    decreases items.len(),
{
    if items.len() == 0 {
        Seq::empty()
    } else {
        let r = prefixed(items.drop_last(), p);
        if p.is_prefix_of(items.last()) {
            r.push(items.last())
        } else {
            r
        }
    }
}

/// The command names offered for completion.
pub open spec fn command_list() -> Seq<Seq<char>> {
    seq![
        "help"@,
        "actors"@,
        "registry"@,
        "pg"@,
        "info"@,
        "send"@,
        "call"@,
        "send-file"@,
        "sendfile"@,
        "load"@,
        "stop"@,
        "connect"@,
        "disconnect"@,
        "nodes"@,
        "use"@,
        "cluster"@,
        "stats"@,
        "tree"@,
        "monitor"@,
        "unmonitor"@,
        "monitors"@,
        "trace"@,
        "trace-to-file"@,
        "exit"@,
        "quit"@,
    ]
}

/// The command aliases and what they expand to.
pub open spec fn alias_list() -> Seq<(Seq<char>, Seq<char>)> {
    seq![
        ("a"@, "actors"@),
        ("r"@, "registry"@),
        ("i"@, "info"@),
        ("s"@, "send"@),
        ("c"@, "call"@),
        ("sf"@, "send-file"@),
        ("l"@, "load"@),
        ("q"@, "quit"@),
        ("exit"@, "quit"@),
        ("tr"@, "trace"@),
    ]
}

/// The alias names alone.
pub open spec fn alias_names() -> Seq<Seq<char>> {
    alias_list().map_values(|e: (Seq<char>, Seq<char>)| e.0)
}

/// The subcommands offered after a command.
pub open spec fn subcommand_list(cmd: Seq<char>) -> Seq<Seq<char>> {
    if cmd == "pg"@ {
        seq!["list"@, "members"@]
    } else if cmd == "cluster"@ {
        seq!["nodes"@, "groups"@, "actors"@]
    } else if cmd == "trace"@ {
        seq!["off"@]
    } else if cmd == "use"@ {
        seq!["local"@]
    } else {
        Seq::empty()
    }
}

/// The character sequences of a list of string slices.
pub open spec fn str_views(v: Seq<&'static str>) -> Seq<Seq<char>> {
    v.map_values(|s: &'static str| s@)
}

/// The character sequences of a list of alias pairs.
pub open spec fn alias_views(v: Seq<(&'static str, &'static str)>) -> Seq<(Seq<char>, Seq<char>)> {
    v.map_values(|e: (&'static str, &'static str)| (e.0@, e.1@))
}

/// Helper for the line editor that provides tab completion.
#[derive(Debug)]
pub struct ShellHelper {
    /// Cached actor names for completion
    pub actor_names: Vec<String>,
    /// Cached process group names for completion
    pub process_groups: Vec<String>,
    /// Cached node names for completion
    pub node_names: Vec<String>,
}

/// Whether `w` is a command whose argument is an actor name.
pub open spec fn takes_actor(w: Seq<char>) -> bool {
    ||| w == "info"@
    ||| w == "stop"@
    ||| w == "send"@
    ||| w == "call"@
    ||| w == "send-file"@
    ||| w == "sendfile"@
    ||| w == "monitor"@
    ||| w == "unmonitor"@
    ||| w == "i"@
    ||| w == "s"@
    ||| w == "c"@
    ||| w == "sf"@
}

/// The characters of `line` before byte position `pos`.
pub open spec fn line_head(line: Seq<char>, pos: int) -> Seq<char> {
    decode_utf8(encode_utf8(line).subrange(0, pos))
}

/// What completing `head` offers, given the cached actor, group and node names: whether the
/// candidates are sorted, and the candidates in the order they are found.
pub open spec fn completion(
    actors: Seq<Seq<char>>,
    groups: Seq<Seq<char>>,
    nodes: Seq<Seq<char>>,
    head: Seq<char>,
) -> (bool, Seq<Seq<char>>) {
    let parts = split_ws(head);
    if parts.len() == 0 {
        (false, command_list())
    } else {
        let first = parts[0];
        let ends_with_space = head.len() > 0 && head.last() == ' ';
        if parts.len() == 1 && !ends_with_space {
            (true, prefixed(command_list(), first) + prefixed(alias_names(), first))
        } else {
            let cur = if ends_with_space {
                Seq::<char>::empty()
            } else {
                parts.last()
            };
            let completing_second = parts.len() == 2 && !ends_with_space;
            (
                false,
                if first == "pg"@ {
                    if completing_second {
                        prefixed(subcommand_list("pg"@), cur)
                    } else if parts.len() >= 2 && parts[1] == "members"@ {
                        prefixed(groups, cur)
                    } else {
                        Seq::empty()
                    }
                } else if first == "cluster"@ {
                    if completing_second {
                        prefixed(subcommand_list("cluster"@), cur)
                    } else {
                        Seq::empty()
                    }
                } else if first == "trace"@ || first == "tr"@ {
                    if completing_second {
                        prefixed(subcommand_list("trace"@), cur)
                    } else {
                        Seq::empty()
                    }
                } else if takes_actor(first) {
                    prefixed(actors, cur)
                } else if first == "use"@ {
                    prefixed(nodes, cur) + prefixed(subcommand_list("use"@), cur)
                } else if first == "disconnect"@ {
                    prefixed(nodes, cur)
                } else if first == "help"@ {
                    prefixed(command_list(), cur)
                } else {
                    Seq::empty()
                },
            )
        }
    }
}

/// Where the word being completed starts in `head`.
pub open spec fn completion_start(head: Seq<char>) -> int {
    if split_ws(head).len() == 0 {
        0
    } else {
        word_start_offset(head)
    }
}

/// The expansion of the first alias named `w`, if any.
pub open spec fn alias_expansion_in(list: Seq<(Seq<char>, Seq<char>)>, w: Seq<char>) -> Option<
    Seq<char>,
>
    decreases list.len(),
{
    if list.len() == 0 {
        None
    } else if list[0].0 == w {
        Some(list[0].1)
    } else {
        alias_expansion_in(list.drop_first(), w)
    }
}

/// The hint shown for a complete line: the expansion of its first word if that is an alias.
pub open spec fn hint_text(line: Seq<char>) -> Option<Seq<char>> {
    let parts = split_ws(line);
    if parts.len() == 0 {
        None
    } else {
        match alias_expansion_in(alias_list(), parts[0]) {
            Some(e) => Some(" ("@ + e + ")"@),
            None => None,
        }
    }
}

/// A candidate that shows and inserts `s`.
fn pair_of(s: &str) -> (p: Pair)
    ensures
        p.display@ == s@,
        p.replacement@ == s@,
{
    Pair { display: s.to_owned(), replacement: s.to_owned() }
}

/// The items that start with `prefix`, as candidates.
fn filter_strs(items: &Vec<&'static str>, prefix: &str) -> (r: Vec<Pair>)
    ensures
        plain(r@),
        displays(r@) == prefixed(str_views(items@), prefix@),
{
    let mut r: Vec<Pair> = Vec::new();
    let mut i: usize = 0;
    while i < items.len()
        invariant
            i <= items.len(),
            plain(r@),
            displays(r@) == prefixed(str_views(items@).take(i as int), prefix@),
        decreases items.len() - i,
    {
        let ghost its = str_views(items@);
        assert(its.take(i + 1).drop_last() =~= its.take(i as int));
        assert(its.take(i + 1).last() == items@[i as int]@);
        if starts_with(items[i], prefix) {
            r.push(pair_of(items[i]));
        }
        assert(displays(r@) =~= prefixed(its.take(i + 1), prefix@));
        i = i + 1;
    }
    assert(str_views(items@).take(items.len() as int) =~= str_views(items@));
    r
}

/// The strings that start with `prefix`, as candidates.
fn filter_strings(items: &Vec<String>, prefix: &str) -> (r: Vec<Pair>)
    ensures
        plain(r@),
        displays(r@) == prefixed(views(items@), prefix@),
{
    let mut r: Vec<Pair> = Vec::new();
    let mut i: usize = 0;
    while i < items.len()
        invariant
            i <= items.len(),
            plain(r@),
            displays(r@) == prefixed(views(items@).take(i as int), prefix@),
        decreases items.len() - i,
    {
        let ghost its = views(items@);
        assert(its.take(i + 1).drop_last() =~= its.take(i as int));
        assert(its.take(i + 1).last() == items@[i as int]@);
        if starts_with(items[i].as_str(), prefix) {
            r.push(pair_of(items[i].as_str()));
        }
        assert(displays(r@) =~= prefixed(its.take(i + 1), prefix@));
        i = i + 1;
    }
    assert(views(items@).take(items.len() as int) =~= views(items@));
    r
}

/// `a` followed by `b`.
fn concat_pairs(a: Vec<Pair>, b: Vec<Pair>) -> (r: Vec<Pair>)
    ensures
        r@ == a@ + b@,
{
    let mut r = a;
    let mut b = b;
    r.append(&mut b);
    r
}

/// The candidates sorted by their shown text (a stable insertion sort).
pub fn sort_pairs(v: Vec<Pair>) -> (r: Vec<Pair>)
    ensures
        displays(r@).to_multiset() == displays(v@).to_multiset(),
        sorted_by_display(r@),
        plain(v@) ==> plain(r@),
{
    let mut r: Vec<Pair> = Vec::new();
    let mut v = v;
    let ghost orig = v@;
    let mut rest: Vec<Pair> = Vec::new();
    // Reverse `v` into `rest` so that popping yields the original order.
    while v.len() > 0
        invariant
            orig == v@ + rest@.reverse(),
        decreases v.len(),
    {
        let x = v.pop().unwrap();
        rest.push(x);
        assert(orig =~= v@ + rest@.reverse());
    }
    assert(rest@.reverse() =~= orig);
    proof {
        assert(displays(rest@).reverse() =~= displays(orig));
        displays(rest@).lemma_reverse_to_multiset();
        assert(displays(r@).to_multiset() =~= vstd::multiset::Multiset::empty()) by {
            displays(r@).to_multiset_ensures();
        }
        if plain(orig) {
            assert forall|i: int| 0 <= i < rest@.len() implies (#[trigger] rest@[i]).display@
                == rest@[i].replacement@ by {
                assert(rest@[i] == rest@.reverse()[rest@.len() - 1 - i]);
            }
        }
    }
    while rest.len() > 0
        invariant
            displays(r@).to_multiset().add(displays(rest@).to_multiset()) == displays(
                orig,
            ).to_multiset(),
            sorted_by_display(r@),
            plain(orig) ==> plain(r@) && plain(rest@),
        decreases rest.len(),
    {
        let ghost before = rest@;
        let x = rest.pop().unwrap();
        assert(before =~= rest@.push(x));
        let mut p: usize = 0;
        while p < r.len() && str_le(r[p].display.as_str(), x.display.as_str())
            invariant
                p <= r.len(),
                forall|j: int| 0 <= j < p ==> lex_le(#[trigger] r@[j].display@, x.display@),
            decreases r.len() - p,
        {
            p = p + 1;
        }
        proof {
            if p < r.len() {
                lemma_lex_total(r@[p as int].display@, x.display@);
                assert forall|q: int| p <= q < r.len() implies lex_le(
                    x.display@,
                    #[trigger] r@[q].display@,
                ) by {
                    if q > p {
                        lemma_lex_trans(x.display@, r@[p as int].display@, r@[q].display@);
                    }
                }
            }
        }
        let ghost old_r = r@;
        r.insert(p, x);
        proof {
            assert(r@ == old_r.insert(p as int, x));
            assert forall|i: int, j: int| 0 <= i < j < r@.len() implies lex_le(
                (#[trigger] r@[i]).display@,
                (#[trigger] r@[j]).display@,
            ) by {
                if j < p {
                    assert(r@[i] == old_r[i] && r@[j] == old_r[j]);
                } else if j == p {
                    assert(r@[i] == old_r[i]);
                } else if i < p {
                    assert(r@[i] == old_r[i] && r@[j] == old_r[j - 1]);
                    lemma_lex_trans(old_r[i].display@, x.display@, old_r[j - 1].display@);
                } else if i == p {
                    assert(r@[j] == old_r[j - 1]);
                } else {
                    assert(r@[i] == old_r[i - 1] && r@[j] == old_r[j - 1]);
                }
            }
            assert(displays(r@) =~= displays(old_r).insert(p as int, x.display@));
            vstd::seq_lib::to_multiset_insert(displays(old_r), p as int, x.display@);
            assert(displays(before) =~= displays(rest@).push(x.display@));
            displays(rest@).to_multiset_ensures();
            if plain(orig) {
                assert(plain(before));
                assert(before[before.len() - 1] == x);
                assert forall|i: int| 0 <= i < r@.len() implies (#[trigger] r@[i]).display@
                    == r@[i].replacement@ by {
                    if i < p {
                        assert(r@[i] == old_r[i]);
                    } else if i > p {
                        assert(r@[i] == old_r[i - 1]);
                    }
                }
                assert forall|i: int| 0 <= i < rest@.len() implies (#[trigger] rest@[i]).display@
                    == rest@[i].replacement@ by {
                    assert(rest@[i] == before[i]);
                }
            }
        }
    }
    proof {
        displays(rest@).to_multiset_ensures();
        assert(displays(rest@).to_multiset() =~= vstd::multiset::Multiset::empty());
        assert(displays(r@).to_multiset().add(displays(rest@).to_multiset()) =~= displays(
            r@,
        ).to_multiset());
    }
    r
}

impl ShellHelper {
    /// A helper with no cached names.
    pub fn new() -> (h: Self)
        ensures
            h.actor_names@ == Seq::<String>::empty(),
            h.process_groups@ == Seq::<String>::empty(),
            h.node_names@ == Seq::<String>::empty(),
    {
        ShellHelper { actor_names: Vec::new(), process_groups: Vec::new(), node_names: Vec::new() }
    }

    /// Update actor names for completion.
    pub fn update_actors(&mut self, names: Vec<String>)
        ensures
            final(self).actor_names == names,
            final(self).process_groups == old(self).process_groups,
            final(self).node_names == old(self).node_names,
    {
        self.actor_names = names;
    }

    /// Update process group names for completion.
    pub fn update_groups(&mut self, names: Vec<String>)
        ensures
            final(self).process_groups == names,
            final(self).actor_names == old(self).actor_names,
            final(self).node_names == old(self).node_names,
    {
        self.process_groups = names;
    }

    /// Update node names for completion.
    pub fn update_nodes(&mut self, names: Vec<String>)
        ensures
            final(self).node_names == names,
            final(self).actor_names == old(self).actor_names,
            final(self).process_groups == old(self).process_groups,
    {
        self.node_names = names;
    }

    /// Get all available commands.
    pub fn commands() -> (v: Vec<&'static str>)
        ensures
            str_views(v@) == command_list(),
    {
        let v = vec![
            "help",
            "actors",
            "registry",
            "pg",
            "info",
            "send",
            "call",
            "send-file",
            "sendfile",
            "load",
            "stop",
            "connect",
            "disconnect",
            "nodes",
            "use",
            "cluster",
            "stats",
            "tree",
            "monitor",
            "unmonitor",
            "monitors",
            "trace",
            "trace-to-file",
            "exit",
            "quit",
        ];
        assert(str_views(v@) =~= command_list());
        v
    }

    /// Get command aliases.
    pub fn aliases() -> (v: Vec<(&'static str, &'static str)>)
        ensures
            alias_views(v@) == alias_list(),
    {
        let v = vec![
            ("a", "actors"),
            ("r", "registry"),
            ("i", "info"),
            ("s", "send"),
            ("c", "call"),
            ("sf", "send-file"),
            ("l", "load"),
            ("q", "quit"),
            ("exit", "quit"),
            ("tr", "trace"),
        ];
        assert(alias_views(v@) =~= alias_list());
        v
    }

    /// Get subcommands for a command.
    pub fn subcommands(cmd: &str) -> (v: Vec<&'static str>)
        ensures
            str_views(v@) == subcommand_list(cmd@),
    {
        let v = if str_eq(cmd, "pg") {
            vec!["list", "members"]
        } else if str_eq(cmd, "cluster") {
            vec!["nodes", "groups", "actors"]
        } else if str_eq(cmd, "trace") {
            vec!["off"]
        } else if str_eq(cmd, "use") {
            vec!["local"]
        } else {
            vec![]
        };
        assert(str_views(v@) =~= subcommand_list(cmd@));
        v
    }
}

impl ShellHelper {
    /// The alias names alone, as candidates filtered by `prefix`.
    fn alias_candidates(prefix: &str) -> (r: Vec<Pair>)
        ensures
            plain(r@),
            displays(r@) == prefixed(alias_names(), prefix@),
    {
        let aliases = Self::aliases();
        let mut names: Vec<&'static str> = Vec::new();
        let mut i: usize = 0;
        assert(alias_views(aliases@).len() == aliases@.len());
        while i < aliases.len()
            invariant
                i <= aliases.len(),
                alias_views(aliases@) == alias_list(),
                str_views(names@) == alias_names().take(i as int),
                names@.len() == i,
                alias_names().len() == aliases@.len(),
            decreases aliases.len() - i,
        {
            names.push(aliases[i].0);
            assert(alias_views(aliases@)[i as int] == (aliases@[i as int].0@, aliases@[i as int].1@));
            assert(alias_names()[i as int] == alias_list()[i as int].0);
            assert(alias_list()[i as int].0 == aliases@[i as int].0@);
            assert(str_views(names@)[i as int] == names@[i as int]@);
            assert(names@[i as int] == aliases@[i as int].0);
            assert forall|k: int| 0 <= k < i + 1 implies str_views(names@)[k] == alias_names().take(
                i + 1,
            )[k] by {
                if k < i {
                    assert(str_views(names@)[k] == names@[k]@);
                }
            }
            assert(str_views(names@) =~= alias_names().take(i + 1));
            i = i + 1;
        }
        assert(alias_names().take(aliases.len() as int) =~= alias_names());
        filter_strs(&names, prefix)
    }

    /// Complete the text of `line` before byte position `pos`: returns where the word being
    /// completed starts and the candidates for it.
    ///
    /// An empty line offers every command; a first word offers the commands and aliases that
    /// start with it, sorted; later words offer subcommands, actor names, process group names or
    /// node names, depending on the command.
    #[verifier::rlimit(40)]
    pub fn complete(&self, line: &str, pos: usize) -> (r: (usize, Vec<Pair>))
        requires
            pos <= encode_utf8(line@).len(),
            vstd::utf8::is_char_boundary(encode_utf8(line@), pos as int),
        ensures
            r.0 == completion_start(line_head(line@, pos as int)),
            plain(r.1@),
            ({
                let c = completion(
                    views(self.actor_names@),
                    views(self.process_groups@),
                    views(self.node_names@),
                    line_head(line@, pos as int),
                );
                if c.0 {
                    sorted_by_display(r.1@) && displays(r.1@).to_multiset() == c.1.to_multiset()
                } else {
                    displays(r.1@) == c.1
                }
            }),
    {
        let (head, _) = line.split_at(pos);
        proof {
            reveal_strlit("");
            vstd::utf8::encode_utf8_decode_utf8(head@);
            assert(head@ == line_head(line@, pos as int));
        }
        let hs = chars_of(head);
        let parts = split_whitespace(head);
        let ghost ps = views(parts@);
        if parts.len() == 0 {
            let cands = filter_strs(&Self::commands(), "");
            proof {
                lemma_prefixed_empty(command_list());
            }
            return (0, cands);
        }
        let word_start = word_start(&hs);
        let first = parts[0].as_str();
        let n = hs.len();
        let ends_with_space = n > 0 && hs[n - 1] == ' ';
        assert(ps[0] == first@);
        if parts.len() == 1 && !ends_with_space {
            let cmds = filter_strs(&Self::commands(), first);
            let als = Self::alias_candidates(first);
            let all = concat_pairs(cmds, als);
            proof {
                assert(displays(all@) =~= displays(cmds@) + displays(als@));
                assert(plain(all@)) by {
                    assert forall|i: int| 0 <= i < all@.len() implies (#[trigger] all@[i]).display@
                        == all@[i].replacement@ by {
                        if i < cmds@.len() {
                            assert(all@[i] == cmds@[i]);
                        } else {
                            assert(all@[i] == als@[i - cmds@.len()]);
                        }
                    }
                }
            }
            let sorted = sort_pairs(all);
            return (word_start, sorted);
        }
        let last = parts.len() - 1;
        let current_word: &str = if ends_with_space {
            ""
        } else {
            parts[last].as_str()
        };
        assert(ps.last() == parts@[last as int]@);
        let completing_second = parts.len() == 2 && !ends_with_space;
        let cands = if str_eq(first, "pg") {
            if completing_second {
                filter_strs(&Self::subcommands("pg"), current_word)
            } else if parts.len() >= 2 && str_eq(parts[1].as_str(), "members") {
                filter_strings(&self.process_groups, current_word)
            } else {
                Vec::new()
            }
        } else if str_eq(first, "cluster") {
            if completing_second {
                filter_strs(&Self::subcommands("cluster"), current_word)
            } else {
                Vec::new()
            }
        } else if str_eq(first, "trace") || str_eq(first, "tr") {
            if completing_second {
                filter_strs(&Self::subcommands("trace"), current_word)
            } else {
                Vec::new()
            }
        } else if str_eq(first, "info") || str_eq(first, "stop") || str_eq(first, "send")
            || str_eq(first, "call") || str_eq(first, "send-file") || str_eq(first, "sendfile")
            || str_eq(first, "monitor") || str_eq(first, "unmonitor") || str_eq(first, "i")
            || str_eq(first, "s") || str_eq(first, "c") || str_eq(first, "sf") {
            filter_strings(&self.actor_names, current_word)
        } else if str_eq(first, "use") {
            let nodes = filter_strings(&self.node_names, current_word);
            let local = filter_strs(&Self::subcommands("use"), current_word);
            let all = concat_pairs(nodes, local);
            proof {
                assert(displays(all@) =~= displays(nodes@) + displays(local@));
                assert forall|i: int| 0 <= i < all@.len() implies (#[trigger] all@[i]).display@
                    == all@[i].replacement@ by {
                    if i < nodes@.len() {
                        assert(all@[i] == nodes@[i]);
                    } else {
                        assert(all@[i] == local@[i - nodes@.len()]);
                    }
                }
            }
            all
        } else if str_eq(first, "disconnect") {
            filter_strings(&self.node_names, current_word)
        } else if str_eq(first, "help") {
            filter_strs(&Self::commands(), current_word)
        } else {
            Vec::new()
        };
        proof {
            assert(displays(Seq::<Pair>::empty()) =~= Seq::<Seq<char>>::empty());
        }
        (word_start, cands)
    }

    /// The hint for `line` with the cursor at byte position `pos`: when the cursor is at the end
    /// and the first word is an alias, what the alias expands to.
    pub fn hint(&self, line: &str, pos: usize) -> (h: Option<String>)
        ensures
            pos < line.len() ==> h is None,
            pos >= line.len() ==> match h {
                Some(s) => hint_text(line@) == Some(s@),
                None => hint_text(line@) is None,
            },
    {
        if pos < line.len() {
            return None;
        }
        let parts = split_whitespace(line);
        if parts.len() == 0 {
            return None;
        }
        let first = parts[0].as_str();
        let aliases = Self::aliases();
        let mut i: usize = 0;
        assert(alias_list().skip(0) =~= alias_list());
        while i < aliases.len()
            invariant
                i <= aliases.len(),
                alias_views(aliases@) == alias_list(),
                first@ == split_ws(line@)[0],
                split_ws(line@).len() > 0,
                pos >= line.len(),
                alias_expansion_in(alias_list(), first@) == alias_expansion_in(
                    alias_list().skip(i as int),
                    first@,
                ),
            decreases aliases.len() - i,
        {
            let (alias, expansion) = aliases[i];
            assert(alias_views(aliases@)[i as int] == (alias@, expansion@));
            assert(alias_list().skip(i as int)[0] == (alias@, expansion@));
            if str_eq(first, alias) {
                let mut s = String::new();
                crate::text::push_str(&mut s, " (");
                crate::text::push_str(&mut s, expansion);
                crate::text::push_str(&mut s, ")");
                return Some(s);
            }
            assert(alias_list().skip(i as int).drop_first() =~= alias_list().skip(i + 1));
            i = i + 1;
        }
        None
    }

    /// The line as it is shown: unchanged.
    pub fn highlight<'l>(&self, line: &'l str, pos: usize) -> (r: &'l str)
        ensures
            r == line,
    {
        line
    }

    /// Whether the line must be redrawn after a character is typed: never.
    pub fn highlight_char(&self, line: &str, pos: usize, forced: bool) -> (r: bool)
        ensures
            r == false,
    {
        false
    }
}

impl Default for ShellHelper {
    fn default() -> (h: Self)
        ensures
            h.actor_names@ == Seq::<String>::empty(),
            h.process_groups@ == Seq::<String>::empty(),
            h.node_names@ == Seq::<String>::empty(),
    {
        Self::new()
    }
}

/// Filtering by the empty prefix keeps every item.
pub proof fn lemma_prefixed_empty(items: Seq<Seq<char>>)
    ensures
        prefixed(items, Seq::empty()) == items,
    decreases items.len(),
{
    if items.len() > 0 {
        lemma_prefixed_empty(items.drop_last());
        assert(Seq::<char>::empty().is_prefix_of(items.last()));
        assert(items.drop_last().push(items.last()) =~= items);
    }
}

/// Update the completer with current shell state.
pub fn update_completer_state(
    helper: &mut ShellHelper,
    actor_names: Vec<String>,
    process_groups: Vec<String>,
    node_names: Vec<String>,
)
    ensures
        final(helper).actor_names == actor_names,
        final(helper).process_groups == process_groups,
        final(helper).node_names == node_names,
{
    helper.update_actors(actor_names);
    helper.update_groups(process_groups);
    helper.update_nodes(node_names);
}

/// The well-known process groups offered for completion.
pub open spec fn known_process_groups() -> Seq<Seq<char>> {
    seq!["ping_pong"@, "ractor_shell_introspection"@, "demo_group"@, "dynamic_group"@]
}

/// Get well-known process groups for completion.
pub fn get_known_process_groups() -> (v: Vec<String>)
    ensures
        views(v@) == known_process_groups(),
{
    let v = vec![
        "ping_pong".to_owned(),
        "ractor_shell_introspection".to_owned(),
        "demo_group".to_owned(),
        "dynamic_group".to_owned(),
    ];
    assert(views(v@) =~= known_process_groups());
    v
}

} // verus!
