//! Shell scripts: the commands a script file holds.

use vstd::prelude::*;

use crate::text::{chars_of, substring, trim, trim_bounds};

verus! {

/// The lines of `s`: its text split at each `\n` (the last line may be empty).
pub open spec fn line_segments(s: Seq<char>) -> Seq<Seq<char>>
    decreases s.len(),
{
    if s.len() == 0 {
        seq![Seq::<char>::empty()]
    } else {
        let r = line_segments(s.drop_last());
        if s.last() == '\n' {
            r.push(Seq::<char>::empty())
        } else {
            r.update(r.len() - 1, r.last().push(s.last()))
        }
    }
}

proof fn lemma_line_segments_nonempty(s: Seq<char>)
    ensures
        line_segments(s).len() >= 1,
    decreases s.len(),
{
    if s.len() > 0 {
        lemma_line_segments_nonempty(s.drop_last());
    }
}

/// Whether a trimmed line is a command: not empty and not a `#` comment.
pub open spec fn is_command_line(l: Seq<char>) -> bool {
    l.len() > 0 && l[0] != '#'
}

/// The trimmed lines of `ls` that are commands, in order.
pub open spec fn command_lines(ls: Seq<Seq<char>>) -> Seq<Seq<char>>
    decreases ls.len(),
{
    if ls.len() == 0 {
        Seq::empty()
    } else {
        let r = command_lines(ls.drop_last());
        if is_command_line(trim(ls.last())) {
            r.push(trim(ls.last()))
        } else {
            r
        }
    }
}

/// The commands of a script: each line trimmed, without empty lines and lines starting with `#`.
pub fn script_commands(content: &str) -> (cmds: Vec<String>)
    ensures
        crate::text::views(cmds@) == command_lines(line_segments(content@)),
{
    let cs = chars_of(content);
    let mut cmds: Vec<String> = Vec::new();
    let mut line: Vec<char> = Vec::new();
    let mut i: usize = 0;
    proof {
        assert(cs@.take(0) =~= Seq::<char>::empty());
    }
    while i < cs.len()
        invariant
            i <= cs@.len(),
            cs@ == content@,
            line_segments(cs@.take(i as int)).len() >= 1,
            line@ == line_segments(cs@.take(i as int)).last(),
            crate::text::views(cmds@) == command_lines(line_segments(cs@.take(i as int)).drop_last()),
        decreases cs.len() - i,
    {
        let c = cs[i];
        let ghost prev = cs@.take(i as int);
        proof {
            assert(cs@.take(i + 1).drop_last() =~= prev);
            lemma_line_segments_nonempty(prev);
        }
        if c == '\n' {
            let ghost segs = line_segments(prev);
            let (a, b) = trim_bounds(&line);
            if a < b && line[a] != '#' {
                let l = substring(&line, a, b);
                cmds.push(l);
                proof {
                    assert(line@.subrange(a as int, b as int)[0] == line@[a as int]);
                }
            } else {
                proof {
                    if a < b {
                        assert(line@.subrange(a as int, b as int)[0] == line@[a as int]);
                    }
                }
            }
            proof {
                let next = segs.push(Seq::<char>::empty());
                assert(next.drop_last() =~= segs);
                assert(segs.drop_last().push(segs.last()) =~= segs);
                assert(segs.drop_last() == segs.drop_last());
                assert(crate::text::views(cmds@) =~= command_lines(segs));
            }
            line = Vec::new();
        } else {
            line.push(c);
            proof {
                let segs = line_segments(prev);
                let next = segs.update(segs.len() - 1, segs.last().push(c));
                assert(next.drop_last() =~= segs.drop_last());
            }
        }
        i = i + 1;
    }
    let (a, b) = trim_bounds(&line);
    let ghost segs = line_segments(cs@.take(i as int));
    if a < b && line[a] != '#' {
        let l = substring(&line, a, b);
        cmds.push(l);
        proof {
            assert(line@.subrange(a as int, b as int)[0] == line@[a as int]);
        }
    } else {
        proof {
            if a < b {
                assert(line@.subrange(a as int, b as int)[0] == line@[a as int]);
            }
        }
    }
    proof {
        assert(cs@.take(i as int) =~= cs@);
        assert(segs.drop_last().push(segs.last()) =~= segs);
        assert(crate::text::views(cmds@) =~= command_lines(segs));
    }
    cmds
}

/// Every command of a script is a trimmed line that is neither empty nor a comment.
pub proof fn lemma_command_lines_are_commands(ls: Seq<Seq<char>>)
    ensures
        forall|i: int|
            0 <= i < command_lines(ls).len() ==> is_command_line(#[trigger] command_lines(ls)[i]),
    decreases ls.len(),
{
    if ls.len() > 0 {
        let r = command_lines(ls.drop_last());
        lemma_command_lines_are_commands(ls.drop_last());
        assert forall|i: int| 0 <= i < command_lines(ls).len() implies is_command_line(
            #[trigger] command_lines(ls)[i],
        ) by {
            if i < r.len() {
                assert(command_lines(ls)[i] == r[i]);
            }
        }
    }
}

} // verus!
