//! The known-directories registry text: the newline-delimited list of
//! download roots, as it is parsed from and rendered back to its file.
//!
//! The registry file itself is read, pruned of vanished paths and
//! written by the unverified I/O layer; the functions here decide what
//! the text means and what is written back.

use vstd::prelude::*;
use vstd::string::StrSliceExecFns;
use vstd::string::StringExecFns;

verus! {

/// The segments of `s` between newline characters, with `acc` the part
/// of the current segment already consumed.
pub open spec fn split_lines_from(s: Seq<char>, acc: Seq<char>) -> Seq<Seq<char>>
    decreases s.len(),
{
    if s.len() == 0 {
        seq![acc]
    } else if s[0] == '\n' {
        seq![acc] + split_lines_from(s.drop_first(), Seq::empty())
    } else {
        split_lines_from(s.drop_first(), acc.push(s[0]))
    }
}

/// The segments of `s` between newline characters, in order; a text
/// without newlines is one segment, possibly empty.
pub open spec fn split_lines(s: Seq<char>) -> Seq<Seq<char>> {
    split_lines_from(s, Seq::empty())
}

/// Splits the registry text into its lines, one stored path each.
pub fn parse_registry(text: &String) -> (lines: Vec<String>)
    ensures
        lines.deep_view() == split_lines(text@),
{
    let s = text.as_str();
    let n = s.unicode_len();
    let mut lines: Vec<String> = Vec::new();
    let mut seg_start: usize = 0;
    let mut i: usize = 0;
    proof {
        assert(s@.skip(0) =~= s@);
        assert(s@.subrange(0, 0) =~= Seq::<char>::empty());
        assert(lines.deep_view() =~= Seq::<Seq<char>>::empty());
        assert(lines.deep_view() + split_lines_from(s@, Seq::empty()) =~= split_lines(s@));
    }
    while i < n
        invariant
            seg_start <= i <= n,
            n == s@.len(),
            s@ == text@,
            lines.deep_view() + split_lines_from(
                s@.skip(i as int),
                s@.subrange(seg_start as int, i as int),
            ) == split_lines(s@),
        decreases n - i,
    {
        let ghost pre = lines.deep_view();
        let ghost seg = s@.subrange(seg_start as int, i as int);
        proof {
            assert(s@.skip(i as int)[0] == s@[i as int]);
            assert(s@.skip(i as int).drop_first() =~= s@.skip(i + 1));
        }
        let c = s.get_char(i);
        if c == '\n' {
            let piece = s.substring_char(seg_start, i);
            lines.push(String::from_str(piece));
            seg_start = i + 1;
            proof {
                assert(s@.subrange(seg_start as int, i + 1) =~= Seq::<char>::empty());
                assert(lines.deep_view() =~= pre.push(seg));
                assert(pre.push(seg) + split_lines_from(s@.skip(i + 1), Seq::empty()) =~= pre + (
                seq![seg] + split_lines_from(s@.skip(i + 1), Seq::empty())));
            }
        } else {
            proof {
                assert(seg.push(s@[i as int]) =~= s@.subrange(seg_start as int, i + 1));
            }
        }
        i = i + 1;
    }
    let piece = s.substring_char(seg_start, n);
    lines.push(String::from_str(piece));
    proof {
        assert(s@.skip(n as int) =~= Seq::<char>::empty());
        assert(lines.deep_view() =~= split_lines(s@));
    }
    lines
}

/// Whether some line of `lines` reads exactly `l`.
pub open spec fn contains_line(lines: Seq<Seq<char>>, l: Seq<char>) -> bool {
    exists|i: int| 0 <= i < lines.len() && lines[i] == l
}

/// Appends a directory to the known list unless an identical line is
/// already present: the registry is an append-only set.
pub fn append_known_dir(dirs: &mut Vec<String>, dir: String)
    ensures
        contains_line(old(dirs).deep_view(), dir@) ==> final(dirs)@ == old(dirs)@,
        !contains_line(old(dirs).deep_view(), dir@) ==> final(dirs)@ == old(dirs)@.push(dir),
{
    let mut i: usize = 0;
    while i < dirs.len()
        invariant
            i <= dirs@.len(),
            *dirs == *old(dirs),
            forall|j: int| 0 <= j < i ==> old(dirs).deep_view()[j] != dir@,
        decreases dirs@.len() - i,
    {
        if dirs[i] == dir {
            proof {
                assert(old(dirs).deep_view()[i as int] == dir@);
            }
            return ;
        }
        i = i + 1;
    }
    dirs.push(dir);
}

/// The lines of `lines` that are not empty, in order.
pub open spec fn nonempty_of(lines: Seq<Seq<char>>) -> Seq<Seq<char>>
    decreases lines.len(),
{
    if lines.len() == 0 {
        Seq::empty()
    } else if lines.last().len() > 0 {
        nonempty_of(lines.drop_last()).push(lines.last())
    } else {
        nonempty_of(lines.drop_last())
    }
}

/// The lines joined with a newline between each adjacent pair.
pub open spec fn joined_lines(lines: Seq<Seq<char>>) -> Seq<char>
    decreases lines.len(),
{
    if lines.len() == 0 {
        Seq::empty()
    } else if lines.len() == 1 {
        lines[0]
    } else {
        joined_lines(lines.drop_last()) + "\n"@ + lines.last()
    }
}

/// Renders the known directories back to the registry text: blank
/// entries are dropped and the rest joined with newlines, so the file
/// stays one valid path per line.
pub fn render_registry(dirs: &Vec<String>) -> (text: String)
    ensures
        text@ == joined_lines(nonempty_of(dirs.deep_view())),
{
    let ghost dv = dirs.deep_view();
    let mut text = String::new();
    let mut any_written = false;
    let mut i: usize = 0;
    while i < dirs.len()
        invariant
            i <= dirs@.len(),
            dv == dirs.deep_view(),
            any_written <==> nonempty_of(dv.take(i as int)).len() > 0,
            text@ == joined_lines(nonempty_of(dv.take(i as int))),
        decreases dirs@.len() - i,
    {
        proof {
            assert(dv.take(i + 1).drop_last() =~= dv.take(i as int));
            assert(dv.take(i + 1).last() == dv[i as int]);
            assert(dv[i as int] == dirs@[i as int]@);
        }
        let d = &dirs[i];
        if !d.as_str().is_empty() {
            let ghost prev = nonempty_of(dv.take(i as int));
            proof {
                assert(nonempty_of(dv.take(i + 1)) =~= prev.push(dv[i as int]));
            }
            if any_written {
                text.append("\n");
                text.append(d.as_str());
                proof {
                    assert(nonempty_of(dv.take(i + 1)).drop_last() =~= prev);
                    assert(text@ =~= joined_lines(nonempty_of(dv.take(i + 1))));
                }
            } else {
                text.append(d.as_str());
                proof {
                    assert(text@ =~= dv[i as int]);
                    assert(joined_lines(prev.push(dv[i as int])) == prev.push(dv[i as int])[0]);
                }
            }
            any_written = true;
        }
        i = i + 1;
    }
    proof {
        assert(dv.take(dirs@.len() as int) =~= dv);
    }
    text
}

proof fn lemma_split_no_newline(s: Seq<char>, acc: Seq<char>)
    requires
        forall|i: int| 0 <= i < s.len() ==> s[i] != '\n',
    ensures
        split_lines_from(s, acc) =~= seq![acc + s],
    decreases s.len(),
{
    if s.len() == 0 {
        assert(acc + s =~= acc);
    } else {
        lemma_split_no_newline(s.drop_first(), acc.push(s[0]));
        assert(acc.push(s[0]) + s.drop_first() =~= acc + s);
    }
}

proof fn lemma_split_around_newline(x: Seq<char>, y: Seq<char>, acc: Seq<char>)
    ensures
        split_lines_from(x + seq!['\n'] + y, acc) =~= split_lines_from(x, acc) + split_lines_from(
            y,
            Seq::empty(),
        ),
    decreases x.len(),
{
    let s = x + seq!['\n'] + y;
    if x.len() == 0 {
        assert(s[0] == '\n');
        assert(s.drop_first() =~= y);
    } else {
        assert(s[0] == x[0]);
        assert(s.drop_first() =~= x.drop_first() + seq!['\n'] + y);
        if x[0] == '\n' {
            lemma_split_around_newline(x.drop_first(), y, Seq::empty());
        } else {
            lemma_split_around_newline(x.drop_first(), y, acc.push(x[0]));
        }
    }
}

/// Law: what the renderer writes, the parser reads back: any list of
/// newline-free lines survives a `joined_lines` / `split_lines` cycle
/// unchanged. With `render_registry` dropping blank entries first, the
/// registry file round-trips exactly.
pub proof fn lemma_registry_round_trip(lines: Seq<Seq<char>>)
    requires
        lines.len() > 0,
        forall|i: int, j: int|
            0 <= i < lines.len() && 0 <= j < lines[i].len() ==> (#[trigger] lines[i][j]) != '\n',
    ensures
        split_lines(joined_lines(lines)) =~= lines,
    decreases lines.len(),
{
    reveal_strlit("\n");
    assert("\n"@ =~= seq!['\n']);
    if lines.len() == 1 {
        lemma_split_no_newline(lines[0], Seq::empty());
        assert(Seq::empty() + lines[0] =~= lines[0]);
        assert(split_lines(joined_lines(lines)) =~= seq![lines[0]]);
        assert(seq![lines[0]] =~= lines);
    } else {
        let a = joined_lines(lines.drop_last());
        let b = lines.last();
        lemma_registry_round_trip(lines.drop_last());
        lemma_split_around_newline(a, b, Seq::empty());
        assert(a + "\n"@ + b =~= a + seq!['\n'] + b);
        lemma_split_no_newline(b, Seq::empty());
        assert(Seq::empty() + b =~= b);
        assert(split_lines(joined_lines(lines)) =~= lines.drop_last() + seq![b]);
        assert(lines.drop_last() + seq![b] =~= lines);
    }
}

} // verus!
