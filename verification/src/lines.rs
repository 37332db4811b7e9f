//! Lines of a text: splitting at newlines, joining with newlines, and the
//! re-flow that drops every empty line.

use vstd::prelude::*;

verus! {

/// The pieces of `s` between its newline characters. There is always at
/// least one piece; a text that ends in a newline has an empty last piece.
pub open spec fn split_lines(s: Seq<char>) -> Seq<Seq<char>>
    decreases s.len(),
{
    if s.len() == 0 {
        seq![Seq::<char>::empty()]
    } else {
        let before = split_lines(s.drop_last());
        if s.last() == '\n' {
            before.push(Seq::<char>::empty())
        } else {
            before.drop_last().push(before.last().push(s.last()))
        }
    }
}

/// The pieces put together again, with one newline between neighbours.
pub open spec fn join_lines(lines: Seq<Seq<char>>) -> Seq<char>
    decreases lines.len(),
{
    if lines.len() == 0 {
        Seq::<char>::empty()
    } else if lines.len() == 1 {
        lines[0]
    } else {
        join_lines(lines.drop_last()) + seq!['\n'] + lines.last()
    }
}

/// The lines of `s` that hold at least one character, in order.
pub open spec fn nonempty_lines(s: Seq<char>) -> Seq<Seq<char>> {
    split_lines(s).filter(|line: Seq<char>| line.len() > 0)
}

/// `s` with every empty line removed.
pub open spec fn reflowed(s: Seq<char>) -> Seq<char> {
    join_lines(nonempty_lines(s))
}

/// No line of `s` is empty: `s` neither starts nor ends with a newline and
/// holds no two newlines in a row. The empty text qualifies.
pub open spec fn no_blank_line(s: Seq<char>) -> bool {
    &&& s.len() > 0 ==> s[0] != '\n' && s[s.len() - 1] != '\n'
    &&& forall|i: int| 0 <= i < s.len() - 1 ==> !(s[i] == '\n' && #[trigger] s[i + 1] == '\n')
}

/// Every member of `lines` holds a character and none holds a newline.
pub open spec fn solid_lines(lines: Seq<Seq<char>>) -> bool {
    forall|i: int|
        0 <= i < lines.len() ==> (#[trigger] lines[i]).len() > 0 && !lines[i].contains('\n')
}

/// A text always splits into at least one line, and no line holds a newline.
pub proof fn lemma_split_lines_shape(s: Seq<char>)
    ensures
        split_lines(s).len() >= 1,
        forall|i: int|
            0 <= i < split_lines(s).len() ==> !(#[trigger] split_lines(s)[i]).contains('\n'),
    decreases s.len(),
{
    if s.len() > 0 {
        lemma_split_lines_shape(s.drop_last());
        let before = split_lines(s.drop_last());
        if s.last() != '\n' {
            let grown = before.last().push(s.last());
            assert(!grown.contains('\n')) by {
                if grown.contains('\n') {
                    let k = choose|k: int| 0 <= k < grown.len() && grown[k] == '\n';
                    assert(before.last()[k] == '\n');
                    assert(before.last().contains('\n'));
                }
            }
        } else {
            assert(!Seq::<char>::empty().contains('\n'));
        }
    }
}

/// The lines that re-flowing keeps are solid.
pub proof fn lemma_nonempty_lines_solid(s: Seq<char>)
    ensures
        solid_lines(nonempty_lines(s)),
{
    let lines = split_lines(s);
    let pred = |line: Seq<char>| line.len() > 0;
    let kept = lines.filter(pred);
    lemma_split_lines_shape(s);
    assert forall|i: int| 0 <= i < kept.len() implies (#[trigger] kept[i]).len() > 0
        && !kept[i].contains('\n') by {
        lines.lemma_filter_pred(pred, i);
        lines.lemma_filter_contains_rev(pred, kept[i]);
        assert(kept.contains(kept[i]));
        assert(lines.contains(kept[i]));
        let j = choose|j: int| 0 <= j < lines.len() && lines[j] == kept[i];
        assert(!lines[j].contains('\n'));
    }
}

/// Joining solid lines gives a text without a blank line, and a text that
/// is empty only when there was no line at all.
pub proof fn lemma_join_solid_lines(lines: Seq<Seq<char>>)
    requires
        solid_lines(lines),
    ensures
        no_blank_line(join_lines(lines)),
        join_lines(lines).len() == 0 <==> lines.len() == 0,
    decreases lines.len(),
{
    if lines.len() == 0 {
    } else if lines.len() == 1 {
        let only = lines[0];
        assert forall|i: int| 0 <= i < only.len() implies only[i] != '\n' by {
            if only[i] == '\n' {
                assert(only.contains('\n'));
            }
        }
    } else {
        let front = lines.drop_last();
        let tail = lines.last();
        assert(solid_lines(front)) by {
            assert forall|i: int| 0 <= i < front.len() implies (#[trigger] front[i]).len() > 0
                && !front[i].contains('\n') by {
                assert(front[i] == lines[i]);
            }
        }
        lemma_join_solid_lines(front);
        let head = join_lines(front);
        let whole = join_lines(lines);
        assert(whole == head + seq!['\n'] + tail);
        assert forall|i: int| 0 <= i < tail.len() implies tail[i] != '\n' by {
            if tail[i] == '\n' {
                assert(tail.contains('\n'));
            }
        }
        assert forall|i: int| 0 <= i < whole.len() - 1 implies !(whole[i] == '\n'
            && #[trigger] whole[i + 1] == '\n') by {
            if i + 1 < head.len() {
                assert(whole[i] == head[i]);
                assert(whole[i + 1] == head[i + 1]);
            } else if i + 1 == head.len() {
                assert(whole[i] == head[head.len() - 1]);
            } else if i == head.len() {
                assert(whole[i + 1] == tail[0]);
            } else {
                assert(whole[i] == tail[i - head.len() - 1]);
            }
        }
        assert(whole[0] == head[0]);
        assert(whole[whole.len() - 1] == tail[tail.len() - 1]);
    }
}

/// Re-flowing leaves no empty line behind, whatever the input.
pub proof fn lemma_reflowed_has_no_blank_line(s: Seq<char>)
    ensures
        no_blank_line(reflowed(s)),
{
    lemma_nonempty_lines_solid(s);
    lemma_join_solid_lines(nonempty_lines(s));
}

/// The empty text re-flows to itself.
pub proof fn lemma_reflowed_empty()
    ensures
        reflowed(Seq::<char>::empty()) == Seq::<char>::empty(),
        split_lines(Seq::<char>::empty()).last().len() == 0,
{
    reveal_with_fuel(Seq::filter, 2);
    let pred = |line: Seq<char>| line.len() > 0;
    let lines = split_lines(Seq::<char>::empty());
    assert(lines == seq![Seq::<char>::empty()]);
    assert(lines.drop_last().len() == 0);
    assert(lines.filter(pred) == lines.drop_last().filter(pred));
    assert(lines.filter(pred).len() == 0);
}

/// How the re-flowed text grows when one character is added to its source.
pub proof fn lemma_reflowed_push(s: Seq<char>, c: char)
    ensures
        split_lines(s.push(c)).last().len() > 0 <==> c != '\n',
        reflowed(s.push(c)) == if c == '\n' {
            reflowed(s)
        } else if split_lines(s).last().len() > 0 || reflowed(s).len() == 0 {
            reflowed(s).push(c)
        } else {
            reflowed(s).push('\n').push(c)
        },
{
    reveal(Seq::filter);
    let pred = |line: Seq<char>| line.len() > 0;
    let grown = s.push(c);
    let before = split_lines(s);
    let after = split_lines(grown);
    lemma_split_lines_shape(s);
    assert(grown.drop_last() == s);
    if c == '\n' {
        assert(after == before.push(Seq::<char>::empty()));
        assert(after.drop_last() == before);
    } else {
        let kept = before.drop_last().filter(pred);
        let tail = before.last();
        assert(after == before.drop_last().push(tail.push(c)));
        assert(after.drop_last() == before.drop_last());
        assert(after.filter(pred) == kept.push(tail.push(c)));
        assert(kept.push(tail.push(c)).drop_last() == kept);
        if tail.len() > 0 {
            assert(before.filter(pred) == kept.push(tail));
            assert(kept.push(tail).drop_last() == kept);
            assert(reflowed(grown) == reflowed(s).push(c));
        } else {
            assert(before.filter(pred) == kept);
            assert(solid_lines(kept)) by {
                assert forall|i: int| 0 <= i < kept.len() implies (#[trigger] kept[i]).len() > 0
                    && !kept[i].contains('\n') by {
                    before.drop_last().lemma_filter_pred(pred, i);
                    before.drop_last().lemma_filter_contains_rev(pred, kept[i]);
                    assert(kept.contains(kept[i]));
                    let j = choose|j: int|
                        0 <= j < before.drop_last().len() && before.drop_last()[j] == kept[i];
                    assert(before[j] == kept[i]);
                }
            }
            lemma_join_solid_lines(kept);
            if kept.len() == 0 {
                assert(reflowed(grown) == reflowed(s).push(c));
            } else {
                assert(reflowed(grown) == reflowed(s).push('\n').push(c));
            }
        }
    }
}

/// Removes every empty line of `text`: splits at newlines, keeps the lines
/// that hold a character, and joins them with single newlines.
pub fn reflow(text: &str) -> (result: String)
    ensures
        result@ == reflowed(text@),
        no_blank_line(result@),
{
    let mut out = String::new();
    let mut wrote_any = false;
    let mut in_line = false;
    proof {
        assert(text@.take(0) == Seq::<char>::empty());
        lemma_reflowed_empty();
    }
    for c in it: text.chars()
        invariant
            it.seq() == text@,
            out@ == reflowed(text@.take(it.index())),
            in_line == (split_lines(text@.take(it.index())).last().len() > 0),
            wrote_any == (out@.len() > 0),
    {
        proof {
            let seen = text@.take(it.index());
            assert(text@.take(it.index() + 1) == seen.push(c));
            lemma_reflowed_push(seen, c);
        }
        if c == '\n' {
            in_line = false;
        } else {
            if !in_line && wrote_any {
                out.push('\n');
            }
            out.push(c);
            in_line = true;
            wrote_any = true;
        }
    }
    proof {
        assert(text@.take(text@.len() as int) == text@);
        lemma_reflowed_has_no_blank_line(text@);
    }
    out
}

/// Joins the fragments with single newlines, in order.
pub fn join_fragments(fragments: &Vec<String>) -> (result: String)
    ensures
        result@ == join_lines(fragments.deep_view()),
{
    let mut out = String::new();
    let mut i: usize = 0;
    while i < fragments.len()
        invariant
            i <= fragments@.len(),
            out@ == join_lines(fragments.deep_view().take(i as int)),
        decreases fragments@.len() - i,
    {
        proof {
            let done = fragments.deep_view().take(i as int);
            let next = fragments.deep_view().take(i + 1);
            assert(next.drop_last() == done);
            assert(next.last() == fragments@[i as int]@);
        }
        if i > 0 {
            out.push('\n');
        }
        out.append(fragments[i].as_str());
        i += 1;
    }
    assert(fragments.deep_view().take(fragments@.len() as int) == fragments.deep_view());
    out
}

} // verus!
