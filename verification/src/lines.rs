//! Lines of a text: where a text is cut into lines, and how lines are put
//! together again.
//!
//! A line ends at a line feed. A text that ends in a line feed has no empty
//! line after it, and the empty text has no line at all.

use vstd::prelude::*;

verus! {

/// A line holds no line feed.
pub open spec fn is_line(l: Seq<char>) -> bool {
    forall|i: int| 0 <= i < l.len() ==> l[i] != '\n'
}

/// Every member of `ls` is a line.
pub open spec fn all_lines(ls: Seq<Seq<char>>) -> bool {
    forall|i: int| 0 <= i < ls.len() ==> is_line(#[trigger] ls[i])
}

/// Number of characters in front of the first line feed of `s`; the length of
/// `s` where it has none.
pub open spec fn first_line_len(s: Seq<char>) -> nat
    decreases s.len(),
{
    if s.len() == 0 || s[0] == '\n' {
        0
    } else {
        1 + first_line_len(s.drop_first())
    }
}

/// The lines of `s`, in order, without their line feeds.
pub open spec fn lines(s: Seq<char>) -> Seq<Seq<char>>
    decreases s.len(),
{
    if s.len() == 0 {
        Seq::empty()
    } else {
        let n = first_line_len(s) as int;
        if n >= s.len() {
            seq![s]
        } else {
            seq![s.take(n)] + lines(s.skip(n + 1))
        }
    }
}

/// The text made of the lines `ls`, each followed by a line feed.
pub open spec fn unlines(ls: Seq<Seq<char>>) -> Seq<char>
    decreases ls.len(),
{
    if ls.len() == 0 {
        Seq::empty()
    } else {
        unlines(ls.drop_last()) + ls.last().push('\n')
    }
}

/// `s` with a line feed after its last line, where that one has none.
pub open spec fn terminated(s: Seq<char>) -> Seq<char> {
    if s.len() == 0 || s.last() == '\n' {
        s
    } else {
        s.push('\n')
    }
}

/// The first line of `s` stops at the first line feed, or at the end.
pub proof fn lemma_first_line_len(s: Seq<char>)
    ensures
        first_line_len(s) <= s.len(),
        is_line(s.take(first_line_len(s) as int)),
        first_line_len(s) < s.len() ==> s[first_line_len(s) as int] == '\n',
    decreases s.len(),
{
    if s.len() == 0 || s[0] == '\n' {
    } else {
        let t = s.drop_first();
        lemma_first_line_len(t);
        let n = first_line_len(s) as int;
        let head = s.take(n);
        let tail = t.take(n - 1);
        assert forall|i: int| 0 <= i < head.len() implies head[i] != '\n' by {
            if i > 0 {
                assert(head[i] == tail[i - 1]);
            }
        }
    }
}

/// A line in front of a text pushes the first line feed back by its length.
pub proof fn lemma_first_line_len_after(a: Seq<char>, rest: Seq<char>)
    requires
        is_line(a),
    ensures
        first_line_len(a + rest) == a.len() + first_line_len(rest),
    decreases a.len(),
{
    if a.len() > 0 {
        let t = a.drop_first();
        assert(is_line(t));
        lemma_first_line_len_after(t, rest);
        assert((a + rest).drop_first() =~= t + rest);
    }
}

/// A line and its line feed in front of a text come out as the first line.
pub proof fn lemma_lines_after_line(a: Seq<char>, rest: Seq<char>)
    requires
        is_line(a),
    ensures
        lines(a.push('\n') + rest) == seq![a] + lines(rest),
{
    let s = a.push('\n') + rest;
    let tail = seq!['\n'] + rest;
    assert(s =~= a + tail);
    lemma_first_line_len_after(a, tail);
    let n = first_line_len(s) as int;
    assert(s.take(n) =~= a);
    assert(s.skip(n + 1) =~= rest);
}

/// A text without a line feed is one line, or none where it is empty.
pub proof fn lemma_lines_of_line(a: Seq<char>)
    requires
        is_line(a),
    ensures
        lines(a) == if a.len() == 0 {
            Seq::<Seq<char>>::empty()
        } else {
            seq![a]
        },
{
    lemma_first_line_len_after(a, Seq::empty());
}

/// No line of a text holds a line feed.
pub proof fn lemma_lines_are_lines(s: Seq<char>)
    ensures
        all_lines(lines(s)),
    decreases s.len(),
{
    if s.len() > 0 {
        lemma_first_line_len(s);
        let n = first_line_len(s) as int;
        if n >= s.len() {
            assert(s.take(n) =~= s);
        } else {
            lemma_lines_are_lines(s.skip(n + 1));
        }
    }
}

/// Putting lines together goes along with their concatenation.
pub proof fn lemma_unlines_concat(a: Seq<Seq<char>>, b: Seq<Seq<char>>)
    ensures
        unlines(a + b) == unlines(a) + unlines(b),
    decreases b.len(),
{
    if b.len() > 0 {
        lemma_unlines_concat(a, b.drop_last());
        assert((a + b).drop_last() =~= a + b.drop_last());
    }
}

/// One more line adds that line and a line feed to the text.
pub proof fn lemma_unlines_push(ls: Seq<Seq<char>>, l: Seq<char>)
    ensures
        unlines(ls.push(l)) == unlines(ls) + l.push('\n'),
{
    assert(ls.push(l).drop_last() =~= ls);
}

/// Cutting a text into lines and putting them together gives the text back,
/// with a line feed after its last line.
pub proof fn lemma_unlines_lines(s: Seq<char>)
    ensures
        unlines(lines(s)) == terminated(s),
    decreases s.len(),
{
    if s.len() > 0 {
        lemma_first_line_len(s);
        let n = first_line_len(s) as int;
        if n >= s.len() {
            assert(s.take(n) =~= s);
            lemma_unlines_push(Seq::empty(), s);
        } else {
            let head = s.take(n);
            let t = s.skip(n + 1);
            lemma_unlines_lines(t);
            lemma_unlines_concat(seq![head], lines(t));
            lemma_unlines_push(Seq::empty(), head);
        }
    }
}

/// Putting lines together and cutting the text again gives the same lines.
pub proof fn lemma_lines_unlines(ls: Seq<Seq<char>>)
    requires
        all_lines(ls),
    ensures
        lines(unlines(ls)) == ls,
    decreases ls.len(),
{
    if ls.len() > 0 {
        let head = ls[0];
        let rest = ls.skip(1);
        assert(ls =~= seq![head] + rest);
        assert(all_lines(rest));
        lemma_lines_unlines(rest);
        lemma_unlines_concat(seq![head], rest);
        lemma_unlines_push(Seq::empty(), head);
        lemma_lines_after_line(head, unlines(rest));
    }
}

} // verus!
