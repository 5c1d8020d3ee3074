//! A vocabulary file split into its two sides.
//!
//! Every line of the file is either a prompt line or a detail line. The
//! prompt side keeps the prompt lines and leaves the others blank; the detail
//! side keeps the detail lines and leaves the prompt lines blank. Both sides
//! have a line for each line of the file, so that they scroll together.

use crate::lines::{
    all_lines, is_line, lemma_lines_after_line, lemma_lines_are_lines, lemma_lines_of_line,
    lemma_lines_unlines, lemma_unlines_push, lines, unlines,
};
use vstd::prelude::*;
use vstd::seq_lib::lemma_seq_contains_after_push;

verus! {

/// Number of values that a line count can take.
pub open spec fn line_count_modulus() -> nat {
    0x1_0000
}

/// A prompt line holds a colon, or is a single dash.
pub open spec fn is_prompt_line(l: Seq<char>) -> bool {
    l.contains(':') || (l.len() == 1 && l[0] == '-')
}

/// What the prompt side shows of a line: the line itself, or a blank line.
pub open spec fn prompt_side(l: Seq<char>) -> Seq<char> {
    if is_prompt_line(l) {
        l
    } else {
        Seq::empty()
    }
}

/// What the detail side shows of a line: the line itself, or a blank line.
pub open spec fn detail_side(l: Seq<char>) -> Seq<char> {
    if is_prompt_line(l) {
        Seq::empty()
    } else {
        l
    }
}

/// The lines of the prompt side for the lines `ls` of a file.
pub open spec fn prompt_sides(ls: Seq<Seq<char>>) -> Seq<Seq<char>> {
    Seq::new(ls.len(), |i: int| prompt_side(ls[i]))
}

/// The lines of the detail side for the lines `ls` of a file.
pub open spec fn detail_sides(ls: Seq<Seq<char>>) -> Seq<Seq<char>> {
    Seq::new(ls.len(), |i: int| detail_side(ls[i]))
}

/// The prompt side of the text `src`.
pub open spec fn prompt_text(src: Seq<char>) -> Seq<char> {
    unlines(prompt_sides(lines(src)))
}

/// The detail side of the text `src`.
pub open spec fn detail_text(src: Seq<char>) -> Seq<char> {
    unlines(detail_sides(lines(src)))
}

/// A document as contracts see it.
pub struct DocumentView {
    pub prompt_text: Seq<char>,
    pub detail_text: Seq<char>,
    pub line_count: nat,
}

/// The document that the text `src` is split into. The line count is kept in
/// sixteen bits: past that it wraps around.
pub open spec fn split_text(src: Seq<char>) -> DocumentView {
    DocumentView {
        prompt_text: prompt_text(src),
        detail_text: detail_text(src),
        line_count: lines(src).len() % line_count_modulus(),
    }
}

impl DocumentView {
    /// Some text splits into this document.
    pub open spec fn is_split(self) -> bool {
        exists|src: Seq<char>| self == #[trigger] split_text(src)
    }
}

/// The two sides of a file and its number of lines.
pub struct Document {
    prompt_text: String,
    detail_text: String,
    line_count: u16,
}

impl View for Document {
    type V = DocumentView;

    closed spec fn view(&self) -> DocumentView {
        DocumentView {
            prompt_text: self.prompt_text@,
            detail_text: self.detail_text@,
            line_count: self.line_count as nat,
        }
    }
}

/// `String::push` of std: the character is added at the end of the string.
#[verifier::external_body]
fn push_char(text: &mut String, c: char)
    ensures
        final(text)@ == old(text)@.push(c),
{
    text.push(c);
}

/// Ends a line: the side that the line belongs to gets the line, the other
/// one a blank line.
fn close_line(prompt: &mut String, detail: &mut String, line: &String, is_prompt: bool)
    requires
        is_prompt == is_prompt_line(line@),
    ensures
        final(prompt)@ == old(prompt)@ + prompt_side(line@).push('\n'),
        final(detail)@ == old(detail)@ + detail_side(line@).push('\n'),
{
    if is_prompt {
        prompt.append(line.as_str());
    } else {
        detail.append(line.as_str());
    }
    push_char(prompt, '\n');
    push_char(detail, '\n');
}

/// The line count after one more line.
fn next_count(count: u16) -> (r: u16)
    ensures
        r == (count + 1) % (line_count_modulus() as int),
{
    if count == u16::MAX {
        0
    } else {
        count + 1
    }
}

impl Document {
    /// Every document is the split of some text.
    #[verifier::type_invariant]
    pub open spec fn well_formed(self) -> bool {
        self@.is_split()
    }

    /// Splits `content` into its prompt side and its detail side.
    pub fn split(content: &str) -> (doc: Document)
        ensures
            doc@ == split_text(content@),
    {
        let mut prompt = String::new();
        let mut detail = String::new();
        let mut count: u16 = 0;
        let mut line = String::new();
        let mut colon = false;
        let mut dash = false;
        let mut blank = true;
        let ghost mut closed: Seq<Seq<char>> = Seq::empty();
        let ghost mut rest: Seq<char> = content@;
        for c in it: content.chars()
            invariant
                it.seq() == content@,
                rest == content@.skip(it.index()),
                lines(content@) == closed + lines(line@ + rest),
                is_line(line@),
                colon == line@.contains(':'),
                dash == (line@.len() == 1 && line@[0] == '-'),
                blank == (line@.len() == 0),
                prompt@ == unlines(prompt_sides(closed)),
                detail@ == unlines(detail_sides(closed)),
                count == closed.len() % line_count_modulus(),
        {
            let ghost before = line@;
            proof {
                assert(rest =~= seq![c] + content@.skip(it.index() + 1));
                rest = content@.skip(it.index() + 1);
            }
            if c == '\n' {
                close_line(&mut prompt, &mut detail, &line, colon || dash);
                count = next_count(count);
                proof {
                    lemma_lines_after_line(before, rest);
                    assert(before + (seq![c] + rest) =~= before.push('\n') + rest);
                    assert(closed + (seq![before] + lines(rest)) =~= closed.push(before) + lines(
                        rest,
                    ));
                    lemma_sides_push(closed, before);
                    closed = closed.push(before);
                }
                line = String::new();
                colon = false;
                dash = false;
                blank = true;
            } else {
                push_char(&mut line, c);
                dash = blank && c == '-';
                colon = colon || c == ':';
                blank = false;
                proof {
                    lemma_seq_contains_after_push(before, c, ':');
                    assert(before + (seq![c] + rest) =~= before.push(c) + rest);
                }
            }
        }
        proof {
            lemma_lines_of_line(line@);
        }
        if !blank {
            close_line(&mut prompt, &mut detail, &line, colon || dash);
            count = next_count(count);
            proof {
                lemma_sides_push(closed, line@);
                closed = closed.push(line@);
            }
        }
        assert(closed == lines(content@));
        let ghost view = DocumentView {
            prompt_text: prompt@,
            detail_text: detail@,
            line_count: count as nat,
        };
        assert(view == split_text(content@));
        Document { prompt_text: prompt, detail_text: detail, line_count: count }
    }

    /// The prompt side: prompt lines as they are, blank lines for the others.
    pub fn prompt_text(&self) -> (text: &str)
        ensures
            text@ == self@.prompt_text,
            self@.is_split(),
    {
        proof {
            use_type_invariant(self);
        }
        self.prompt_text.as_str()
    }

    /// The detail side: detail lines as they are, blank lines for the others.
    pub fn detail_text(&self) -> (text: &str)
        ensures
            text@ == self@.detail_text,
            self@.is_split(),
    {
        proof {
            use_type_invariant(self);
        }
        self.detail_text.as_str()
    }

    /// Number of lines of the file.
    pub fn line_count(&self) -> (n: u16)
        ensures
            n == self@.line_count,
            self@.is_split(),
    {
        proof {
            use_type_invariant(self);
        }
        self.line_count
    }
}

/// One more line of the file adds its side to each text.
proof fn lemma_sides_push(ls: Seq<Seq<char>>, l: Seq<char>)
    ensures
        unlines(prompt_sides(ls.push(l))) == unlines(prompt_sides(ls)) + prompt_side(l).push('\n'),
        unlines(detail_sides(ls.push(l))) == unlines(detail_sides(ls)) + detail_side(l).push('\n'),
{
    assert(prompt_sides(ls.push(l)) =~= prompt_sides(ls).push(prompt_side(l)));
    assert(detail_sides(ls.push(l)) =~= detail_sides(ls).push(detail_side(l)));
    lemma_unlines_push(prompt_sides(ls), prompt_side(l));
    lemma_unlines_push(detail_sides(ls), detail_side(l));
}

/// The sides of lines are lines.
proof fn lemma_sides_are_lines(ls: Seq<Seq<char>>)
    requires
        all_lines(ls),
    ensures
        all_lines(prompt_sides(ls)),
        all_lines(detail_sides(ls)),
{
}

/// Each side has one line for each line of the text. A prompt line stands on
/// the prompt side as it is, with a blank line beside it on the detail side;
/// a detail line stands on the detail side, with a blank line beside it on
/// the prompt side. So no line is lost, none stands on both sides, and at
/// each height at most one side is not blank.
pub proof fn lemma_split_partitions_lines(src: Seq<char>)
    ensures
        lines(prompt_text(src)).len() == lines(src).len(),
        lines(detail_text(src)).len() == lines(src).len(),
        forall|i: int|
            #![trigger lines(src)[i]]
            0 <= i < lines(src).len() ==> {
                let line = lines(src)[i];
                let prompt = lines(prompt_text(src))[i];
                let detail = lines(detail_text(src))[i];
                &&& prompt.len() == 0 || detail.len() == 0
                &&& is_prompt_line(line) ==> prompt == line && detail.len() == 0
                &&& !is_prompt_line(line) ==> detail == line && prompt.len() == 0
            },
{
    let ls = lines(src);
    lemma_lines_are_lines(src);
    lemma_sides_are_lines(ls);
    lemma_lines_unlines(prompt_sides(ls));
    lemma_lines_unlines(detail_sides(ls));
}

/// Two documents split from the same text are the same.
pub proof fn lemma_split_is_repeatable(first: Document, second: Document, src: Seq<char>)
    requires
        first@ == split_text(src),
        second@ == split_text(src),
    ensures
        first@ == second@,
{
}

/// A side that is split once more stays as it is: its own lines are all on
/// its side, or blank.
pub proof fn lemma_split_of_side(src: Seq<char>)
    ensures
        prompt_text(prompt_text(src)) == prompt_text(src),
        detail_text(detail_text(src)) == detail_text(src),
{
    let ls = lines(src);
    lemma_lines_are_lines(src);
    lemma_sides_are_lines(ls);
    lemma_lines_unlines(prompt_sides(ls));
    lemma_lines_unlines(detail_sides(ls));
    assert(prompt_sides(prompt_sides(ls)) =~= prompt_sides(ls));
    assert(detail_sides(detail_sides(ls)) =~= detail_sides(ls));
}

} // verus!
