//! The word list: one word per line of a text.

use vstd::prelude::*;

verus! {

/// The texts of a list of words.
pub open spec fn word_seq(words: Seq<String>) -> Seq<Seq<char>> {
    Seq::new(words.len(), |i: int| words[i]@)
}

/// The first index at or after `start` at which `text` holds a line feed, or
/// the length of `text` if there is none.
pub open spec fn line_end(text: Seq<char>, start: int) -> int
    decreases text.len() - start,
{
    if start >= text.len() || text[start] == '\n' {
        start
    } else {
        line_end(text, start + 1)
    }
}

/// `line` without a carriage return at its end.
pub open spec fn without_cr(line: Seq<char>) -> Seq<char> {
    if line.len() > 0 && line.last() == '\r' {
        line.drop_last()
    } else {
        line
    }
}

/// The lines of `text`. A line ends at a line feed, or at the end of the
/// text if the text does not end with a line feed. Neither the line feed nor
/// a carriage return directly before it belongs to the line.
pub open spec fn lines(text: Seq<char>) -> Seq<Seq<char>>
    decreases text.len(),
    via lines_decreases
{
    if text.len() == 0 {
        seq![]
    } else {
        let end = line_end(text, 0);
        if end >= text.len() {
            seq![text]
        } else {
            seq![without_cr(text.take(end))] + lines(text.skip(end + 1))
        }
    }
}

#[via_fn]
proof fn lines_decreases(text: Seq<char>) {
    lemma_line_end_bounds(text, 0);
}

/// `line_end` stays between `start` and the length of the text, finds a line
/// feed if it stops before the end, and passes over none.
pub proof fn lemma_line_end_bounds(text: Seq<char>, start: int)
    requires
        0 <= start <= text.len(),
    ensures
        start <= line_end(text, start) <= text.len(),
        line_end(text, start) < text.len() ==> text[line_end(text, start)] == '\n',
        forall|k: int| start <= k < line_end(text, start) ==> text[k] != '\n',
    decreases text.len() - start,
{
    if start < text.len() && text[start] != '\n' {
        lemma_line_end_bounds(text, start + 1);
    }
}

/// The index `end` is the line end after `start` if it holds the first line
/// feed from `start` on, or is the length of a text with no line feed from
/// `start` on.
pub proof fn lemma_line_end_is(text: Seq<char>, start: int, end: int)
    requires
        0 <= start <= end <= text.len(),
        forall|k: int| start <= k < end ==> text[k] != '\n',
        end < text.len() ==> text[end] == '\n',
    ensures
        line_end(text, start) == end,
    decreases end - start,
{
    if start < end {
        lemma_line_end_is(text, start + 1, end);
    }
}

/// Whether `text` is empty or ends with a line feed.
pub open spec fn is_terminated(text: Seq<char>) -> bool {
    text.len() == 0 || text.last() == '\n'
}

/// The lines of a terminated text followed by more text are the lines of the
/// one followed by the lines of the other.
pub proof fn lemma_lines_concat(head: Seq<char>, tail: Seq<char>)
    requires
        is_terminated(head),
    ensures
        lines(head + tail) == lines(head) + lines(tail),
    decreases head.len(),
{
    if head.len() == 0 {
        assert(head + tail =~= tail);
        assert(lines(head) + lines(tail) =~= lines(tail));
    } else {
        let whole = head + tail;
        let end = line_end(head, 0);
        lemma_line_end_bounds(head, 0);
        assert(end < head.len()) by {
            if end >= head.len() {
                assert(head[head.len() - 1] != '\n');
            }
        }
        assert forall|k: int| 0 <= k < end implies whole[k] != '\n' by {
            assert(whole[k] == head[k]);
        }
        assert(whole[end] == head[end]);
        lemma_line_end_is(whole, 0, end);
        let rest = head.skip(end + 1);
        assert(is_terminated(rest)) by {
            if rest.len() > 0 {
                assert(rest.last() == head.last());
            }
        }
        assert(whole.skip(end + 1) =~= rest + tail);
        assert(whole.take(end) =~= head.take(end));
        lemma_lines_concat(rest, tail);
        assert(lines(whole) == seq![without_cr(head.take(end))] + (lines(rest) + lines(tail)));
        assert(lines(head) == seq![without_cr(head.take(end))] + lines(rest));
        assert(seq![without_cr(head.take(end))] + (lines(rest) + lines(tail)) =~= (seq![
            without_cr(head.take(end)),
        ] + lines(rest)) + lines(tail));
    }
}

/// A text without a line feed is one line, or none if it is empty.
pub proof fn lemma_lines_of_last_line(line: Seq<char>)
    requires
        forall|k: int| 0 <= k < line.len() ==> line[k] != '\n',
    ensures
        lines(line) == if line.len() == 0 {
            Seq::<Seq<char>>::empty()
        } else {
            seq![line]
        },
{
    if line.len() > 0 {
        lemma_line_end_is(line, 0, line.len() as int);
    } else {
        assert(lines(line) =~= Seq::<Seq<char>>::empty());
    }
}

/// A text without a line feed, followed by one, is one line.
pub proof fn lemma_lines_of_full_line(line: Seq<char>)
    requires
        forall|k: int| 0 <= k < line.len() ==> line[k] != '\n',
    ensures
        lines(line.push('\n')) == seq![without_cr(line)],
{
    let text = line.push('\n');
    let end = line.len() as int;
    assert forall|k: int| 0 <= k < end implies text[k] != '\n' by {
        assert(text[k] == line[k]);
    }
    lemma_line_end_is(text, 0, end);
    assert(text.take(end) =~= line);
    assert(text.skip(end + 1) =~= Seq::<char>::empty());
    assert(lines(text.skip(end + 1)) =~= Seq::<Seq<char>>::empty());
    assert(seq![without_cr(line)] + Seq::<Seq<char>>::empty() =~= seq![without_cr(line)]);
}

/// A carriage return that has been read but not yet added to its line.
spec fn held_cr(held: bool) -> Seq<char> {
    if held {
        seq!['\r']
    } else {
        Seq::<char>::empty()
    }
}

/// Splits `text` into its lines.
pub fn split_lines(text: &str) -> (result: Vec<String>)
    ensures
        word_seq(result@) == lines(text@),
{
    let mut result: Vec<String> = Vec::new();
    let mut current = String::new();
    let mut pending_cr = false;
    let mut open = false;
    let ghost mut start: int = 0;
    proof {
        assert(word_seq(result@) =~= lines(text@.take(0)));
        assert(current@ + held_cr(pending_cr) =~= text@.subrange(0, 0));
    }
    let chars = text.chars();
    for c in it: chars
        invariant
            it.seq() == text@,
            0 <= start <= it.index() <= text@.len(),
            is_terminated(text@.take(start)),
            forall|k: int| start <= k < it.index() ==> text@[k] != '\n',
            word_seq(result@) == lines(text@.take(start)),
            current@ + held_cr(pending_cr) == text@.subrange(start, it.index()),
            !pending_cr ==> current@.len() == 0 || current@.last() != '\r',
            open == (start < it.index()),
    {
        let ghost at = it.index();
        let ghost line = text@.subrange(start, at);
        if c == '\n' {
            proof {
                let head = text@.take(start);
                lemma_lines_concat(head, line.push('\n'));
                lemma_lines_of_full_line(line);
                assert(head + line.push('\n') =~= text@.take(at + 1));
                if pending_cr {
                    assert(line.last() == '\r');
                    assert(line.drop_last() =~= current@);
                } else {
                    assert(line =~= current@);
                }
                assert(without_cr(line) == current@);
                assert(word_seq(result@.push(current)) =~= word_seq(result@).push(current@));
                assert(lines(head) + seq![current@] =~= lines(head).push(current@));
                start = at + 1;
                assert(Seq::<char>::empty() + held_cr(false) =~= text@.subrange(start, at + 1));
            }
            result.push(current);
            current = String::new();
            pending_cr = false;
            open = false;
        } else {
            if pending_cr {
                current.push('\r');
            }
            if c == '\r' {
                pending_cr = true;
            } else {
                current.push(c);
                pending_cr = false;
            }
            open = true;
            proof {
                assert(current@ + held_cr(pending_cr) =~= text@.subrange(start, at + 1));
            }
        }
    }
    proof {
        let head = text@.take(start);
        let line = text@.subrange(start, text@.len() as int);
        lemma_lines_concat(head, line);
        lemma_lines_of_last_line(line);
        assert(head + line =~= text@);
    }
    if open {
        if pending_cr {
            current.push('\r');
        }
        proof {
            let line = text@.subrange(start, text@.len() as int);
            assert(current@ =~= line);
            assert(word_seq(result@.push(current)) =~= word_seq(result@).push(current@));
            assert(lines(text@.take(start)) + seq![line] =~= lines(text@.take(start)).push(line));
        }
        result.push(current);
    } else {
        proof {
            assert(lines(text@.take(start)) + Seq::<Seq<char>>::empty() =~= lines(
                text@.take(start),
            ));
        }
    }
    result
}

/// Whether `word` is one of `words`.
pub fn contains_word(words: &Vec<String>, word: &str) -> (found: bool)
    ensures
        found == word_seq(words@).contains(word@),
{
    let target = word.to_owned();
    let n = words.len();
    let mut i: usize = 0;
    while i < n
        invariant
            i <= n,
            n == words@.len(),
            target@ == word@,
            forall|k: int| 0 <= k < i ==> words@[k]@ != word@,
        decreases n - i,
    {
        if words[i] == target {
            assert(word_seq(words@)[i as int] == word@);
            return true;
        }
        i += 1;
    }
    proof {
        if word_seq(words@).contains(word@) {
            let k = choose|k: int| 0 <= k < words@.len() && word_seq(words@)[k] == word@;
            assert(words@[k]@ == word@);
        }
    }
    false
}

} // verus!
