//! The lines of a text.

use vstd::prelude::*;
use super::text::{string_of, texts, to_chars};

verus! {

/// The lines of a text and the beginning of a line that has not ended yet.
pub struct LineScan {
    pub done: Seq<Seq<char>>,
    pub pending: Seq<char>,
}

/// A line without the carriage return at its end, if it has one.
pub open spec fn strip_cr(line: Seq<char>) -> Seq<char> {
    if line.len() > 0 && line.last() == '\r' {
        line.drop_last()
    } else {
        line
    }
}

/// Reads a text character by character: a line feed ends a line, and a
/// carriage return right before it is dropped with it.
pub open spec fn scan_lines(content: Seq<char>) -> LineScan
    decreases content.len(),
{
    if content.len() == 0 {
        LineScan { done: Seq::empty(), pending: Seq::empty() }
    } else {
        let before = scan_lines(content.drop_last());
        if content.last() == '\n' {
            LineScan { done: before.done.push(strip_cr(before.pending)), pending: Seq::empty() }
        } else {
            LineScan { done: before.done, pending: before.pending.push(content.last()) }
        }
    }
}

/// The lines of a text. What follows the last line feed is a line too,
/// unless it is empty.
pub open spec fn split_lines(content: Seq<char>) -> Seq<Seq<char>> {
    let scan = scan_lines(content);
    if scan.pending.len() > 0 {
        scan.done.push(scan.pending)
    } else {
        scan.done
    }
}

/// The text that holds the given lines, each ended by a line feed.
pub open spec fn join_lines(lines: Seq<Seq<char>>) -> Seq<char>
    decreases lines.len(),
{
    if lines.len() == 0 {
        Seq::empty()
    } else {
        join_lines(lines.drop_last()) + lines.last() + seq!['\n']
    }
}

/// Whether a line comes back from a text as it went in: it holds no line
/// feed and does not end in a carriage return.
pub open spec fn plain_line(line: Seq<char>) -> bool {
    &&& forall|i: int| 0 <= i < line.len() ==> line[i] != '\n'
    &&& strip_cr(line) == line
}

/// A text without line feeds, read behind another, extends the line that
/// has not ended yet.
pub proof fn lemma_scan_lines_extend(content: Seq<char>, line: Seq<char>)
    requires
        forall|i: int| 0 <= i < line.len() ==> line[i] != '\n',
    ensures
        scan_lines(content + line) == (LineScan {
            done: scan_lines(content).done,
            pending: scan_lines(content).pending + line,
        }),
    decreases line.len(),
{
    if line.len() == 0 {
        assert(content + line =~= content);
        assert(scan_lines(content).pending + line =~= scan_lines(content).pending);
    } else {
        lemma_scan_lines_extend(content, line.drop_last());
        assert((content + line).drop_last() =~= content + line.drop_last());
        assert((content + line).last() == line.last());
        assert((scan_lines(content).pending + line.drop_last()).push(line.last()) =~= scan_lines(
            content,
        ).pending + line);
    }
}

/// The lines of a text that was joined from plain lines are those lines.
pub proof fn lemma_split_joined(lines: Seq<Seq<char>>)
    requires
        forall|i: int| 0 <= i < lines.len() ==> plain_line(#[trigger] lines[i]),
    ensures
        scan_lines(join_lines(lines)) == (LineScan { done: lines, pending: Seq::empty() }),
        split_lines(join_lines(lines)) == lines,
    decreases lines.len(),
{
    if lines.len() > 0 {
        let init = lines.drop_last();
        let line = lines.last();
        assert forall|i: int| 0 <= i < init.len() implies plain_line(#[trigger] init[i]) by {
            assert(init[i] == lines[i]);
        }
        lemma_split_joined(init);
        assert(plain_line(lines[lines.len() - 1]));
        lemma_scan_lines_extend(join_lines(init), line);
        let text = join_lines(lines);
        assert(text.drop_last() =~= join_lines(init) + line);
        assert(text.last() == '\n');
        assert(Seq::<char>::empty() + line =~= line);
        assert(init.push(line) =~= lines);
    } else {
        assert(lines =~= Seq::<Seq<char>>::empty());
    }
}

/// The lines of a text, as `split_lines` says.
pub fn lines_of(content: &str) -> (r: Vec<String>)
    ensures
        texts(r@) == split_lines(content@),
{
    let chars = to_chars(content);
    let mut done: Vec<String> = Vec::new();
    let mut start: usize = 0;
    let mut i: usize = 0;
    proof {
        assert(content@.take(0) =~= Seq::<char>::empty());
        assert(texts(done@) =~= Seq::<Seq<char>>::empty());
        assert(chars@.subrange(0, 0) =~= Seq::<char>::empty());
    }
    while i < chars.len()
        invariant
            start <= i <= chars.len(),
            chars@ == content@,
            texts(done@) == scan_lines(content@.take(i as int)).done,
            chars@.subrange(start as int, i as int) == scan_lines(content@.take(i as int)).pending,
        decreases chars.len() - i,
    {
        proof {
            assert(content@.take(i + 1).drop_last() =~= content@.take(i as int));
            assert(content@.take(i + 1).last() == chars@[i as int]);
        }
        if chars[i] == '\n' {
            let end: usize = if start < i && chars[i - 1] == '\r' {
                i - 1
            } else {
                i
            };
            let line = string_of(&chars, start, end);
            proof {
                let pending = chars@.subrange(start as int, i as int);
                if start < i {
                    assert(pending.last() == chars@[i - 1]);
                }
                assert(line@ =~= strip_cr(pending));
            }
            let ghost texts_before = texts(done@);
            done.push(line);
            proof {
                assert(texts(done@) =~= texts_before.push(line@));
                assert(chars@.subrange(i + 1, i + 1) =~= Seq::<char>::empty());
            }
            start = i + 1;
        } else {
            proof {
                assert(chars@.subrange(start as int, i + 1) =~= chars@.subrange(
                    start as int,
                    i as int,
                ).push(chars@[i as int]));
            }
        }
        i = i + 1;
    }
    assert(content@.take(i as int) =~= content@);
    if start < chars.len() {
        let line = string_of(&chars, start, chars.len());
        let ghost texts_before = texts(done@);
        done.push(line);
        proof {
            assert(texts(done@) =~= texts_before.push(line@));
        }
    }
    done
}

/// The text of two lists of lines, one after the other.
pub proof fn lemma_join_lines_concat(a: Seq<Seq<char>>, b: Seq<Seq<char>>)
    ensures
        join_lines(a + b) == join_lines(a) + join_lines(b),
    decreases b.len(),
{
    if b.len() == 0 {
        assert(a + b =~= a);
        assert(join_lines(a) + join_lines(b) =~= join_lines(a));
    } else {
        lemma_join_lines_concat(a, b.drop_last());
        assert((a + b).drop_last() =~= a + b.drop_last());
        assert((a + b).last() == b.last());
        assert(join_lines(a) + (join_lines(b.drop_last()) + b.last() + seq!['\n']) =~= (join_lines(
            a,
        ) + join_lines(b.drop_last())) + b.last() + seq!['\n']);
    }
}

} // verus!
