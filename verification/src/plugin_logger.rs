//! Line-wise logging of what a plugin's process writes. Each stream of the
//! process is cut into lines on its own, and a line is handed on only when
//! it is complete, so that a line of the shared output always comes from one
//! stream of one plugin.

use vstd::prelude::*;
use crate::stdout_styling::{single_line, style_line_at, styled, timestamp_text};
use crate::text::char_len;

verus! {

/// The byte that ends a line.
pub const LINE_FEED: u8 = 10;

/// Position of the first line feed in `data`, or `data.len()` without one.
pub open spec fn first_line_feed(data: Seq<u8>) -> nat
    decreases data.len(),
{
    if data.len() == 0 {
        0
    } else if data[0] == LINE_FEED {
        0
    } else {
        1 + first_line_feed(data.drop_first())
    }
}

/// The complete lines of `data`: each stretch of bytes that a line feed
/// ends, without that line feed.
pub open spec fn complete_lines(data: Seq<u8>) -> Seq<Seq<u8>>
    decreases data.len(),
{
    let k = first_line_feed(data) as int;
    if k >= data.len() {
        Seq::empty()
    } else {
        seq![data.subrange(0, k)] + complete_lines(data.subrange(k + 1, data.len() as int))
    }
}

/// What follows the last line feed of `data`: the beginning of a line that
/// is not complete yet.
pub open spec fn remainder(data: Seq<u8>) -> Seq<u8>
    decreases data.len(),
{
    let k = first_line_feed(data) as int;
    if k >= data.len() {
        data
    } else {
        remainder(data.subrange(k + 1, data.len() as int))
    }
}

/// The lines one after the other, each with a line feed at its end.
pub open spec fn joined(lines: Seq<Seq<u8>>) -> Seq<u8>
    decreases lines.len(),
{
    if lines.len() == 0 {
        Seq::empty()
    } else {
        lines[0] + seq![LINE_FEED] + joined(lines.drop_first())
    }
}

/// No byte of `data` is a line feed.
pub open spec fn no_line_feed(data: Seq<u8>) -> bool {
    forall|i: int| 0 <= i < data.len() ==> #[trigger] data[i] != LINE_FEED
}

/// The first line feed is at `first_line_feed`, which is `data.len()`
/// exactly when `data` has none.
pub proof fn lemma_first_line_feed(data: Seq<u8>)
    ensures
        first_line_feed(data) <= data.len(),
        first_line_feed(data) < data.len() ==> data[first_line_feed(data) as int] == LINE_FEED,
        no_line_feed(data.subrange(0, first_line_feed(data) as int)),
    decreases data.len(),
{
    if data.len() != 0 && data[0] != LINE_FEED {
        let rest = data.drop_first();
        lemma_first_line_feed(rest);
        let k = first_line_feed(data) as int;
        let head = data.subrange(0, k);
        let rest_head = rest.subrange(0, k - 1);
        assert forall|i: int| 0 <= i < head.len() implies #[trigger] head[i] != LINE_FEED by {
            if i > 0 {
                assert(head[i] == rest_head[i - 1]);
            }
        }
    }
}

/// A position `k` that holds a line feed, or is the end, and has no line
/// feed before it is the first line feed.
pub proof fn lemma_first_line_feed_is(data: Seq<u8>, k: int)
    requires
        0 <= k <= data.len(),
        k < data.len() ==> data[k] == LINE_FEED,
        forall|i: int| 0 <= i < k ==> data[i] != LINE_FEED,
    ensures
        first_line_feed(data) == k,
{
    lemma_first_line_feed(data);
    let f = first_line_feed(data) as int;
    if f < k {
        assert(data[f] == LINE_FEED);
    }
    if k < f {
        assert(data.subrange(0, f)[k] == data[k]);
    }
}

/// No complete line holds a line feed, nor does the remainder: a line that
/// is handed on is one line.
pub proof fn lemma_lines_are_whole(data: Seq<u8>)
    ensures
        forall|i: int|
            0 <= i < complete_lines(data).len() ==> no_line_feed(
                #[trigger] complete_lines(data)[i],
            ),
        no_line_feed(remainder(data)),
    decreases data.len(),
{
    lemma_first_line_feed(data);
    let k = first_line_feed(data) as int;
    if k >= data.len() {
        assert(data.subrange(0, k) =~= data);
    } else {
        let rest = data.subrange(k + 1, data.len() as int);
        lemma_lines_are_whole(rest);
        let lines = complete_lines(data);
        assert forall|i: int| 0 <= i < lines.len() implies no_line_feed(#[trigger] lines[i]) by {
            if i > 0 {
                assert(lines[i] == complete_lines(rest)[i - 1]);
            }
        }
    }
}

/// Nothing is lost and nothing is added: the complete lines, each with its
/// line feed, followed by the remainder are the data.
pub proof fn lemma_lines_keep_every_byte(data: Seq<u8>)
    ensures
        joined(complete_lines(data)) + remainder(data) == data,
    decreases data.len(),
{
    lemma_first_line_feed(data);
    let k = first_line_feed(data) as int;
    if k >= data.len() {
        assert(joined(complete_lines(data)) + remainder(data) =~= data);
    } else {
        let rest = data.subrange(k + 1, data.len() as int);
        lemma_lines_keep_every_byte(rest);
        let lines = complete_lines(data);
        assert(lines.drop_first() =~= complete_lines(rest));
        assert(lines[0] == data.subrange(0, k));
        assert(joined(lines) + remainder(data) =~= data.subrange(0, k) + seq![LINE_FEED] + (joined(
            complete_lines(rest),
        ) + remainder(rest)));
        assert(data.subrange(0, k) + seq![LINE_FEED] + rest =~= data);
    }
}

/// The lines do not depend on how the stream is cut into pieces: the lines
/// of two pieces in a row are the lines of the first, then the lines of
/// what the first left over followed by the second.
pub proof fn lemma_lines_of_pieces(first: Seq<u8>, second: Seq<u8>)
    ensures
        complete_lines(first + second) == complete_lines(first) + complete_lines(
            remainder(first) + second,
        ),
        remainder(first + second) == remainder(remainder(first) + second),
    decreases first.len(),
{
    lemma_first_line_feed(first);
    let k = first_line_feed(first) as int;
    if k >= first.len() {
        assert(complete_lines(first) + complete_lines(first + second) =~= complete_lines(
            first + second,
        ));
    } else {
        let whole = first + second;
        assert forall|i: int| 0 <= i < k implies whole[i] != LINE_FEED by {
            assert(first.subrange(0, k)[i] == whole[i]);
        }
        lemma_first_line_feed_is(whole, k);
        let rest = first.subrange(k + 1, first.len() as int);
        lemma_lines_of_pieces(rest, second);
        assert(whole.subrange(k + 1, whole.len() as int) =~= rest + second);
        assert(whole.subrange(0, k) =~= first.subrange(0, k));
        assert(seq![first.subrange(0, k)] + (complete_lines(rest) + complete_lines(
            remainder(rest) + second,
        )) =~= (seq![first.subrange(0, k)] + complete_lines(rest)) + complete_lines(
            remainder(rest) + second,
        ));
    }
}

/// The lines held in `lines`, each as a sequence of bytes.
pub open spec fn lines_view(lines: Seq<Vec<u8>>) -> Seq<Seq<u8>> {
    lines.map_values(|line: Vec<u8>| line@)
}

/// The buffer of one stream: the bytes of the line that is not complete
/// yet.
#[derive(Debug)]
pub struct LineBuffer {
    pending: Vec<u8>,
}

impl LineBuffer {
    /// The bytes held back.
    pub closed spec fn pending(&self) -> Seq<u8> {
        self.pending@
    }

    #[verifier::type_invariant]
    spec fn holds_no_line_feed(&self) -> bool {
        no_line_feed(self.pending@)
    }

    /// A buffer that holds nothing.
    pub fn new() -> (r: LineBuffer)
        ensures
            r.pending() == Seq::<u8>::empty(),
    {
        LineBuffer { pending: Vec::new() }
    }

    /// Takes the next bytes of the stream and hands out the lines that they
    /// complete, in order and without their line feeds. What follows the
    /// last line feed is held back.
    pub fn push(&mut self, chunk: &[u8]) -> (lines: Vec<Vec<u8>>)
        ensures
            lines_view(lines@) == complete_lines(old(self).pending() + chunk@),
            final(self).pending() == remainder(old(self).pending() + chunk@),
    {
        proof {
            use_type_invariant(&*self);
        }
        let ghost data = self.pending@ + chunk@;
        let mut pending: Vec<u8> = Vec::new();
        std::mem::swap(&mut self.pending, &mut pending);
        let mut lines: Vec<Vec<u8>> = Vec::new();
        let n = chunk.len();
        let mut i: usize = 0;
        assert(chunk@.subrange(0, n as int) =~= chunk@);
        assert(lines_view(lines@) + complete_lines(data) =~= complete_lines(data));
        while i < n
            invariant
                n == chunk@.len(),
                i <= n,
                no_line_feed(pending@),
                complete_lines(data) == lines_view(lines@) + complete_lines(
                    pending@ + chunk@.subrange(i as int, n as int),
                ),
                remainder(data) == remainder(pending@ + chunk@.subrange(i as int, n as int)),
            decreases n - i,
        {
            let b = chunk[i];
            let ghost rest = chunk@.subrange(i as int, n as int);
            let ghost after = chunk@.subrange(i + 1, n as int);
            let ghost now = pending@ + rest;
            assert(rest[0] == b);
            if b == LINE_FEED {
                proof {
                    assert(now[pending@.len() as int] == LINE_FEED);
                    assert forall|j: int| 0 <= j < pending@.len() implies now[j] != LINE_FEED by {
                        assert(now[j] == pending@[j]);
                    }
                    lemma_first_line_feed_is(now, pending@.len() as int);
                    assert(now.subrange(0, pending@.len() as int) =~= pending@);
                    assert(now.subrange(pending@.len() as int + 1, now.len() as int) =~= after);
                    assert(Seq::<u8>::empty() + after =~= after);
                    assert(lines_view(lines@.push(pending)) =~= lines_view(lines@).push(pending@));
                    assert(lines_view(lines@) + (seq![pending@] + complete_lines(after))
                        =~= lines_view(lines@).push(pending@) + complete_lines(after));
                }
                let mut line: Vec<u8> = Vec::new();
                std::mem::swap(&mut line, &mut pending);
                lines.push(line);
            } else {
                proof {
                    assert(pending@.push(b) + after =~= now);
                }
                pending.push(b);
            }
            i = i + 1;
        }
        proof {
            assert(chunk@.subrange(n as int, n as int) =~= Seq::<u8>::empty());
            assert(pending@ + Seq::<u8>::empty() =~= pending@);
            lemma_first_line_feed_is(pending@, pending@.len() as int);
            assert(lines_view(lines@) + Seq::<Seq<u8>>::empty() =~= lines_view(lines@));
        }
        self.pending = pending;
        lines
    }

    /// Ends the stream: what was held back is the last line, if it holds
    /// anything.
    pub fn finish(self) -> (r: Option<Vec<u8>>)
        ensures
            match r {
                Some(line) => line@ == self.pending() && line@.len() > 0,
                None => self.pending().len() == 0,
            },
    {
        if self.pending.len() > 0 {
            Some(self.pending)
        } else {
            None
        }
    }
}

/// `line` without the carriage return at its end, if it has one.
pub open spec fn trimmed(line: Seq<char>) -> Seq<char> {
    if line.len() > 0 && line.last() == '\r' {
        line.drop_last()
    } else {
        line
    }
}

/// What is logged of a line that a plugin wrote: the line without the
/// carriage return at its end, or nothing where that leaves an empty line.
pub fn message_of(line: &str) -> (r: Option<String>)
    ensures
        match r {
            Some(message) => trimmed(line@).len() > 0 && message@ == trimmed(line@),
            None => trimmed(line@).len() == 0,
        },
{
    let n = char_len(line);
    let end = if n > 0 && line.get_char(n - 1) == '\r' {
        n - 1
    } else {
        n
    };
    if end == 0 {
        return None;
    }
    let message = crate::text::slice(line, 0, end);
    proof {
        if end == n {
            assert(message@ =~= line@);
        } else {
            assert(message@ =~= line@.drop_last());
        }
    }
    Some(message)
}

/// The line logged for a line that plugin `plug_name` wrote, read at the
/// wall-clock instant `secs`: the styled line, or nothing for a line that
/// is empty once a carriage return at its end is taken off.
pub fn log_line_at(line: &str, plug_name: &str, secs: i64) -> (r: Option<String>)
    ensures
        match r {
            Some(text) => trimmed(line@).len() > 0 && text@ == styled(
                plug_name@,
                timestamp_text(secs),
                trimmed(line@),
            ),
            None => trimmed(line@).len() == 0,
        },
        match r {
            Some(text) => single_line(plug_name@) && single_line(line@) ==> single_line(text@),
            None => true,
        },
{
    match message_of(line) {
        Some(message) => {
            proof {
                if single_line(line@) {
                    assert forall|i: int| 0 <= i < message@.len() implies #[trigger] message@[i]
                        != '\n' by {
                        assert(message@[i] == line@[i]);
                    }
                }
            }
            Some(style_line_at(plug_name, message.as_str(), secs))
        },
        None => None,
    }
}

} // verus!
