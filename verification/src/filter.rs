//! The progress redraw filter.
//!
//! A long-running step reports its progress by rewriting one console line in
//! place: it prints a state, returns to the start of the line with a carriage
//! return, and prints the next state over it. In a persisted transcript only
//! the last state of such a line is wanted, as an ordinary line of its own.

use crate::text::{
    chars_of, lemma_span_len, lemma_span_len_is, push_char, push_range, span_len,
};
use vstd::prelude::*;

verus! {

/// The number of characters of `text` that stand before its first line feed;
/// the whole length where it has none.
pub open spec fn line_len(text: Seq<char>) -> nat {
    span_len(text, '\n')
}

/// The offset just behind the last carriage return of `line`; zero where it
/// has none.
pub open spec fn segment_start(line: Seq<char>) -> nat
    decreases line.len(),
{
    if line.len() == 0 {
        0
    } else if line.last() == '\r' {
        line.len()
    } else {
        segment_start(line.drop_last())
    }
}

/// What is left visible of a line once every redraw has been carried out:
/// the characters that follow its last carriage return.
pub open spec fn last_segment(line: Seq<char>) -> Seq<char> {
    line.skip(segment_start(line) as int)
}

/// The clean form of `text`.
///
/// Each line that ends in a line feed is replaced by its last segment and
/// keeps its line feed. A last line without a line feed is kept as it is
/// where it holds no carriage return, and is otherwise replaced by its last
/// segment followed by a line feed.
pub open spec fn filter_text(text: Seq<char>) -> Seq<char>
    decreases text.len(),
{
    let n = line_len(text) as int;
    let line = text.take(n);
    if n >= text.len() {
        if line.contains('\r') {
            last_segment(line).push('\n')
        } else {
            line
        }
    } else {
        last_segment(line).push('\n') + filter_text(text.skip(n + 1))
    }
}

/// A text without carriage return and without line feed.
pub open spec fn is_plain(s: Seq<char>) -> bool {
    !s.contains('\r') && !s.contains('\n')
}

/// The raw text of a line that was redrawn once for each of `updates`: every
/// update followed by a carriage return.
pub open spec fn redraws(updates: Seq<Seq<char>>) -> Seq<char>
    decreases updates.len(),
{
    if updates.len() == 0 {
        Seq::empty()
    } else {
        redraws(updates.drop_last()) + updates.last().push('\r')
    }
}

/// `line_len` is the offset of the first line feed.
pub proof fn lemma_line_len(text: Seq<char>)
    ensures
        line_len(text) <= text.len(),
        forall|i: int| 0 <= i < line_len(text) ==> text[i] != '\n',
        line_len(text) < text.len() ==> text[line_len(text) as int] == '\n',
{
    lemma_span_len(text, '\n');
}

/// An offset with no line feed before it and a line feed at it, or at the end
/// of the text, is `line_len`.
pub proof fn lemma_line_len_is(text: Seq<char>, k: int)
    requires
        0 <= k <= text.len(),
        forall|i: int| 0 <= i < k ==> text[i] != '\n',
        k < text.len() ==> text[k] == '\n',
    ensures
        line_len(text) == k,
{
    lemma_span_len_is(text, '\n', k);
}

/// `segment_start` is the offset just behind the last carriage return.
pub proof fn lemma_segment_start(line: Seq<char>)
    ensures
        segment_start(line) <= line.len(),
        segment_start(line) > 0 ==> line[segment_start(line) - 1] == '\r',
        forall|i: int| segment_start(line) <= i < line.len() ==> line[i] != '\r',
        segment_start(line) > 0 <==> line.contains('\r'),
        !last_segment(line).contains('\r'),
    decreases line.len(),
{
    if line.len() == 0 {
    } else if line.last() == '\r' {
        assert(line[line.len() - 1] == '\r');
    } else {
        let front = line.drop_last();
        lemma_segment_start(front);
        if segment_start(line) > 0 {
            assert(line[segment_start(line) - 1] == front[segment_start(front) - 1]);
        }
        assert forall|i: int| segment_start(line) <= i < line.len() implies line[i] != '\r' by {
            if i < front.len() {
                assert(line[i] == front[i]);
            }
        }
        if line.contains('\r') {
            let i = choose|i: int| 0 <= i < line.len() && line[i] == '\r';
            assert(front[i] == '\r');
        }
    }
    let seg = last_segment(line);
    if seg.contains('\r') {
        let i = choose|i: int| 0 <= i < seg.len() && seg[i] == '\r';
        assert(line[segment_start(line) + i] == '\r');
    }
}

/// An offset with a carriage return just before it, or the offset zero, and
/// with no carriage return from it on, is `segment_start`.
pub proof fn lemma_segment_start_is(line: Seq<char>, k: int)
    requires
        0 <= k <= line.len(),
        k > 0 ==> line[k - 1] == '\r',
        forall|i: int| k <= i < line.len() ==> line[i] != '\r',
    ensures
        segment_start(line) == k,
{
    lemma_segment_start(line);
    let s = segment_start(line) as int;
    if s < k {
        assert(line[k - 1] == '\r');
    } else if k < s {
        assert(line[s - 1] == '\r');
    }
}

/// The clean form of a text holds no carriage return.
pub proof fn lemma_filter_is_clean(text: Seq<char>)
    ensures
        !filter_text(text).contains('\r'),
    decreases text.len(),
{
    let n = line_len(text) as int;
    let line = text.take(n);
    lemma_line_len(text);
    lemma_segment_start(line);
    let head = last_segment(line).push('\n');
    assert(!head.contains('\r')) by {
        if head.contains('\r') {
            let i = choose|i: int| 0 <= i < head.len() && head[i] == '\r';
            assert(last_segment(line)[i] == '\r');
        }
    }
    if n < text.len() {
        let tail = filter_text(text.skip(n + 1));
        lemma_filter_is_clean(text.skip(n + 1));
        if (head + tail).contains('\r') {
            let i = choose|i: int| 0 <= i < (head + tail).len() && (head + tail)[i] == '\r';
            if i < head.len() {
                assert(head[i] == '\r');
            } else {
                assert(tail[i - head.len()] == '\r');
            }
        }
    }
}

/// The filter leaves a text without carriage return as it is.
pub proof fn lemma_filter_keeps_clean(text: Seq<char>)
    requires
        !text.contains('\r'),
    ensures
        filter_text(text) == text,
    decreases text.len(),
{
    let n = line_len(text) as int;
    let line = text.take(n);
    lemma_line_len(text);
    assert(!line.contains('\r')) by {
        if line.contains('\r') {
            let i = choose|i: int| 0 <= i < line.len() && line[i] == '\r';
            assert(text[i] == '\r');
        }
    }
    lemma_segment_start(line);
    assert(last_segment(line) == line);
    if n < text.len() {
        let rest = text.skip(n + 1);
        assert(!rest.contains('\r')) by {
            if rest.contains('\r') {
                let i = choose|i: int| 0 <= i < rest.len() && rest[i] == '\r';
                assert(text[n + 1 + i] == '\r');
            }
        }
        lemma_filter_keeps_clean(rest);
        assert(line.push('\n') + rest =~= text);
    } else {
        assert(line =~= text);
    }
}

/// The filter works line by line: behind a text that is empty or ends in a
/// line feed it starts afresh.
pub proof fn lemma_filter_by_parts(a: Seq<char>, b: Seq<char>)
    requires
        a.len() == 0 || a.last() == '\n',
    ensures
        filter_text(a + b) == filter_text(a) + filter_text(b),
    decreases a.len(),
{
    if a.len() == 0 {
        assert(a + b =~= b);
        assert(a.take(0) =~= a);
        assert(!a.contains('\r'));
        assert(filter_text(a) =~= a);
        assert(filter_text(a) + filter_text(b) =~= filter_text(b));
    } else {
        let n = line_len(a) as int;
        lemma_line_len(a);
        assert(n < a.len()) by {
            if n >= a.len() {
                assert(a[a.len() - 1] != '\n');
            }
        }
        let whole = a + b;
        assert forall|i: int| 0 <= i < n implies whole[i] != '\n' by {
            assert(whole[i] == a[i]);
        }
        assert(whole[n] == a[n]);
        lemma_line_len_is(whole, n);
        assert(whole.take(n) =~= a.take(n));
        let rest = a.skip(n + 1);
        assert(whole.skip(n + 1) =~= rest + b);
        if rest.len() > 0 {
            assert(rest.last() == a.last());
        }
        lemma_filter_by_parts(rest, b);
        assert(filter_text(whole) =~= filter_text(a) + filter_text(b));
    }
}

/// A plain line with its line feed passes the filter unchanged, and the
/// filter starts afresh behind it.
pub proof fn lemma_filter_keeps_plain_line(line: Seq<char>, rest: Seq<char>)
    requires
        is_plain(line),
    ensures
        filter_text(line.push('\n') + rest) == line.push('\n') + filter_text(rest),
{
    let ended = line.push('\n');
    lemma_filter_by_parts(ended, rest);
    if ended.contains('\r') {
        let i = choose|i: int| 0 <= i < ended.len() && ended[i] == '\r';
        assert(line[i] == '\r');
    }
    lemma_filter_keeps_clean(ended);
}

/// Filtering twice gives what filtering once gives.
pub proof fn lemma_filter_idempotent(text: Seq<char>)
    ensures
        filter_text(filter_text(text)) == filter_text(text),
{
    lemma_filter_is_clean(text);
    lemma_filter_keeps_clean(filter_text(text));
}

/// The raw text of a redrawn line holds no line feed where no update holds
/// one, and is empty or ends in a carriage return.
pub proof fn lemma_redraws_shape(updates: Seq<Seq<char>>)
    requires
        forall|i: int| 0 <= i < updates.len() ==> !(#[trigger] updates[i]).contains('\n'),
    ensures
        !redraws(updates).contains('\n'),
        updates.len() == 0 ==> redraws(updates).len() == 0,
        updates.len() > 0 ==> redraws(updates).len() > 0 && redraws(updates).last() == '\r',
    decreases updates.len(),
{
    if updates.len() > 0 {
        let front = redraws(updates.drop_last());
        let step = updates.last().push('\r');
        lemma_redraws_shape(updates.drop_last());
        if (front + step).contains('\n') {
            let i = choose|i: int| 0 <= i < (front + step).len() && (front + step)[i] == '\n';
            if i < front.len() {
                assert(front[i] == '\n');
            } else {
                assert(updates.last()[i - front.len()] == '\n');
            }
        }
    }
}

/// A line that was redrawn any number of times and then shows `shown`
/// becomes the one clean line `shown`, ended by a line feed. This holds
/// where the raw line ends in a line feed, and also where it does not,
/// provided it was redrawn at least once.
pub proof fn lemma_redraws_collapse(updates: Seq<Seq<char>>, shown: Seq<char>)
    requires
        forall|i: int| 0 <= i < updates.len() ==> !(#[trigger] updates[i]).contains('\n'),
        is_plain(shown),
    ensures
        filter_text(redraws(updates) + shown.push('\n')) == shown.push('\n'),
        updates.len() > 0 ==> filter_text(redraws(updates) + shown) == shown.push('\n'),
        !shown.push('\n').contains('\r'),
{
    let raw = redraws(updates);
    let line = raw + shown;
    lemma_redraws_shape(updates);
    assert forall|i: int| 0 <= i < line.len() implies line[i] != '\n' by {
        if i < raw.len() {
            assert(raw[i] != '\n');
        } else {
            assert(shown[i - raw.len()] != '\n');
        }
    }
    assert forall|i: int| raw.len() <= i < line.len() implies line[i] != '\r' by {
        assert(shown[i - raw.len()] != '\r');
    }
    lemma_segment_start_is(line, raw.len() as int);
    assert(last_segment(line) =~= shown);
    lemma_segment_start(line);

    let ended = raw + shown.push('\n');
    assert(ended =~= line.push('\n'));
    lemma_line_len_is(ended, line.len() as int);
    assert(ended.take(line.len() as int) =~= line);
    let rest = ended.skip(line.len() as int + 1);
    assert(rest.len() == 0);
    assert(line_len(rest) == 0);
    assert(rest.take(0) =~= Seq::<char>::empty());
    assert(!Seq::<char>::empty().contains('\r'));
    assert(filter_text(rest) =~= Seq::<char>::empty());
    assert(filter_text(ended) =~= shown.push('\n'));

    if updates.len() > 0 {
        lemma_line_len_is(line, line.len() as int);
        assert(line.take(line.len() as int) =~= line);
        assert(line[raw.len() - 1] == '\r');
    }
    if shown.push('\n').contains('\r') {
        let i = choose|i: int| 0 <= i < shown.push('\n').len() && shown.push('\n')[i] == '\r';
        assert(shown[i] == '\r');
    }
}

/// Removes the in-place redraws from `raw`.
///
/// The result is the clean form of `raw`: of every line only what follows
/// its last carriage return is kept, and a line that was redrawn always ends
/// in a line feed. The result never holds a carriage return.
pub fn filter(raw: &str) -> (clean: String)
    ensures
        clean@ == filter_text(raw@),
        !clean@.contains('\r'),
{
    let text = chars_of(raw);
    let n = text.len();
    let mut out = String::new();
    let mut i: usize = 0;
    let mut done = false;
    assert(text@.skip(0) =~= text@);
    while !done
        invariant
            n == text.len(),
            text@ == raw@,
            i <= n,
            done ==> out@ == filter_text(text@),
            !done ==> filter_text(text@) == out@ + filter_text(text@.skip(i as int)),
        decreases (if done { 0 } else { n - i + 1 }),
    {
        let mut j: usize = i;
        let mut start: usize = i;
        let ghost rest = text@.skip(i as int);
        while j < n && text[j] != '\n'
            invariant
                n == text.len(),
                i <= start <= j <= n,
                forall|k: int| i <= k < j ==> text@[k] != '\n',
                start - i == segment_start(text@.subrange(i as int, j as int)),
            decreases n - j,
        {
            proof {
                let grown = text@.subrange(i as int, j + 1);
                assert(grown.drop_last() =~= text@.subrange(i as int, j as int));
                assert(grown.last() == text@[j as int]);
            }
            if text[j] == '\r' {
                start = j + 1;
            }
            j += 1;
        }
        let ghost line = text@.subrange(i as int, j as int);
        proof {
            assert forall|k: int| 0 <= k < j - i implies rest[k] != '\n' by {
                assert(rest[k] == text@[i + k]);
            }
            lemma_line_len_is(rest, j - i);
            assert(rest.take(j - i) =~= line);
            lemma_segment_start(line);
            assert(last_segment(line) =~= text@.subrange(start as int, j as int));
        }
        let ghost before = out@;
        push_range(&mut out, &text, start, j);
        if j < n {
            push_char(&mut out, '\n');
            proof {
                assert(rest.skip(j - i + 1) =~= text@.skip(j + 1));
                assert(out@ =~= before + (last_segment(line).push('\n')));
            }
            i = j + 1;
        } else {
            if start > i {
                push_char(&mut out, '\n');
            }
            done = true;
        }
    }
    proof {
        lemma_filter_is_clean(raw@);
    }
    out
}

} // verus!
