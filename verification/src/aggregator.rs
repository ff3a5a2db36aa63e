//! The console aggregator: one ordered transcript out of the streams through
//! which an environment surfaces its console messages.

use crate::model::{transcript_view, LogRecord, LogRecordView};
use vstd::prelude::*;

verus! {

/// Two records are the same message where they agree in severity, text and
/// originating context, whatever their sequence numbers.
pub open spec fn same_message(a: LogRecordView, b: LogRecordView) -> bool {
    a.severity == b.severity && a.text == b.text && a.context == b.context
}

/// The streams as mathematical values.
pub open spec fn streams_view(streams: Seq<Vec<LogRecord>>) -> Seq<Seq<LogRecordView>> {
    streams.map_values(|s: Vec<LogRecord>| transcript_view(s@))
}

/// Some stream holds the record `r`.
pub open spec fn surfaced(streams: Seq<Seq<LogRecordView>>, r: LogRecordView) -> bool {
    exists|s: int, k: int|
        0 <= s < streams.len() && 0 <= k < streams[s].len() && #[trigger] streams[s][k] == r
}

/// The records of `t` stand in the order of their sequence numbers.
pub open spec fn is_ordered(t: Seq<LogRecordView>) -> bool {
    forall|i: int, j: int| 0 <= i < j < t.len() ==> t[i].sequence <= t[j].sequence
}

/// No message occurs twice in `t`.
pub open spec fn is_deduplicated(t: Seq<LogRecordView>) -> bool {
    forall|i: int, j: int| 0 <= i < t.len() && 0 <= j < t.len() && i != j ==> !same_message(t[i], t[j])
}

/// `t` holds the message of `r`, with a sequence number that is not later
/// than that of `r`.
pub open spec fn covers(t: Seq<LogRecordView>, r: LogRecordView) -> bool {
    exists|i: int|
        0 <= i < t.len() && same_message(#[trigger] t[i], r) && t[i].sequence <= r.sequence
}

/// `t` is the transcript of `streams`: it is ordered by sequence number,
/// holds no message twice, holds only records that some stream surfaced,
/// and holds every surfaced message by its earliest record.
pub open spec fn is_transcript_of(t: Seq<LogRecordView>, streams: Seq<Seq<LogRecordView>>) -> bool {
    &&& is_ordered(t)
    &&& is_deduplicated(t)
    &&& forall|i: int| 0 <= i < t.len() ==> #[trigger] surfaced(streams, t[i])
    &&& forall|s: int, k: int|
        0 <= s < streams.len() && 0 <= k < streams[s].len() ==> #[trigger] covers(
            t,
            streams[s][k],
        )
}

/// No two different messages that the streams surfaced carry the same
/// sequence number: the sequence numbers order the messages totally.
pub open spec fn sequence_orders_messages(streams: Seq<Seq<LogRecordView>>) -> bool {
    forall|a: LogRecordView, b: LogRecordView|
        #![trigger surfaced(streams, a), surfaced(streams, b)]
        surfaced(streams, a) && surfaced(streams, b) && a.sequence == b.sequence ==> same_message(
            a,
            b,
        )
}

/// Every record of one transcript of some streams is a record of any other
/// transcript of them.
proof fn lemma_transcripts_share_records(
    a: Seq<LogRecordView>,
    b: Seq<LogRecordView>,
    streams: Seq<Seq<LogRecordView>>,
    i: int,
) -> (j: int)
    requires
        is_transcript_of(a, streams),
        is_transcript_of(b, streams),
        0 <= i < a.len(),
    ensures
        0 <= j < b.len(),
        b[j] == a[i],
{
    assert(surfaced(streams, a[i]));
    let (s, k) = choose|s: int, k: int|
        0 <= s < streams.len() && 0 <= k < streams[s].len() && #[trigger] streams[s][k] == a[i];
    assert(covers(b, streams[s][k]));
    let j = choose|j: int|
        0 <= j < b.len() && same_message(#[trigger] b[j], a[i]) && b[j].sequence <= a[i].sequence;
    assert(surfaced(streams, b[j]));
    let (s2, k2) = choose|s: int, k: int|
        0 <= s < streams.len() && 0 <= k < streams[s].len() && #[trigger] streams[s][k] == b[j];
    assert(covers(a, streams[s2][k2]));
    let back = choose|back: int|
        0 <= back < a.len() && same_message(#[trigger] a[back], b[j]) && a[back].sequence
            <= b[j].sequence;
    assert(same_message(a[back], a[i]));
    assert(back == i);
    j
}

/// Where the sequence numbers order the messages totally, the sequence
/// numbers of a transcript rise strictly.
proof fn lemma_transcript_rises(a: Seq<LogRecordView>, streams: Seq<Seq<LogRecordView>>)
    requires
        is_transcript_of(a, streams),
        sequence_orders_messages(streams),
    ensures
        forall|i: int, j: int| 0 <= i < j < a.len() ==> a[i].sequence < a[j].sequence,
{
    assert forall|i: int, j: int| 0 <= i < j < a.len() implies a[i].sequence < a[j].sequence by {
        assert(a[i].sequence <= a[j].sequence);
        assert(surfaced(streams, a[i]) && surfaced(streams, a[j]));
        assert(!same_message(a[i], a[j]));
    }
}

/// Two transcripts of the same streams agree in their first `n` records.
proof fn lemma_transcripts_agree_upto(
    a: Seq<LogRecordView>,
    b: Seq<LogRecordView>,
    streams: Seq<Seq<LogRecordView>>,
    n: int,
)
    requires
        is_transcript_of(a, streams),
        is_transcript_of(b, streams),
        sequence_orders_messages(streams),
        0 <= n <= a.len(),
    ensures
        n <= b.len(),
        forall|k: int| 0 <= k < n ==> a[k] == b[k],
    decreases n,
{
    if n > 0 {
        let i = n - 1;
        lemma_transcripts_agree_upto(a, b, streams, i);
        lemma_transcript_rises(a, streams);
        lemma_transcript_rises(b, streams);
        let j = lemma_transcripts_share_records(a, b, streams, i);
        if j < i {
            assert(a[j] == b[j]);
            assert(a[j].sequence < a[i].sequence);
        } else if j > i {
            let k = lemma_transcripts_share_records(b, a, streams, i);
            assert(b[i].sequence < b[j].sequence);
            if k >= i {
                assert(k == i || a[i].sequence < a[k].sequence);
            } else {
                assert(a[k] == b[k]);
                assert(b[k].sequence < b[i].sequence);
            }
        }
    }
}

/// Where the sequence numbers order the messages totally, the streams have
/// one transcript only.
pub proof fn lemma_transcript_is_unique(
    a: Seq<LogRecordView>,
    b: Seq<LogRecordView>,
    streams: Seq<Seq<LogRecordView>>,
)
    requires
        is_transcript_of(a, streams),
        is_transcript_of(b, streams),
        sequence_orders_messages(streams),
    ensures
        a == b,
{
    lemma_transcripts_agree_upto(a, b, streams, a.len() as int);
    lemma_transcripts_agree_upto(b, a, streams, b.len() as int);
    assert(a =~= b);
}

/// Whether two records are the same message.
fn is_same_message(a: &LogRecord, b: &LogRecord) -> (same: bool)
    ensures
        same == same_message(a@, b@),
{
    a.severity == b.severity && a.context == b.context && a.text == b.text
}

/// The place of the message of `r` in `out`, if it is there.
fn find_message(out: &Vec<LogRecord>, r: &LogRecord) -> (found: Option<usize>)
    ensures
        match found {
            Some(p) => p < out.len() && same_message(out@[p as int]@, r@),
            None => forall|i: int| 0 <= i < out.len() ==> !same_message(out@[i]@, r@),
        },
{
    let mut p: usize = 0;
    while p < out.len()
        invariant
            p <= out.len(),
            forall|i: int| 0 <= i < p ==> !same_message(out@[i]@, r@),
        decreases out.len() - p,
    {
        if is_same_message(&out[p], r) {
            return Some(p);
        }
        p += 1;
    }
    None
}

/// The first place in `out` whose record is later than `sequence`.
fn insertion_point(out: &Vec<LogRecord>, sequence: u64) -> (q: usize)
    requires
        is_ordered(transcript_view(out@)),
    ensures
        q <= out.len(),
        forall|i: int| 0 <= i < q ==> out@[i].sequence <= sequence,
        forall|i: int| q <= i < out.len() ==> out@[i].sequence > sequence,
{
    let mut q: usize = 0;
    while q < out.len() && out[q].sequence <= sequence
        invariant
            q <= out.len(),
            forall|i: int| 0 <= i < q ==> out@[i].sequence <= sequence,
        decreases out.len() - q,
    {
        q += 1;
    }
    proof {
        let t = transcript_view(out@);
        assert forall|i: int| q <= i < out.len() implies out@[i].sequence > sequence by {
            assert(t[q as int].sequence <= t[i].sequence || i == q);
        }
    }
    q
}

/// Taking a record out of a transcript leaves it ordered and free of
/// duplicates.
proof fn lemma_remove_keeps_shape(t: Seq<LogRecordView>, p: int)
    requires
        is_ordered(t),
        is_deduplicated(t),
        0 <= p < t.len(),
    ensures
        is_ordered(t.remove(p)),
        is_deduplicated(t.remove(p)),
        forall|i: int| 0 <= i < t.remove(p).len() ==> !same_message(#[trigger] t.remove(p)[i], t[p]),
{
    let u = t.remove(p);
    assert forall|i: int| 0 <= i < u.len() implies #[trigger] u[i] == t[if i < p { i } else { i + 1 }] by {}
    assert forall|i: int, j: int| 0 <= i < j < u.len() implies u[i].sequence <= u[j].sequence by {
        let a = if i < p { i } else { i + 1 };
        let b = if j < p { j } else { j + 1 };
        assert(t[a].sequence <= t[b].sequence);
    }
    assert forall|i: int, j: int| 0 <= i < u.len() && 0 <= j < u.len() && i != j implies !same_message(
        u[i],
        u[j],
    ) by {
        let a = if i < p { i } else { i + 1 };
        let b = if j < p { j } else { j + 1 };
        assert(!same_message(t[a], t[b]));
    }
    assert forall|i: int| 0 <= i < u.len() implies !same_message(#[trigger] u[i], t[p]) by {
        let a = if i < p { i } else { i + 1 };
        assert(!same_message(t[a], t[p]));
    }
}

/// Putting a new message at its place by sequence number leaves a transcript
/// ordered and free of duplicates.
proof fn lemma_insert_keeps_shape(t: Seq<LogRecordView>, q: int, r: LogRecordView)
    requires
        is_ordered(t),
        is_deduplicated(t),
        0 <= q <= t.len(),
        forall|i: int| 0 <= i < q ==> t[i].sequence <= r.sequence,
        forall|i: int| q <= i < t.len() ==> t[i].sequence > r.sequence,
        forall|i: int| 0 <= i < t.len() ==> !same_message(#[trigger] t[i], r),
    ensures
        is_ordered(t.insert(q, r)),
        is_deduplicated(t.insert(q, r)),
{
    let u = t.insert(q, r);
    assert forall|i: int| 0 <= i < u.len() implies #[trigger] u[i] == (if i < q {
        t[i]
    } else if i == q {
        r
    } else {
        t[i - 1]
    }) by {}
    assert forall|i: int, j: int| 0 <= i < j < u.len() implies u[i].sequence <= u[j].sequence by {
        if i != q && j != q {
            let a = if i < q { i } else { i - 1 };
            let b = if j < q { j } else { j - 1 };
            assert(t[a].sequence <= t[b].sequence);
        }
    }
    assert forall|i: int, j: int| 0 <= i < u.len() && 0 <= j < u.len() && i != j implies !same_message(
        u[i],
        u[j],
    ) by {
        let a = if i < q { i } else { i - 1 };
        let b = if j < q { j } else { j - 1 };
        if i != q && j != q {
            assert(!same_message(t[a], t[b]));
        } else if i == q {
            assert(!same_message(t[b], r));
        } else {
            assert(!same_message(t[a], r));
        }
    }
}

/// Takes the record `r` into the transcript `out`.
///
/// Where `out` already holds the message of `r`, the earlier of the two
/// records stays; otherwise `r` enters at its place by sequence number.
fn merge_record(out: &mut Vec<LogRecord>, r: LogRecord)
    requires
        is_ordered(transcript_view(old(out)@)),
        is_deduplicated(transcript_view(old(out)@)),
    ensures
        is_ordered(transcript_view(final(out)@)),
        is_deduplicated(transcript_view(final(out)@)),
        forall|i: int|
            0 <= i < final(out).len() ==> (#[trigger] final(out)@[i])@ == r@ || transcript_view(
                old(out)@,
            ).contains(final(out)@[i]@),
        covers(transcript_view(final(out)@), r@),
        forall|x: LogRecordView|
            covers(transcript_view(old(out)@), x) ==> covers(transcript_view(final(out)@), x),
{
    let ghost before = transcript_view(out@);
    let found = find_message(out, &r);
    let ghost mut displaced: Option<int> = None;
    match found {
        Some(p) => {
            if out[p].sequence <= r.sequence {
                proof {
                    assert(same_message(before[p as int], r@));
                    assert forall|i: int| 0 <= i < out.len() implies before.contains(
                        (#[trigger] out@[i])@,
                    ) by {
                        assert(before[i] == out@[i]@);
                    }
                }
                return ;
            }
            let _ = out.remove(p);
            proof {
                displaced = Some(p as int);
                assert(transcript_view(out@) =~= before.remove(p as int));
                lemma_remove_keeps_shape(before, p as int);
            }
        },
        None => {},
    }
    let ghost middle = transcript_view(out@);
    proof {
        assert forall|i: int| 0 <= i < middle.len() implies !same_message(
            #[trigger] middle[i],
            r@,
        ) by {
            match displaced {
                Some(p) => {
                    assert(same_message(before[p], r@));
                },
                None => {
                    assert(middle[i] == out@[i]@);
                },
            }
        }
    }
    let q = insertion_point(out, r.sequence);
    let ghost rv = r@;
    out.insert(q, r);
    proof {
        let after = transcript_view(out@);
        assert(after =~= middle.insert(q as int, rv));
        assert forall|i: int| 0 <= i < q implies middle[i].sequence <= rv.sequence by {}
        assert forall|i: int| q <= i < middle.len() implies middle[i].sequence > rv.sequence by {}
        lemma_insert_keeps_shape(middle, q as int, rv);
        assert(after[q as int] == rv);
        assert(covers(after, rv));
        // every record of the result is the new one or was there before
        assert forall|i: int| 0 <= i < out.len() implies (#[trigger] out@[i])@ == rv
            || before.contains(out@[i]@) by {
            if i != q {
                let m = if i < q { i } else { i - 1 };
                assert(after[i] == middle[m]);
                let b = match displaced {
                    Some(p) => if m < p { m } else { m + 1 },
                    None => m,
                };
                assert(middle[m] == before[b]);
            }
        }
        // what was covered before is covered still
        assert forall|x: LogRecordView| covers(before, x) implies covers(after, x) by {
            let i = choose|i: int|
                0 <= i < before.len() && same_message(#[trigger] before[i], x) && before[i].sequence
                    <= x.sequence;
            if displaced == Some(i) {
                assert(same_message(after[q as int], x));
            } else {
                let m = match displaced {
                    Some(p) => if i < p { i } else { i - 1 },
                    None => i,
                };
                assert(middle[m] == before[i]);
                let a = if m < q { m } else { m + 1 };
                assert(after[a] == middle[m]);
            }
        }
    }
}

/// Merges the streams of one execution into its transcript.
///
/// The transcript is ordered by sequence number, not by context or stream.
/// A message that surfaced more than once, in one stream or in several, is
/// held once, by its earliest record. Every record of the transcript is one
/// that some stream surfaced, unchanged in severity, text, context and
/// sequence number, and no surfaced message is missing.
pub fn aggregate(streams: &Vec<Vec<LogRecord>>) -> (transcript: Vec<LogRecord>)
    ensures
        is_transcript_of(transcript_view(transcript@), streams_view(streams@)),
{
    let ghost all = streams_view(streams@);
    let mut out: Vec<LogRecord> = Vec::new();
    let mut s: usize = 0;
    while s < streams.len()
        invariant
            s <= streams.len(),
            all == streams_view(streams@),
            is_ordered(transcript_view(out@)),
            is_deduplicated(transcript_view(out@)),
            forall|i: int| 0 <= i < out.len() ==> #[trigger] surfaced(all, out@[i]@),
            forall|a: int, k: int|
                0 <= a < s && 0 <= k < all[a].len() ==> #[trigger] covers(
                    transcript_view(out@),
                    all[a][k],
                ),
        decreases streams.len() - s,
    {
        let stream = &streams[s];
        let mut k: usize = 0;
        while k < stream.len()
            invariant
                s < streams.len(),
                stream == &streams@[s as int],
                k <= stream.len(),
                all == streams_view(streams@),
                is_ordered(transcript_view(out@)),
                is_deduplicated(transcript_view(out@)),
                forall|i: int| 0 <= i < out.len() ==> #[trigger] surfaced(all, out@[i]@),
                forall|a: int, j: int|
                    0 <= a < s && 0 <= j < all[a].len() ==> #[trigger] covers(
                        transcript_view(out@),
                        all[a][j],
                    ),
                forall|j: int|
                    0 <= j < k ==> #[trigger] covers(transcript_view(out@), all[s as int][j]),
            decreases stream.len() - k,
        {
            let ghost before = transcript_view(out@);
            let ghost before_records = out@;
            let r = stream[k].duplicate();
            merge_record(&mut out, r);
            proof {
                assert(all[s as int] == transcript_view(stream@));
                assert(all[s as int][k as int] == stream@[k as int]@);
                assert forall|i: int| 0 <= i < out.len() implies #[trigger] surfaced(
                    all,
                    out@[i]@,
                ) by {
                    if out@[i]@ == r@ {
                        assert(all[s as int][k as int] == out@[i]@);
                    } else {
                        let m = choose|m: int| 0 <= m < before.len() && before[m] == out@[i]@;
                        assert(surfaced(all, before_records[m]@));
                    }
                }
                assert forall|a: int, j: int|
                    0 <= a < s && 0 <= j < all[a].len() implies #[trigger] covers(
                    transcript_view(out@),
                    all[a][j],
                ) by {
                    assert(covers(before, all[a][j]));
                }
                assert forall|j: int| 0 <= j < k + 1 implies #[trigger] covers(
                    transcript_view(out@),
                    all[s as int][j],
                ) by {
                    if j < k {
                        assert(covers(before, all[s as int][j]));
                    }
                }
            }
            k += 1;
        }
        proof {
            assert(all[s as int].len() == stream.len());
        }
        s += 1;
    }
    proof {
        let t = transcript_view(out@);
        assert forall|i: int| 0 <= i < t.len() implies #[trigger] surfaced(all, t[i]) by {
            assert(surfaced(all, out@[i]@));
        }
    }
    out
}

} // verus!
