//! Character-level helpers shared by the rest of the crate.
//!
//! Every text in this crate is modelled as a `Seq<char>`, the view of a
//! `str` or a `String`.

use vstd::prelude::*;
use vstd::string::*;

verus! {

/// Appends one character to `s`, by `String::push` of the standard library:
/// afterwards the string holds its former characters followed by `c`.
#[verifier::external_body]
pub(crate) fn push_char(s: &mut String, c: char)
    ensures
        final(s)@ == old(s)@.push(c),
{
    s.push(c);
}

/// `needle` occurs in `hay` at offset `i`.
pub open spec fn occurs_at(hay: Seq<char>, needle: Seq<char>, i: int) -> bool {
    &&& 0 <= i
    &&& i + needle.len() <= hay.len()
    &&& hay.subrange(i, i + needle.len()) == needle
}

/// `needle` occurs somewhere in `hay`.
pub open spec fn contains_text(hay: Seq<char>, needle: Seq<char>) -> bool {
    exists|i: int| occurs_at(hay, needle, i)
}

/// `needle` occurs in `hay` at or after offset `from`.
pub open spec fn occurs_from(hay: Seq<char>, needle: Seq<char>, from: int) -> bool {
    exists|j: int| from <= j && occurs_at(hay, needle, j)
}

/// `hay` begins with `needle`.
pub open spec fn begins_with(hay: Seq<char>, needle: Seq<char>) -> bool {
    occurs_at(hay, needle, 0)
}

/// `at` is the offset of the first occurrence of `needle` in `hay` at or
/// after `from`.
pub open spec fn is_first_at(hay: Seq<char>, needle: Seq<char>, from: int, at: int) -> bool {
    &&& from <= at
    &&& occurs_at(hay, needle, at)
    &&& forall|j: int| from <= j < at ==> !occurs_at(hay, needle, j)
}

/// The offset of the first occurrence of `needle` in `hay` at or after
/// `from`, if there is one.
pub open spec fn first_occurrence(hay: Seq<char>, needle: Seq<char>, from: int) -> Option<int> {
    if exists|at: int| is_first_at(hay, needle, from, at) {
        Some(choose|at: int| is_first_at(hay, needle, from, at))
    } else {
        None
    }
}

/// A first occurrence is the first occurrence.
pub proof fn lemma_first_occurrence_is(hay: Seq<char>, needle: Seq<char>, from: int, at: int)
    requires
        is_first_at(hay, needle, from, at),
    ensures
        first_occurrence(hay, needle, from) == Some(at),
{
    let other = choose|other: int| is_first_at(hay, needle, from, other);
    if other < at {
        assert(!occurs_at(hay, needle, other));
    } else if at < other {
        assert(!occurs_at(hay, needle, at));
    }
}

/// The texts of `names` as sequences of characters.
pub open spec fn names_view(names: Seq<String>) -> Seq<Seq<char>> {
    names.map_values(|s: String| s@)
}

/// The number of characters of `text` that stand before its first `stop`;
/// the whole length where it holds none.
pub open spec fn span_len(text: Seq<char>, stop: char) -> nat
    decreases text.len(),
{
    if text.len() == 0 || text[0] == stop {
        0
    } else {
        1 + span_len(text.drop_first(), stop)
    }
}

/// The pieces into which the occurrences of `stop` part `text`, in order and
/// without the empty ones.
pub open spec fn split_tokens(text: Seq<char>, stop: char) -> Seq<Seq<char>>
    decreases text.len(),
{
    let n = span_len(text, stop) as int;
    let rest = if n >= text.len() {
        Seq::<Seq<char>>::empty()
    } else {
        split_tokens(text.skip(n + 1), stop)
    };
    if n == 0 {
        rest
    } else {
        seq![text.take(n)] + rest
    }
}

/// `span_len` is the offset of the first `stop`.
pub proof fn lemma_span_len(text: Seq<char>, stop: char)
    ensures
        span_len(text, stop) <= text.len(),
        forall|i: int| 0 <= i < span_len(text, stop) ==> text[i] != stop,
        span_len(text, stop) < text.len() ==> text[span_len(text, stop) as int] == stop,
    decreases text.len(),
{
    if text.len() == 0 || text[0] == stop {
    } else {
        let rest = text.drop_first();
        lemma_span_len(rest, stop);
        assert forall|i: int| 0 <= i < span_len(text, stop) implies text[i] != stop by {
            if i > 0 {
                assert(text[i] == rest[i - 1]);
            }
        }
        if span_len(text, stop) < text.len() {
            assert(text[span_len(text, stop) as int] == rest[span_len(rest, stop) as int]);
        }
    }
}

/// An offset with no `stop` before it, and with a `stop` at it unless it is
/// the end of the text, is `span_len`.
pub proof fn lemma_span_len_is(text: Seq<char>, stop: char, k: int)
    requires
        0 <= k <= text.len(),
        forall|i: int| 0 <= i < k ==> text[i] != stop,
        k < text.len() ==> text[k] == stop,
    ensures
        span_len(text, stop) == k,
{
    lemma_span_len(text, stop);
    let n = span_len(text, stop) as int;
    if n < k {
        assert(text[n] == stop);
    } else if k < n {
        assert(text[k] != stop);
    }
}

/// No piece of a split is empty, and none holds the character at which the
/// text was parted.
pub proof fn lemma_split_tokens(text: Seq<char>, stop: char)
    ensures
        forall|i: int|
            0 <= i < split_tokens(text, stop).len() ==> {
                &&& (#[trigger] split_tokens(text, stop)[i]).len() > 0
                &&& !split_tokens(text, stop)[i].contains(stop)
            },
    decreases text.len(),
{
    let n = span_len(text, stop) as int;
    lemma_span_len(text, stop);
    let head = text.take(n);
    if head.contains(stop) {
        let i = choose|i: int| 0 <= i < head.len() && head[i] == stop;
        assert(text[i] == stop);
    }
    let rest = if n >= text.len() {
        Seq::<Seq<char>>::empty()
    } else {
        split_tokens(text.skip(n + 1), stop)
    };
    if n < text.len() {
        lemma_split_tokens(text.skip(n + 1), stop);
    }
    let all = split_tokens(text, stop);
    assert forall|i: int| 0 <= i < all.len() implies (#[trigger] all[i]).len() > 0 && !all[i].contains(
        stop,
    ) by {
        if n == 0 {
            assert(all[i] == rest[i]);
        } else if i == 0 {
            assert(all[i] == head);
        } else {
            assert(all[i] == rest[i - 1]);
        }
    }
}

/// The decimal digit for `d`, which is below ten.
pub open spec fn digit(d: nat) -> char {
    if d == 0 {
        '0'
    } else if d == 1 {
        '1'
    } else if d == 2 {
        '2'
    } else if d == 3 {
        '3'
    } else if d == 4 {
        '4'
    } else if d == 5 {
        '5'
    } else if d == 6 {
        '6'
    } else if d == 7 {
        '7'
    } else if d == 8 {
        '8'
    } else {
        '9'
    }
}

/// The decimal numeral of `n`, without sign or leading zeros.
pub open spec fn decimal(n: nat) -> Seq<char>
    decreases n,
{
    if n < 10 {
        seq![digit(n)]
    } else {
        decimal(n / 10).push(digit(n % 10))
    }
}

/// The decimal numeral of `i`, with a leading minus sign when it is negative.
pub open spec fn signed_decimal(i: int) -> Seq<char> {
    if i < 0 {
        seq!['-'] + decimal((-i) as nat)
    } else {
        decimal(i as nat)
    }
}

/// A numeral holds digits only: no character of it is `c` where `c` is no
/// digit.
pub proof fn lemma_decimal_holds_digits(n: nat, c: char)
    requires
        forall|d: nat| d < 10 ==> digit(d) != c,
    ensures
        !decimal(n).contains(c),
    decreases n,
{
    if n >= 10 {
        lemma_decimal_holds_digits(n / 10, c);
    }
    if decimal(n).contains(c) {
        let i = choose|i: int| 0 <= i < decimal(n).len() && decimal(n)[i] == c;
        if n >= 10 {
            if i < decimal(n / 10).len() {
                assert(decimal(n / 10)[i] == c);
            } else {
                assert(digit(n % 10) == c);
            }
        } else {
            assert(digit(n) == c);
        }
    }
}

/// An occurrence in what follows the first `from` characters is an
/// occurrence in the whole text, `from` places further on.
pub proof fn lemma_occurs_after_skip(hay: Seq<char>, needle: Seq<char>, from: int, j: int)
    requires
        0 <= from <= hay.len(),
        0 <= j,
    ensures
        occurs_at(hay.skip(from), needle, j) == occurs_at(hay, needle, from + j),
{
    let rest = hay.skip(from);
    if j + needle.len() <= rest.len() {
        assert(rest.subrange(j, j + needle.len()) =~= hay.subrange(
            from + j,
            from + j + needle.len(),
        ));
    }
}

/// To occur at or after an offset is to occur in what follows the offset.
pub proof fn lemma_occurs_from_is_in_rest(hay: Seq<char>, needle: Seq<char>, from: int)
    requires
        0 <= from <= hay.len(),
    ensures
        occurs_from(hay, needle, from) == contains_text(hay.skip(from), needle),
{
    let rest = hay.skip(from);
    if occurs_from(hay, needle, from) {
        let j = choose|j: int| from <= j && occurs_at(hay, needle, j);
        lemma_occurs_after_skip(hay, needle, from, j - from);
        assert(occurs_at(rest, needle, j - from));
    }
    if contains_text(rest, needle) {
        let j = choose|j: int| occurs_at(rest, needle, j);
        lemma_occurs_after_skip(hay, needle, from, j);
        assert(occurs_at(hay, needle, from + j));
    }
}

/// The characters of `s`, in order.
pub fn chars_of(s: &str) -> (v: Vec<char>)
    ensures
        v@ == s@,
{
    broadcast use vstd::string::group_string_axioms;

    let mut v: Vec<char> = Vec::new();
    let chars = s.chars();
    for c in it: chars
        invariant
            it.seq() == s@,
            v@ == s@.take(it.index() as int),
    {
        v.push(c);
    }
    v
}

/// Appends the characters `v[from..to]` to `out`.
pub fn push_range(out: &mut String, v: &Vec<char>, from: usize, to: usize)
    requires
        from <= to <= v.len(),
    ensures
        final(out)@ == old(out)@ + v@.subrange(from as int, to as int),
{
    let mut i: usize = from;
    while i < to
        invariant
            from <= i <= to <= v.len(),
            out@ == old(out)@ + v@.subrange(from as int, i as int),
        decreases to - i,
    {
        push_char(out, v[i]);
        i += 1;
        assert(v@.subrange(from as int, i as int) == v@.subrange(from as int, i - 1).push(
            v@[i - 1],
        ));
    }
}

/// The pieces into which the occurrences of `stop` part `raw`, without the
/// empty ones.
pub fn split_nonempty(raw: &str, stop: char) -> (pieces: Vec<String>)
    ensures
        names_view(pieces@) == split_tokens(raw@, stop),
        forall|i: int|
            0 <= i < pieces.len() ==> (#[trigger] pieces@[i])@.len() > 0 && !pieces@[i]@.contains(
                stop,
            ),
{
    let text = chars_of(raw);
    let n = text.len();
    let mut pieces: Vec<String> = Vec::new();
    let mut i: usize = 0;
    let mut done = false;
    assert(text@.skip(0) =~= text@);
    assert(names_view(pieces@) =~= Seq::<Seq<char>>::empty());
    while !done
        invariant
            n == text.len(),
            text@ == raw@,
            i <= n,
            done ==> names_view(pieces@) == split_tokens(text@, stop),
            !done ==> split_tokens(text@, stop) == names_view(pieces@) + split_tokens(
                text@.skip(i as int),
                stop,
            ),
        decreases (if done { 0 } else { n - i + 1 }),
    {
        let ghost rest = text@.skip(i as int);
        let ghost before = names_view(pieces@);
        let mut j: usize = i;
        while j < n && text[j] != stop
            invariant
                n == text.len(),
                i <= j <= n,
                forall|k: int| i <= k < j ==> text@[k] != stop,
            decreases n - j,
        {
            j += 1;
        }
        proof {
            assert forall|k: int| 0 <= k < j - i implies rest[k] != stop by {
                assert(rest[k] == text@[i + k]);
            }
            lemma_span_len_is(rest, stop, j - i);
            assert(rest.take(j - i) =~= text@.subrange(i as int, j as int));
            if j < n {
                assert(rest.skip(j - i + 1) =~= text@.skip(j + 1));
            }
        }
        if j > i {
            let mut piece = String::new();
            push_range(&mut piece, &text, i, j);
            pieces.push(piece);
            assert(names_view(pieces@) =~= before + seq![text@.subrange(i as int, j as int)]);
        }
        if j < n {
            i = j + 1;
        } else {
            assert(names_view(pieces@) =~= split_tokens(text@, stop));
            done = true;
        }
    }
    proof {
        lemma_split_tokens(raw@, stop);
        assert forall|i: int| 0 <= i < pieces.len() implies (#[trigger] pieces@[i])@.len() > 0
            && !pieces@[i]@.contains(stop) by {
            assert(names_view(pieces@)[i] == pieces@[i]@);
        }
    }
    pieces
}

/// Whether `needle` occurs in `hay` at offset `at`.
pub fn matches_at(hay: &Vec<char>, needle: &Vec<char>, at: usize) -> (b: bool)
    ensures
        b == occurs_at(hay@, needle@, at as int),
{
    if at > hay.len() || needle.len() > hay.len() - at {
        return false;
    }
    let mut k: usize = 0;
    while k < needle.len()
        invariant
            at + needle.len() <= hay.len(),
            k <= needle.len(),
            forall|j: int| 0 <= j < k ==> hay@[at + j] == needle@[j],
        decreases needle.len() - k,
    {
        if hay[at + k] != needle[k] {
            assert(hay@.subrange(at as int, at + needle.len())[k as int] != needle@[k as int]);
            return false;
        }
        k += 1;
    }
    assert(hay@.subrange(at as int, at + needle.len()) =~= needle@);
    true
}

/// The offset of the first occurrence of `needle` in `hay` at or after
/// `from`, if there is one.
pub fn find_from(hay: &Vec<char>, needle: &Vec<char>, from: usize) -> (found: Option<usize>)
    ensures
        match found {
            Some(at) => first_occurrence(hay@, needle@, from as int) == Some(at as int),
            None => first_occurrence(hay@, needle@, from as int) is None,
        },
        found matches Some(at) ==> is_first_at(hay@, needle@, from as int, at as int),
        found is None ==> forall|j: int| from <= j ==> !occurs_at(hay@, needle@, j),
{
    if from > hay.len() {
        return None;
    }
    let mut at: usize = from;
    while at < hay.len()
        invariant
            from <= at <= hay.len(),
            forall|j: int| from <= j < at ==> !occurs_at(hay@, needle@, j),
        decreases hay.len() - at,
    {
        if matches_at(hay, needle, at) {
            proof {
                lemma_first_occurrence_is(hay@, needle@, from as int, at as int);
            }
            return Some(at);
        }
        at += 1;
    }
    if matches_at(hay, needle, at) {
        proof {
            lemma_first_occurrence_is(hay@, needle@, from as int, at as int);
        }
        Some(at)
    } else {
        None
    }
}

/// Whether `needle` occurs in `hay` at or after offset `from`.
pub fn contains_from(hay: &Vec<char>, needle: &Vec<char>, from: usize) -> (b: bool)
    ensures
        b == occurs_from(hay@, needle@, from as int),
{
    let found = find_from(hay, needle, from);
    proof {
        if let Some(at) = found {
            assert(occurs_at(hay@, needle@, at as int));
        }
    }
    found.is_some()
}

/// Whether two texts hold the same characters.
pub fn same_text(a: &Vec<char>, b: &Vec<char>) -> (eq: bool)
    ensures
        eq == (a@ == b@),
{
    if a.len() != b.len() {
        return false;
    }
    let eq = matches_at(a, b, 0);
    proof {
        assert(a@.subrange(0, a@.len() as int) == a@);
    }
    eq
}

/// The character for a digit below ten.
fn digit_char(d: u64) -> (c: char)
    requires
        d < 10,
    ensures
        c == digit(d as nat),
{
    if d == 0 {
        '0'
    } else if d == 1 {
        '1'
    } else if d == 2 {
        '2'
    } else if d == 3 {
        '3'
    } else if d == 4 {
        '4'
    } else if d == 5 {
        '5'
    } else if d == 6 {
        '6'
    } else if d == 7 {
        '7'
    } else if d == 8 {
        '8'
    } else {
        '9'
    }
}

/// Appends the decimal numeral of `n` to `out`.
pub fn push_decimal(out: &mut String, n: u64)
    ensures
        final(out)@ == old(out)@ + decimal(n as nat),
    decreases n,
{
    if n >= 10 {
        push_decimal(out, n / 10);
    }
    push_char(out, digit_char(n % 10));
    assert(out@ =~= old(out)@ + decimal(n as nat));
}

/// Appends the decimal numeral of `i` to `out`, with a minus sign when `i`
/// is negative.
pub fn push_signed_decimal(out: &mut String, i: i32)
    ensures
        final(out)@ == old(out)@ + signed_decimal(i as int),
{
    if i < 0 {
        push_char(out, '-');
        let magnitude: u64 = (-(i as i64)) as u64;
        push_decimal(out, magnitude);
        assert(out@ =~= old(out)@ + signed_decimal(i as int));
    } else {
        push_decimal(out, i as u64);
    }
}

} // verus!
