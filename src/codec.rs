//! Typed encoding of the values kept in the key-value store: member lists
//! joined by a separator, and totals written as decimal digits.

use vstd::prelude::*;

verus! {

/// Separator between usernames in a cached member list.
pub const MEMBER_SEPARATOR: char = ':';

/// Relies on `String::push`: appends one character at the end.
#[verifier::external_body]
pub(crate) fn push_char(s: &mut String, c: char)
    ensures
        final(s)@ == old(s)@.push(c),
{
    s.push(c)
}

/// Splits `s` at every occurrence of `d`; like `str::split`, an empty text
/// gives one empty piece and a separator at either end gives an empty piece there.
pub open spec fn split_on(s: Seq<char>, d: char) -> Seq<Seq<char>>
    decreases s.len(),
{
    if s.len() == 0 {
        seq![Seq::<char>::empty()]
    } else {
        let r = split_on(s.drop_last(), d);
        if s.last() == d {
            r.push(Seq::<char>::empty())
        } else {
            r.update(r.len() - 1, r.last().push(s.last()))
        }
    }
}

/// The pieces of `ms` joined with `d` between neighbours.
pub open spec fn join_with(ms: Seq<Seq<char>>, d: char) -> Seq<char>
    decreases ms.len(),
{
    if ms.len() == 0 {
        Seq::<char>::empty()
    } else if ms.len() == 1 {
        ms[0]
    } else {
        join_with(ms.drop_last(), d).push(d) + ms.last()
    }
}

/// The contents of a vector of strings.
pub open spec fn texts(v: Seq<String>) -> Seq<Seq<char>> {
    v.map_values(|s: String| s@)
}

pub open spec fn free_of(s: Seq<char>, d: char) -> bool {
    forall|i: int| 0 <= i < s.len() ==> s[i] != d
}

/// A text without the separator splits into itself alone.
pub proof fn lemma_split_free(s: Seq<char>, d: char)
    requires
        free_of(s, d),
    ensures
        split_on(s, d) == seq![s],
    decreases s.len(),
{
    if s.len() > 0 {
        assert(free_of(s.drop_last(), d));
        lemma_split_free(s.drop_last(), d);
        assert(s.drop_last().push(s.last()) =~= s);
        assert(seq![s.drop_last()].update(0, s.drop_last().push(s.last())) =~= seq![s]);
    } else {
        assert(s =~= Seq::<char>::empty());
    }
}

/// Splitting `a + [d] + b` where `b` holds no separator appends `b` as a new piece.
pub proof fn lemma_split_append(a: Seq<char>, b: Seq<char>, d: char)
    requires
        free_of(b, d),
    ensures
        split_on(a.push(d) + b, d) == split_on(a, d).push(b),
    decreases b.len(),
{
    if b.len() == 0 {
        assert(a.push(d) + b =~= a.push(d));
        assert((a.push(d)).drop_last() =~= a);
        assert(b =~= Seq::<char>::empty());
    } else {
        let s = a.push(d) + b;
        assert(free_of(b.drop_last(), d));
        lemma_split_append(a, b.drop_last(), d);
        assert(s.drop_last() =~= a.push(d) + b.drop_last());
        assert(s.last() == b.last());
        assert(b[b.len() - 1] != d);
        let r = split_on(a, d).push(b.drop_last());
        assert(b.drop_last().push(b.last()) =~= b);
        assert(r.update(r.len() - 1, r.last().push(s.last())) =~= split_on(a, d).push(b));
    }
}

/// Joining pieces free of the separator and splitting again gives the pieces back.
pub proof fn lemma_split_join(ms: Seq<Seq<char>>, d: char)
    requires
        ms.len() >= 1,
        forall|i: int| 0 <= i < ms.len() ==> free_of(#[trigger] ms[i], d),
    ensures
        split_on(join_with(ms, d), d) == ms,
    decreases ms.len(),
{
    if ms.len() == 1 {
        lemma_split_free(ms[0], d);
        assert(seq![ms[0]] =~= ms);
    } else {
        let p = ms.drop_last();
        assert forall|i: int| 0 <= i < p.len() implies free_of(#[trigger] p[i], d) by {
            assert(p[i] == ms[i]);
        }
        lemma_split_join(p, d);
        assert(free_of(ms[ms.len() - 1], d));
        lemma_split_append(join_with(p, d), ms.last(), d);
        assert(p.push(ms.last()) =~= ms);
    }
}

/// Splits a cached member list into usernames, in order.
pub fn decode_members(s: &str) -> (r: Vec<String>)
    ensures
        texts(r@) == split_on(s@, MEMBER_SEPARATOR),
{
    let n = s.unicode_len();
    let mut pieces: Vec<String> = Vec::new();
    let mut current = String::new();
    let mut i: usize = 0;
    while i < n
        invariant
            n == s@.len(),
            i <= n,
            texts(pieces@).push(current@) == split_on(s@.subrange(0, i as int), MEMBER_SEPARATOR),
        decreases n - i,
    {
        let c = s.get_char(i);
        proof {
            assert(s@.subrange(0, i + 1).drop_last() =~= s@.subrange(0, i as int));
            assert(s@.subrange(0, i + 1).last() == c);
        }
        if c == MEMBER_SEPARATOR {
            let ghost before = pieces@;
            let done = current;
            pieces.push(done);
            current = String::new();
            proof {
                assert(texts(pieces@) =~= texts(before).push(done@));
            }
        } else {
            let ghost prev = current@;
            push_char(&mut current, c);
            proof {
                let r = texts(pieces@).push(prev);
                assert(r.update(r.len() - 1, prev.push(c)) =~= texts(pieces@).push(current@));
            }
        }
        i = i + 1;
    }
    pieces.push(current);
    proof {
        assert(s@.subrange(0, n as int) =~= s@);
        assert(texts(pieces@) =~= texts(pieces@.drop_last()).push(pieces@.last()@));
    }
    pieces
}

/// Joins usernames into one cached member list.
pub fn encode_members(ms: &Vec<String>) -> (r: String)
    ensures
        r@ == join_with(texts(ms@), MEMBER_SEPARATOR),
{
    let mut out = String::new();
    let mut i: usize = 0;
    while i < ms.len()
        invariant
            i <= ms@.len(),
            out@ == join_with(texts(ms@.subrange(0, i as int)), MEMBER_SEPARATOR),
        decreases ms@.len() - i,
    {
        let ghost prev = texts(ms@.subrange(0, i as int));
        let ghost next = texts(ms@.subrange(0, i + 1));
        proof {
            assert(next.drop_last() =~= prev);
            assert(next.last() == ms@[i as int]@);
        }
        if i > 0 {
            push_char(&mut out, MEMBER_SEPARATOR);
        } else {
            assert(next =~= seq![ms@[0]@]);
        }
        out.append(ms[i].as_str());
        i = i + 1;
    }
    proof {
        assert(ms@.subrange(0, ms@.len() as int) =~= ms@);
    }
    out
}

/// The character of a decimal digit.
pub open spec fn digit_char(n: nat) -> char
    recommends
        n < 10,
{
    (n + '0' as nat) as char
}

pub open spec fn is_digit(c: char) -> bool {
    '0' <= c <= '9'
}

pub open spec fn digit_value(c: char) -> nat {
    (c as nat - '0' as nat) as nat
}

/// The decimal digits of `n`, most significant first, without leading zeros.
pub open spec fn decimal(n: nat) -> Seq<char>
    decreases n,
{
    if n < 10 {
        seq![digit_char(n)]
    } else {
        decimal(n / 10).push(digit_char(n % 10))
    }
}

/// The number that a text of digits denotes.
pub open spec fn digits_value(s: Seq<char>) -> nat
    decreases s.len(),
{
    if s.len() == 0 {
        0
    } else {
        digits_value(s.drop_last()) * 10 + digit_value(s.last())
    }
}

pub open spec fn all_digits(s: Seq<char>) -> bool {
    forall|i: int| 0 <= i < s.len() ==> is_digit(#[trigger] s[i])
}

/// What a cached total reads as: a non-empty run of decimal digits whose value fits.
pub open spec fn total_of(s: Seq<char>) -> Option<u64> {
    if s.len() > 0 && all_digits(s) && digits_value(s) <= u64::MAX {
        Some(digits_value(s) as u64)
    } else {
        None
    }
}

/// The character of a digit below ten.
fn digit_of(d: u64) -> (c: char)
    requires
        d < 10,
    ensures
        c == digit_char(d as nat),
{
    if d == 0 { '0' } else if d == 1 { '1' } else if d == 2 { '2' } else if d == 3 { '3' }
    else if d == 4 { '4' } else if d == 5 { '5' } else if d == 6 { '6' } else if d == 7 { '7' }
    else if d == 8 { '8' } else { '9' }
}

/// Writes a number in decimal.
pub fn encode_decimal(n: u64) -> (r: String)
    ensures
        r@ == decimal(n as nat),
    decreases n,
{
    let c = digit_of(n % 10);
    if n < 10 {
        let mut s = String::new();
        push_char(&mut s, c);
        assert(s@ =~= seq![c]);
        s
    } else {
        let mut s = encode_decimal(n / 10);
        push_char(&mut s, c);
        s
    }
}

/// Reads a total written by `encode_decimal`; anything else reads as `None`.
pub fn decode_total(s: &str) -> (r: Option<u64>)
    ensures
        r == total_of(s@),
{
    let n = s.unicode_len();
    if n == 0 {
        return None;
    }
    let mut v: u64 = 0;
    let mut i: usize = 0;
    while i < n
        invariant
            n == s@.len(),
            i <= n,
            all_digits(s@.subrange(0, i as int)),
            v as nat == digits_value(s@.subrange(0, i as int)),
        decreases n - i,
    {
        let c = s.get_char(i);
        let ghost pre = s@.subrange(0, i as int);
        let ghost next = s@.subrange(0, i + 1);
        proof {
            assert(next.drop_last() =~= pre);
            assert(next.last() == c);
        }
        if !('0' <= c && c <= '9') {
            assert(!all_digits(s@));
            return None;
        }
        let d = (c as u32 - '0' as u32) as u64;
        if v > (u64::MAX - d) / 10 {
            proof {
                lemma_digits_value_prefix(s@, i + 1);
            }
            return None;
        }
        v = v * 10 + d;
        i = i + 1;
    }
    assert(s@.subrange(0, n as int) =~= s@);
    Some(v)
}

/// A value never shrinks as digits are added.
proof fn lemma_digits_value_prefix(s: Seq<char>, k: int)
    requires
        0 <= k <= s.len(),
    ensures
        digits_value(s.subrange(0, k)) <= digits_value(s),
    decreases s.len() - k,
{
    if k < s.len() {
        lemma_digits_value_prefix(s, k + 1);
        assert(s.subrange(0, k + 1).drop_last() =~= s.subrange(0, k));
    } else {
        assert(s.subrange(0, k) =~= s);
    }
}

proof fn lemma_decimal_reads_back(n: nat)
    ensures
        decimal(n).len() > 0,
        all_digits(decimal(n)),
        digits_value(decimal(n)) == n,
    decreases n,
{
    if n >= 10 {
        lemma_decimal_reads_back(n / 10);
        let s = decimal(n);
        assert(s.drop_last() =~= decimal(n / 10));
        assert(s.last() == digit_char(n % 10));
        assert(digit_value(digit_char(n % 10)) == n % 10);
        assert(n == (n / 10) * 10 + n % 10);
        assert(digits_value(s) == digits_value(s.drop_last()) * 10 + digit_value(s.last()));
        assert forall|i: int| 0 <= i < s.len() implies is_digit(#[trigger] s[i]) by {
            if i < s.len() - 1 {
                assert(s[i] == decimal(n / 10)[i]);
            }
        }
    } else {
        assert(decimal(n)[0] == digit_char(n));
        assert(digit_value(digit_char(n)) == n);
        assert(decimal(n).drop_last() =~= Seq::<char>::empty());
        assert(digits_value(Seq::<char>::empty()) == 0);
        assert(digits_value(decimal(n)) == digits_value(decimal(n).drop_last()) * 10 + digit_value(decimal(n).last()));
    }
}

/// A total written in decimal reads back as the same number.
pub proof fn lemma_total_round_trip(n: u64)
    ensures
        total_of(decimal(n as nat)) == Some(n),
{
    lemma_decimal_reads_back(n as nat);
}

/// A member list of one or more names free of the separator reads back as
/// the same names in the same order.
pub proof fn lemma_member_list_round_trip(ms: Seq<Seq<char>>)
    requires
        ms.len() >= 1,
        forall|i: int| 0 <= i < ms.len() ==> free_of(#[trigger] ms[i], MEMBER_SEPARATOR),
    ensures
        split_on(join_with(ms, MEMBER_SEPARATOR), MEMBER_SEPARATOR) == ms,
{
    lemma_split_join(ms, MEMBER_SEPARATOR);
}

} // verus!
