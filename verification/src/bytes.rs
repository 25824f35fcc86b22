//! Byte-level building blocks shared by the request, tile-path and response
//! modules: splitting a byte string on a separator, comparing byte strings,
//! and reading and writing unsigned decimal numbers.

use vstd::prelude::*;

verus! {

/// The tokens of `s` split on the separator `sep`, empty tokens kept:
/// splitting `a//b` on `/` gives `[a, <empty>, b]`, and the empty string
/// gives one empty token.
pub open spec fn split_bytes(s: Seq<u8>, sep: u8) -> Seq<Seq<u8>>
    decreases s.len(),
{
    if s.len() == 0 {
        seq![Seq::<u8>::empty()]
    } else if s.last() == sep {
        split_bytes(s.drop_last(), sep).push(Seq::<u8>::empty())
    } else {
        let toks = split_bytes(s.drop_last(), sep);
        toks.update(toks.len() - 1, toks.last().push(s.last()))
    }
}

pub proof fn lemma_split_bytes_len(s: Seq<u8>, sep: u8)
    ensures
        split_bytes(s, sep).len() >= 1,
    decreases s.len(),
{
    if s.len() > 0 {
        lemma_split_bytes_len(s.drop_last(), sep);
    }
}

/// A byte string without the separator splits into the single token it is.
pub proof fn lemma_split_bytes_no_sep(s: Seq<u8>, sep: u8)
    requires
        forall|i: int| 0 <= i < s.len() ==> s[i] != sep,
    ensures
        split_bytes(s, sep) == seq![s],
    decreases s.len(),
{
    if s.len() == 0 {
        assert(split_bytes(s, sep) =~~= seq![s]);
    } else {
        lemma_split_bytes_no_sep(s.drop_last(), sep);
        assert(split_bytes(s, sep) =~~= seq![s]);
    }
}

/// Splitting distributes over a separator placed between two byte strings.
pub proof fn lemma_split_bytes_concat(s1: Seq<u8>, s2: Seq<u8>, sep: u8)
    ensures
        split_bytes(s1 + seq![sep] + s2, sep) == split_bytes(s1, sep) + split_bytes(s2, sep),
    decreases s2.len(),
{
    lemma_split_bytes_len(s1, sep);
    if s2.len() == 0 {
        assert(s1 + seq![sep] + s2 =~= s1.push(sep));
        assert(s1.push(sep).drop_last() =~= s1);
        assert(split_bytes(s1 + seq![sep] + s2, sep) =~~= split_bytes(s1, sep) + split_bytes(
            s2,
            sep,
        ));
    } else {
        lemma_split_bytes_concat(s1, s2.drop_last(), sep);
        lemma_split_bytes_len(s2.drop_last(), sep);
        let w = s1 + seq![sep] + s2;
        assert(w.last() == s2.last());
        assert(w.drop_last() =~= s1 + seq![sep] + s2.drop_last());
        assert(split_bytes(w, sep) =~~= split_bytes(s1, sep) + split_bytes(s2, sep));
    }
}

/// The views of a vector of byte tokens.
pub open spec fn token_views(ts: Seq<Vec<u8>>) -> Seq<Seq<u8>> {
    ts.map_values(|t: Vec<u8>| t@)
}

/// Splits `s` on the separator `sep`, keeping empty tokens.
pub fn split_on(s: &[u8], sep: u8) -> (r: Vec<Vec<u8>>)
    ensures
        token_views(r@) == split_bytes(s@, sep),
        r@.len() >= 1,
{
    let mut toks: Vec<Vec<u8>> = Vec::new();
    let mut cur: Vec<u8> = Vec::new();
    let mut i: usize = 0;
    proof {
        assert(s@.take(0) =~= Seq::<u8>::empty());
        assert(token_views(toks@).push(cur@) =~~= split_bytes(s@.take(0), sep));
    }
    while i < s.len()
        invariant
            0 <= i <= s@.len(),
            token_views(toks@).push(cur@) == split_bytes(s@.take(i as int), sep),
        decreases s@.len() - i,
    {
        proof {
            assert(s@.take(i + 1).drop_last() =~= s@.take(i as int));
            assert(s@.take(i + 1).last() == s@[i as int]);
        }
        let ghost prev_toks = toks@;
        let ghost prev_cur = cur@;
        if s[i] == sep {
            toks.push(cur);
            cur = Vec::new();
            proof {
                assert(token_views(toks@) =~~= token_views(prev_toks).push(prev_cur));
                assert(token_views(toks@).push(cur@) =~~= split_bytes(s@.take(i + 1), sep));
            }
        } else {
            cur.push(s[i]);
            proof {
                assert(token_views(toks@).push(cur@) =~~= split_bytes(s@.take(i + 1), sep));
            }
        }
        i += 1;
    }
    proof {
        assert(s@.take(s@.len() as int) =~= s@);
    }
    let ghost last_toks = toks@;
    let ghost last_cur = cur@;
    toks.push(cur);
    proof {
        assert(token_views(toks@) =~~= token_views(last_toks).push(last_cur));
    }
    toks
}

/// The index of the last occurrence of `b` in `s`, or `-1` when `s` does
/// not hold `b`.
pub open spec fn last_byte_index(s: Seq<u8>, b: u8) -> int
    decreases s.len(),
{
    if s.len() == 0 {
        -1
    } else if s.last() == b {
        s.len() - 1
    } else {
        last_byte_index(s.drop_last(), b)
    }
}

pub proof fn lemma_last_byte_index_at(s: Seq<u8>, b: u8, j: int)
    requires
        0 <= j < s.len(),
        s[j] == b,
        forall|k: int| j < k < s.len() ==> s[k] != b,
    ensures
        last_byte_index(s, b) == j,
    decreases s.len(),
{
    if j < s.len() - 1 {
        lemma_last_byte_index_at(s.drop_last(), b, j);
    }
}

pub proof fn lemma_last_byte_index_none(s: Seq<u8>, b: u8)
    requires
        forall|k: int| 0 <= k < s.len() ==> s[k] != b,
    ensures
        last_byte_index(s, b) == -1,
    decreases s.len(),
{
    if s.len() > 0 {
        lemma_last_byte_index_none(s.drop_last(), b);
    }
}

/// Byte-string equality.
pub fn bytes_eq(a: &[u8], b: &[u8]) -> (r: bool)
    ensures
        r <==> a@ == b@,
{
    if a.len() != b.len() {
        return false;
    }
    let mut i: usize = 0;
    while i < a.len()
        invariant
            a@.len() == b@.len(),
            0 <= i <= a@.len(),
            forall|j: int| 0 <= j < i ==> a@[j] == b@[j],
        decreases a@.len() - i,
    {
        if a[i] != b[i] {
            return false;
        }
        i += 1;
    }
    proof {
        assert(a@ =~= b@);
    }
    true
}

/// An ASCII decimal digit.
pub open spec fn is_digit(b: u8) -> bool {
    '0' as u8 <= b && b <= '9' as u8
}

/// A non-empty byte string made of decimal digits only.
pub open spec fn is_digits(s: Seq<u8>) -> bool {
    s.len() > 0 && forall|i: int| 0 <= i < s.len() ==> is_digit(#[trigger] s[i])
}

/// The value of a digit string read in base 10.
pub open spec fn digits_val(s: Seq<u8>) -> nat
    decreases s.len(),
{
    if s.len() == 0 {
        0
    } else {
        (digits_val(s.drop_last()) * 10 + (s.last() - '0' as u8)) as nat
    }
}

/// The canonical decimal digits of `v`: no leading zeros, `0` itself written
/// as the single digit `0`.
pub open spec fn dec_digits(v: nat) -> Seq<u8>
    decreases v,
{
    if v < 10 {
        seq![('0' as u8 + v) as u8]
    } else {
        dec_digits(v / 10).push(('0' as u8 + v % 10) as u8)
    }
}

/// Reading back the canonical digits of `v` yields `v`.
pub proof fn lemma_dec_digits(v: nat)
    ensures
        is_digits(dec_digits(v)),
        digits_val(dec_digits(v)) == v,
        dec_digits(v).len() >= 1,
    decreases v,
{
    if v < 10 {
        let d = dec_digits(v);
        assert(d.drop_last() =~= Seq::<u8>::empty());
        assert(digits_val(Seq::<u8>::empty()) == 0);
        assert(digits_val(d) == v);
        assert(is_digits(d));
    } else {
        lemma_dec_digits(v / 10);
        vstd::arithmetic::div_mod::lemma_fundamental_div_mod(v as int, 10);
        let d = dec_digits(v);
        assert(d.drop_last() =~= dec_digits(v / 10));
        assert(is_digits(d));
    }
}

/// Extending a digit string to the right never lowers its value.
proof fn lemma_digits_val_take_grows(s: Seq<u8>, i: int)
    requires
        0 <= i <= s.len(),
        forall|j: int| 0 <= j < s.len() ==> is_digit(#[trigger] s[j]),
    ensures
        digits_val(s.take(i)) <= digits_val(s),
    decreases s.len() - i,
{
    if i == s.len() {
        assert(s.take(i) =~= s);
    } else {
        lemma_digits_val_take_grows(s, i + 1);
        assert(s.take(i + 1).drop_last() =~= s.take(i));
        assert(s.take(i + 1).last() == s[i]);
    }
}

/// Parses a decimal digit string into a `u32`. Returns `None` on the empty
/// string, on any non-digit byte, and on a value over `u32::MAX`.
pub fn parse_decimal_u32(s: &[u8]) -> (r: Option<u32>)
    ensures
        match r {
            Some(v) => is_digits(s@) && v as nat == digits_val(s@),
            None => !(is_digits(s@) && digits_val(s@) <= u32::MAX),
        },
{
    if s.len() == 0 {
        return None;
    }
    let mut acc: u32 = 0;
    let mut i: usize = 0;
    proof {
        assert(s@.take(0) =~= Seq::<u8>::empty());
    }
    while i < s.len()
        invariant
            0 < s@.len(),
            0 <= i <= s@.len(),
            forall|j: int| 0 <= j < i ==> is_digit(#[trigger] s@[j]),
            acc as nat == digits_val(s@.take(i as int)),
        decreases s@.len() - i,
    {
        let b = s[i];
        if b < '0' as u8 || b > '9' as u8 {
            return None;
        }
        let d: u32 = (b - '0' as u8) as u32;
        proof {
            assert(s@.take(i + 1).drop_last() =~= s@.take(i as int));
            assert(s@.take(i + 1).last() == s@[i as int]);
            vstd::arithmetic::div_mod::lemma_fundamental_div_mod((u32::MAX - d) as int, 10);
        }
        if acc > (u32::MAX - d) / 10 {
            proof {
                assert(digits_val(s@.take(i + 1)) > u32::MAX);
                if is_digits(s@) {
                    lemma_digits_val_take_grows(s@, i + 1);
                }
            }
            return None;
        }
        acc = acc * 10 + d;
        i += 1;
    }
    proof {
        assert(s@.take(s@.len() as int) =~= s@);
    }
    Some(acc)
}

/// Writes `v` as its canonical decimal digits.
pub fn u64_to_decimal(v: u64) -> (r: Vec<u8>)
    ensures
        r@ == dec_digits(v as nat),
    decreases v,
{
    if v < 10 {
        let mut r: Vec<u8> = Vec::new();
        r.push('0' as u8 + v as u8);
        proof {
            assert(r@ =~= dec_digits(v as nat));
        }
        r
    } else {
        let mut r = u64_to_decimal(v / 10);
        r.push('0' as u8 + (v % 10) as u8);
        proof {
            assert(r@ =~= dec_digits(v as nat));
        }
        r
    }
}

/// Appends all of `src` to `dst`.
pub fn append_bytes(dst: &mut Vec<u8>, src: &[u8])
    ensures
        final(dst)@ == old(dst)@ + src@,
{
    let mut i: usize = 0;
    proof {
        assert(dst@ =~= old(dst)@ + src@.take(0));
    }
    while i < src.len()
        invariant
            0 <= i <= src@.len(),
            dst@ == old(dst)@ + src@.take(i as int),
        decreases src@.len() - i,
    {
        dst.push(src[i]);
        proof {
            assert(old(dst)@ + src@.take(i as int) + seq![src@[i as int]] =~= old(dst)@
                + src@.take(i + 1));
        }
        i += 1;
    }
    proof {
        assert(src@.take(src@.len() as int) =~= src@);
    }
}

} // verus!
