//! Byte-sequence helpers shared by the request parser and the response
//! builder: whitespace scanning, byte search, trimming, decimal numbers,
//! and case-insensitive comparison. Every exec function is pinned to a
//! spec function over `Seq<u8>`.

use vstd::prelude::*;
use vstd::string::StringSliceAdditionalSpecFns;

verus! {

/// ASCII whitespace, as Rust's `char::is_whitespace` classifies the
/// single-byte characters: space, and tab through carriage return.
pub open spec fn is_ws(b: u8) -> bool {
    b == 32 || (9 <= b && b <= 13)
}

/// Index of the first occurrence of `target` in `s[from..end)`, or `end` if
/// there is none.
pub open spec fn find_byte(s: Seq<u8>, from: int, end: int, target: u8) -> int
    decreases end - from,
{
    if from >= end {
        end
    } else if s[from] == target {
        from
    } else {
        find_byte(s, from + 1, end, target)
    }
}

pub proof fn lemma_find_byte_ge(s: Seq<u8>, from: int, end: int, target: u8)
    requires
        from <= end,
    ensures
        from <= find_byte(s, from, end, target) <= end,
    decreases end - from,
{
    if from < end && s[from] != target {
        lemma_find_byte_ge(s, from + 1, end, target);
    }
}

pub proof fn lemma_find_byte(s: Seq<u8>, from: int, end: int, target: u8)
    requires
        0 <= from <= end <= s.len(),
    ensures
        from <= find_byte(s, from, end, target) <= end,
        find_byte(s, from, end, target) < end ==> s[find_byte(s, from, end, target)] == target,
        forall|k: int| from <= k < find_byte(s, from, end, target) ==> s[k] != target,
    decreases end - from,
{
    if from < end && s[from] != target {
        lemma_find_byte(s, from + 1, end, target);
    }
}

pub fn find_byte_in(v: &Vec<u8>, from: usize, end: usize, target: u8) -> (r: usize)
    requires
        from <= end <= v.len(),
    ensures
        r == find_byte(v@, from as int, end as int, target),
{
    let mut i: usize = from;
    while i < end
        invariant
            from <= i <= end <= v.len(),
            find_byte(v@, from as int, end as int, target) == find_byte(
                v@,
                i as int,
                end as int,
                target,
            ),
        decreases end - i,
    {
        if v[i] == target {
            return i;
        }
        i = i + 1;
    }
    end
}

/// Index of the first byte in `s[from..end)` that is not whitespace, or `end`.
pub open spec fn skip_ws(s: Seq<u8>, from: int, end: int) -> int
    decreases end - from,
{
    if from >= end {
        end
    } else if is_ws(s[from]) {
        skip_ws(s, from + 1, end)
    } else {
        from
    }
}

pub proof fn lemma_skip_ws(s: Seq<u8>, from: int, end: int)
    requires
        from <= end,
    ensures
        from <= skip_ws(s, from, end) <= end,
    decreases end - from,
{
    if from < end && is_ws(s[from]) {
        lemma_skip_ws(s, from + 1, end);
    }
}

pub fn skip_ws_in(v: &Vec<u8>, from: usize, end: usize) -> (r: usize)
    requires
        from <= end <= v.len(),
    ensures
        r == skip_ws(v@, from as int, end as int),
{
    let mut i: usize = from;
    while i < end
        invariant
            from <= i <= end <= v.len(),
            skip_ws(v@, from as int, end as int) == skip_ws(v@, i as int, end as int),
        decreases end - i,
    {
        let b = v[i];
        if !(b == 32 || (9 <= b && b <= 13)) {
            return i;
        }
        i = i + 1;
    }
    end
}

/// Index of the first whitespace byte in `s[from..end)`, or `end`.
pub open spec fn scan_token(s: Seq<u8>, from: int, end: int) -> int
    decreases end - from,
{
    if from >= end {
        end
    } else if is_ws(s[from]) {
        from
    } else {
        scan_token(s, from + 1, end)
    }
}

pub proof fn lemma_scan_token(s: Seq<u8>, from: int, end: int)
    requires
        from <= end,
    ensures
        from <= scan_token(s, from, end) <= end,
    decreases end - from,
{
    if from < end && !is_ws(s[from]) {
        lemma_scan_token(s, from + 1, end);
    }
}

pub fn scan_token_in(v: &Vec<u8>, from: usize, end: usize) -> (r: usize)
    requires
        from <= end <= v.len(),
    ensures
        r == scan_token(v@, from as int, end as int),
{
    let mut i: usize = from;
    while i < end
        invariant
            from <= i <= end <= v.len(),
            scan_token(v@, from as int, end as int) == scan_token(v@, i as int, end as int),
        decreases end - i,
    {
        let b = v[i];
        if b == 32 || (9 <= b && b <= 13) {
            return i;
        }
        i = i + 1;
    }
    end
}

/// End of `s[from..end)` once trailing whitespace is dropped.
pub open spec fn trim_end(s: Seq<u8>, from: int, end: int) -> int
    decreases end - from,
{
    if end <= from {
        from
    } else if is_ws(s[end - 1]) {
        trim_end(s, from, end - 1)
    } else {
        end
    }
}

pub proof fn lemma_trim_end(s: Seq<u8>, from: int, end: int)
    requires
        from <= end,
    ensures
        from <= trim_end(s, from, end) <= end,
    decreases end - from,
{
    if from < end && is_ws(s[end - 1]) {
        lemma_trim_end(s, from, end - 1);
    }
}

pub fn trim_end_in(v: &Vec<u8>, from: usize, end: usize) -> (r: usize)
    requires
        from <= end <= v.len(),
    ensures
        r == trim_end(v@, from as int, end as int),
{
    let mut e: usize = end;
    while e > from
        invariant
            from <= e <= end <= v.len(),
            trim_end(v@, from as int, end as int) == trim_end(v@, from as int, e as int),
        decreases e,
    {
        let b = v[e - 1];
        if !(b == 32 || (9 <= b && b <= 13)) {
            return e;
        }
        e = e - 1;
    }
    from
}

/// `s[from..end)` with surrounding whitespace removed.
pub open spec fn trimmed(s: Seq<u8>, from: int, end: int) -> Seq<u8> {
    let a = skip_ws(s, from, end);
    let b = trim_end(s, a, end);
    s.subrange(a, b)
}

/// Copy of `v[from..end)`.
pub fn subrange_vec(v: &Vec<u8>, from: usize, end: usize) -> (r: Vec<u8>)
    requires
        from <= end <= v.len(),
    ensures
        r@ == v@.subrange(from as int, end as int),
{
    let mut out: Vec<u8> = Vec::new();
    let mut i: usize = from;
    while i < end
        invariant
            from <= i <= end <= v.len(),
            out@ == v@.subrange(from as int, i as int),
        decreases end - i,
    {
        out.push(v[i]);
        proof {
            assert(v@.subrange(from as int, i + 1 as int) =~= v@.subrange(from as int, i as int)
                .push(v@[i as int]));
        }
        i = i + 1;
    }
    out
}

pub fn trim_range(v: &Vec<u8>, from: usize, end: usize) -> (r: Vec<u8>)
    requires
        from <= end <= v.len(),
    ensures
        r@ == trimmed(v@, from as int, end as int),
{
    let a = skip_ws_in(v, from, end);
    proof {
        lemma_skip_ws(v@, from as int, end as int);
    }
    let b = trim_end_in(v, a, end);
    proof {
        lemma_trim_end(v@, a as int, end as int);
    }
    subrange_vec(v, a, b)
}

pub fn vec_eq_slice(a: &Vec<u8>, b: &[u8]) -> (r: bool)
    ensures
        r == (a@ == b@),
{
    if a.len() != b.len() {
        return false;
    }
    let mut i: usize = 0;
    while i < a.len()
        invariant
            i <= a.len(),
            a@.len() == b@.len(),
            forall|k: int| 0 <= k < i ==> a@[k] == b@[k],
        decreases a.len() - i,
    {
        if a[i] != b[i] {
            return false;
        }
        i = i + 1;
    }
    proof {
        assert(a@ =~= b@);
    }
    true
}

pub open spec fn starts_with(s: Seq<u8>, prefix: Seq<u8>) -> bool {
    prefix.len() <= s.len() && s.subrange(0, prefix.len() as int) == prefix
}

pub fn vec_starts_with(v: &Vec<u8>, prefix: &[u8]) -> (r: bool)
    ensures
        r == starts_with(v@, prefix@),
{
    if prefix.len() > v.len() {
        return false;
    }
    let mut i: usize = 0;
    while i < prefix.len()
        invariant
            i <= prefix@.len() <= v@.len(),
            forall|k: int| 0 <= k < i ==> v@[k] == prefix@[k],
        decreases prefix.len() - i,
    {
        if v[i] != prefix[i] {
            proof {
                assert(v@.subrange(0, prefix@.len() as int)[i as int] != prefix@[i as int]);
            }
            return false;
        }
        i = i + 1;
    }
    proof {
        assert(v@.subrange(0, prefix@.len() as int) =~= prefix@);
    }
    true
}

/// Whether `pat` occurs as a contiguous run of bytes anywhere in `s`.
pub open spec fn contains_seq(s: Seq<u8>, pat: Seq<u8>) -> bool {
    exists|i: int| 0 <= i && i + pat.len() <= s.len() && #[trigger] s.subrange(i, i + pat.len())
        == pat
}

fn match_at(v: &Vec<u8>, at: usize, pat: &[u8]) -> (r: bool)
    requires
        at <= v.len(),
        pat@.len() <= v@.len() - at,
    ensures
        r == (v@.subrange(at as int, at + pat@.len()) == pat@),
{
    let n = v.len();
    let mut j: usize = 0;
    while j < pat.len()
        invariant
            j <= pat@.len(),
            at + pat@.len() <= v@.len(),
            n == v@.len(),
            forall|k: int| 0 <= k < j ==> v@[at + k] == pat@[k],
        decreases pat.len() - j,
    {
        if v[at + j] != pat[j] {
            proof {
                assert(v@.subrange(at as int, at + pat@.len())[j as int] != pat@[j as int]);
            }
            return false;
        }
        j = j + 1;
    }
    proof {
        assert(v@.subrange(at as int, at + pat@.len()) =~= pat@);
    }
    true
}

pub fn contains_bytes(v: &Vec<u8>, pat: &[u8]) -> (r: bool)
    ensures
        r == contains_seq(v@, pat@),
{
    if pat.len() > v.len() {
        return false;
    }
    let last = v.len() - pat.len();
    let mut i: usize = 0;
    while i < last
        invariant
            i <= last,
            last == v@.len() - pat@.len(),
            forall|k: int| 0 <= k < i ==> #[trigger] v@.subrange(k, k + pat@.len()) != pat@,
        decreases last - i,
    {
        if match_at(v, i, pat) {
            return true;
        }
        i = i + 1;
    }
    if match_at(v, last, pat) {
        return true;
    }
    false
}

/// The byte with any ASCII capital letter folded to its small form.
pub open spec fn lower_byte(b: u8) -> u8 {
    if 65 <= b && b <= 90 {
        (b + 32) as u8
    } else {
        b
    }
}

/// Equality of two byte runs up to ASCII letter case, as
/// `str::eq_ignore_ascii_case` compares them.
pub open spec fn eq_ignore_case(a: Seq<u8>, b: Seq<u8>) -> bool {
    a.len() == b.len() && forall|i: int| 0 <= i < a.len() ==> lower_byte(a[i]) == lower_byte(b[i])
}

pub fn bytes_eq_ignore_case(a: &Vec<u8>, b: &[u8]) -> (r: bool)
    ensures
        r == eq_ignore_case(a@, b@),
{
    if a.len() != b.len() {
        return false;
    }
    let mut i: usize = 0;
    while i < a.len()
        invariant
            i <= a@.len(),
            a@.len() == b@.len(),
            forall|k: int| 0 <= k < i ==> lower_byte(a@[k]) == lower_byte(b@[k]),
        decreases a.len() - i,
    {
        let mut x = a[i];
        let mut y = b[i];
        if 65 <= x && x <= 90 {
            x = x + 32;
        }
        if 65 <= y && y <= 90 {
            y = y + 32;
        }
        if x != y {
            return false;
        }
        i = i + 1;
    }
    true
}

/// Whether every byte of `s` is a decimal digit, with at least one digit.
pub open spec fn all_digits(s: Seq<u8>) -> bool {
    s.len() > 0 && forall|i: int| 0 <= i < s.len() ==> 48 <= #[trigger] s[i] <= 57
}

/// Value of a run of decimal digits, most significant first.
pub open spec fn dec_value(s: Seq<u8>) -> int
    decreases s.len(),
{
    if s.len() == 0 {
        0
    } else {
        dec_value(s.drop_last()) * 10 + (s.last() - 48)
    }
}

/// The digits of a number as Rust's unsigned `parse` reads them: one
/// optional leading plus sign, then the digits themselves.
pub open spec fn digits_part(s: Seq<u8>) -> Seq<u8> {
    if s.len() > 0 && s[0] == 43 {
        s.skip(1)
    } else {
        s
    }
}

/// What `str::parse::<usize>` returns on this run of bytes: the decimal
/// value when the bytes are an optional plus sign followed by digits and
/// the value fits in `usize`, nothing otherwise.
pub open spec fn parse_usize_spec(s: Seq<u8>) -> Option<int> {
    if all_digits(digits_part(s)) && dec_value(digits_part(s)) <= usize::MAX as int {
        Some(dec_value(digits_part(s)))
    } else {
        None
    }
}

pub proof fn lemma_dec_value_nonneg(s: Seq<u8>)
    requires
        forall|i: int| 0 <= i < s.len() ==> 48 <= s[i],
    ensures
        dec_value(s) >= 0,
    decreases s.len(),
{
    if s.len() > 0 {
        lemma_dec_value_nonneg(s.drop_last());
    }
}

pub proof fn lemma_dec_value_step(s: Seq<u8>, i: int)
    requires
        0 <= i < s.len(),
    ensures
        dec_value(s.take(i + 1)) == dec_value(s.take(i)) * 10 + (s[i] - 48),
{
    assert(s.take(i + 1).drop_last() =~= s.take(i));
    assert(s.take(i + 1).last() == s[i]);
}

pub proof fn lemma_dec_value_prefix(s: Seq<u8>, i: int)
    requires
        all_digits(s),
        0 <= i <= s.len(),
    ensures
        dec_value(s.take(i)) <= dec_value(s),
    decreases s.len() - i,
{
    if i < s.len() {
        lemma_dec_value_step(s, i);
        assert(forall|k: int| 0 <= k < s.take(i).len() ==> 48 <= s.take(i)[k]);
        lemma_dec_value_nonneg(s.take(i));
        lemma_dec_value_prefix(s, i + 1);
    } else {
        assert(s.take(i) =~= s);
    }
}

/// `str::parse::<usize>` on a run of bytes, without the text in between:
/// an optional plus sign, digits, and a value that fits.
pub fn parse_usize(v: &Vec<u8>) -> (r: Option<usize>)
    ensures
        match r {
            Some(n) => parse_usize_spec(v@) == Some(n as int),
            None => parse_usize_spec(v@) is None,
        },
{
    let start: usize = if v.len() > 0 && v[0] == 43 {
        1
    } else {
        0
    };
    let ghost d: Seq<u8> = digits_part(v@);
    proof {
        assert(d =~= v@.skip(start as int));
    }
    if v.len() == start {
        return None;
    }
    let mut acc: u128 = 0;
    let mut i: usize = start;
    while i < v.len()
        invariant
            start <= i <= v@.len(),
            d == digits_part(v@),
            d == v@.skip(start as int),
            d.len() == v@.len() - start,
            forall|k: int| 0 <= k < i - start ==> 48 <= #[trigger] d[k] <= 57,
            acc == dec_value(d.take(i - start)),
            acc <= usize::MAX as u128,
        decreases v.len() - i,
    {
        let b = v[i];
        proof {
            assert(d[i - start] == v@[i as int]);
        }
        if b < 48 || b > 57 {
            proof {
                assert(!(48 <= d[i - start] <= 57));
                assert(!all_digits(d));
            }
            return None;
        }
        proof {
            lemma_dec_value_step(d, i - start);
        }
        acc = acc * 10 + ((b - 48) as u128);
        if acc > usize::MAX as u128 {
            proof {
                if all_digits(d) {
                    lemma_dec_value_prefix(d, i - start + 1);
                    assert(dec_value(d) >= dec_value(d.take(i - start + 1)));
                    assert(dec_value(d.take(i - start + 1)) == acc as int);
                }
                assert(parse_usize_spec(v@) is None);
            }
            return None;
        }
        i = i + 1;
    }
    proof {
        assert(d.take(i - start) =~= d);
    }
    Some(acc as usize)
}

/// The decimal digits of `n`, most significant first, as `format!` writes
/// an unsigned number.
pub open spec fn dec_repr(n: int) -> Seq<u8>
    decreases n,
{
    if n < 10 {
        seq![(48 + if n >= 0 { n } else { 0 }) as u8]
    } else {
        dec_repr(n / 10) + seq![(48 + n % 10) as u8]
    }
}

/// Append every byte of `src` to `out`.
pub fn push_bytes(out: &mut Vec<u8>, src: &[u8])
    ensures
        final(out)@ == old(out)@ + src@,
{
    let mut i: usize = 0;
    while i < src.len()
        invariant
            i <= src@.len(),
            out@ == old(out)@ + src@.subrange(0, i as int),
        decreases src.len() - i,
    {
        out.push(src[i]);
        proof {
            assert(old(out)@ + src@.subrange(0, i + 1 as int) =~= (old(out)@ + src@.subrange(
                0,
                i as int,
            )).push(src@[i as int]));
        }
        i = i + 1;
    }
    proof {
        assert(src@.subrange(0, src@.len() as int) =~= src@);
    }
}

/// Append the UTF-8 bytes of `s` to `out`.
pub fn push_str_bytes(out: &mut Vec<u8>, s: &str)
    ensures
        final(out)@ == old(out)@ + s.spec_bytes(),
{
    push_bytes(out, s.as_bytes())
}

/// Append the decimal digits of `n` to `out`.
pub fn push_dec(out: &mut Vec<u8>, n: usize)
    ensures
        final(out)@ == old(out)@ + dec_repr(n as int),
    decreases n,
{
    if n < 10 {
        out.push(48 + n as u8);
        proof {
            assert(old(out)@ + dec_repr(n as int) =~= old(out)@.push((48 + n as int) as u8));
        }
    } else {
        proof {
            assert(n / 10 < n && n / 10 >= 0) by (nonlinear_arith)
                requires n >= 10;
        }
        push_dec(out, n / 10);
        out.push(48 + (n % 10) as u8);
        proof {
            assert(old(out)@ + dec_repr(n as int) =~= (old(out)@ + dec_repr(n as int / 10)).push(
                (48 + n as int % 10) as u8,
            ));
        }
    }
}

} // verus!
