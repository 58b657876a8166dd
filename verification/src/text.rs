//! Byte-level text helpers shared by the whole crate.
//!
//! Every textual value in this library is specified through its UTF-8 bytes:
//! a `String` result is pinned down by `encode_utf8(r@)`.  The helpers here
//! parse and render decimal numbers, render hexadecimal numbers, split and
//! join byte strings, and compare ASCII text case-insensitively, each with an
//! exact specification.

use vstd::prelude::*;

verus! {

use vstd::utf8::{
    encode_utf8, decode_utf8, valid_utf8, is_ascii_chars, is_ascii_chars_encode_utf8,
    encode_utf8_valid_utf8, encode_utf8_decode_utf8,
};

/// All bytes are ASCII, that is, below 128.
pub open spec fn is_ascii_bytes(s: Seq<u8>) -> bool {
    forall|i: int| 0 <= i < s.len() ==> s[i] < 128
}

/// The characters spelled by a sequence of ASCII bytes.
pub open spec fn chars_of_bytes(s: Seq<u8>) -> Seq<char> {
    Seq::new(s.len(), |i: int| s[i] as char)
}

/// ASCII bytes encode, one byte per character, to themselves.
pub proof fn lemma_ascii_bytes_chars(s: Seq<u8>)
    requires
        is_ascii_bytes(s),
    ensures
        is_ascii_chars(chars_of_bytes(s)),
        encode_utf8(chars_of_bytes(s)) == s,
        valid_utf8(s),
{
    let cs = chars_of_bytes(s);
    assert forall|i: int| 0 <= i < cs.len() implies '\0' <= #[trigger] cs[i] <= '\u{7f}' by {
        assert(s[i] < 128);
    }
    is_ascii_chars_encode_utf8(cs);
    assert(encode_utf8(cs) =~= s);
    encode_utf8_valid_utf8(cs);
}

/// Two strings whose UTF-8 bytes agree are the same character sequence.
pub proof fn lemma_encode_utf8_injective(a: Seq<char>, b: Seq<char>)
    requires
        encode_utf8(a) == encode_utf8(b),
    ensures
        a == b,
{
    encode_utf8_decode_utf8(a);
    encode_utf8_decode_utf8(b);
}

/// Relies on `core::str::from_utf8`: it succeeds exactly on valid UTF-8, and
/// the returned string slice has the input as its bytes.
#[verifier::external_body]
pub(crate) fn utf8_to_str(v: &[u8]) -> (r: Option<&str>)
    ensures
        match r {
            Some(s) => valid_utf8(v@) && encode_utf8(s@) == v@,
            None => !valid_utf8(v@),
        },
{
    core::str::from_utf8(v).ok()
}

/// Builds the owned string whose UTF-8 bytes are `v`.
pub fn utf8_to_owned(v: &[u8]) -> (r: Option<String>)
    ensures
        match r {
            Some(s) => valid_utf8(v@) && encode_utf8(s@) == v@,
            None => !valid_utf8(v@),
        },
{
    match utf8_to_str(v) {
        Some(s) => Some(s.to_owned()),
        None => None,
    }
}

/// Builds the string with exactly these bytes; callers show them valid.
pub fn string_of_utf8(v: &[u8]) -> (r: String)
    requires
        valid_utf8(v@),
    ensures
        encode_utf8(r@) == v@,
{
    match utf8_to_owned(v) {
        Some(s) => s,
        None => vstd::pervasive::unreached(),
    }
}

/// Appends the UTF-8 bytes of a string slice.
pub fn push_str_bytes(out: &mut Vec<u8>, s: &str)
    ensures
        final(out)@ == old(out)@ + encode_utf8(s@),
{
    out.extend_from_slice(s.as_bytes());
}

/// Whether two byte strings are equal.
pub fn eq_bytes(a: &[u8], b: &[u8]) -> (r: bool)
    ensures
        r == (a@ == b@),
{
    if a.len() != b.len() {
        return false;
    }
    let mut i: usize = 0;
    while i < a.len()
        invariant
            a@.len() == b@.len(),
            0 <= i <= a@.len(),
            forall|k: int| 0 <= k < i ==> a@[k] == b@[k],
        decreases a@.len() - i,
    {
        if a[i] != b[i] {
            return false;
        }
        i = i + 1;
    }
    assert(a@ =~= b@);
    true
}

/// Builds the string spelled by a sequence of ASCII bytes.
pub fn string_of_ascii(v: &[u8]) -> (r: String)
    requires
        is_ascii_bytes(v@),
    ensures
        r@ == chars_of_bytes(v@),
        encode_utf8(r@) == v@,
{
    proof {
        lemma_ascii_bytes_chars(v@);
    }
    match utf8_to_owned(v) {
        Some(s) => {
            proof {
                lemma_encode_utf8_injective(s@, chars_of_bytes(v@));
            }
            s
        },
        None => vstd::pervasive::unreached(),
    }
}

// ---------------------------------------------------------------------------
// Decimal numbers
// ---------------------------------------------------------------------------

/// The decimal digits of `n`, most significant first, without leading zeros
/// (`0` is rendered as the single digit `0`).
pub open spec fn dec_rep(n: nat) -> Seq<u8>
    decreases n,
{
    if n < 10 {
        seq![(48 + n) as u8]
    } else {
        dec_rep(n / 10).push((48 + n % 10) as u8)
    }
}

/// Every byte of a decimal rendering is a digit, so in particular ASCII.
pub proof fn lemma_dec_rep_digits(n: nat)
    ensures
        dec_rep(n).len() >= 1,
        forall|i: int| 0 <= i < dec_rep(n).len() ==> 48 <= #[trigger] dec_rep(n)[i] <= 57,
    decreases n,
{
    if n >= 10 {
        lemma_dec_rep_digits(n / 10);
    }
}

/// Appends the decimal rendering of `n` to `out`.
pub fn push_dec_u64(out: &mut Vec<u8>, n: u64)
    ensures
        final(out)@ == old(out)@ + dec_rep(n as nat),
    decreases n,
{
    if n < 10 {
        out.push(48 + n as u8);
        assert(out@ =~= old(out)@ + dec_rep(n as nat));
    } else {
        push_dec_u64(out, n / 10);
        out.push(48 + (n % 10) as u8);
        assert(out@ =~= old(out)@ + dec_rep(n as nat));
    }
}

/// The decimal rendering of `n` as a byte string.
pub fn dec_of_u64(n: u64) -> (r: Vec<u8>)
    ensures
        r@ == dec_rep(n as nat),
{
    let mut out: Vec<u8> = Vec::new();
    push_dec_u64(&mut out, n);
    assert(out@ =~= dec_rep(n as nat));
    out
}

/// The decimal rendering of `n` as a `String`.
pub fn dec_string_of_u64(n: u64) -> (r: String)
    ensures
        encode_utf8(r@) == dec_rep(n as nat),
{
    let v = dec_of_u64(n);
    proof {
        lemma_dec_rep_digits(n as nat);
    }
    string_of_ascii(v.as_slice())
}

/// A nonempty, all-digit byte string.
pub open spec fn is_dec_bytes(s: Seq<u8>) -> bool {
    s.len() > 0 && forall|i: int| 0 <= i < s.len() ==> 48 <= #[trigger] s[i] <= 57
}

/// The value of a digit string read in base ten.
pub open spec fn dec_val(s: Seq<u8>) -> int
    decreases s.len(),
{
    if s.len() == 0 {
        0
    } else {
        dec_val(s.drop_last()) * 10 + (s.last() - 48)
    }
}

proof fn lemma_dec_val_nonneg(s: Seq<u8>)
    requires
        forall|i: int| 0 <= i < s.len() ==> 48 <= #[trigger] s[i] <= 57,
    ensures
        dec_val(s) >= 0,
    decreases s.len(),
{
    if s.len() > 0 {
        lemma_dec_val_nonneg(s.drop_last());
    }
}

proof fn lemma_dec_val_prefix_grows(s: Seq<u8>, i: int)
    requires
        forall|k: int| 0 <= k < s.len() ==> 48 <= #[trigger] s[k] <= 57,
        0 <= i <= s.len(),
    ensures
        dec_val(s) >= dec_val(s.subrange(0, i)),
    decreases s.len() - i,
{
    if i < s.len() {
        let t = s.subrange(0, i + 1);
        assert(t.drop_last() =~= s.subrange(0, i));
        lemma_dec_val_nonneg(s.subrange(0, i));
        lemma_dec_val_prefix_grows(s, i + 1);
        assert(dec_val(t) == dec_val(s.subrange(0, i)) * 10 + (s[i] - 48));
    } else {
        assert(s.subrange(0, i) =~= s);
    }
}

/// Parses a nonempty all-digit byte string as a `u64`; rejects anything else,
/// and any value that does not fit.
pub fn parse_dec_u64(s: &[u8]) -> (r: Option<u64>)
    ensures
        match r {
            Some(v) => is_dec_bytes(s@) && v == dec_val(s@),
            None => !is_dec_bytes(s@) || dec_val(s@) > u64::MAX,
        },
{
    if s.len() == 0 {
        return None;
    }
    let mut acc: u64 = 0;
    let mut i: usize = 0;
    while i < s.len()
        invariant
            0 <= i <= s@.len(),
            forall|k: int| 0 <= k < i ==> 48 <= #[trigger] s@[k] <= 57,
            acc == dec_val(s@.subrange(0, i as int)),
        decreases s@.len() - i,
    {
        let b = s[i];
        if b < 48 || b > 57 {
            return None;
        }
        let d = (b - 48) as u64;
        proof {
            assert(s@.subrange(0, i + 1).drop_last() =~= s@.subrange(0, i as int));
        }
        let wide: u128 = (acc as u128) * 10 + (d as u128);
        if wide > u64::MAX as u128 {
            proof {
                assert(dec_val(s@.subrange(0, i + 1)) == acc * 10 + d);
                if is_dec_bytes(s@) {
                    lemma_dec_val_prefix_grows(s@, i + 1);
                }
            }
            return None;
        }
        acc = wide as u64;
        i = i + 1;
    }
    proof {
        assert(s@.subrange(0, i as int) =~= s@);
    }
    Some(acc)
}

/// Parses a nonempty all-digit byte string as a `u16`.
pub fn parse_dec_u16(s: &[u8]) -> (r: Option<u16>)
    ensures
        match r {
            Some(v) => is_dec_bytes(s@) && v == dec_val(s@),
            None => !is_dec_bytes(s@) || dec_val(s@) > u16::MAX,
        },
{
    match parse_dec_u64(s) {
        Some(v) => {
            if v <= 65535 {
                Some(v as u16)
            } else {
                None
            }
        },
        None => None,
    }
}

/// Parses a nonempty all-digit byte string as a `u32`.
pub fn parse_dec_u32(s: &[u8]) -> (r: Option<u32>)
    ensures
        match r {
            Some(v) => is_dec_bytes(s@) && v == dec_val(s@),
            None => !is_dec_bytes(s@) || dec_val(s@) > u32::MAX,
        },
{
    match parse_dec_u64(s) {
        Some(v) => {
            if v <= 0xffff_ffff {
                Some(v as u32)
            } else {
                None
            }
        },
        None => None,
    }
}

// ---------------------------------------------------------------------------
// Hexadecimal numbers
// ---------------------------------------------------------------------------

/// The lower-case hexadecimal digit for a value below 16.
pub open spec fn hex_digit(d: int) -> u8 {
    if d < 10 {
        (48 + d) as u8
    } else {
        (87 + d) as u8
    }
}

/// The hexadecimal digits of `n`, most significant first, left-padded with
/// zeros to at least `w` digits.
pub open spec fn hex_rep(n: nat, w: nat) -> Seq<u8>
    decreases n, w,
{
    if n < 16 && w <= 1 {
        seq![hex_digit(n as int)]
    } else {
        hex_rep(n / 16, if w == 0 { 0 } else { (w - 1) as nat }).push(hex_digit((n % 16) as int))
    }
}

/// Every byte of a hexadecimal rendering is a digit or a lower-case letter.
pub proof fn lemma_hex_rep_ascii(n: nat, w: nat)
    ensures
        hex_rep(n, w).len() >= 1,
        forall|i: int| 0 <= i < hex_rep(n, w).len() ==> #[trigger] hex_rep(n, w)[i] < 128,
    decreases n, w,
{
    if !(n < 16 && w <= 1) {
        lemma_hex_rep_ascii(n / 16, if w == 0 { 0 } else { (w - 1) as nat });
    }
}

/// Appends the hexadecimal rendering of `n`, padded to `w` digits, to `out`.
pub fn push_hex_u64(out: &mut Vec<u8>, n: u64, w: usize)
    ensures
        final(out)@ == old(out)@ + hex_rep(n as nat, w as nat),
    decreases n, w,
{
    if n < 16 && w <= 1 {
        let d = n as u8;
        out.push(if d < 10 { 48 + d } else { 87 + d });
        assert(out@ =~= old(out)@ + hex_rep(n as nat, w as nat));
    } else {
        push_hex_u64(out, n / 16, if w == 0 { 0 } else { w - 1 });
        let d = (n % 16) as u8;
        out.push(if d < 10 { 48 + d } else { 87 + d });
        assert(out@ =~= old(out)@ + hex_rep(n as nat, w as nat));
    }
}

/// The hexadecimal rendering of `n`, padded to `w` digits, as a `String`.
pub fn hex_string_of_u64(n: u64, w: usize) -> (r: String)
    ensures
        encode_utf8(r@) == hex_rep(n as nat, w as nat),
{
    let mut out: Vec<u8> = Vec::new();
    push_hex_u64(&mut out, n, w);
    proof {
        lemma_hex_rep_ascii(n as nat, w as nat);
        assert(out@ =~= hex_rep(n as nat, w as nat));
    }
    string_of_ascii(out.as_slice())
}

// ---------------------------------------------------------------------------
// Splitting and joining
// ---------------------------------------------------------------------------

/// The pieces of `s` between occurrences of `sep`, as `str::split` yields
/// them: the empty string splits into one empty piece, and separators at the
/// ends produce empty pieces.
pub open spec fn spec_split(s: Seq<u8>, sep: u8) -> Seq<Seq<u8>>
    decreases s.len(),
{
    if s.len() == 0 {
        seq![Seq::<u8>::empty()]
    } else if s[0] == sep {
        seq![Seq::<u8>::empty()] + spec_split(s.drop_first(), sep)
    } else {
        let rest = spec_split(s.drop_first(), sep);
        seq![seq![s[0]] + rest[0]] + rest.drop_first()
    }
}

/// The pieces joined back with `sep` between them.
pub open spec fn spec_join(parts: Seq<Seq<u8>>, sep: u8) -> Seq<u8>
    decreases parts.len(),
{
    if parts.len() == 0 {
        Seq::empty()
    } else if parts.len() == 1 {
        parts[0]
    } else {
        parts[0] + seq![sep] + spec_join(parts.drop_first(), sep)
    }
}

/// Splitting always yields at least one piece, and none contains `sep`.
pub proof fn lemma_split_shape(s: Seq<u8>, sep: u8)
    ensures
        spec_split(s, sep).len() >= 1,
        forall|p: int, i: int|
            0 <= p < spec_split(s, sep).len() && 0 <= i < spec_split(s, sep)[p].len()
                ==> #[trigger] spec_split(s, sep)[p][i] != sep,
    decreases s.len(),
{
    if s.len() != 0 {
        lemma_split_shape(s.drop_first(), sep);
        if s[0] != sep {
            let rest = spec_split(s.drop_first(), sep);
            let whole = spec_split(s, sep);
            assert forall|p: int, i: int|
                0 <= p < whole.len() && 0 <= i < whole[p].len() implies #[trigger] whole[p][i]
                != sep by {
                if p == 0 {
                    if i > 0 {
                        assert(whole[0][i] == rest[0][i - 1]);
                    }
                } else {
                    assert(whole[p] == rest[p]);
                }
            }
        }
    }
}

/// Joining the pieces of a split restores the original bytes.
pub proof fn lemma_join_split(s: Seq<u8>, sep: u8)
    ensures
        spec_join(spec_split(s, sep), sep) == s,
    decreases s.len(),
{
    lemma_split_shape(s, sep);
    if s.len() == 0 {
        assert(spec_split(s, sep) == seq![Seq::<u8>::empty()]);
        assert(spec_join(spec_split(s, sep), sep) =~= s);
    } else {
        lemma_join_split(s.drop_first(), sep);
        lemma_split_shape(s.drop_first(), sep);
        let rest = spec_split(s.drop_first(), sep);
        let whole = spec_split(s, sep);
        if s[0] == sep {
            assert(whole == seq![Seq::<u8>::empty()] + rest);
            assert(whole.len() == 1 + rest.len());
            assert(whole[0] == Seq::<u8>::empty());
            assert(whole.drop_first() =~~= rest);
            assert(spec_join(whole, sep) == whole[0] + seq![sep] + spec_join(rest, sep));
            assert(spec_join(rest, sep) == s.drop_first());
            assert(Seq::<u8>::empty() + seq![sep] + s.drop_first() =~= s);
            assert(spec_join(whole, sep) == Seq::<u8>::empty() + seq![sep] + s.drop_first());
        } else {
            assert(whole == seq![seq![s[0]] + rest[0]] + rest.drop_first());
            if rest.len() == 1 {
                assert(whole.len() == 1);
                assert(spec_join(whole, sep) == whole[0]);
                assert(whole[0] == seq![s[0]] + rest[0]);
                assert(spec_join(rest, sep) == rest[0]);
                assert(rest[0] == s.drop_first());
                assert(spec_join(whole, sep) =~= s);
            } else {
                assert(whole.len() == rest.len() >= 2);
                assert(whole.drop_first() =~~= rest.drop_first());
                assert(whole[0] == seq![s[0]] + rest[0]);
                assert(spec_join(whole, sep) == whole[0] + seq![sep] + spec_join(
                    whole.drop_first(),
                    sep,
                ));
                assert(spec_join(rest, sep) == rest[0] + seq![sep] + spec_join(
                    rest.drop_first(),
                    sep,
                ));
                assert(spec_join(rest, sep) == s.drop_first());
                assert(spec_join(whole, sep) == (seq![s[0]] + rest[0]) + seq![sep] + spec_join(
                    rest.drop_first(),
                    sep,
                ));
                assert((seq![s[0]] + rest[0]) + seq![sep] + spec_join(rest.drop_first(), sep)
                    =~= seq![s[0]] + (rest[0] + seq![sep] + spec_join(rest.drop_first(), sep)));
                assert(seq![s[0]] + spec_join(rest, sep) =~= s);
            }
        }
    }
}

/// How a split grows when one byte is appended.
proof fn lemma_split_push(s: Seq<u8>, sep: u8, b: u8)
    ensures
        spec_split(s.push(b), sep) == if b == sep {
            spec_split(s, sep).push(Seq::<u8>::empty())
        } else {
            spec_split(s, sep).update(
                spec_split(s, sep).len() - 1,
                spec_split(s, sep).last().push(b),
            )
        },
    decreases s.len(),
{
    lemma_split_shape(s, sep);
    let whole = spec_split(s, sep);
    let wholep = spec_split(s.push(b), sep);
    if s.len() == 0 {
        assert(s.push(b)[0] == b);
        assert(s.push(b).drop_first() =~= Seq::<u8>::empty());
        assert(spec_split(Seq::<u8>::empty(), sep) == seq![Seq::<u8>::empty()]);
        if b == sep {
            assert(wholep == seq![Seq::<u8>::empty()] + seq![Seq::<u8>::empty()]);
            assert(wholep =~~= whole.push(Seq::<u8>::empty()));
        } else {
            assert(wholep == seq![seq![b] + Seq::<u8>::empty()] + seq![
                Seq::<u8>::empty(),
            ].drop_first());
            assert(wholep =~~= whole.update(whole.len() - 1, whole.last().push(b)));
        }
    } else {
        lemma_split_push(s.drop_first(), sep, b);
        lemma_split_shape(s.drop_first(), sep);
        lemma_split_shape(s.drop_first().push(b), sep);
        assert(s.push(b)[0] == s[0]);
        assert(s.push(b).len() == s.len() + 1);
        assert(s.push(b).drop_first() =~= s.drop_first().push(b));
        let rest = spec_split(s.drop_first(), sep);
        let restp = spec_split(s.drop_first().push(b), sep);
        if s[0] == sep {
            assert(whole == seq![Seq::<u8>::empty()] + rest);
            assert(wholep == seq![Seq::<u8>::empty()] + restp);
            if b == sep {
                assert(restp == rest.push(Seq::<u8>::empty()));
                assert(wholep =~~= whole.push(Seq::<u8>::empty()));
            } else {
                assert(restp == rest.update(rest.len() - 1, rest.last().push(b)));
                assert(whole.last() == rest.last());
                assert(wholep =~~= whole.update(whole.len() - 1, whole.last().push(b)));
            }
        } else {
            assert(whole == seq![seq![s[0]] + rest[0]] + rest.drop_first());
            assert(wholep == seq![seq![s[0]] + restp[0]] + restp.drop_first());
            if b == sep {
                assert(restp == rest.push(Seq::<u8>::empty()));
                assert(restp[0] == rest[0]);
                assert(restp.drop_first() =~~= rest.drop_first().push(Seq::<u8>::empty()));
                assert(wholep =~~= whole.push(Seq::<u8>::empty()));
            } else {
                assert(restp == rest.update(rest.len() - 1, rest.last().push(b)));
                if rest.len() == 1 {
                    assert(restp[0] == rest[0].push(b));
                    assert(whole.len() == 1);
                    assert(whole.last() == seq![s[0]] + rest[0]);
                    assert(restp.drop_first() =~~= rest.drop_first());
                    assert(wholep[0] == seq![s[0]] + rest[0].push(b));
                    assert(wholep[0] == whole.last().push(b));
                    assert(wholep =~~= whole.update(whole.len() - 1, whole.last().push(b)));
                } else {
                    assert(restp[0] == rest[0]);
                    assert(restp.drop_first() =~~= rest.drop_first().update(
                        rest.len() - 2,
                        rest.last().push(b),
                    ));
                    assert(whole.last() == rest.last());
                    assert(wholep =~~= whole.update(whole.len() - 1, whole.last().push(b)));
                }
            }
        }
    }
}

/// Splits `s` at every occurrence of `sep`.
pub fn split_bytes(s: &[u8], sep: u8) -> (parts: Vec<Vec<u8>>)
    ensures
        parts@.len() == spec_split(s@, sep).len(),
        forall|p: int| 0 <= p < parts@.len() ==> #[trigger] parts@[p]@ == spec_split(s@, sep)[p],
{
    let ghost whole = spec_split(s@, sep);
    let mut parts: Vec<Vec<u8>> = Vec::new();
    let mut cur: Vec<u8> = Vec::new();
    let mut i: usize = 0;
    while i < s.len()
        invariant
            0 <= i <= s@.len(),
            spec_split(s@.subrange(0, i as int), sep).len() == parts@.len() + 1,
            forall|p: int|
                0 <= p < parts@.len() ==> #[trigger] parts@[p]@ == spec_split(
                    s@.subrange(0, i as int),
                    sep,
                )[p],
            cur@ == spec_split(s@.subrange(0, i as int), sep).last(),
        decreases s@.len() - i,
    {
        let b = s[i];
        proof {
            assert(s@.subrange(0, i + 1) =~= s@.subrange(0, i as int).push(s@[i as int]));
            lemma_split_push(s@.subrange(0, i as int), sep, s@[i as int]);
        }
        if b == sep {
            parts.push(cur);
            cur = Vec::new();
        } else {
            cur.push(b);
        }
        i = i + 1;
    }
    proof {
        assert(s@.subrange(0, i as int) =~= s@);
    }
    parts.push(cur);
    parts
}

/// Joins byte strings with `sep` between them.
pub fn join_bytes(parts: &Vec<Vec<u8>>, sep: u8) -> (r: Vec<u8>)
    ensures
        r@ == spec_join(parts@.map_values(|p: Vec<u8>| p@), sep),
{
    let ghost gparts = parts@.map_values(|p: Vec<u8>| p@);
    let mut out: Vec<u8> = Vec::new();
    let mut i: usize = 0;
    proof {
        lemma_join_take(gparts, sep, 0);
        assert(out@ =~= spec_join_take(gparts, sep, 0));
    }
    while i < parts.len()
        invariant
            0 <= i <= parts@.len(),
            gparts == parts@.map_values(|p: Vec<u8>| p@),
            out@ == spec_join_take(gparts, sep, i as int),
        decreases parts@.len() - i,
    {
        if i > 0 {
            out.push(sep);
        }
        let mut j: usize = 0;
        let ghost mid = out@;
        while j < parts[i].len()
            invariant
                0 <= j <= parts@[i as int]@.len(),
                0 <= i < parts@.len(),
                out@ == mid + parts@[i as int]@.subrange(0, j as int),
            decreases parts@[i as int]@.len() - j,
        {
            let b = parts[i][j];
            out.push(b);
            proof {
                assert(parts@[i as int]@.subrange(0, j + 1) =~= parts@[i as int]@.subrange(
                    0,
                    j as int,
                ).push(parts@[i as int]@[j as int]));
            }
            j = j + 1;
        }
        proof {
            assert(parts@[i as int]@.subrange(0, parts@[i as int]@.len() as int) =~= parts@[
                i as int]@);
            assert(gparts[i as int] == parts@[i as int]@);
            lemma_join_take_step(gparts, sep, i as int);
        }
        i = i + 1;
    }
    proof {
        lemma_join_take_all(gparts, sep);
    }
    out
}

/// The join of the first `k` pieces.
spec fn spec_join_take(parts: Seq<Seq<u8>>, sep: u8, k: int) -> Seq<u8>
    decreases k,
{
    if k <= 0 {
        Seq::empty()
    } else if k == 1 {
        parts[0]
    } else {
        spec_join_take(parts, sep, k - 1) + seq![sep] + parts[k - 1]
    }
}

proof fn lemma_join_take(parts: Seq<Seq<u8>>, sep: u8, k: int)
    ensures
        spec_join_take(parts, sep, 0) == Seq::<u8>::empty(),
{
}

proof fn lemma_join_take_step(parts: Seq<Seq<u8>>, sep: u8, i: int)
    requires
        0 <= i < parts.len(),
    ensures
        spec_join_take(parts, sep, i + 1) == if i == 0 {
            parts[0]
        } else {
            spec_join_take(parts, sep, i) + seq![sep] + parts[i]
        },
{
}

proof fn lemma_join_take_all(parts: Seq<Seq<u8>>, sep: u8)
    ensures
        spec_join_take(parts, sep, parts.len() as int) == spec_join(parts, sep),
    decreases parts.len(),
{
    if parts.len() == 0 {
        assert(spec_join_take(parts, sep, 0) =~= spec_join(parts, sep));
    } else if parts.len() == 1 {
    } else {
        lemma_join_take_all(parts.drop_first(), sep);
        lemma_join_take_shift(parts, sep, parts.len() as int);
        assert(spec_join(parts, sep) == parts[0] + seq![sep] + spec_join(
            parts.drop_first(),
            sep,
        ));
    }
}

proof fn lemma_join_take_shift(parts: Seq<Seq<u8>>, sep: u8, k: int)
    requires
        parts.len() >= 2,
        2 <= k <= parts.len(),
    ensures
        spec_join_take(parts, sep, k) == parts[0] + seq![sep] + spec_join_take(
            parts.drop_first(),
            sep,
            k - 1,
        ),
    decreases k,
{
    if k == 2 {
        assert(spec_join_take(parts, sep, 2) == spec_join_take(parts, sep, 1) + seq![sep]
            + parts[1]);
        assert(spec_join_take(parts.drop_first(), sep, 1) == parts.drop_first()[0]);
        assert(parts.drop_first()[0] == parts[1]);
        assert(spec_join_take(parts, sep, 2) =~= parts[0] + seq![sep] + spec_join_take(
            parts.drop_first(),
            sep,
            1,
        ));
    } else {
        lemma_join_take_shift(parts, sep, k - 1);
        assert(parts.drop_first()[k - 2] == parts[k - 1]);
        assert(spec_join_take(parts, sep, k) =~= parts[0] + seq![sep] + spec_join_take(
            parts.drop_first(),
            sep,
            k - 1,
        ));
    }
}

/// A separator-free prefix only lengthens the first piece of a split.
proof fn lemma_split_prefix(x: Seq<u8>, y: Seq<u8>, sep: u8)
    requires
        forall|i: int| 0 <= i < x.len() ==> x[i] != sep,
    ensures
        spec_split(x + y, sep).len() == spec_split(y, sep).len(),
        spec_split(x + y, sep)[0] == x + spec_split(y, sep)[0],
        forall|i: int|
            1 <= i < spec_split(y, sep).len() ==> #[trigger] spec_split(x + y, sep)[i]
                == spec_split(y, sep)[i],
    decreases x.len(),
{
    lemma_split_shape(y, sep);
    if x.len() == 0 {
        assert(x + y =~= y);
        assert(x + spec_split(y, sep)[0] =~= spec_split(y, sep)[0]);
    } else {
        lemma_split_prefix(x.drop_first(), y, sep);
        let s = x + y;
        assert(s.len() > 0);
        assert(s[0] == x[0]);
        assert(s[0] != sep);
        assert(s.drop_first() =~= x.drop_first() + y);
        let r = spec_split(x.drop_first() + y, sep);
        assert(spec_split(s, sep) == seq![seq![s[0]] + r[0]] + r.drop_first());
        assert(seq![s[0]] + r[0] =~= x + spec_split(y, sep)[0]);
        assert forall|i: int| 1 <= i < spec_split(y, sep).len() implies #[trigger] spec_split(
            s,
            sep,
        )[i] == spec_split(y, sep)[i] by {
            assert(spec_split(s, sep)[i] == r.drop_first()[i - 1]);
            assert(r.drop_first()[i - 1] == r[i]);
        }
    }
}

/// A separator-free byte string splits into itself alone.
proof fn lemma_split_no_sep(x: Seq<u8>, sep: u8)
    requires
        forall|i: int| 0 <= i < x.len() ==> x[i] != sep,
    ensures
        spec_split(x, sep) == seq![x],
    decreases x.len(),
{
    if x.len() > 0 {
        lemma_split_no_sep(x.drop_first(), sep);
        let r = spec_split(x.drop_first(), sep);
        assert(r == seq![x.drop_first()]);
        assert(spec_split(x, sep) == seq![seq![x[0]] + r[0]] + r.drop_first());
        assert(seq![x[0]] + x.drop_first() =~= x);
        assert(r.drop_first() =~~= Seq::<Seq<u8>>::empty());
        assert(spec_split(x, sep) =~~= seq![x]);
    } else {
        assert(x =~= Seq::<u8>::empty());
        assert(spec_split(x, sep) =~~= seq![x]);
    }
}

/// Splitting a join restores the pieces, when none of them holds the
/// separator: the converse of `lemma_join_split`.
pub proof fn lemma_split_join(parts: Seq<Seq<u8>>, sep: u8)
    requires
        parts.len() >= 1,
        forall|p: int, i: int|
            0 <= p < parts.len() && 0 <= i < parts[p].len() ==> #[trigger] parts[p][i] != sep,
    ensures
        spec_split(spec_join(parts, sep), sep) == parts,
    decreases parts.len(),
{
    if parts.len() == 1 {
        assert(forall|i: int| 0 <= i < parts[0].len() ==> #[trigger] parts[0][i] != sep);
        lemma_split_no_sep(parts[0], sep);
        assert(spec_split(spec_join(parts, sep), sep) =~~= parts);
    } else {
        let rest = parts.drop_first();
        assert(forall|p: int, i: int|
            0 <= p < rest.len() && 0 <= i < rest[p].len() ==> #[trigger] rest[p][i] != sep);
        lemma_split_join(rest, sep);
        let y = seq![sep] + spec_join(rest, sep);
        assert(spec_join(parts, sep) =~= parts[0] + y);
        assert(y[0] == sep);
        assert(y.drop_first() =~= spec_join(rest, sep));
        assert(spec_split(y, sep) == seq![Seq::<u8>::empty()] + spec_split(
            spec_join(rest, sep),
            sep,
        ));
        assert(forall|i: int| 0 <= i < parts[0].len() ==> #[trigger] parts[0][i] != sep);
        lemma_split_prefix(parts[0], y, sep);
        let whole = spec_split(parts[0] + y, sep);
        assert(whole.len() == 1 + rest.len());
        assert(whole[0] == parts[0] + Seq::<u8>::empty());
        assert(whole[0] =~= parts[0]);
        assert forall|i: int| 0 <= i < whole.len() implies #[trigger] whole[i] == parts[i] by {
            if i > 0 {
                assert(whole[i] == spec_split(y, sep)[i]);
                assert(spec_split(y, sep)[i] == rest[i - 1]);
            }
        }
        assert(whole =~~= parts);
    }
}

/// The value a decimal rendering reads back to is the number itself.
pub proof fn lemma_dec_rep_val(n: nat)
    ensures
        dec_val(dec_rep(n)) == n,
    decreases n,
{
    if n < 10 {
        assert(dec_rep(n) == seq![(48 + n) as u8]);
        assert(dec_rep(n).drop_last() =~= Seq::<u8>::empty());
        assert(dec_val(Seq::<u8>::empty()) == 0);
        assert(dec_val(dec_rep(n)) == dec_val(dec_rep(n).drop_last()) * 10 + (dec_rep(n).last()
            - 48));
    } else {
        lemma_dec_rep_val(n / 10);
        assert(dec_rep(n).drop_last() =~= dec_rep(n / 10));
        assert(dec_rep(n).last() == (48 + n % 10) as u8);
        assert(dec_val(dec_rep(n)) == dec_val(dec_rep(n).drop_last()) * 10 + (dec_rep(n).last()
            - 48));
    }
}

/// A decimal rendering of more than one digit never starts with a zero.
pub proof fn lemma_dec_rep_no_leading_zero(n: nat)
    ensures
        dec_rep(n).len() > 1 ==> dec_rep(n)[0] != 48,
    decreases n,
{
    if n >= 10 {
        lemma_dec_rep_no_leading_zero(n / 10);
        lemma_dec_rep_digits(n / 10);
        assert(dec_rep(n) == dec_rep(n / 10).push((48 + n % 10) as u8));
        assert(dec_rep(n)[0] == dec_rep(n / 10)[0]);
        if n / 10 < 10 {
            assert(dec_rep(n / 10) == seq![(48 + n / 10) as u8]);
            assert(n / 10 >= 1);
        } else {
            lemma_dec_rep_digits(n / 100);
            assert(dec_rep(n / 10) == dec_rep(n / 100).push((48 + (n / 10) % 10) as u8));
            assert(dec_rep(n / 10).len() > 1);
        }
    } else {
        assert(dec_rep(n).len() == 1);
    }
}

/// Splitting valid UTF-8 at an ASCII separator leaves valid UTF-8 pieces.
pub proof fn lemma_split_pieces_valid(s: Seq<u8>, sep: u8)
    requires
        valid_utf8(s),
        sep < 128,
    ensures
        forall|i: int|
            0 <= i < spec_split(s, sep).len() ==> valid_utf8(#[trigger] spec_split(s, sep)[i]),
    decreases s.len(),
{
    if s.len() == 0 {
        assert(spec_split(s, sep) == seq![Seq::<u8>::empty()]);
        assert(valid_utf8(Seq::<u8>::empty()));
        assert(spec_split(s, sep)[0] == Seq::<u8>::empty());
    } else {
        let ln = vstd::utf8::length_of_first_scalar(s);
        let y = vstd::utf8::pop_first_scalar(s);
        assert(vstd::utf8::valid_first_scalar(s));
        assert(1 <= ln <= s.len());
        assert(valid_utf8(y));
        lemma_split_pieces_valid(y, sep);
        lemma_split_shape(y, sep);
        if s[0] == sep {
            assert(vstd::utf8::is_leading_byte_width_1(s[0]));
            assert(ln == 1);
            assert(y =~= s.drop_first());
            let whole = spec_split(s, sep);
            assert(whole == seq![Seq::<u8>::empty()] + spec_split(y, sep));
            assert forall|i: int| 0 <= i < whole.len() implies valid_utf8(
                #[trigger] whole[i],
            ) by {
                if i == 0 {
                    assert(whole[0] == Seq::<u8>::empty());
                    assert(valid_utf8(Seq::<u8>::empty()));
                } else {
                    assert(whole[i] == spec_split(y, sep)[i - 1]);
                }
            }
        } else {
            let x = vstd::utf8::take_first_scalar(s);
            assert(x + y =~= s);
            assert forall|i: int| 0 <= i < x.len() implies x[i] != sep by {
                assert(x[i] == s[i]);
                if i == 0 {
                } else {
                    assert(vstd::utf8::is_continuation_byte(s[i]));
                }
            }
            assert(vstd::utf8::is_char_boundary(s, ln)) by {
                assert(vstd::utf8::is_char_boundary(y, 0));
            }
            vstd::utf8::valid_utf8_split(s, ln);
            assert(x =~= s.subrange(0, ln));
            assert(valid_utf8(x));
            lemma_split_prefix(x, y, sep);
            let whole = spec_split(s, sep);
            assert(whole == spec_split(x + y, sep));
            assert forall|i: int| 0 <= i < whole.len() implies valid_utf8(
                #[trigger] whole[i],
            ) by {
                if i == 0 {
                    assert(whole[0] == x + spec_split(y, sep)[0]);
                    vstd::utf8::valid_utf8_concat(x, spec_split(y, sep)[0]);
                } else {
                    assert(whole[i] == spec_split(y, sep)[i]);
                }
            }
        }
    }
}

/// A join of valid UTF-8 pieces with an ASCII separator is valid UTF-8.
pub proof fn lemma_join_pieces_valid(parts: Seq<Seq<u8>>, sep: u8)
    requires
        forall|i: int| 0 <= i < parts.len() ==> valid_utf8(#[trigger] parts[i]),
        sep < 128,
    ensures
        valid_utf8(spec_join(parts, sep)),
    decreases parts.len(),
{
    if parts.len() == 0 {
        assert(valid_utf8(Seq::<u8>::empty()));
    } else if parts.len() == 1 {
        assert(valid_utf8(parts[0]));
    } else {
        lemma_join_pieces_valid(parts.drop_first(), sep);
        let rest = spec_join(parts.drop_first(), sep);
        lemma_ascii_bytes_chars(seq![sep]);
        vstd::utf8::valid_utf8_concat(seq![sep], rest);
        vstd::utf8::valid_utf8_concat(parts[0], seq![sep] + rest);
        assert(spec_join(parts, sep) =~= parts[0] + (seq![sep] + rest));
    }
}

/// Splits the UTF-8 bytes of a string at an ASCII separator into owned
/// strings, one per piece.
pub fn split_to_strings(v: &[u8], sep: u8) -> (r: Vec<String>)
    requires
        valid_utf8(v@),
        sep < 128,
    ensures
        r@.len() == spec_split(v@, sep).len(),
        forall|i: int|
            0 <= i < r@.len() ==> encode_utf8(#[trigger] r@[i]@) == spec_split(v@, sep)[i],
{
    proof {
        lemma_split_pieces_valid(v@, sep);
    }
    let parts = split_bytes(v, sep);
    let mut out: Vec<String> = Vec::new();
    let mut i: usize = 0;
    while i < parts.len()
        invariant
            valid_utf8(v@),
            sep < 128,
            parts@.len() == spec_split(v@, sep).len(),
            forall|p: int|
                0 <= p < parts@.len() ==> #[trigger] parts@[p]@ == spec_split(v@, sep)[p],
            forall|p: int|
                0 <= p < spec_split(v@, sep).len() ==> valid_utf8(
                    #[trigger] spec_split(v@, sep)[p],
                ),
            0 <= i <= parts@.len(),
            out@.len() == i,
            forall|p: int|
                0 <= p < i ==> encode_utf8(#[trigger] out@[p]@) == spec_split(v@, sep)[p],
        decreases parts@.len() - i,
    {
        let piece = string_of_utf8(parts[i].as_slice());
        out.push(piece);
        i = i + 1;
    }
    out
}

/// One step of filtering when an element is appended.
pub proof fn lemma_filter_push<A>(s: Seq<A>, pred: spec_fn(A) -> bool, x: A)
    ensures
        s.push(x).filter(pred) == if pred(x) {
            s.filter(pred).push(x)
        } else {
            s.filter(pred)
        },
{
    reveal(Seq::filter);
    assert(s.push(x).drop_last() =~= s);
    assert(s.push(x).last() == x);
}

/// The upper-case hexadecimal digit for a value below 16.
pub open spec fn hex_digit_upper(d: int) -> u8 {
    if d < 10 {
        (48 + d) as u8
    } else {
        (55 + d) as u8
    }
}

/// Percent-encoding with the RFC 3986 unreserved set: letters, digits,
/// hyphen, underscore, dot and tilde pass through; every other byte becomes
/// a percent sign and two upper-case hex digits.
pub open spec fn is_unreserved(b: u8) -> bool {
    (65 <= b <= 90) || (97 <= b <= 122) || (48 <= b <= 57) || b == 45 || b == 95 || b == 46
        || b == 126
}

/// The percent-encoded image of a byte string.
pub open spec fn spec_url_encode(s: Seq<u8>) -> Seq<u8>
    decreases s.len(),
{
    if s.len() == 0 {
        Seq::empty()
    } else {
        spec_url_encode(s.drop_last()) + (if is_unreserved(s.last()) {
            seq![s.last()]
        } else {
            seq![37u8, hex_digit_upper((s.last() as int) / 16), hex_digit_upper((s.last() as int) % 16)]
        })
    }
}

/// The percent-encoded image is ASCII.
pub proof fn lemma_url_encode_ascii(s: Seq<u8>)
    ensures
        is_ascii_bytes(spec_url_encode(s)),
    decreases s.len(),
{
    if s.len() > 0 {
        lemma_url_encode_ascii(s.drop_last());
    }
}

/// Percent-encodes the UTF-8 bytes of a string for use in a query, with the
/// RFC 3986 unreserved set kept verbatim.
pub fn url_encode(s: &str) -> (r: String)
    ensures
        encode_utf8(r@) == spec_url_encode(encode_utf8(s@)),
{
    let b = s.as_bytes();
    let mut out: Vec<u8> = Vec::new();
    let mut i: usize = 0;
    while i < b.len()
        invariant
            0 <= i <= b@.len(),
            out@ == spec_url_encode(b@.subrange(0, i as int)),
        decreases b@.len() - i,
    {
        let c = b[i];
        proof {
            assert(b@.subrange(0, i + 1).drop_last() =~= b@.subrange(0, i as int));
            assert(b@.subrange(0, i + 1).last() == b@[i as int]);
        }
        if (65 <= c && c <= 90) || (97 <= c && c <= 122) || (48 <= c && c <= 57) || c == 45
            || c == 95 || c == 46 || c == 126 {
            out.push(c);
            assert(out@ =~= spec_url_encode(b@.subrange(0, i + 1)));
        } else {
            out.push(37);
            let hi = c / 16;
            let lo = c % 16;
            out.push(if hi < 10 { 48 + hi } else { 55 + hi });
            out.push(if lo < 10 { 48 + lo } else { 55 + lo });
            assert(out@ =~= spec_url_encode(b@.subrange(0, i + 1)));
        }
        i = i + 1;
    }
    proof {
        assert(b@.subrange(0, i as int) =~= b@);
        lemma_url_encode_ascii(b@);
    }
    string_of_ascii(out.as_slice())
}

// ---------------------------------------------------------------------------
// ASCII case folding and search
// ---------------------------------------------------------------------------

/// The ASCII lower-case image of one byte.
pub open spec fn lower_byte(b: u8) -> u8 {
    if 65 <= b <= 90 {
        (b + 32) as u8
    } else {
        b
    }
}

/// The ASCII lower-case image of a byte string.
pub open spec fn lower_bytes(s: Seq<u8>) -> Seq<u8> {
    s.map_values(|b: u8| lower_byte(b))
}

/// `n` occurs in `h` starting at position `i`.
pub open spec fn occurs_at(h: Seq<u8>, n: Seq<u8>, i: int) -> bool {
    0 <= i && i + n.len() <= h.len() && h.subrange(i, i + n.len()) == n
}

/// `n` occurs somewhere in `h`.
pub open spec fn contains_bytes(h: Seq<u8>, n: Seq<u8>) -> bool {
    exists|i: int| occurs_at(h, n, i)
}

/// Maps a byte to its ASCII lower-case image.
pub fn lower_of_byte(b: u8) -> (r: u8)
    ensures
        r == lower_byte(b),
{
    if 65 <= b && b <= 90 {
        b + 32
    } else {
        b
    }
}

/// Whether two byte strings agree up to ASCII case.
pub fn eq_ignore_ascii_case(a: &[u8], b: &[u8]) -> (r: bool)
    ensures
        r == (lower_bytes(a@) == lower_bytes(b@)),
{
    if a.len() != b.len() {
        assert(lower_bytes(a@).len() != lower_bytes(b@).len());
        return false;
    }
    let mut i: usize = 0;
    while i < a.len()
        invariant
            a@.len() == b@.len(),
            0 <= i <= a@.len(),
            forall|k: int| 0 <= k < i ==> lower_byte(a@[k]) == lower_byte(b@[k]),
        decreases a@.len() - i,
    {
        if lower_of_byte(a[i]) != lower_of_byte(b[i]) {
            assert(lower_bytes(a@)[i as int] != lower_bytes(b@)[i as int]);
            return false;
        }
        i = i + 1;
    }
    assert(lower_bytes(a@) =~= lower_bytes(b@));
    true
}

/// Whether `n` occurs as a contiguous substring of `h`.
pub fn contains_subslice(h: &[u8], n: &[u8]) -> (r: bool)
    ensures
        r == contains_bytes(h@, n@),
{
    if n.len() > h.len() {
        assert(forall|i: int| !occurs_at(h@, n@, i));
        return false;
    }
    if n.len() == 0 {
        assert(h@.subrange(0, 0) =~= n@);
        assert(occurs_at(h@, n@, 0));
        return true;
    }
    let bound = h.len() - n.len();
    let mut i: usize = 0;
    while i <= bound
        invariant
            1 <= n@.len() <= h@.len(),
            h@.len() <= usize::MAX,
            bound == h@.len() - n@.len(),
            0 <= i <= bound + 1,
            forall|k: int| 0 <= k < i ==> !occurs_at(h@, n@, k),
        decreases bound + 1 - i,
    {
        let mut j: usize = 0;
        let mut here = true;
        while j < n.len()
            invariant
                0 <= j <= n@.len(),
                0 <= i,
                i + n@.len() <= h@.len(),
                h@.len() <= usize::MAX,
                here ==> forall|k: int| 0 <= k < j ==> h@[i + k] == n@[k],
                !here ==> !occurs_at(h@, n@, i as int),
            decreases n@.len() - j,
        {
            if h[i + j] != n[j] {
                proof {
                    if occurs_at(h@, n@, i as int) {
                        assert(h@.subrange(i as int, i + n@.len())[j as int] == n@[j as int]);
                    }
                }
                here = false;
                j = n.len();
            } else {
                j = j + 1;
            }
        }
        if here {
            assert(h@.subrange(i as int, i + n@.len()) =~= n@);
            assert(occurs_at(h@, n@, i as int));
            return true;
        }
        i = i + 1;
    }
    proof {
        assert forall|k: int| !occurs_at(h@, n@, k) by {
            if 0 <= k && k + n@.len() <= h@.len() {
                assert(k < i);
            }
        }
    }
    false
}

/// Whether `s` ends with `suffix`.
pub open spec fn spec_ends_with(s: Seq<u8>, suffix: Seq<u8>) -> bool {
    s.len() >= suffix.len() && s.subrange(s.len() - suffix.len(), s.len() as int) == suffix
}

/// Whether a byte string ends with a suffix.
pub fn ends_with_bytes(s: &[u8], suffix: &[u8]) -> (r: bool)
    ensures
        r == spec_ends_with(s@, suffix@),
{
    if suffix.len() > s.len() {
        return false;
    }
    let off = s.len() - suffix.len();
    let mut i: usize = 0;
    while i < suffix.len()
        invariant
            suffix@.len() <= s@.len(),
            off == s@.len() - suffix@.len(),
            s@.len() <= usize::MAX,
            0 <= i <= suffix@.len(),
            forall|k: int| 0 <= k < i ==> s@[off + k] == suffix@[k],
        decreases suffix@.len() - i,
    {
        if s[off + i] != suffix[i] {
            proof {
                if spec_ends_with(s@, suffix@) {
                    assert(s@.subrange(s@.len() - suffix@.len(), s@.len() as int)[i as int]
                        == suffix@[i as int]);
                }
            }
            return false;
        }
        i = i + 1;
    }
    proof {
        assert(s@.subrange(s@.len() - suffix@.len(), s@.len() as int) =~= suffix@);
    }
    true
}

/// The byte string without any trailing occurrences of one byte.
pub open spec fn spec_trim_trailing(s: Seq<u8>, b: u8) -> Seq<u8>
    decreases s.len(),
{
    if s.len() > 0 && s.last() == b {
        spec_trim_trailing(s.drop_last(), b)
    } else {
        s
    }
}

/// Strips every trailing occurrence of one byte.
pub fn trim_trailing<'a>(v: &'a [u8], b: u8) -> (r: &'a [u8])
    ensures
        r@ == spec_trim_trailing(v@, b),
{
    let mut end: usize = v.len();
    proof {
        assert(v@.subrange(0, end as int) =~= v@);
    }
    while end > 0 && v[end - 1] == b
        invariant
            0 <= end <= v@.len(),
            spec_trim_trailing(v@, b) == spec_trim_trailing(v@.subrange(0, end as int), b),
        decreases end,
    {
        proof {
            assert(v@.subrange(0, end as int).last() == v@[end - 1]);
            assert(v@.subrange(0, end as int).drop_last() =~= v@.subrange(0, end - 1));
        }
        end = end - 1;
    }
    proof {
        if end > 0 {
            assert(v@.subrange(0, end as int).last() == v@[end - 1]);
        }
        assert(spec_trim_trailing(v@.subrange(0, end as int), b) == v@.subrange(0, end as int));
    }
    vstd::slice::slice_subrange(v, 0, end)
}

/// The ASCII lower-case image of a byte string, as a fresh vector.
pub fn lower_ascii(v: &[u8]) -> (r: Vec<u8>)
    ensures
        r@ == lower_bytes(v@),
{
    let mut out: Vec<u8> = Vec::new();
    let mut i: usize = 0;
    while i < v.len()
        invariant
            0 <= i <= v@.len(),
            out@ == lower_bytes(v@.subrange(0, i as int)),
        decreases v@.len() - i,
    {
        out.push(lower_of_byte(v[i]));
        proof {
            assert(v@.subrange(0, i + 1) =~= v@.subrange(0, i as int).push(v@[i as int]));
            assert(out@ =~= lower_bytes(v@.subrange(0, i + 1)));
        }
        i = i + 1;
    }
    proof {
        assert(v@.subrange(0, v@.len() as int) =~= v@);
    }
    out
}

/// Whether the lower-cased haystack contains the lower-cased needle: a
/// case-insensitive substring search.
pub fn contains_ignore_ascii_case(h: &[u8], n: &[u8]) -> (r: bool)
    ensures
        r == contains_bytes(lower_bytes(h@), lower_bytes(n@)),
{
    let mut hl: Vec<u8> = Vec::new();
    let mut i: usize = 0;
    while i < h.len()
        invariant
            0 <= i <= h@.len(),
            hl@ == lower_bytes(h@.subrange(0, i as int)),
        decreases h@.len() - i,
    {
        hl.push(lower_of_byte(h[i]));
        proof {
            assert(h@.subrange(0, i + 1) =~= h@.subrange(0, i as int).push(h@[i as int]));
            assert(hl@ =~= lower_bytes(h@.subrange(0, i + 1)));
        }
        i = i + 1;
    }
    let mut nl: Vec<u8> = Vec::new();
    let mut j: usize = 0;
    while j < n.len()
        invariant
            0 <= j <= n@.len(),
            nl@ == lower_bytes(n@.subrange(0, j as int)),
        decreases n@.len() - j,
    {
        nl.push(lower_of_byte(n[j]));
        proof {
            assert(n@.subrange(0, j + 1) =~= n@.subrange(0, j as int).push(n@[j as int]));
            assert(nl@ =~= lower_bytes(n@.subrange(0, j + 1)));
        }
        j = j + 1;
    }
    proof {
        assert(h@.subrange(0, h@.len() as int) =~= h@);
        assert(n@.subrange(0, n@.len() as int) =~= n@);
    }
    contains_subslice(hl.as_slice(), nl.as_slice())
}

} // verus!
