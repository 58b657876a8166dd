//! IP address value types.
//!
//! Record data for address records carries the address as plain numbers.
//! The textual forms are parsed and rendered here: dotted-quad decimal for
//! IPv4, colon-separated lower-case hex groups for IPv6, accepting one `::`
//! elision on input.  IPv6 output is written in full, without elision; that
//! form is accepted back by the parser.

use vstd::prelude::*;

verus! {

use vstd::utf8::encode_utf8;
use vstd::string::StringSliceAdditionalSpecFns;
use crate::text::{
    spec_split, dec_rep, dec_val, is_dec_bytes, hex_rep, split_bytes, parse_dec_u64,
    string_of_ascii, is_ascii_bytes, lemma_dec_rep_digits, lemma_hex_rep_ascii, push_dec_u64,
    push_hex_u64, spec_join,
};

// ---------------------------------------------------------------------------
// IPv4
// ---------------------------------------------------------------------------

/// An IPv4 address as four octets.
#[derive(Debug, Clone, Copy, PartialEq, Eq, Hash, Structural)]
pub struct Ipv4Addr {
    /// First octet.
    pub a: u8,
    /// Second octet.
    pub b: u8,
    /// Third octet.
    pub c: u8,
    /// Fourth octet.
    pub d: u8,
}

/// A valid dotted-quad component: decimal digits without a superfluous
/// leading zero, value at most 255.
pub open spec fn ipv4_part_ok(p: Seq<u8>) -> bool {
    &&& is_dec_bytes(p)
    &&& (p.len() == 1 || p[0] != 48)
    &&& dec_val(p) <= 255
}

/// The octets encoded by a dotted-quad byte string, if it is one.
pub open spec fn spec_parse_ipv4(s: Seq<u8>) -> Option<(u8, u8, u8, u8)> {
    let parts = spec_split(s, 46);
    if parts.len() == 4 && ipv4_part_ok(parts[0]) && ipv4_part_ok(parts[1]) && ipv4_part_ok(
        parts[2],
    ) && ipv4_part_ok(parts[3]) {
        Some(
            (
                dec_val(parts[0]) as u8,
                dec_val(parts[1]) as u8,
                dec_val(parts[2]) as u8,
                dec_val(parts[3]) as u8,
            ),
        )
    } else {
        None
    }
}

/// The dotted-quad spelling of four octets.
pub open spec fn spec_ipv4_bytes(a: u8, b: u8, c: u8, d: u8) -> Seq<u8> {
    dec_rep(a as nat) + seq![46u8] + dec_rep(b as nat) + seq![46u8] + dec_rep(c as nat) + seq![
        46u8,
    ] + dec_rep(d as nat)
}

impl Ipv4Addr {
    /// Builds an address from its four octets.
    pub fn new(a: u8, b: u8, c: u8, d: u8) -> (r: Ipv4Addr)
        ensures
            r == (Ipv4Addr { a, b, c, d }),
    {
        Ipv4Addr { a, b, c, d }
    }

    /// Parses a dotted-quad byte string.
    pub fn parse_bytes(s: &[u8]) -> (r: Option<Ipv4Addr>)
        ensures
            match r {
                Some(ip) => spec_parse_ipv4(s@) == Some((ip.a, ip.b, ip.c, ip.d)),
                None => spec_parse_ipv4(s@) is None,
            },
    {
        let parts = split_bytes(s, 46);
        if parts.len() != 4 {
            return None;
        }
        let a = match ipv4_octet(parts[0].as_slice()) {
            Some(v) => v,
            None => {
                return None;
            },
        };
        let b = match ipv4_octet(parts[1].as_slice()) {
            Some(v) => v,
            None => {
                return None;
            },
        };
        let c = match ipv4_octet(parts[2].as_slice()) {
            Some(v) => v,
            None => {
                return None;
            },
        };
        let d = match ipv4_octet(parts[3].as_slice()) {
            Some(v) => v,
            None => {
                return None;
            },
        };
        Some(Ipv4Addr { a, b, c, d })
    }

    /// Parses the dotted-quad text of an address.
    pub fn parse(s: &str) -> (r: Option<Ipv4Addr>)
        ensures
            match r {
                Some(ip) => spec_parse_ipv4(s.spec_bytes()) == Some((ip.a, ip.b, ip.c, ip.d)),
                None => spec_parse_ipv4(s.spec_bytes()) is None,
            },
    {
        Ipv4Addr::parse_bytes(s.as_bytes())
    }

    /// The dotted-quad text of this address.
    pub fn to_text(&self) -> (r: String)
        ensures
            encode_utf8(r@) == spec_ipv4_bytes(self.a, self.b, self.c, self.d),
    {
        let mut out: Vec<u8> = Vec::new();
        push_dec_u64(&mut out, self.a as u64);
        out.push(46);
        push_dec_u64(&mut out, self.b as u64);
        out.push(46);
        push_dec_u64(&mut out, self.c as u64);
        out.push(46);
        push_dec_u64(&mut out, self.d as u64);
        proof {
            assert(out@ =~= spec_ipv4_bytes(self.a, self.b, self.c, self.d));
            lemma_dec_rep_digits(self.a as nat);
            lemma_dec_rep_digits(self.b as nat);
            lemma_dec_rep_digits(self.c as nat);
            lemma_dec_rep_digits(self.d as nat);
            assert(is_ascii_bytes(out@));
        }
        string_of_ascii(out.as_slice())
    }
}

/// Parses one dotted-quad component.
fn ipv4_octet(p: &[u8]) -> (r: Option<u8>)
    ensures
        match r {
            Some(v) => ipv4_part_ok(p@) && v == dec_val(p@),
            None => !ipv4_part_ok(p@),
        },
{
    if p.len() > 1 && p[0] == 48 {
        return None;
    }
    match parse_dec_u64(p) {
        Some(v) => {
            if v <= 255 {
                Some(v as u8)
            } else {
                None
            }
        },
        None => None,
    }
}

// ---------------------------------------------------------------------------
// IPv6
// ---------------------------------------------------------------------------

/// An IPv6 address as eight 16-bit groups.
#[derive(Debug, PartialEq, Eq, Hash)]
pub struct Ipv6Addr {
    groups: Vec<u16>,
}

impl Clone for Ipv6Addr {
    /// A clone has the same groups.
    fn clone(&self) -> (r: Self)
        ensures
            r@ == self@,
    {
        proof {
            use_type_invariant(self);
        }
        Ipv6Addr { groups: self.groups.clone() }
    }
}

impl View for Ipv6Addr {
    type V = Seq<u16>;

    closed spec fn view(&self) -> Seq<u16> {
        self.groups@
    }
}

/// A byte is a hexadecimal digit.
pub open spec fn is_hex_digit(b: u8) -> bool {
    (48 <= b <= 57) || (97 <= b <= 102) || (65 <= b <= 70)
}

/// The value of one hexadecimal digit.
pub open spec fn hex_digit_val(b: u8) -> int {
    if 48 <= b <= 57 {
        b - 48
    } else if 97 <= b <= 102 {
        b - 87
    } else {
        b - 55
    }
}

/// The value of a hexadecimal digit string.
pub open spec fn hex_val(p: Seq<u8>) -> int
    decreases p.len(),
{
    if p.len() == 0 {
        0
    } else {
        hex_val(p.drop_last()) * 16 + hex_digit_val(p.last())
    }
}

/// A valid IPv6 group: one to four hexadecimal digits.
pub open spec fn hex_group_ok(p: Seq<u8>) -> bool {
    1 <= p.len() <= 4 && forall|i: int| 0 <= i < p.len() ==> is_hex_digit(#[trigger] p[i])
}

/// All pieces are valid groups.
pub open spec fn all_hex_groups(parts: Seq<Seq<u8>>) -> bool {
    forall|i: int| 0 <= i < parts.len() ==> hex_group_ok(#[trigger] parts[i])
}

/// The group values of a piece sequence.
pub open spec fn group_vals(parts: Seq<Seq<u8>>) -> Seq<u16> {
    parts.map_values(|p: Seq<u8>| hex_val(p) as u16)
}

/// The position of the first empty piece, or `-1`.
pub open spec fn first_empty(parts: Seq<Seq<u8>>) -> int
    decreases parts.len(),
{
    if parts.len() == 0 {
        -1
    } else if parts[0].len() == 0 {
        0
    } else {
        let r = first_empty(parts.drop_first());
        if r < 0 {
            -1
        } else {
            1 + r
        }
    }
}

/// A sequence of `n` zero groups.
pub open spec fn zero_groups(n: int) -> Seq<u16> {
    Seq::new(n as nat, |i: int| 0u16)
}

/// The eight groups encoded by an IPv6 text, if it is one: either eight
/// colon-separated hex groups, or fewer groups with one `::` elision
/// standing for the missing zero groups.
pub open spec fn spec_parse_ipv6(s: Seq<u8>) -> Option<Seq<u16>> {
    let parts = spec_split(s, 58);
    let n = parts.len() as int;
    if n == 8 && all_hex_groups(parts) {
        Some(group_vals(parts))
    } else if n == 3 && parts[0].len() == 0 && parts[1].len() == 0 && parts[2].len() == 0 {
        Some(zero_groups(8))
    } else if n >= 3 && parts[0].len() == 0 && parts[1].len() == 0 && parts[n - 1].len() != 0 && n
        - 2 <= 7 && all_hex_groups(parts.skip(2)) {
        Some(zero_groups(8 - (n - 2)) + group_vals(parts.skip(2)))
    } else if n >= 3 && parts[n - 1].len() == 0 && parts[n - 2].len() == 0 && parts[0].len() != 0
        && n - 2 <= 7 && all_hex_groups(parts.take(n - 2)) {
        Some(group_vals(parts.take(n - 2)) + zero_groups(8 - (n - 2)))
    } else if n >= 3 && 1 <= first_empty(parts) <= n - 2 && parts[0].len() != 0 && parts[n
        - 1].len() != 0 && n - 1 <= 7 && all_hex_groups(
        parts.take(first_empty(parts)),
    ) && all_hex_groups(parts.skip(first_empty(parts) + 1)) && first_empty(
        parts.skip(first_empty(parts) + 1),
    ) < 0 {
        Some(
            group_vals(parts.take(first_empty(parts))) + zero_groups(8 - (n - 1)) + group_vals(
                parts.skip(first_empty(parts) + 1),
            ),
        )
    } else {
        None
    }
}

/// The uncompressed spelling of eight groups: lower-case hex, joined by
/// colons.
pub open spec fn spec_ipv6_bytes(groups: Seq<u16>) -> Seq<u8> {
    spec_join(groups.map_values(|g: u16| hex_rep(g as nat, 1)), 58)
}

impl Ipv6Addr {
    /// Eight groups, always.
    pub open spec fn wf(&self) -> bool {
        self@.len() == 8
    }

    /// Every value of this type holds exactly eight groups.
    #[verifier::type_invariant]
    spec fn type_inv(&self) -> bool {
        self.groups@.len() == 8
    }

    /// Builds an address from its eight groups.
    pub fn new(g0: u16, g1: u16, g2: u16, g3: u16, g4: u16, g5: u16, g6: u16, g7: u16) -> (r:
        Ipv6Addr)
        ensures
            r@ =~= seq![g0, g1, g2, g3, g4, g5, g6, g7],
            r.wf(),
    {
        let mut groups: Vec<u16> = Vec::new();
        groups.push(g0);
        groups.push(g1);
        groups.push(g2);
        groups.push(g3);
        groups.push(g4);
        groups.push(g5);
        groups.push(g6);
        groups.push(g7);
        Ipv6Addr { groups }
    }

    /// The eight groups.
    pub fn segments(&self) -> (r: Vec<u16>)
        ensures
            r@ == self@,
    {
        self.groups.clone()
    }
}

/// Sixteen to the given power.
pub open spec fn pow16(n: nat) -> int
    decreases n,
{
    if n == 0 {
        1
    } else {
        16 * pow16((n - 1) as nat)
    }
}

/// The value of an all-hex digit string is bounded by sixteen to its length.
proof fn lemma_hex_val_bound(p: Seq<u8>)
    requires
        forall|i: int| 0 <= i < p.len() ==> is_hex_digit(#[trigger] p[i]),
    ensures
        0 <= hex_val(p) < pow16(p.len()),
    decreases p.len(),
{
    if p.len() > 0 {
        lemma_hex_val_bound(p.drop_last());
        assert(0 <= hex_digit_val(p.last()) < 16);
    }
}

/// Parses one colon-separated group of one to four hex digits.
fn hex_group(p: &[u8]) -> (r: Option<u16>)
    ensures
        match r {
            Some(v) => hex_group_ok(p@) && v == hex_val(p@),
            None => !hex_group_ok(p@),
        },
{
    if p.len() == 0 || p.len() > 4 {
        return None;
    }
    let mut acc: u32 = 0;
    let mut i: usize = 0;
    while i < p.len()
        invariant
            0 <= i <= p@.len() <= 4,
            forall|k: int| 0 <= k < i ==> is_hex_digit(#[trigger] p@[k]),
            acc == hex_val(p@.subrange(0, i as int)),
            0 <= acc < 0x10000,
        decreases p@.len() - i,
    {
        let b = p[i];
        let d: u32 = if 48 <= b && b <= 57 {
            (b - 48) as u32
        } else if 97 <= b && b <= 102 {
            (b - 87) as u32
        } else if 65 <= b && b <= 70 {
            (b - 55) as u32
        } else {
            return None;
        };
        proof {
            assert(p@.subrange(0, i + 1).drop_last() =~= p@.subrange(0, i as int));
            lemma_hex_val_bound(p@.subrange(0, i + 1));
            assert(pow16(0) == 1);
            assert(pow16(1) == 16);
            assert(pow16(2) == 256);
            assert(pow16(3) == 4096);
            assert(pow16(4) == 65536);
        }
        acc = acc * 16 + d;
        i = i + 1;
    }
    proof {
        assert(p@.subrange(0, i as int) =~= p@);
    }
    Some(acc as u16)
}

/// `first_empty` names the smallest index whose piece is empty.
proof fn lemma_first_empty_at(parts: Seq<Seq<u8>>, j: int)
    requires
        0 <= j < parts.len(),
        parts[j].len() == 0,
        forall|k: int| 0 <= k < j ==> #[trigger] parts[k].len() != 0,
    ensures
        first_empty(parts) == j,
    decreases j,
{
    if j > 0 {
        lemma_first_empty_at(parts.drop_first(), j - 1);
    }
}

/// When no piece is empty, `first_empty` is negative.
proof fn lemma_first_empty_none(parts: Seq<Seq<u8>>)
    requires
        forall|k: int| 0 <= k < parts.len() ==> #[trigger] parts[k].len() != 0,
    ensures
        first_empty(parts) == -1,
    decreases parts.len(),
{
    if parts.len() > 0 {
        lemma_first_empty_none(parts.drop_first());
    }
}

/// What the position of the first empty piece means.
proof fn lemma_first_empty_props(parts: Seq<Seq<u8>>)
    ensures
        first_empty(parts) >= 0 ==> first_empty(parts) < parts.len() && parts[first_empty(
            parts,
        )].len() == 0 && forall|k: int|
            0 <= k < first_empty(parts) ==> #[trigger] parts[k].len() != 0,
        first_empty(parts) < 0 ==> forall|k: int|
            0 <= k < parts.len() ==> #[trigger] parts[k].len() != 0,
    decreases parts.len(),
{
    if parts.len() > 0 && parts[0].len() != 0 {
        lemma_first_empty_props(parts.drop_first());
        let r = first_empty(parts.drop_first());
        if r >= 0 {
            assert(parts[1 + r] == parts.drop_first()[r]);
            assert forall|k: int| 0 <= k < 1 + r implies #[trigger] parts[k].len() != 0 by {
                if k > 0 {
                    assert(parts[k] == parts.drop_first()[k - 1]);
                }
            }
        } else {
            assert forall|k: int| 0 <= k < parts.len() implies #[trigger] parts[k].len()
                != 0 by {
                if k > 0 {
                    assert(parts[k] == parts.drop_first()[k - 1]);
                }
            }
        }
    }
}

/// Finds the first empty piece, mirroring `first_empty`.
fn find_first_empty(parts: &Vec<Vec<u8>>) -> (r: Option<usize>)
    ensures
        match r {
            Some(j) => j < parts@.len() && first_empty(parts@.map_values(|p: Vec<u8>| p@))
                == j,
            None => first_empty(parts@.map_values(|p: Vec<u8>| p@)) == -1,
        },
{
    let ghost g = parts@.map_values(|p: Vec<u8>| p@);
    let mut i: usize = 0;
    while i < parts.len()
        invariant
            g == parts@.map_values(|p: Vec<u8>| p@),
            0 <= i <= parts@.len(),
            forall|k: int| 0 <= k < i ==> #[trigger] g[k].len() != 0,
        decreases parts@.len() - i,
    {
        if parts[i].len() == 0 {
            proof {
                lemma_first_empty_at(g, i as int);
            }
            return Some(i);
        }
        i = i + 1;
    }
    proof {
        lemma_first_empty_none(g);
    }
    None
}

/// Parses a run of pieces as hex groups, mirroring `group_vals` over the
/// subrange `[from, to)`.
fn hex_run(parts: &Vec<Vec<u8>>, from: usize, to: usize) -> (r: Option<Vec<u16>>)
    requires
        from <= to <= parts@.len(),
    ensures
        match r {
            Some(v) => all_hex_groups(
                parts@.map_values(|p: Vec<u8>| p@).subrange(from as int, to as int),
            ) && v@ == group_vals(
                parts@.map_values(|p: Vec<u8>| p@).subrange(from as int, to as int),
            ),
            None => !all_hex_groups(
                parts@.map_values(|p: Vec<u8>| p@).subrange(from as int, to as int),
            ),
        },
{
    let ghost g = parts@.map_values(|p: Vec<u8>| p@);
    let ghost run = g.subrange(from as int, to as int);
    let mut out: Vec<u16> = Vec::new();
    let mut i: usize = from;
    while i < to
        invariant
            g == parts@.map_values(|p: Vec<u8>| p@),
            run == g.subrange(from as int, to as int),
            from <= i <= to <= parts@.len(),
            out@.len() == i - from,
            forall|k: int|
                0 <= k < out@.len() ==> hex_group_ok(#[trigger] run[k]) && out@[k] == hex_val(
                    run[k],
                ) as u16,
        decreases to - i,
    {
        match hex_group(parts[i].as_slice()) {
            Some(v) => {
                proof {
                    assert(run[i - from] == g[i as int]);
                }
                out.push(v);
            },
            None => {
                proof {
                    assert(run[i - from] == g[i as int]);
                }
                return None;
            },
        }
        i = i + 1;
    }
    proof {
        assert(out@ =~= group_vals(run));
    }
    Some(out)
}

impl Ipv6Addr {
    /// Parses an IPv6 text as bytes: eight hex groups, or fewer with one
    /// `::` elision.
    pub fn parse_bytes(s: &[u8]) -> (r: Option<Ipv6Addr>)
        ensures
            match r {
                Some(ip) => spec_parse_ipv6(s@) == Some(ip@) && ip.wf(),
                None => spec_parse_ipv6(s@) is None,
            },
    {
        let parts = split_bytes(s, 58);
        let ghost g = parts@.map_values(|p: Vec<u8>| p@);
        proof {
            assert(g.len() == spec_split(s@, 58).len());
            assert(g =~~= spec_split(s@, 58));
        }
        let n = parts.len();
        let first = find_first_empty(&parts);
        proof {
            lemma_first_empty_props(g);
        }
        match first {
            None => {
                // no `::`: exactly eight hex groups
                if n != 8 {
                    return None;
                }
                match hex_run(&parts, 0, 8) {
                    Some(groups) => {
                        proof {
                            assert(g.subrange(0, 8) =~~= g);
                        }
                        Some(Ipv6Addr { groups })
                    },
                    None => {
                        proof {
                            assert(g.subrange(0, 8) =~~= g);
                        }
                        None
                    },
                }
            },
            Some(e) => {
                proof {
                    assert(g[e as int].len() == 0);
                }
                if n == 3 && parts[0].len() == 0 && parts[1].len() == 0 && parts[2].len() == 0 {
                    // "::" alone
                    let mut groups: Vec<u16> = Vec::new();
                    let mut i: usize = 0;
                    while i < 8
                        invariant
                            0 <= i <= 8,
                            groups@.len() == i,
                            forall|k: int| 0 <= k < i ==> #[trigger] groups@[k] == 0u16,
                        decreases 8 - i,
                    {
                        groups.push(0);
                        i = i + 1;
                    }
                    proof {
                        assert(groups@ =~= zero_groups(8));
                    }
                    return Some(Ipv6Addr { groups });
                }
                if n >= 3 && parts[0].len() == 0 && parts[1].len() == 0 && parts[n - 1].len()
                    != 0 {
                    // leading "::"
                    if n - 2 > 7 {
                        return None;
                    }
                    match hex_run(&parts, 2, n) {
                        Some(tail_groups) => {
                            let mut groups: Vec<u16> = Vec::new();
                            let mut i: usize = 0;
                            let zeros = 8 - (n - 2);
                            while i < zeros
                                invariant
                                    0 <= i <= zeros <= 8,
                                    groups@.len() == i,
                                    forall|k: int| 0 <= k < i ==> #[trigger] groups@[k] == 0u16,
                                decreases zeros - i,
                            {
                                groups.push(0);
                                i = i + 1;
                            }
                            let mut j: usize = 0;
                            let ghost zpart = groups@;
                            proof {
                                assert(zpart =~= zero_groups(8 - (n - 2)));
                            }
                            while j < tail_groups.len()
                                invariant
                                    0 <= j <= tail_groups@.len(),
                                    groups@ == zpart + tail_groups@.subrange(0, j as int),
                                decreases tail_groups@.len() - j,
                            {
                                let v = tail_groups[j];
                                groups.push(v);
                                proof {
                                    assert(tail_groups@.subrange(0, j + 1) =~= tail_groups@.subrange(
                                        0,
                                        j as int,
                                    ).push(tail_groups@[j as int]));
                                    assert(groups@ =~= zpart + tail_groups@.subrange(0, j + 1));
                                }
                                j = j + 1;
                            }
                            proof {
                                assert(tail_groups@.subrange(0, tail_groups@.len() as int)
                                    =~= tail_groups@);
                                assert(g.subrange(2, n as int) =~~= g.skip(2));
                                assert(groups@ =~= zero_groups(8 - (n - 2)) + group_vals(
                                    g.skip(2),
                                ));
                            }
                            return Some(Ipv6Addr { groups });
                        },
                        None => {
                            proof {
                                assert(g.subrange(2, n as int) =~~= g.skip(2));
                            }
                            return None;
                        },
                    }
                }
                if n >= 3 && parts[n - 1].len() == 0 && parts[n - 2].len() == 0 && parts[0].len()
                    != 0 {
                    // trailing "::"
                    if n - 2 > 7 {
                        return None;
                    }
                    match hex_run(&parts, 0, n - 2) {
                        Some(head_groups) => {
                            let mut groups = head_groups;
                            let ghost hpart = groups@;
                            let zeros = 8 - (n - 2);
                            let mut i: usize = 0;
                            while i < zeros
                                invariant
                                    0 <= i <= zeros,
                                    groups@ == hpart + zero_groups(i as int),
                                decreases zeros - i,
                            {
                                groups.push(0);
                                proof {
                                    assert(groups@ =~= hpart + zero_groups(i + 1));
                                }
                                i = i + 1;
                            }
                            proof {
                                assert(g.subrange(0, n - 2) =~~= g.take(n - 2));
                                assert(groups@ =~= group_vals(g.take(n - 2)) + zero_groups(
                                    8 - (n - 2),
                                ));
                            }
                            return Some(Ipv6Addr { groups });
                        },
                        None => {
                            proof {
                                assert(g.subrange(0, n - 2) =~~= g.take(n - 2));
                            }
                            return None;
                        },
                    }
                }
                // middle "a::b": exactly one empty piece, inside
                if n < 3 || e == 0 || e >= n - 1 || parts[0].len() == 0 || parts[n - 1].len()
                    == 0 {
                    return None;
                }
                if n - 1 > 7 {
                    return None;
                }
                // no second empty piece after `e`
                let mut k: usize = e + 1;
                while k < n
                    invariant
                        g == parts@.map_values(|p: Vec<u8>| p@),
                        g == spec_split(s@, 58),
                        n == parts@.len(),
                        1 <= e <= n - 2,
                        e + 1 <= k <= n,
                        first_empty(g) == e,
                        g[e as int].len() == 0,
                        g[0].len() != 0,
                        g[n - 1].len() != 0,
                        forall|q: int| e + 1 <= q < k ==> #[trigger] g[q].len() != 0,
                    decreases n - k,
                {
                    if parts[k].len() == 0 {
                        proof {
                            assert(g.skip(e + 1)[k - (e + 1)] == g[k as int]);
                            assert forall|q: int| 0 <= q < k - (e + 1) implies #[trigger] g.skip(
                                e + 1,
                            )[q].len() != 0 by {
                                assert(g.skip(e + 1)[q] == g[q + e + 1]);
                            }
                            lemma_first_empty_at(g.skip(e + 1), k - (e + 1));
                        }
                        return None;
                    }
                    k = k + 1;
                }
                proof {
                    assert forall|q: int| 0 <= q < g.skip(e + 1).len() implies #[trigger] g.skip(
                        e + 1,
                    )[q].len() != 0 by {
                        assert(g.skip(e + 1)[q] == g[q + e + 1]);
                    }
                    lemma_first_empty_none(g.skip(e + 1));
                }
                let head = match hex_run(&parts, 0, e) {
                    Some(h) => h,
                    None => {
                        proof {
                            assert(g.subrange(0, e as int) =~~= g.take(e as int));
                        }
                        return None;
                    },
                };
                let tail = match hex_run(&parts, e + 1, n) {
                    Some(t) => t,
                    None => {
                        proof {
                            assert(g.subrange(e + 1, n as int) =~~= g.skip(e + 1));
                        }
                        return None;
                    },
                };
                let mut groups = head;
                let ghost hpart = groups@;
                let zeros = 8 - (n - 1);
                let mut i: usize = 0;
                while i < zeros
                    invariant
                        0 <= i <= zeros,
                        groups@ == hpart + zero_groups(i as int),
                    decreases zeros - i,
                {
                    groups.push(0);
                    proof {
                        assert(groups@ =~= hpart + zero_groups(i + 1));
                    }
                    i = i + 1;
                }
                let ghost hz = groups@;
                let mut j: usize = 0;
                while j < tail.len()
                    invariant
                        0 <= j <= tail@.len(),
                        groups@ == hz + tail@.subrange(0, j as int),
                    decreases tail@.len() - j,
                {
                    let v = tail[j];
                    groups.push(v);
                    proof {
                        assert(tail@.subrange(0, j + 1) =~= tail@.subrange(0, j as int).push(
                            tail@[j as int],
                        ));
                        assert(groups@ =~= hz + tail@.subrange(0, j + 1));
                    }
                    j = j + 1;
                }
                proof {
                    assert(tail@.subrange(0, tail@.len() as int) =~= tail@);
                    assert(g.subrange(0, e as int) =~~= g.take(e as int));
                    assert(g.subrange(e + 1, n as int) =~~= g.skip(e + 1));
                    assert(groups@ =~= group_vals(g.take(e as int)) + zero_groups(8 - (n - 1))
                        + group_vals(g.skip(e + 1)));
                }
                Some(Ipv6Addr { groups })
            },
        }
    }

    /// Parses the text of an IPv6 address.
    pub fn parse(s: &str) -> (r: Option<Ipv6Addr>)
        ensures
            match r {
                Some(ip) => spec_parse_ipv6(s.spec_bytes()) == Some(ip@) && ip.wf(),
                None => spec_parse_ipv6(s.spec_bytes()) is None,
            },
    {
        Ipv6Addr::parse_bytes(s.as_bytes())
    }

    /// The uncompressed text of this address: eight lower-case hex groups
    /// joined by colons.
    pub fn to_text(&self) -> (r: String)
        ensures
            encode_utf8(r@) == spec_ipv6_bytes(self@),
    {
        proof {
            use_type_invariant(self);
        }
        let segs = self.segments();
        let mut parts: Vec<Vec<u8>> = Vec::new();
        let mut i: usize = 0;
        while i < segs.len()
            invariant
                segs@ == self@,
                0 <= i <= segs@.len(),
                parts@.len() == i,
                forall|k: int|
                    0 <= k < i ==> #[trigger] parts@[k]@ == hex_rep(self@[k] as nat, 1),
            decreases segs@.len() - i,
        {
            let mut piece: Vec<u8> = Vec::new();
            push_hex_u64(&mut piece, segs[i] as u64, 1);
            proof {
                assert(piece@ =~= hex_rep(self@[i as int] as nat, 1));
            }
            parts.push(piece);
            i = i + 1;
        }
        let joined = crate::text::join_bytes(&parts, 58);
        proof {
            assert(parts@.map_values(|p: Vec<u8>| p@) =~~= self@.map_values(
                |gv: u16| hex_rep(gv as nat, 1),
            ));
            lemma_join_hex_ascii(self@);
        }
        string_of_ascii(joined.as_slice())
    }
}

/// The joined hex spelling of any group sequence is ASCII.
proof fn lemma_join_hex_ascii(groups: Seq<u16>)
    ensures
        is_ascii_bytes(spec_ipv6_bytes(groups)),
    decreases groups.len(),
{
    let parts = groups.map_values(|gv: u16| hex_rep(gv as nat, 1));
    assert forall|i: int| 0 <= i < parts.len() implies is_ascii_bytes(#[trigger] parts[i]) by {
        lemma_hex_rep_ascii(groups[i] as nat, 1);
        assert(parts[i] == hex_rep(groups[i] as nat, 1));
    }
    lemma_join_ascii_parts(parts);
}

/// A join of ASCII pieces with an ASCII separator is ASCII.
proof fn lemma_join_ascii_parts(parts: Seq<Seq<u8>>)
    requires
        forall|i: int| 0 <= i < parts.len() ==> is_ascii_bytes(#[trigger] parts[i]),
    ensures
        is_ascii_bytes(spec_join(parts, 58)),
    decreases parts.len(),
{
    if parts.len() == 0 {
    } else if parts.len() == 1 {
        assert(is_ascii_bytes(parts[0]));
    } else {
        lemma_join_ascii_parts(parts.drop_first());
        let j = spec_join(parts, 58);
        let rest = spec_join(parts.drop_first(), 58);
        assert(j == parts[0] + seq![58u8] + rest);
        assert forall|i: int| 0 <= i < j.len() implies #[trigger] j[i] < 128 by {
            if i < parts[0].len() {
                assert(j[i] == parts[0][i]);
            } else if i == parts[0].len() {
                assert(j[i] == 58);
            } else {
                assert(j[i] == rest[i - parts[0].len() - 1]);
            }
        }
    }
}

// ---------------------------------------------------------------------------
// Round trips between text and value
// ---------------------------------------------------------------------------

/// Rendering an IPv4 address and parsing the text gives the address back.
pub proof fn lemma_ipv4_round_trip(a: u8, b: u8, c: u8, d: u8)
    ensures
        spec_parse_ipv4(spec_ipv4_bytes(a, b, c, d)) == Some((a, b, c, d)),
{
    let parts = seq![
        dec_rep(a as nat),
        dec_rep(b as nat),
        dec_rep(c as nat),
        dec_rep(d as nat),
    ];
    assert(spec_ipv4_bytes(a, b, c, d) =~= crate::text::spec_join(parts, 46)) by {
        assert(crate::text::spec_join(parts, 46) == parts[0] + seq![46u8]
            + crate::text::spec_join(parts.drop_first(), 46));
        assert(crate::text::spec_join(parts.drop_first(), 46) == parts[1] + seq![46u8]
            + crate::text::spec_join(parts.drop_first().drop_first(), 46));
        assert(crate::text::spec_join(parts.drop_first().drop_first(), 46) == parts[2] + seq![
            46u8,
        ] + crate::text::spec_join(parts.drop_first().drop_first().drop_first(), 46));
        assert(parts.drop_first().drop_first().drop_first() =~~= seq![dec_rep(d as nat)]);
        assert(crate::text::spec_join(seq![dec_rep(d as nat)], 46) == dec_rep(d as nat));
    }
    assert forall|p: int, i: int|
        0 <= p < parts.len() && 0 <= i < parts[p].len() implies #[trigger] parts[p][i]
        != 46u8 by {
        lemma_dec_rep_digits(a as nat);
        lemma_dec_rep_digits(b as nat);
        lemma_dec_rep_digits(c as nat);
        lemma_dec_rep_digits(d as nat);
    }
    crate::text::lemma_split_join(parts, 46);
    lemma_octet_part_ok(a);
    lemma_octet_part_ok(b);
    lemma_octet_part_ok(c);
    lemma_octet_part_ok(d);
}

/// The decimal rendering of an octet is a valid dotted-quad component and
/// reads back to the octet.
proof fn lemma_octet_part_ok(v: u8)
    ensures
        ipv4_part_ok(dec_rep(v as nat)),
        dec_val(dec_rep(v as nat)) == v,
{
    lemma_dec_rep_digits(v as nat);
    crate::text::lemma_dec_rep_val(v as nat);
    crate::text::lemma_dec_rep_no_leading_zero(v as nat);
}

/// A one-digit padding behaves as no padding at all.
proof fn lemma_hex_rep_pad_one(n: nat)
    ensures
        hex_rep(n, 1) == hex_rep(n, 0),
    decreases n,
{
    if n >= 16 {
    }
}

/// The value a hexadecimal rendering reads back to is the number itself.
proof fn lemma_hex_rep_val(n: nat, w: nat)
    ensures
        hex_val(hex_rep(n, w)) == n,
    decreases n, w,
{
    if n < 16 && w <= 1 {
        assert(hex_rep(n, w) == seq![crate::text::hex_digit(n as int)]);
        assert(hex_rep(n, w).drop_last() =~= Seq::<u8>::empty());
        assert(hex_val(Seq::<u8>::empty()) == 0);
        assert(hex_digit_val(crate::text::hex_digit(n as int)) == n);
    } else {
        let wp = if w == 0 {
            0
        } else {
            (w - 1) as nat
        };
        lemma_hex_rep_val(n / 16, wp);
        assert(hex_rep(n, w) == hex_rep(n / 16, wp).push(
            crate::text::hex_digit((n % 16) as int),
        ));
        assert(hex_rep(n, w).drop_last() =~= hex_rep(n / 16, wp));
        assert(hex_digit_val(crate::text::hex_digit((n % 16) as int)) == n % 16);
        assert(hex_val(hex_rep(n, w)) == hex_val(hex_rep(n, w).drop_last()) * 16
            + hex_digit_val(hex_rep(n, w).last()));
    }
}

/// Every byte of a hexadecimal rendering is a hexadecimal digit.
proof fn lemma_hex_rep_digits(n: nat, w: nat)
    ensures
        forall|i: int| 0 <= i < hex_rep(n, w).len() ==> is_hex_digit(#[trigger] hex_rep(n, w)[i]),
    decreases n, w,
{
    if !(n < 16 && w <= 1) {
        let wp = if w == 0 {
            0
        } else {
            (w - 1) as nat
        };
        lemma_hex_rep_digits(n / 16, wp);
        assert(hex_rep(n, w) == hex_rep(n / 16, wp).push(
            crate::text::hex_digit((n % 16) as int),
        ));
    }
}

/// An unpadded rendering of a value below sixteen to a power has at most
/// that many digits.
proof fn lemma_hex_rep_len(n: nat, k: nat)
    requires
        k >= 1,
        n < pow16(k),
    ensures
        hex_rep(n, 0).len() <= k,
    decreases k,
{
    if n < 16 {
        assert(hex_rep(n, 0).len() == 1);
    } else {
        assert(pow16(0) == 1);
        assert(pow16(1) == 16);
        assert(k >= 2);
        assert(n / 16 < pow16((k - 1) as nat)) by {
            assert(pow16(k) == 16 * pow16((k - 1) as nat));
        }
        lemma_hex_rep_len(n / 16, (k - 1) as nat);
        assert(hex_rep(n, 0) == hex_rep(n / 16, 0).push(
            crate::text::hex_digit((n % 16) as int),
        ));
    }
}

/// The rendered group of a 16-bit value is a valid IPv6 group that reads
/// back to the value.
proof fn lemma_group_ok(g: u16)
    ensures
        hex_group_ok(hex_rep(g as nat, 1)),
        hex_val(hex_rep(g as nat, 1)) == g,
{
    lemma_hex_rep_pad_one(g as nat);
    lemma_hex_rep_val(g as nat, 1);
    lemma_hex_rep_digits(g as nat, 1);
    assert(pow16(4) == 65536) by {
        assert(pow16(0) == 1);
        assert(pow16(1) == 16);
        assert(pow16(2) == 256);
        assert(pow16(3) == 4096);
    }
    lemma_hex_rep_len(g as nat, 4);
    lemma_hex_rep_ascii(g as nat, 1);
}

/// Rendering an IPv6 address and parsing the text gives the address back:
/// the uncompressed spelling is one the parser accepts.
pub proof fn lemma_ipv6_round_trip(groups: Seq<u16>)
    requires
        groups.len() == 8,
    ensures
        spec_parse_ipv6(spec_ipv6_bytes(groups)) == Some(groups),
{
    let parts = groups.map_values(|g: u16| hex_rep(g as nat, 1));
    assert forall|p: int, i: int|
        0 <= p < parts.len() && 0 <= i < parts[p].len() implies #[trigger] parts[p][i]
        != 58u8 by {
        lemma_group_ok(groups[p]);
        assert(parts[p] == hex_rep(groups[p] as nat, 1));
        assert(is_hex_digit(parts[p][i]));
    }
    crate::text::lemma_split_join(parts, 58);
    assert forall|p: int| 0 <= p < parts.len() implies hex_group_ok(#[trigger] parts[p]) by {
        lemma_group_ok(groups[p]);
    }
    assert(all_hex_groups(parts));
    assert forall|p: int| 0 <= p < parts.len() implies #[trigger] group_vals(parts)[p]
        == groups[p] by {
        lemma_group_ok(groups[p]);
    }
    assert(group_vals(parts) =~= groups);
}

} // verus!
