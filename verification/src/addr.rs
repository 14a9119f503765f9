//! Parsing of a textual IPv4 bind address.
//!
//! A valid address is a dotted quad: four decimal octets separated by `.`,
//! each one to three digits, no leading zero, value at most 255.  The parser
//! works on the address's bytes and returns the four octets in order, ready
//! to be laid out in network byte order.

use vstd::prelude::*;
use vstd::string::StringSliceAdditionalSpecFns;

verus! {

/// Whether `b` is an ASCII decimal digit.
pub open spec fn is_dec_digit(b: u8) -> bool {
    48 <= b <= 57
}

/// ASCII code of the dot that separates octets.
pub const DOT: u8 = 46;

/// Decimal value of a digit string, most significant digit first.
pub open spec fn seg_value(s: Seq<u8>) -> int
    decreases s.len(),
{
    if s.len() == 0 {
        0
    } else {
        seg_value(s.drop_last()) * 10 + (s.last() - 48)
    }
}

/// Whether `s` is a valid textual octet: one to three decimal digits, no
/// leading zero, value at most 255.
pub open spec fn octet_seg_ok(s: Seq<u8>) -> bool {
    &&& 1 <= s.len() <= 3
    &&& (forall|i: int| 0 <= i < s.len() ==> is_dec_digit(#[trigger] s[i]))
    &&& (s.len() > 1 ==> s[0] != 48)
    &&& seg_value(s) <= 255
}

/// Whether `i < j < k` are dot positions that split `s` into four valid
/// textual octets.
pub open spec fn dotted_quad_at(s: Seq<u8>, i: int, j: int, k: int) -> bool {
    &&& 0 <= i < j < k < s.len()
    &&& s[i] == DOT && s[j] == DOT && s[k] == DOT
    &&& octet_seg_ok(s.subrange(0, i))
    &&& octet_seg_ok(s.subrange(i + 1, j))
    &&& octet_seg_ok(s.subrange(j + 1, k))
    &&& octet_seg_ok(s.subrange(k + 1, s.len() as int))
}

/// Whether `s` is a valid dotted-quad IPv4 address.
pub open spec fn is_ipv4_text(s: Seq<u8>) -> bool {
    exists|i: int, j: int, k: int| dotted_quad_at(s, i, j, k)
}

/// Parses `b[from..to]` as one textual octet.
///
/// Returns the decimal value exactly when the range is a valid octet
/// segment, and nothing otherwise.
fn parse_octet(b: &[u8], from: usize, to: usize) -> (r: Option<u8>)
    requires
        from <= to <= b@.len(),
    ensures
        octet_seg_ok(b@.subrange(from as int, to as int)) ==> r == Some(
            seg_value(b@.subrange(from as int, to as int)) as u8,
        ),
        !octet_seg_ok(b@.subrange(from as int, to as int)) ==> r is None,
{
    let ghost seg = b@.subrange(from as int, to as int);
    let len = to - from;
    if len < 1 || len > 3 {
        return Option::None;
    }
    if len > 1 && b[from] == 48 {
        return Option::None;
    }
    let mut val: u32 = 0;
    let mut x = from;
    while x < to
        invariant
            from <= x <= to <= b@.len(),
            to - from <= 3,
            seg == b@.subrange(from as int, to as int),
            forall|i: int| 0 <= i < x - from ==> is_dec_digit(#[trigger] seg[i]),
            val == seg_value(seg.subrange(0, x - from)),
            val <= 999,
        decreases to - x,
    {
        let c = b[x];
        if c < 48 || c > 57 {
            proof {
                assert(seg[x - from] == c);
                assert(!is_dec_digit(seg[x - from]));
            }
            return Option::None;
        }
        proof {
            assert(seg.subrange(0, x + 1 - from).drop_last() =~= seg.subrange(0, x - from));
            assert(seg.subrange(0, x + 1 - from).last() == seg[x - from]);
            assert(seg[x - from] == c);
            lemma_seg_value_bound(seg.subrange(0, x + 1 - from));
        }
        val = val * 10 + (c - 48) as u32;
        x += 1;
    }
    proof {
        assert(seg.subrange(0, to - from) =~= seg);
    }
    if val > 255 {
        return Option::None;
    }
    Some(val as u8)
}

/// The four octets of a parsed IPv4 address, in the order they were
/// written, ready to be laid out in network byte order.
#[derive(Debug, Clone, Copy, PartialEq, Eq, Structural)]
pub struct IpOctets {
    pub o0: u8,
    pub o1: u8,
    pub o2: u8,
    pub o3: u8,
}

/// The octets a dotted quad split at `i < j < k` denotes.
pub open spec fn quad_octets(s: Seq<u8>, i: int, j: int, k: int) -> IpOctets {
    (IpOctets {
        o0: seg_value(s.subrange(0, i)) as u8,
        o1: seg_value(s.subrange(i + 1, j)) as u8,
        o2: seg_value(s.subrange(j + 1, k)) as u8,
        o3: seg_value(s.subrange(k + 1, s.len() as int)) as u8,
    })
}

/// Inside a valid octet segment of `s` there is no dot.
proof fn lemma_segment_no_dot(s: Seq<u8>, lo: int, hi: int, t: int)
    requires
        0 <= lo <= t < hi <= s.len(),
        octet_seg_ok(s.subrange(lo, hi)),
    ensures
        s[t] != DOT,
{
    assert(is_dec_digit(s.subrange(lo, hi)[t - lo]));
    assert(s.subrange(lo, hi)[t - lo] == s[t]);
}

/// Three dots with dot-free gaps before and between them are the only split
/// a dotted quad can use: any valid split must fall on exactly those dots.
proof fn lemma_dots_forced(s: Seq<u8>, i: int, j: int, k: int, i2: int, j2: int, k2: int)
    requires
        dotted_quad_at(s, i2, j2, k2),
        0 <= i < j < k < s.len(),
        s[i] == DOT,
        s[j] == DOT,
        s[k] == DOT,
        forall|t: int| 0 <= t < i ==> s[t] != DOT,
        forall|t: int| i < t < j ==> s[t] != DOT,
        forall|t: int| j < t < k ==> s[t] != DOT,
    ensures
        i2 == i && j2 == j && k2 == k,
{
    if i2 < i {
        assert(s[i2] != DOT);
        assert(false);
    }
    if i2 > i {
        lemma_segment_no_dot(s, 0, i2, i);
        assert(false);
    }
    if j2 < j {
        assert(s[j2] != DOT);
        assert(false);
    }
    if j2 > j {
        lemma_segment_no_dot(s, i2 + 1, j2, j);
        assert(false);
    }
    if k2 < k {
        assert(s[k2] != DOT);
        assert(false);
    }
    if k2 > k {
        lemma_segment_no_dot(s, j2 + 1, k2, k);
        assert(false);
    }
}

/// A dotted quad has a unique split: the dot positions are determined by the
/// address text alone, and with them the four octet values.
pub proof fn lemma_quad_split_unique(s: Seq<u8>, i: int, j: int, k: int, i2: int, j2: int, k2: int)
    requires
        dotted_quad_at(s, i, j, k),
        dotted_quad_at(s, i2, j2, k2),
    ensures
        i2 == i && j2 == j && k2 == k,
{
    assert forall|t: int| 0 <= t < i implies s[t] != DOT by {
        lemma_segment_no_dot(s, 0, i, t);
    }
    assert forall|t: int| i < t < j implies s[t] != DOT by {
        lemma_segment_no_dot(s, i + 1, j, t);
    }
    assert forall|t: int| j < t < k implies s[t] != DOT by {
        lemma_segment_no_dot(s, j + 1, k, t);
    }
    lemma_dots_forced(s, i, j, k, i2, j2, k2);
}

/// Finds the first dot of `b` at or after `from`.
fn find_dot(b: &[u8], from: usize) -> (r: Option<usize>)
    requires
        from <= b@.len(),
    ensures
        (r matches Some(d) ==> from <= d < b@.len() && b@[d as int] == DOT && (forall|t: int|
            from <= t < d ==> b@[t] != DOT)),
        (r is None ==> forall|t: int| from <= t < b@.len() ==> b@[t] != DOT),
{
    let mut x = from;
    while x < b.len()
        invariant
            from <= x <= b@.len(),
            forall|t: int| from <= t < x ==> b@[t] != DOT,
        decreases b@.len() - x,
    {
        if b[x] == DOT {
            return Some(x);
        }
        x += 1;
    }
    Option::None
}

/// Parses the bytes of a textual IPv4 address.
///
/// Returns the four octets exactly when the bytes form a dotted quad, and
/// nothing otherwise.
pub fn parse_ipv4_bytes(b: &[u8]) -> (r: Option<IpOctets>)
    ensures
        (r is Some) <==> is_ipv4_text(b@),
        forall|i: int, j: int, k: int| dotted_quad_at(b@, i, j, k) ==> r == Some(
            quad_octets(b@, i, j, k),
        ),
{
    let n = b.len();
    let i = match find_dot(b, 0) {
        Option::None => {
            proof {
                assert forall|i2: int, j2: int, k2: int| !dotted_quad_at(b@, i2, j2, k2) by {
                    if dotted_quad_at(b@, i2, j2, k2) {
                        assert(b@[i2] == DOT);
                        assert(false);
                    }
                }
            }
            return Option::None;
        },
        Option::Some(d) => d,
    };
    assert(i < n);
    let j = match find_dot(b, i + 1) {
        Option::None => {
            proof {
                assert forall|i2: int, j2: int, k2: int| !dotted_quad_at(b@, i2, j2, k2) by {
                    if dotted_quad_at(b@, i2, j2, k2) {
                        if i2 < i {
                            assert(b@[i2] != DOT);
                        }
                        if i2 > i {
                            lemma_segment_no_dot(b@, 0, i2, i as int);
                        }
                        assert(i2 == i);
                        assert(b@[j2] == DOT);
                        assert(false);
                    }
                }
            }
            return Option::None;
        },
        Option::Some(d) => d,
    };
    assert(j < n);
    let k = match find_dot(b, j + 1) {
        Option::None => {
            proof {
                assert forall|i2: int, j2: int, k2: int| !dotted_quad_at(b@, i2, j2, k2) by {
                    if dotted_quad_at(b@, i2, j2, k2) {
                        if i2 < i {
                            assert(b@[i2] != DOT);
                        }
                        if i2 > i && i2 < j {
                            assert(b@[i2] != DOT);
                        }
                        if i2 > i && i2 >= j {
                            lemma_segment_no_dot(b@, 0, i2, i as int);
                        }
                        assert(i2 == i);
                        if j2 < j {
                            assert(b@[j2] != DOT);
                        }
                        if j2 > j {
                            lemma_segment_no_dot(b@, i2 + 1, j2, j as int);
                        }
                        assert(j2 == j);
                        assert(b@[k2] == DOT);
                        assert(false);
                    }
                }
            }
            return Option::None;
        },
        Option::Some(d) => d,
    };
    assert(k < n);
    match find_dot(b, k + 1) {
        Option::Some(m) => {
            proof {
                assert forall|i2: int, j2: int, k2: int| !dotted_quad_at(b@, i2, j2, k2) by {
                    if dotted_quad_at(b@, i2, j2, k2) {
                        lemma_dots_forced(b@, i as int, j as int, k as int, i2, j2, k2);
                        lemma_segment_no_dot(b@, k as int + 1, b@.len() as int, m as int);
                        assert(false);
                    }
                }
            }
            return Option::None;
        },
        Option::None => {},
    };
    let o0 = parse_octet(b, 0, i);
    let o1 = parse_octet(b, i + 1, j);
    let o2 = parse_octet(b, j + 1, k);
    let o3 = parse_octet(b, k + 1, b.len());
    if o0.is_none() || o1.is_none() || o2.is_none() || o3.is_none() {
        proof {
            assert forall|i2: int, j2: int, k2: int| !dotted_quad_at(b@, i2, j2, k2) by {
                if dotted_quad_at(b@, i2, j2, k2) {
                    lemma_dots_forced(b@, i as int, j as int, k as int, i2, j2, k2);
                    assert(false);
                }
            }
        }
        return Option::None;
    }
    let v0 = o0.unwrap();
    let v1 = o1.unwrap();
    let v2 = o2.unwrap();
    let v3 = o3.unwrap();
    proof {
        assert(dotted_quad_at(b@, i as int, j as int, k as int));
        assert forall|i2: int, j2: int, k2: int| dotted_quad_at(b@, i2, j2, k2) implies Some(
            IpOctets { o0: v0, o1: v1, o2: v2, o3: v3 },
        ) == Some(quad_octets(b@, i2, j2, k2)) by {
            lemma_quad_split_unique(b@, i as int, j as int, k as int, i2, j2, k2);
        }
    }
    Some(IpOctets { o0: v0, o1: v1, o2: v2, o3: v3 })
}

/// Parses a textual IPv4 address.
///
/// Returns the four octets exactly when the address is a dotted quad, and
/// nothing otherwise.
pub fn parse_ipv4(address: &str) -> (r: Option<IpOctets>)
    ensures
        (r is Some) <==> is_ipv4_text(address.spec_bytes()),
        forall|i: int, j: int, k: int| dotted_quad_at(address.spec_bytes(), i, j, k) ==> r == Some(
            quad_octets(address.spec_bytes(), i, j, k),
        ),
{
    parse_ipv4_bytes(address.as_bytes())
}

/// The value of a digit string of at most three digits is below 1000.
proof fn lemma_seg_value_bound(s: Seq<u8>)
    requires
        s.len() <= 3,
        forall|i: int| 0 <= i < s.len() ==> is_dec_digit(#[trigger] s[i]),
    ensures
        0 <= seg_value(s) <= 999,
{
    if s.len() > 0 {
        assert(forall|i: int| 0 <= i < s.drop_last().len() ==> is_dec_digit(
            #[trigger] s.drop_last()[i],
        ));
        lemma_seg_value_small(s.drop_last());
    }
}

/// The value of a digit string of at most two digits is below 100.
proof fn lemma_seg_value_small(s: Seq<u8>)
    requires
        s.len() <= 2,
        forall|i: int| 0 <= i < s.len() ==> is_dec_digit(#[trigger] s[i]),
    ensures
        0 <= seg_value(s) <= 99,
    decreases s.len(),
{
    if s.len() > 0 {
        assert(forall|i: int| 0 <= i < s.drop_last().len() ==> is_dec_digit(
            #[trigger] s.drop_last()[i],
        ));
        lemma_seg_value_small(s.drop_last());
        if s.len() == 2 {
            assert(s.drop_last().len() == 1);
            assert(seg_value(s.drop_last().drop_last()) == 0);
        }
    }
}

} // verus!
