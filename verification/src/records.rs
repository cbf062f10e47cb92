//! The delimited-record ingestion format: one point per line, exactly
//! seven comma-separated decimal fields `x,y,z,r,g,b,size`, parsed into
//! fixed-point micro-units. A malformed line fails the whole parse -
//! nothing is ingested - and serializing a batch back to this format
//! re-parses to the same seven values exactly.

use vstd::prelude::*;
use crate::fixed::SCALE;
use crate::geometry::{Vec4i, Vertex, GeometryBatch, render_all_vertices};

verus! {

/// Largest magnitude a parsed field may reach, in micro-units: twelve
/// integer digits.
pub const FIELD_LIMIT: i64 = 1_000_000_000_000_000_000;

/// An ASCII decimal digit.
pub open spec fn is_digit(c: u8) -> bool {
    48 <= c <= 57
}

/// Every byte a decimal digit.
pub open spec fn all_digits(s: Seq<u8>) -> bool {
    forall|i: int| 0 <= i < s.len() ==> is_digit(#[trigger] s[i])
}

/// Ten to the `n`.
pub open spec fn pow10(n: nat) -> int
    decreases n,
{
    if n == 0 {
        1
    } else {
        10 * pow10((n - 1) as nat)
    }
}

/// The number written by a digit sequence, most significant first.
pub open spec fn digits_val(s: Seq<u8>) -> int
    decreases s.len(),
{
    if s.len() == 0 {
        0
    } else {
        (s[0] - 48) * pow10((s.len() - 1) as nat) + digits_val(s.subrange(1, s.len() as int))
    }
}

/// Concrete powers of ten used by the format.
pub proof fn lemma_pow10_values()
    ensures
        pow10(0) == 1,
        pow10(1) == 10,
        pow10(6) == 1_000_000,
        pow10(12) == 1_000_000_000_000,
        pow10(13) == 10_000_000_000_000,
        pow10(20) == 100_000_000_000_000_000_000,
{
    reveal_with_fuel(pow10, 21);
}

/// Powers of ten are positive.
pub proof fn lemma_pow10_pos(n: nat)
    ensures
        pow10(n) >= 1,
    decreases n,
{
    if n > 0 {
        lemma_pow10_pos((n - 1) as nat);
    }
}

/// Powers of ten grow with the exponent.
pub proof fn lemma_pow10_mono(a: nat, b: nat)
    requires
        a <= b,
    ensures
        1 <= pow10(a) <= pow10(b),
    decreases b,
{
    lemma_pow10_pos(a);
    if a < b {
        lemma_pow10_mono(a, (b - 1) as nat);
        lemma_pow10_pos((b - 1) as nat);
    }
}

/// Appending a digit multiplies the value by ten and adds it.
pub proof fn lemma_digits_push(s: Seq<u8>, c: u8)
    ensures
        digits_val(s.push(c)) == 10 * digits_val(s) + (c - 48),
    decreases s.len(),
{
    if s.len() == 0 {
        assert(s.push(c).subrange(1, 1) =~= Seq::<u8>::empty());
        assert(s.push(c)[0] == c);
        assert(pow10(0) == 1);
        assert(digits_val(s.push(c).subrange(1, 1)) == 0);
        assert(digits_val(s.push(c)) == (c - 48) * 1 + 0);
        assert((c - 48) * 1 == c - 48) by (nonlinear_arith);
    } else {
        let t = s.subrange(1, s.len() as int);
        lemma_digits_push(t, c);
        assert(s.push(c).subrange(1, s.push(c).len() as int) =~= t.push(c));
        let n = s.len() - 1;
        assert(digits_val(s.push(c)) == (s[0] - 48) * pow10((n + 1) as nat) + digits_val(t.push(c)));
        assert(pow10((n + 1) as nat) == 10 * pow10(n as nat));
        assert((s[0] - 48) * (10 * pow10(n as nat)) == 10 * ((s[0] - 48) * pow10(n as nat)))
            by (nonlinear_arith);
    }
}

/// A digit string's value is nonnegative and below ten to its length.
pub proof fn lemma_digits_bound(s: Seq<u8>)
    requires
        all_digits(s),
    ensures
        0 <= digits_val(s) < pow10(s.len()),
    decreases s.len(),
{
    if s.len() == 0 {
    } else {
        let t = s.subrange(1, s.len() as int);
        lemma_digits_bound(t);
        let n = (s.len() - 1) as nat;
        lemma_pow10_mono(0, n);
        assert(0 <= (s[0] - 48) * pow10(n) <= 9 * pow10(n)) by (nonlinear_arith)
            requires 0 <= s[0] - 48 <= 9, pow10(n) >= 1;
        assert(pow10((n + 1) as nat) == 10 * pow10(n));
    }
}

/// Index of the first occurrence of a byte, or -1.
pub open spec fn first_byte(s: Seq<u8>, b: u8) -> int
    decreases s.len(),
{
    if s.len() == 0 {
        -1
    } else if s[0] == b {
        0
    } else {
        let r = first_byte(s.subrange(1, s.len() as int), b);
        if r < 0 {
            -1
        } else {
            r + 1
        }
    }
}

/// A scan that saw no occurrence before `m`, and one at `m` if `m` is
/// inside the sequence, pins `first_byte` down.
pub proof fn lemma_first_byte_at(s: Seq<u8>, b: u8, m: int)
    requires
        0 <= m <= s.len(),
        forall|j: int| 0 <= j < m ==> s[j] != b,
        m < s.len() ==> s[m] == b,
    ensures
        first_byte(s, b) == if m == s.len() { -1int } else { m },
    decreases s.len(),
{
    if s.len() == 0 {
    } else if m == 0 {
    } else {
        let t = s.subrange(1, s.len() as int);
        lemma_first_byte_at(t, b, m - 1);
    }
}

/// Parse an unsigned decimal field: one to twelve integer digits,
/// optionally a dot and one to six fraction digits; the value in
/// micro-units.
pub open spec fn parse_unsigned_spec(s: Seq<u8>) -> Option<int> {
    let d = first_byte(s, 46);
    if d < 0 {
        if 1 <= s.len() <= 12 && all_digits(s) {
            Some(digits_val(s) * 1_000_000)
        } else {
            None
        }
    } else {
        let ip = s.subrange(0, d);
        let fp = s.subrange(d + 1, s.len() as int);
        if 1 <= ip.len() <= 12 && all_digits(ip) && 1 <= fp.len() <= 6 && all_digits(fp) {
            Some(digits_val(ip) * 1_000_000 + digits_val(fp) * pow10((6 - fp.len()) as nat))
        } else {
            None
        }
    }
}

/// Parse one decimal field, optionally signed, into micro-units.
pub open spec fn parse_fixed_spec(s: Seq<u8>) -> Option<int> {
    if s.len() >= 1 && s[0] == 45 {
        match parse_unsigned_spec(s.subrange(1, s.len() as int)) {
            Some(v) => Some(-v),
            None => None,
        }
    } else {
        parse_unsigned_spec(s)
    }
}

/// Powers of ten multiply by adding exponents.
pub proof fn lemma_pow10_mul(a: nat, b: nat)
    ensures
        pow10(a) * pow10(b) == pow10((a + b) as nat),
    decreases a,
{
    if a == 0 {
        assert(1 * pow10(b) == pow10(b)) by (nonlinear_arith);
    } else {
        lemma_pow10_mul((a - 1) as nat, b);
        assert((10 * pow10((a - 1) as nat)) * pow10(b) == 10 * (pow10((a - 1) as nat) * pow10(b)))
            by (nonlinear_arith);
    }
}

} // verus!

verus! {

/// More concrete powers of ten, for machine-word bounds.
proof fn lemma_pow10_values_hi()
    ensures
        pow10(11) == 100_000_000_000,
        pow10(17) == 100_000_000_000_000_000,
        pow10(18) == 1_000_000_000_000_000_000,
{
    reveal_with_fuel(pow10, 19);
}

/// Ten to the `e` on machine words.
fn pow10_exec(e: u64) -> (r: u64)
    requires
        e <= 18,
    ensures
        r == pow10(e as nat),
        r >= 1,
{
    let mut r: u64 = 1;
    let mut i: u64 = 0;
    while i < e
        invariant
            i <= e <= 18,
            r == pow10(i as nat),
        decreases e - i,
    {
        proof {
            lemma_pow10_mono(i as nat, 17);
            lemma_pow10_values_hi();
            assert(pow10((i + 1) as nat) == 10 * pow10(i as nat));
        }
        r = r * 10;
        i = i + 1;
    }
    proof {
        lemma_pow10_pos(e as nat);
    }
    r
}

/// Read a run of digits as a number; `None` exactly when a byte of the
/// range is no digit.
fn digits_val_range(s: &Vec<u8>, from: usize, to: usize) -> (r: Option<u64>)
    requires
        from <= to <= s@.len(),
        to - from <= 12,
    ensures
        match r {
            Some(v) => all_digits(s@.subrange(from as int, to as int)) && v == digits_val(
                s@.subrange(from as int, to as int),
            ) && v < 1_000_000_000_000,
            None => !all_digits(s@.subrange(from as int, to as int)),
        },
{
    let mut acc: u64 = 0;
    let mut i = from;
    while i < to
        invariant
            from <= i <= to <= s@.len(),
            to - from <= 12,
            all_digits(s@.subrange(from as int, i as int)),
            acc == digits_val(s@.subrange(from as int, i as int)),
            acc < pow10((i - from) as nat),
        decreases to - i,
    {
        let c = s[i];
        if c < 48 || c > 57 {
            proof {
                assert(s@.subrange(from as int, to as int)[i - from] == s@[i as int]);
            }
            return None;
        }
        proof {
            lemma_digits_push(s@.subrange(from as int, i as int), s@[i as int]);
            assert(s@.subrange(from as int, i + 1) =~= s@.subrange(from as int, i as int).push(
                s@[i as int],
            ));
            assert(pow10(((i - from) + 1) as nat) == 10 * pow10((i - from) as nat));
            lemma_pow10_mono((i - from) as nat, 11);
            lemma_pow10_values_hi();
        }
        acc = acc * 10 + ((c - 48) as u64);
        i = i + 1;
    }
    proof {
        lemma_pow10_mono((i - from) as nat, 12);
        lemma_pow10_values();
    }
    Some(acc)
}

/// Find the first occurrence of a byte in a range, pinned against
/// `first_byte` of the corresponding subsequence.
fn find_byte(s: &Vec<u8>, from: usize, to: usize, b: u8) -> (r: Option<usize>)
    requires
        from <= to <= s@.len(),
    ensures
        match r {
            Some(p) => from <= p < to && s@[p as int] == b && first_byte(
                s@.subrange(from as int, to as int),
                b,
            ) == p - from,
            None => first_byte(s@.subrange(from as int, to as int), b) == -1,
        },
{
    let ghost sub = s@.subrange(from as int, to as int);
    let mut i = from;
    while i < to
        invariant
            from <= i <= to <= s@.len(),
            sub == s@.subrange(from as int, to as int),
            forall|j: int| from <= j < i ==> s@[j] != b,
        decreases to - i,
    {
        if s[i] == b {
            proof {
                assert forall|j: int| 0 <= j < i - from implies sub[j] != b by {
                    assert(sub[j] == s@[from + j]);
                }
                assert(sub[i - from] == s@[i as int]);
                lemma_first_byte_at(sub, b, i - from);
            }
            return Some(i);
        }
        i = i + 1;
    }
    proof {
        assert forall|j: int| 0 <= j < sub.len() implies sub[j] != b by {
            assert(sub[j] == s@[from + j]);
        }
        lemma_first_byte_at(sub, b, sub.len() as int);
    }
    None
}

/// Parse one field of a line (the byte range `[from, to)`) into
/// micro-units, proved against `parse_fixed_spec`.
pub fn parse_fixed_range(s: &Vec<u8>, from: usize, to: usize) -> (r: Option<i64>)
    requires
        from <= to <= s@.len(),
    ensures
        match r {
            Some(v) => parse_fixed_spec(s@.subrange(from as int, to as int)) == Some(v as int)
                && -FIELD_LIMIT < v < FIELD_LIMIT,
            None => parse_fixed_spec(s@.subrange(from as int, to as int)) is None,
        },
{
    let ghost sub = s@.subrange(from as int, to as int);
    let neg = from < to && s[from] == 45;
    let ds = if neg {
        from + 1
    } else {
        from
    };
    proof {
        if neg {
            assert(sub[0] == s@[from as int]);
            assert(sub.subrange(1, sub.len() as int) =~= s@.subrange(ds as int, to as int));
        } else {
            if sub.len() >= 1 {
                assert(sub[0] == s@[from as int]);
            }
            assert(sub =~= s@.subrange(ds as int, to as int));
        }
    }
    let ghost body = s@.subrange(ds as int, to as int);
    let dot = find_byte(s, ds, to, 46);
    match dot {
        None => {
            if to - ds < 1 || to - ds > 12 {
                return None;
            }
            match digits_val_range(s, ds, to) {
                None => None,
                Some(v) => {
                    let val: u64 = v * 1_000_000;
                    if neg {
                        Some(-(val as i64))
                    } else {
                        Some(val as i64)
                    }
                },
            }
        },
        Some(p) => {
            proof {
                assert(body.subrange(0, p - ds) =~= s@.subrange(ds as int, p as int));
                assert(body.subrange(p - ds + 1, body.len() as int) =~= s@.subrange(
                    p + 1,
                    to as int,
                ));
            }
            let iplen = p - ds;
            let fplen = to - p - 1;
            if iplen < 1 || iplen > 12 || fplen < 1 || fplen > 6 {
                return None;
            }
            match digits_val_range(s, ds, p) {
                None => None,
                Some(ipv) => match digits_val_range(s, p + 1, to) {
                    None => None,
                    Some(fpv) => {
                        proof {
                            lemma_digits_bound(s@.subrange(p + 1, to as int));
                            lemma_pow10_mono((6 - fplen) as nat, 6);
                            lemma_pow10_values();
                        }
                        let scale_pow = pow10_exec((6 - fplen) as u64);
                        proof {
                            assert(fpv * scale_pow < pow10(fplen as nat) * pow10(
                                (6 - fplen) as nat,
                            )) by (nonlinear_arith)
                                requires
                                    0 <= fpv < pow10(fplen as nat),
                                    scale_pow == pow10((6 - fplen) as nat),
                                    scale_pow >= 1,
                            ;
                            lemma_pow10_mul(fplen as nat, (6 - fplen) as nat);
                            assert(fpv * scale_pow >= 0) by (nonlinear_arith)
                                requires 0 <= fpv, scale_pow >= 1;
                        }
                        let val: u64 = ipv * 1_000_000 + fpv * scale_pow;
                        if neg {
                            Some(-(val as i64))
                        } else {
                            Some(val as i64)
                        }
                    },
                },
            }
        },
    }
}

} // verus!

verus! {

/// The comma-separated fields of a line, parsed left to right; `None` as
/// soon as one field is malformed.
pub open spec fn parse_fields(s: Seq<u8>) -> Option<Seq<int>>
    decreases s.len(),
{
    let d = first_byte(s, 44);
    if d < 0 {
        match parse_fixed_spec(s) {
            Some(v) => Some(seq![v]),
            None => None,
        }
    } else if d < s.len() {
        match parse_fixed_spec(s.subrange(0, d)) {
            Some(v) => match parse_fields(s.subrange(d + 1, s.len() as int)) {
                Some(rest) => Some(seq![v] + rest),
                None => None,
            },
            None => None,
        }
    } else {
        None
    }
}

/// Number of commas in a line.
pub open spec fn comma_count(s: Seq<u8>) -> int
    decreases s.len(),
{
    if s.len() == 0 {
        0
    } else {
        (if s[0] == 44 {
            1int
        } else {
            0int
        }) + comma_count(s.subrange(1, s.len() as int))
    }
}

/// Appending a byte adds its comma, if it is one.
pub proof fn lemma_comma_push(s: Seq<u8>, c: u8)
    ensures
        comma_count(s.push(c)) == comma_count(s) + (if c == 44 {
            1int
        } else {
            0int
        }),
    decreases s.len(),
{
    if s.len() == 0 {
        assert(s.push(c).subrange(1, 1) =~= Seq::<u8>::empty());
        assert(s.push(c)[0] == c);
        assert(comma_count(s.push(c).subrange(1, 1)) == 0);
        assert(comma_count(s) == 0);
    } else {
        let t = s.subrange(1, s.len() as int);
        lemma_comma_push(t, c);
        assert(s.push(c).subrange(1, s.push(c).len() as int) =~= t.push(c));
        assert(s.push(c)[0] == s[0]);
    }
}

/// `first_byte` names an occurrence, and the first one.
pub proof fn lemma_first_byte_props(s: Seq<u8>, b: u8)
    requires
        first_byte(s, b) >= 0,
    ensures
        first_byte(s, b) < s.len(),
        s[first_byte(s, b)] == b,
        forall|j: int| 0 <= j < first_byte(s, b) ==> s[j] != b,
    decreases s.len(),
{
    if s.len() == 0 {
    } else if s[0] == b {
    } else {
        let t = s.subrange(1, s.len() as int);
        lemma_first_byte_props(t, b);
        assert forall|j: int| 0 <= j < first_byte(s, b) implies s[j] != b by {
            if j >= 1 {
                assert(s[j] == t[j - 1]);
            }
        }
    }
}

/// Comma counts add over a split.
pub proof fn lemma_comma_split(s: Seq<u8>, m: int)
    requires
        0 <= m <= s.len(),
    ensures
        comma_count(s) == comma_count(s.subrange(0, m)) + comma_count(s.subrange(m, s.len() as int)),
    decreases m,
{
    if m == 0 {
        assert(s.subrange(0, 0) =~= Seq::<u8>::empty());
        assert(s.subrange(0, s.len() as int) =~= s);
    } else {
        let t = s.subrange(1, s.len() as int);
        lemma_comma_split(t, m - 1);
        assert(s.subrange(0, m).subrange(1, m) =~= t.subrange(0, m - 1));
        assert(s.subrange(m, s.len() as int) =~= t.subrange(m - 1, t.len() as int));
        assert(s.subrange(0, m)[0] == s[0]);
    }
}

/// A line without a comma counts zero.
pub proof fn lemma_no_comma_zero(s: Seq<u8>)
    requires
        forall|j: int| 0 <= j < s.len() ==> s[j] != 44,
    ensures
        comma_count(s) == 0,
    decreases s.len(),
{
    if s.len() > 0 {
        let t = s.subrange(1, s.len() as int);
        lemma_no_comma_zero(t);
    }
}

/// A line that parses has one more field than it has commas.
pub proof fn lemma_fields_count(s: Seq<u8>)
    requires
        parse_fields(s) is Some,
    ensures
        parse_fields(s)->Some_0.len() == comma_count(s) + 1,
    decreases s.len(),
{
    let d = first_byte(s, 44);
    if d < 0 {
        assert forall|j: int| 0 <= j < s.len() implies s[j] != 44 by {
            if s[j] == 44 {
                lemma_first_byte_finds(s, 44, j);
            }
        }
        lemma_no_comma_zero(s);
    } else {
        lemma_first_byte_props(s, 44);
        let tail = s.subrange(d + 1, s.len() as int);
        lemma_fields_count(tail);
        lemma_comma_split(s, d);
        let head = s.subrange(0, d);
        assert forall|j: int| 0 <= j < head.len() implies head[j] != 44 by {
            assert(head[j] == s[j]);
        }
        lemma_no_comma_zero(head);
        let right = s.subrange(d, s.len() as int);
        assert(right[0] == s[d]);
        assert(right.subrange(1, right.len() as int) =~= tail);
    }
}

/// If some position holds the byte, `first_byte` finds one.
proof fn lemma_first_byte_finds(s: Seq<u8>, b: u8, j: int)
    requires
        0 <= j < s.len(),
        s[j] == b,
    ensures
        first_byte(s, b) >= 0,
    decreases s.len(),
{
    if s.len() == 0 {
    } else if s[0] == b {
    } else {
        let t = s.subrange(1, s.len() as int);
        lemma_first_byte_finds(t, b, j - 1);
    }
}

} // verus!

verus! {

/// What is wrong with a single line.
#[derive(Clone, Copy, PartialEq, Eq, Structural, Debug)]
pub enum LineFault {
    /// The line does not have exactly seven fields.
    FieldCount,
    /// A field of the line is not a decimal number of the format.
    InvalidNumber,
}

/// A line that ingests: exactly seven fields, all numeric.
pub open spec fn line_ok(s: Seq<u8>) -> bool {
    comma_count(s) == 6 && parse_fields(s) is Some
}

/// The parsed field values of a line.
pub open spec fn line_vals(s: Seq<u8>) -> Seq<int> {
    parse_fields(s)->Some_0
}

/// The vertex a line's seven values describe: position, color (both
/// with homogeneous part one) and size.
pub open spec fn vertex_of_vals(v: Seq<int>) -> Vertex {
    Vertex {
        position: Vec4i { x: v[0] as i64, y: v[1] as i64, z: v[2] as i64, w: SCALE },
        color: Vec4i { x: v[3] as i64, y: v[4] as i64, z: v[5] as i64, w: SCALE },
        size: v[6] as i64,
    }
}

/// Take one field from the line at `start`: its value and, if a comma
/// ended it, the start of the next field.
fn take_field(s: &Vec<u8>, start: usize) -> (r: Option<(i64, Option<usize>)>)
    requires
        start <= s@.len(),
    ensures
        ({
            let t = s@.subrange(start as int, s@.len() as int);
            match r {
                None => parse_fields(t) is None,
                Some((v, nxt)) => {
                    &&& -FIELD_LIMIT < v < FIELD_LIMIT
                    &&& match nxt {
                        None => parse_fields(t) == Some(seq![v as int]),
                        Some(next) => start < next <= s@.len() && parse_fields(t) == (
                        match parse_fields(s@.subrange(next as int, s@.len() as int)) {
                            Some(rest) => Some(seq![v as int] + rest),
                            None => None::<Seq<int>>,
                        }),
                    }
                },
            }
        }),
{
    let n = s.len();
    let ghost t = s@.subrange(start as int, n as int);
    let c = find_byte(s, start, n, 44);
    match c {
        None => {
            match parse_fixed_range(s, start, n) {
                None => None,
                Some(v) => Some((v, None)),
            }
        },
        Some(p) => {
            proof {
                assert(t.subrange(0, p - start) =~= s@.subrange(start as int, p as int));
                assert(t.subrange(p - start + 1, t.len() as int) =~= s@.subrange(
                    p + 1,
                    n as int,
                ));
            }
            match parse_fixed_range(s, start, p) {
                None => None,
                Some(v) => Some((v, Some(p + 1))),
            }
        },
    }
}

/// Parse one line into a vertex: exactly seven comma-separated decimal
/// fields, or a fault naming what was wrong. Nothing is consumed on a
/// fault.
pub fn parse_line(s: &Vec<u8>) -> (r: Result<Vertex, LineFault>)
    ensures
        match r {
            Ok(v) => line_ok(s@) && v == vertex_of_vals(line_vals(s@)),
            Err(f) => !line_ok(s@) && (f == LineFault::FieldCount <==> comma_count(s@) != 6),
        },
{
    let n = s.len();
    let mut cc: u64 = 0;
    let mut i: usize = 0;
    while i < n
        invariant
            i <= n,
            n == s@.len(),
            cc == comma_count(s@.subrange(0, i as int)),
            cc <= i,
        decreases n - i,
    {
        proof {
            lemma_comma_push(s@.subrange(0, i as int), s@[i as int]);
            assert(s@.subrange(0, i + 1) =~= s@.subrange(0, i as int).push(s@[i as int]));
        }
        if s[i] == 44 {
            cc = cc + 1;
        }
        i = i + 1;
    }
    proof {
        assert(s@.subrange(0, n as int) =~= s@);
    }
    if cc != 6 {
        return Err(LineFault::FieldCount);
    }
    let mut vals: Vec<i64> = Vec::new();
    let mut start: usize = 0;
    let mut more = true;
    proof {
        assert(s@.subrange(0int, n as int) =~= s@);
        assert(vals@.map_values(|x: i64| x as int) =~= Seq::<int>::empty());
    }
    while more
        invariant
            start <= n,
            n == s@.len(),
            comma_count(s@) == 6,
            forall|k: int| 0 <= k < vals@.len() ==> -FIELD_LIMIT < #[trigger] vals@[k]
                < FIELD_LIMIT,
            parse_fields(s@) == (if more {
                match parse_fields(s@.subrange(start as int, n as int)) {
                    Some(rest) => Some(vals@.map_values(|x: i64| x as int) + rest),
                    None => None::<Seq<int>>,
                }
            } else {
                Some(vals@.map_values(|x: i64| x as int))
            }),
        decreases
            n - start + (if more {
                1int
            } else {
                0int
            }),
    {
        let ghost old_vals = vals@;
        match take_field(s, start) {
            None => {
                return Err(LineFault::InvalidNumber);
            },
            Some((v, nxt)) => {
                vals.push(v);
                proof {
                    assert(vals@.map_values(|x: i64| x as int) =~= old_vals.map_values(
                        |x: i64| x as int,
                    ).push(v as int));
                    assert forall|rest: Seq<int>|
                        old_vals.map_values(|x: i64| x as int) + (seq![v as int] + rest)
                            =~= vals@.map_values(|x: i64| x as int) + rest by {}
                    assert(old_vals.map_values(|x: i64| x as int) + seq![v as int]
                        =~= vals@.map_values(|x: i64| x as int));
                }
                match nxt {
                    Some(p) => {
                        start = p;
                    },
                    None => {
                        more = false;
                    },
                }
            },
        }
    }
    proof {
        lemma_fields_count(s@);
    }
    let v = Vertex {
        position: Vec4i { x: vals[0], y: vals[1], z: vals[2], w: SCALE },
        color: Vec4i { x: vals[3], y: vals[4], z: vals[5], w: SCALE },
        size: vals[6],
    };
    Ok(v)
}

/// Which line of an ingested source was rejected, and why. The whole
/// source is discarded with it: ingestion is all or nothing.
#[derive(Clone, Copy, PartialEq, Eq, Structural, Debug)]
pub enum ParseError {
    /// This line does not have exactly seven fields.
    FieldCount { line: usize },
    /// A field of this line is not a decimal number of the format.
    InvalidNumber { line: usize },
}

/// Parse a whole source, one vertex per line, with identity indices.
/// Either every line ingests, or the first offending line is named and
/// nothing is ingested.
pub fn from_delimited_records(lines: &Vec<Vec<u8>>) -> (r: Result<GeometryBatch, ParseError>)
    requires
        lines@.len() <= 0xFFFF_FFFF,
    ensures
        match r {
            Ok(b) => {
                &&& b.vertices@.len() == lines@.len()
                &&& forall|i: int| 0 <= i < lines@.len() ==> line_ok(#[trigger] lines@[i]@)
                &&& forall|i: int|
                    0 <= i < lines@.len() ==> #[trigger] b.vertices@[i] == vertex_of_vals(
                        line_vals(lines@[i]@),
                    )
                &&& b.indices@.len() == lines@.len()
                &&& forall|i: int| 0 <= i < b.indices@.len() ==> b.indices@[i] == i
                &&& b.wf()
            },
            Err(ParseError::FieldCount { line }) => {
                &&& line < lines@.len()
                &&& comma_count(lines@[line as int]@) != 6
                &&& forall|j: int| 0 <= j < line ==> line_ok(#[trigger] lines@[j]@)
            },
            Err(ParseError::InvalidNumber { line }) => {
                &&& line < lines@.len()
                &&& comma_count(lines@[line as int]@) == 6
                &&& parse_fields(lines@[line as int]@) is None
                &&& forall|j: int| 0 <= j < line ==> line_ok(#[trigger] lines@[j]@)
            },
        },
{
    let n = lines.len();
    let mut vertices: Vec<Vertex> = Vec::new();
    let mut i: usize = 0;
    while i < n
        invariant
            i <= n,
            n == lines@.len(),
            n <= 0xFFFF_FFFF,
            vertices@.len() == i,
            forall|j: int| 0 <= j < i ==> line_ok(#[trigger] lines@[j]@),
            forall|j: int|
                0 <= j < i ==> #[trigger] vertices@[j] == vertex_of_vals(line_vals(lines@[j]@)),
        decreases n - i,
    {
        match parse_line(&lines[i]) {
            Ok(v) => {
                vertices.push(v);
            },
            Err(LineFault::FieldCount) => {
                return Err(ParseError::FieldCount { line: i });
            },
            Err(LineFault::InvalidNumber) => {
                return Err(ParseError::InvalidNumber { line: i });
            },
        }
        i = i + 1;
    }
    let indices = render_all_vertices(&vertices);
    Ok(GeometryBatch { vertices, indices })
}

} // verus!

verus! {

/// The `w` low decimal digits of `n`, most significant first.
pub open spec fn digits_of(n: int, w: nat) -> Seq<u8>
    decreases w,
{
    if w == 0 {
        Seq::empty()
    } else {
        digits_of(n / 10, (w - 1) as nat).push((48 + n % 10) as u8)
    }
}

/// For `n` below ten to the `w`, its `w`-digit string is all digits and
/// reads back as `n`.
pub proof fn lemma_digits_of(n: int, w: nat)
    requires
        0 <= n < pow10(w),
    ensures
        digits_of(n, w).len() == w,
        all_digits(digits_of(n, w)),
        digits_val(digits_of(n, w)) == n,
    decreases w,
{
    if w == 0 {
    } else {
        vstd::arithmetic::div_mod::lemma_fundamental_div_mod(n, 10);
        vstd::arithmetic::div_mod::lemma_mod_bound(n, 10);
        vstd::arithmetic::div_mod::lemma_div_pos_is_pos(n, 10);
        assert(pow10(w) == 10 * pow10((w - 1) as nat));
        lemma_digits_of(n / 10, (w - 1) as nat);
        let prefix = digits_of(n / 10, (w - 1) as nat);
        let c = (48 + n % 10) as u8;
        lemma_digits_push(prefix, c);
        assert forall|i: int| 0 <= i < prefix.push(c).len() implies is_digit(
            #[trigger] prefix.push(c)[i],
        ) by {
            if i < prefix.len() {
                assert(prefix.push(c)[i] == prefix[i]);
            }
        }
    }
}

/// Number of decimal digits of a nonnegative number.
pub open spec fn width_of(n: int) -> nat
    decreases n,
{
    if n < 10 {
        1
    } else {
        1 + width_of(n / 10)
    }
}

/// A number is below ten to its width.
pub proof fn lemma_width_of(n: int)
    requires
        0 <= n,
    ensures
        1 <= width_of(n),
        n < pow10(width_of(n)),
    decreases n,
{
    if n < 10 {
        lemma_pow10_values();
    } else {
        vstd::arithmetic::div_mod::lemma_fundamental_div_mod(n, 10);
        vstd::arithmetic::div_mod::lemma_mod_bound(n, 10);
        vstd::arithmetic::div_mod::lemma_div_pos_is_pos(n, 10);
        lemma_width_of(n / 10);
        assert(pow10(width_of(n)) == 10 * pow10(width_of(n / 10)));
    }
}

/// The width never exceeds an exponent that bounds the number.
pub proof fn lemma_width_le(n: int, k: nat)
    requires
        0 <= n < pow10(k),
        1 <= k,
    ensures
        width_of(n) <= k,
    decreases n,
{
    if n < 10 {
    } else {
        lemma_pow10_values();
        if k == 1 {
        } else {
            vstd::arithmetic::div_mod::lemma_fundamental_div_mod(n, 10);
            vstd::arithmetic::div_mod::lemma_mod_bound(n, 10);
            vstd::arithmetic::div_mod::lemma_div_pos_is_pos(n, 10);
            assert(pow10(k) == 10 * pow10((k - 1) as nat));
            lemma_width_le(n / 10, (k - 1) as nat);
        }
    }
}

/// The canonical written form of a micro-unit value: an optional minus
/// sign, the integer part without leading zeros, a dot, and exactly six
/// fraction digits.
pub open spec fn format_spec(v: int) -> Seq<u8> {
    let m = if v < 0 {
        -v
    } else {
        v
    };
    let ip = m / 1_000_000;
    let fp = m % 1_000_000;
    let sign: Seq<u8> = if v < 0 {
        seq![45u8]
    } else {
        Seq::empty()
    };
    sign + digits_of(ip, width_of(ip)) + seq![46u8] + digits_of(fp, 6)
}

/// Round trip of one field: the written form of a bounded value parses
/// back to exactly that value, and contains no comma.
pub proof fn lemma_parse_format(v: int)
    requires
        -FIELD_LIMIT < v < FIELD_LIMIT,
    ensures
        parse_fixed_spec(format_spec(v)) == Some(v),
        forall|j: int| 0 <= j < format_spec(v).len() ==> format_spec(v)[j] != 44,
{
    lemma_pow10_values();
    let m = if v < 0 {
        -v
    } else {
        v
    };
    let ip = m / 1_000_000;
    let fp = m % 1_000_000;
    vstd::arithmetic::div_mod::lemma_fundamental_div_mod(m, 1_000_000);
    vstd::arithmetic::div_mod::lemma_mod_bound(m, 1_000_000);
    vstd::arithmetic::div_mod::lemma_div_is_ordered(m, FIELD_LIMIT as int - 1, 1_000_000);
    vstd::arithmetic::div_mod::lemma_div_pos_is_pos(m, 1_000_000);
    lemma_width_of(ip);
    lemma_width_le(ip, 12);
    let wd = width_of(ip);
    let ipd = digits_of(ip, wd);
    let fpd = digits_of(fp, 6);
    lemma_digits_of(ip, wd);
    lemma_digits_of(fp, 6);
    let body = ipd + seq![46u8] + fpd;
    assert forall|j: int| 0 <= j < wd implies body[j] != 46 && body[j] != 44 && body[j] != 45 by {
        assert(body[j] == ipd[j]);
        assert(is_digit(ipd[j]));
    }
    assert(body[wd as int] == 46);
    lemma_first_byte_at(body, 46, wd as int);
    assert(body.subrange(0, wd as int) =~= ipd);
    assert(body.subrange(wd as int + 1, body.len() as int) =~= fpd);
    assert(parse_unsigned_spec(body) == Some(digits_val(ipd) * 1_000_000 + digits_val(fpd) * pow10(
        0nat,
    )));
    assert(digits_val(fpd) * 1 == digits_val(fpd)) by (nonlinear_arith);
    assert(parse_unsigned_spec(body) == Some(m));
    if v < 0 {
        let s = format_spec(v);
        assert(s =~= seq![45u8] + body);
        assert(s[0] == 45);
        assert(s.subrange(1, s.len() as int) =~= body);
        assert(parse_fixed_spec(s) == Some(-m));
    } else {
        let s = format_spec(v);
        assert(s =~= body);
        if s.len() >= 1 {
            assert(s[0] == body[0]);
            assert(wd >= 1);
            assert(body[0] == ipd[0]);
            assert(is_digit(ipd[0]));
        }
        assert(parse_fixed_spec(s) == parse_unsigned_spec(body));
    }
    assert forall|j: int| 0 <= j < format_spec(v).len() implies format_spec(v)[j] != 44 by {
        let s = format_spec(v);
        let off: int = if v < 0 {
            1
        } else {
            0
        };
        if v < 0 && j == 0 {
            assert(s[0] == 45);
        } else {
            assert(s[j] == body[j - off]);
            if j - off < wd {
                assert(body[j - off] == ipd[j - off]);
                assert(is_digit(ipd[j - off]));
            } else if j - off == wd {
                assert(body[j - off] == 46);
            } else {
                assert(body[j - off] == fpd[j - off - wd - 1]);
                assert(is_digit(fpd[j - off - wd - 1]));
            }
        }
    }
}

} // verus!

verus! {

/// Write the `w` low digits of `n`, most significant first.
fn push_digits(out: &mut Vec<u8>, n: u64, w: u64)
    requires
        w <= 20,
    ensures
        final(out)@ == old(out)@ + digits_of(n as int, w as nat),
    decreases w,
{
    if w == 0 {
        proof {
            assert(out@ =~= out@ + digits_of(n as int, 0nat));
        }
        return ;
    }
    push_digits(out, n / 10, w - 1);
    out.push(48 + (n % 10) as u8);
    proof {
        assert(out@ =~= old(out)@ + digits_of(n as int, w as nat));
    }
}

/// Number of decimal digits of a machine word.
fn width_exec(n: u64) -> (w: u64)
    ensures
        w == width_of(n as int),
        1 <= w <= 20,
    decreases n,
{
    proof {
        lemma_pow10_values();
    }
    if n < 10 {
        1
    } else {
        proof {
            vstd::arithmetic::div_mod::lemma_fundamental_div_mod(n as int, 10);
            vstd::arithmetic::div_mod::lemma_mod_bound(n as int, 10);
            reveal_with_fuel(pow10, 20);
            lemma_width_le((n / 10) as int, 19nat);
        }
        let r = width_exec(n / 10);
        1 + r
    }
}

/// Write a micro-unit value in the record format, proved to re-parse to
/// exactly the same value.
pub fn format_fixed(v: i64) -> (out: Vec<u8>)
    requires
        -FIELD_LIMIT < v < FIELD_LIMIT,
    ensures
        out@ == format_spec(v as int),
        parse_fixed_spec(out@) == Some(v as int),
{
    let neg = v < 0;
    let m: u64 = if neg {
        (-(v as i128)) as u64
    } else {
        v as u64
    };
    let ip = m / 1_000_000;
    let fp = m % 1_000_000;
    proof {
        lemma_pow10_values();
        vstd::arithmetic::div_mod::lemma_fundamental_div_mod(m as int, 1_000_000);
        vstd::arithmetic::div_mod::lemma_mod_bound(m as int, 1_000_000);
        vstd::arithmetic::div_mod::lemma_div_is_ordered(
            m as int,
            FIELD_LIMIT as int - 1,
            1_000_000,
        );
        vstd::arithmetic::div_mod::lemma_div_pos_is_pos(m as int, 1_000_000);
        lemma_width_of(ip as int);
        lemma_width_le(ip as int, 12nat);
    }
    let mut out: Vec<u8> = Vec::new();
    if neg {
        out.push(45);
    }
    let w = width_exec(ip);
    push_digits(&mut out, ip, w);
    out.push(46);
    push_digits(&mut out, fp, 6);
    proof {
        assert(out@ =~= format_spec(v as int));
        lemma_parse_format(v as int);
    }
    out
}

/// Every field of the vertex within the writable range.
pub open spec fn vertex_bounded(v: Vertex) -> bool {
    &&& -FIELD_LIMIT < v.position.x < FIELD_LIMIT
    &&& -FIELD_LIMIT < v.position.y < FIELD_LIMIT
    &&& -FIELD_LIMIT < v.position.z < FIELD_LIMIT
    &&& -FIELD_LIMIT < v.color.x < FIELD_LIMIT
    &&& -FIELD_LIMIT < v.color.y < FIELD_LIMIT
    &&& -FIELD_LIMIT < v.color.z < FIELD_LIMIT
    &&& -FIELD_LIMIT < v.size < FIELD_LIMIT
}

/// The seven field values a vertex serializes to.
pub open spec fn vals_of_vertex(v: Vertex) -> Seq<int> {
    seq![
        v.position.x as int,
        v.position.y as int,
        v.position.z as int,
        v.color.x as int,
        v.color.y as int,
        v.color.z as int,
        v.size as int,
    ]
}

/// The written line of a vertex: its seven fields, comma-separated.
pub open spec fn format_line_spec(v: Vertex) -> Seq<u8> {
    format_spec(v.position.x as int) + seq![44u8] + format_spec(v.position.y as int) + seq![44u8]
        + format_spec(v.position.z as int) + seq![44u8] + format_spec(v.color.x as int)
        + seq![44u8] + format_spec(v.color.y as int) + seq![44u8] + format_spec(v.color.z as int)
        + seq![44u8] + format_spec(v.size as int)
}

/// Regrouping a comma-joined concatenation from the left to nested
/// tails changes nothing.
proof fn lemma_regroup7(
    f0: Seq<u8>, f1: Seq<u8>, f2: Seq<u8>, f3: Seq<u8>, f4: Seq<u8>, f5: Seq<u8>, f6: Seq<u8>,
)
    ensures
        f0 + seq![44u8] + f1 + seq![44u8] + f2 + seq![44u8] + f3 + seq![44u8] + f4 + seq![44u8]
            + f5 + seq![44u8] + f6 == f0 + seq![44u8] + (f1 + seq![44u8] + (f2 + seq![44u8] + (f3
            + seq![44u8] + (f4 + seq![44u8] + (f5 + seq![44u8] + f6))))),
{
    assert(f0 + seq![44u8] + f1 + seq![44u8] + f2 + seq![44u8] + f3 + seq![44u8] + f4 + seq![44u8]
        + f5 + seq![44u8] + f6 =~= f0 + seq![44u8] + (f1 + seq![44u8] + (f2 + seq![44u8] + (f3
        + seq![44u8] + (f4 + seq![44u8] + (f5 + seq![44u8] + f6))))));
}

/// One comma-free field prepended to a line parses as one more value.
proof fn lemma_fields_cons(a: Seq<u8>, v: int, rest: Seq<u8>)
    requires
        forall|j: int| 0 <= j < a.len() ==> a[j] != 44,
        parse_fixed_spec(a) == Some(v),
    ensures
        parse_fields(a + seq![44u8] + rest) == (match parse_fields(rest) {
            Some(r) => Some(seq![v] + r),
            None => None::<Seq<int>>,
        }),
{
    let s = a + seq![44u8] + rest;
    assert forall|j: int| 0 <= j < a.len() implies s[j] != 44 by {
        assert(s[j] == a[j]);
    }
    assert(s[a.len() as int] == 44);
    lemma_first_byte_at(s, 44, a.len() as int);
    assert(s.subrange(0, a.len() as int) =~= a);
    assert(s.subrange(a.len() as int + 1, s.len() as int) =~= rest);
}

/// A comma-free line parses as its single field.
proof fn lemma_fields_single(a: Seq<u8>, v: int)
    requires
        forall|j: int| 0 <= j < a.len() ==> a[j] != 44,
        parse_fixed_spec(a) == Some(v),
    ensures
        parse_fields(a) == Some(seq![v]),
{
    lemma_first_byte_at(a, 44, a.len() as int);
}

/// Four comma-free fields joined by commas parse as their four values.
#[verifier::spinoff_prover]
proof fn lemma_fields_chain4(
    f3: Seq<u8>, f4: Seq<u8>, f5: Seq<u8>, f6: Seq<u8>,
    v3: int, v4: int, v5: int, v6: int,
)
    requires
        forall|j: int| 0 <= j < f3.len() ==> f3[j] != 44,
        forall|j: int| 0 <= j < f4.len() ==> f4[j] != 44,
        forall|j: int| 0 <= j < f5.len() ==> f5[j] != 44,
        forall|j: int| 0 <= j < f6.len() ==> f6[j] != 44,
        parse_fixed_spec(f3) == Some(v3),
        parse_fixed_spec(f4) == Some(v4),
        parse_fixed_spec(f5) == Some(v5),
        parse_fixed_spec(f6) == Some(v6),
    ensures
        parse_fields(f3 + seq![44u8] + (f4 + seq![44u8] + (f5 + seq![44u8] + f6))) == Some(
            seq![v3, v4, v5, v6],
        ),
{
    let t6 = f6;
    let t5 = f5 + seq![44u8] + t6;
    let t4 = f4 + seq![44u8] + t5;
    lemma_fields_single(t6, v6);
    lemma_fields_cons(f5, v5, t6);
    lemma_fields_cons(f4, v4, t5);
    lemma_fields_cons(f3, v3, t4);
    assert(seq![v3] + (seq![v4] + (seq![v5] + seq![v6])) =~= seq![v3, v4, v5, v6]);
}

/// Seven comma-free fields joined by commas parse as their seven values.
#[verifier::spinoff_prover]
#[verifier::rlimit(100)]
proof fn lemma_fields_chain7(
    f0: Seq<u8>, f1: Seq<u8>, f2: Seq<u8>, f3: Seq<u8>, f4: Seq<u8>, f5: Seq<u8>, f6: Seq<u8>,
    v0: int, v1: int, v2: int, v3: int, v4: int, v5: int, v6: int,
)
    requires
        forall|j: int| 0 <= j < f0.len() ==> f0[j] != 44,
        forall|j: int| 0 <= j < f1.len() ==> f1[j] != 44,
        forall|j: int| 0 <= j < f2.len() ==> f2[j] != 44,
        forall|j: int| 0 <= j < f3.len() ==> f3[j] != 44,
        forall|j: int| 0 <= j < f4.len() ==> f4[j] != 44,
        forall|j: int| 0 <= j < f5.len() ==> f5[j] != 44,
        forall|j: int| 0 <= j < f6.len() ==> f6[j] != 44,
        parse_fixed_spec(f0) == Some(v0),
        parse_fixed_spec(f1) == Some(v1),
        parse_fixed_spec(f2) == Some(v2),
        parse_fixed_spec(f3) == Some(v3),
        parse_fixed_spec(f4) == Some(v4),
        parse_fixed_spec(f5) == Some(v5),
        parse_fixed_spec(f6) == Some(v6),
    ensures
        parse_fields(
            f0 + seq![44u8] + (f1 + seq![44u8] + (f2 + seq![44u8] + (f3 + seq![44u8] + (f4
                + seq![44u8] + (f5 + seq![44u8] + f6))))),
        ) == Some(seq![v0, v1, v2, v3, v4, v5, v6]),
        comma_count(
            f0 + seq![44u8] + (f1 + seq![44u8] + (f2 + seq![44u8] + (f3 + seq![44u8] + (f4
                + seq![44u8] + (f5 + seq![44u8] + f6))))),
        ) == 6,
{
    lemma_fields_chain4(f3, f4, f5, f6, v3, v4, v5, v6);
    let t3 = f3 + seq![44u8] + (f4 + seq![44u8] + (f5 + seq![44u8] + f6));
    let t2 = f2 + seq![44u8] + t3;
    let t1 = f1 + seq![44u8] + t2;
    let t0 = f0 + seq![44u8] + t1;
    lemma_fields_cons(f2, v2, t3);
    lemma_fields_cons(f1, v1, t2);
    lemma_fields_cons(f0, v0, t1);
    assert(parse_fields(t0) == Some(seq![v0, v1, v2, v3, v4, v5, v6])) by {
        assert(seq![v0] + (seq![v1] + (seq![v2] + seq![v3, v4, v5, v6])) =~= seq![
            v0,
            v1,
            v2,
            v3,
            v4,
            v5,
            v6,
        ]);
    }
    lemma_fields_count(t0);
}

/// Round trip of one line: the written form of a bounded vertex has
/// seven fields and parses back to exactly the seven values written.
pub proof fn lemma_line_round_trip(v: Vertex)
    requires
        vertex_bounded(v),
    ensures
        comma_count(format_line_spec(v)) == 6,
        parse_fields(format_line_spec(v)) == Some(vals_of_vertex(v)),
{
    lemma_parse_format(v.position.x as int);
    lemma_parse_format(v.position.y as int);
    lemma_parse_format(v.position.z as int);
    lemma_parse_format(v.color.x as int);
    lemma_parse_format(v.color.y as int);
    lemma_parse_format(v.color.z as int);
    lemma_parse_format(v.size as int);
    lemma_regroup7(
        format_spec(v.position.x as int),
        format_spec(v.position.y as int),
        format_spec(v.position.z as int),
        format_spec(v.color.x as int),
        format_spec(v.color.y as int),
        format_spec(v.color.z as int),
        format_spec(v.size as int),
    );
    lemma_fields_chain7(
        format_spec(v.position.x as int),
        format_spec(v.position.y as int),
        format_spec(v.position.z as int),
        format_spec(v.color.x as int),
        format_spec(v.color.y as int),
        format_spec(v.color.z as int),
        format_spec(v.size as int),
        v.position.x as int,
        v.position.y as int,
        v.position.z as int,
        v.color.x as int,
        v.color.y as int,
        v.color.z as int,
        v.size as int,
    );
    assert(vals_of_vertex(v) =~= seq![
        v.position.x as int,
        v.position.y as int,
        v.position.z as int,
        v.color.x as int,
        v.color.y as int,
        v.color.z as int,
        v.size as int,
    ]);
}

/// Write one vertex as a line of the record format.
pub fn make_line(v: &Vertex) -> (out: Vec<u8>)
    requires
        vertex_bounded(*v),
    ensures
        out@ == format_line_spec(*v),
        comma_count(out@) == 6,
        parse_fields(out@) == Some(vals_of_vertex(*v)),
{
    let mut out = format_fixed(v.position.x);
    out.push(44);
    let mut t = format_fixed(v.position.y);
    out.append(&mut t);
    out.push(44);
    let mut t = format_fixed(v.position.z);
    out.append(&mut t);
    out.push(44);
    let mut t = format_fixed(v.color.x);
    out.append(&mut t);
    out.push(44);
    let mut t = format_fixed(v.color.y);
    out.append(&mut t);
    out.push(44);
    let mut t = format_fixed(v.color.z);
    out.append(&mut t);
    out.push(44);
    let mut t = format_fixed(v.size);
    out.append(&mut t);
    proof {
        assert(out@ =~= format_line_spec(*v));
        lemma_line_round_trip(*v);
    }
    out
}

/// Serialize a batch's vertices back to the record format: one line per
/// vertex, each proved to parse back to the same seven values. Feeding
/// the result to `from_delimited_records` therefore re-ingests the
/// batch, field for field.
pub fn serialize_vertices(batch: &GeometryBatch) -> (lines: Vec<Vec<u8>>)
    requires
        forall|i: int| 0 <= i < batch.vertices@.len() ==> vertex_bounded(
            #[trigger] batch.vertices@[i],
        ),
    ensures
        lines@.len() == batch.vertices@.len(),
        forall|i: int| 0 <= i < lines@.len() ==> (#[trigger] lines@[i])@ == format_line_spec(
            batch.vertices@[i],
        ),
        forall|i: int| 0 <= i < lines@.len() ==> line_ok((#[trigger] lines@[i])@),
        forall|i: int| 0 <= i < lines@.len() ==> line_vals((#[trigger] lines@[i])@)
            == vals_of_vertex(batch.vertices@[i]),
{
    let n = batch.vertices.len();
    let mut lines: Vec<Vec<u8>> = Vec::new();
    let mut i: usize = 0;
    while i < n
        invariant
            i <= n,
            n == batch.vertices@.len(),
            forall|k: int| 0 <= k < batch.vertices@.len() ==> vertex_bounded(
                #[trigger] batch.vertices@[k],
            ),
            lines@.len() == i,
            forall|k: int| 0 <= k < i ==> (#[trigger] lines@[k])@ == format_line_spec(
                batch.vertices@[k],
            ),
            forall|k: int| 0 <= k < i ==> line_ok((#[trigger] lines@[k])@),
            forall|k: int| 0 <= k < i ==> line_vals((#[trigger] lines@[k])@) == vals_of_vertex(
                batch.vertices@[k],
            ),
        decreases n - i,
    {
        let line = make_line(&batch.vertices[i]);
        lines.push(line);
        i = i + 1;
    }
    lines
}

} // verus!
