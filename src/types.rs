//! The Kafka wire primitives: fixed-width big-endian integers, unsigned
//! varints, strings, byte arrays, arrays, UUIDs and tag buffers.
//!
//! Every reader takes the whole buffer and a read position, and returns the
//! value together with the position just past it, or `None` when the bytes do
//! not hold a well-formed value (in particular when they run out). Each
//! reader is pinned to a `parse_*` spec function over the same buffer and
//! position. Every writer appends to a growable byte buffer and is pinned to
//! a spec function giving the bytes it appends.

use vstd::arithmetic::div_mod::lemma_mod_breakdown;
use vstd::prelude::*;
use vstd::slice::{slice_subrange, slice_to_vec};
use vstd::utf8::{decode_utf8, encode_utf8, is_ascii_chars, valid_utf8};

verus! {

/// The number that `n` bytes of `s` starting at `p` spell in big-endian order.
pub open spec fn be_value(s: Seq<u8>, p: int, n: nat) -> nat
    decreases n,
{
    if n == 0 {
        0
    } else {
        be_value(s, p, (n - 1) as nat) * 256 + s[p + n - 1] as nat
    }
}

/// The `n` big-endian bytes of `v` (the low `8 * n` bits of it).
pub open spec fn be_bytes(v: nat, n: nat) -> Seq<u8>
    decreases n,
{
    if n == 0 {
        Seq::empty()
    } else {
        be_bytes(v / 256, (n - 1) as nat).push((v % 256) as u8)
    }
}

pub open spec fn pow256(n: nat) -> nat
    decreases n,
{
    if n == 0 {
        1
    } else {
        256 * pow256((n - 1) as nat)
    }
}

/// An `n`-byte unsigned big-endian integer at `p`.
pub open spec fn parse_uint(s: Seq<u8>, p: int, n: nat) -> Option<(nat, int)> {
    if 0 <= p && p + n <= s.len() {
        Some((be_value(s, p, n), p + n))
    } else {
        None
    }
}

proof fn lemma_be_value_bound(s: Seq<u8>, p: int, n: nat)
    ensures
        be_value(s, p, n) < pow256(n),
    decreases n,
{
    if n > 0 {
        lemma_be_value_bound(s, p, (n - 1) as nat);
        let a = be_value(s, p, (n - 1) as nat);
        let b = s[p + n - 1] as nat;
        let m = pow256((n - 1) as nat);
        assert(a * 256 + b < 256 * m) by (nonlinear_arith)
            requires
                a < m,
                b < 256,
        ;
    }
}

/// Reads `n` bytes at `p` as an unsigned big-endian integer.
fn read_uint(buf: &[u8], p: usize, n: usize) -> (r: Option<(u64, usize)>)
    requires
        n <= 8,
    ensures
        match r {
            Some((v, q)) => {
                &&& parse_uint(buf@, p as int, n as nat) == Some((v as nat, q as int))
                &&& n == 1 ==> v < 0x100
                &&& n == 2 ==> v < 0x10000
                &&& n == 4 ==> v < 0x100000000
            },
            None => parse_uint(buf@, p as int, n as nat) is None,
        },
{
    if n > buf.len() || p > buf.len() - n {
        return None;
    }
    let mut acc: u64 = 0;
    let mut i: usize = 0;
    while i < n
        invariant
            i <= n <= 8,
            p + n <= buf.len(),
            acc as nat == be_value(buf@, p as int, i as nat),
        decreases n - i,
    {
        proof {
            lemma_be_value_bound(buf@, p as int, i as nat);
            lemma_pow256_mono(i as nat, 7);
            reveal_with_fuel(pow256, 8);
            assert(pow256(7) == 0x100000000000000);
        }
        let b = buf[p + i];
        proof {
            let a = acc as nat;
            assert(a * 256 + b as nat <= 0xffffffffffffffff) by (nonlinear_arith)
                requires
                    a < 0x100000000000000,
                    b < 256,
            ;
        }
        acc = acc * 256 + b as u64;
        i = i + 1;
    }
    proof {
        lemma_be_value_bound(buf@, p as int, n as nat);
        reveal_with_fuel(pow256, 5);
    }
    Some((acc, p + n))
}

proof fn lemma_pow256_mono(a: nat, b: nat)
    requires
        a <= b,
    ensures
        pow256(a) <= pow256(b),
    decreases b,
{
    if a < b {
        lemma_pow256_mono(a, (b - 1) as nat);
    }
}


/// Appends the `n` big-endian bytes of `v`.
fn put_uint(out: &mut Vec<u8>, v: u64, n: usize)
    requires
        n <= 8,
    ensures
        final(out)@ == old(out)@ + be_bytes(v as nat, n as nat),
    decreases n,
{
    if n > 0 {
        put_uint(out, v / 256, n - 1);
        out.push((v % 256) as u8);
        proof {
            assert(final(out)@ =~= old(out)@ + be_bytes(v as nat, n as nat));
        }
    }
}

/// Whatever surrounds them, the `n` bytes of `be_bytes(v, n)` read back as
/// `v` modulo `256^n`.
pub proof fn lemma_be_round_trip(s: Seq<u8>, p: int, v: nat, n: nat)
    requires
        0 <= p,
        p + n <= s.len(),
        s.subrange(p, p + n) == be_bytes(v, n),
    ensures
        be_value(s, p, n) == v % pow256(n),
    decreases n,
{
    if n == 0 {
        assert(v % 1 == 0);
    } else {
        let m = (n - 1) as nat;
        assert(s.subrange(p, p + m) =~= be_bytes(v, n).subrange(0, m as int));
        assert(be_bytes(v, n).subrange(0, m as int) =~= be_bytes(v / 256, m));
        assert(s[p + n - 1] == be_bytes(v, n)[m as int]);
        lemma_be_round_trip(s, p, v / 256, m);
        lemma_pow256_pos(m);
        lemma_mod_breakdown(v as int, 256, pow256(m) as int);
    }
}

pub proof fn lemma_pow256_pos(n: nat)
    ensures
        pow256(n) > 0,
    decreases n,
{
    if n > 0 {
        lemma_pow256_pos((n - 1) as nat);
    }
}

pub proof fn lemma_be_bytes_len(v: nat, n: nat)
    ensures
        be_bytes(v, n).len() == n,
    decreases n,
{
    if n > 0 {
        lemma_be_bytes_len(v / 256, (n - 1) as nat);
    }
}

/// A reader's result `r` agrees with what the spec parser `e` gives: the same
/// value (by view) and the same next position, or failure on both sides.
pub open spec fn read_as<T: View>(r: Option<(T, usize)>, e: Option<(T::V, int)>) -> bool {
    match e {
        Some((v, q)) => r is Some && r.unwrap().0@ == v && r.unwrap().1 as int == q,
        None => r is None,
    }
}

// ---------------------------------------------------------------------------
// Fixed-width integers.

pub open spec fn u8_bytes(v: u8) -> Seq<u8> {
    be_bytes(v as nat, 1)
}

pub open spec fn i16_bytes(v: i16) -> Seq<u8> {
    be_bytes(v as u16 as nat, 2)
}

pub open spec fn i32_bytes(v: i32) -> Seq<u8> {
    be_bytes(v as u32 as nat, 4)
}

pub open spec fn u32_bytes(v: u32) -> Seq<u8> {
    be_bytes(v as nat, 4)
}

pub open spec fn i64_bytes(v: i64) -> Seq<u8> {
    be_bytes(v as u64 as nat, 8)
}

pub open spec fn parse_u8(s: Seq<u8>, p: int) -> Option<(u8, int)> {
    match parse_uint(s, p, 1) {
        Some((v, q)) => Some((v as u8, q)),
        None => None,
    }
}

pub open spec fn parse_i8(s: Seq<u8>, p: int) -> Option<(i8, int)> {
    match parse_uint(s, p, 1) {
        Some((v, q)) => Some((v as u8 as i8, q)),
        None => None,
    }
}

pub open spec fn parse_u16(s: Seq<u8>, p: int) -> Option<(u16, int)> {
    match parse_uint(s, p, 2) {
        Some((v, q)) => Some((v as u16, q)),
        None => None,
    }
}

pub open spec fn parse_i16(s: Seq<u8>, p: int) -> Option<(i16, int)> {
    match parse_uint(s, p, 2) {
        Some((v, q)) => Some((v as u16 as i16, q)),
        None => None,
    }
}

pub open spec fn parse_u32(s: Seq<u8>, p: int) -> Option<(u32, int)> {
    match parse_uint(s, p, 4) {
        Some((v, q)) => Some((v as u32, q)),
        None => None,
    }
}

pub open spec fn parse_i32(s: Seq<u8>, p: int) -> Option<(i32, int)> {
    match parse_uint(s, p, 4) {
        Some((v, q)) => Some((v as u32 as i32, q)),
        None => None,
    }
}

pub open spec fn parse_u64(s: Seq<u8>, p: int) -> Option<(u64, int)> {
    match parse_uint(s, p, 8) {
        Some((v, q)) => Some((v as u64, q)),
        None => None,
    }
}

pub open spec fn parse_i64(s: Seq<u8>, p: int) -> Option<(i64, int)> {
    match parse_uint(s, p, 8) {
        Some((v, q)) => Some((v as u64 as i64, q)),
        None => None,
    }
}

pub fn read_u8(buf: &[u8], p: usize) -> (r: Option<(u8, usize)>)
    ensures
        read_as(r, parse_u8(buf@, p as int)),
{
    match read_uint(buf, p, 1) {
        Some((v, q)) => Some((v as u8, q)),
        None => None,
    }
}

pub fn read_i8(buf: &[u8], p: usize) -> (r: Option<(i8, usize)>)
    ensures
        read_as(r, parse_i8(buf@, p as int)),
{
    match read_uint(buf, p, 1) {
        Some((v, q)) => Some((v as u8 as i8, q)),
        None => None,
    }
}

pub fn read_u16(buf: &[u8], p: usize) -> (r: Option<(u16, usize)>)
    ensures
        read_as(r, parse_u16(buf@, p as int)),
{
    match read_uint(buf, p, 2) {
        Some((v, q)) => Some((v as u16, q)),
        None => None,
    }
}

pub fn read_i16(buf: &[u8], p: usize) -> (r: Option<(i16, usize)>)
    ensures
        read_as(r, parse_i16(buf@, p as int)),
{
    match read_uint(buf, p, 2) {
        Some((v, q)) => Some((v as u16 as i16, q)),
        None => None,
    }
}

pub fn read_u32(buf: &[u8], p: usize) -> (r: Option<(u32, usize)>)
    ensures
        read_as(r, parse_u32(buf@, p as int)),
{
    match read_uint(buf, p, 4) {
        Some((v, q)) => Some((v as u32, q)),
        None => None,
    }
}

pub fn read_i32(buf: &[u8], p: usize) -> (r: Option<(i32, usize)>)
    ensures
        read_as(r, parse_i32(buf@, p as int)),
{
    match read_uint(buf, p, 4) {
        Some((v, q)) => Some((v as u32 as i32, q)),
        None => None,
    }
}

pub fn read_u64(buf: &[u8], p: usize) -> (r: Option<(u64, usize)>)
    ensures
        read_as(r, parse_u64(buf@, p as int)),
{
    read_uint(buf, p, 8)
}

pub fn read_i64(buf: &[u8], p: usize) -> (r: Option<(i64, usize)>)
    ensures
        read_as(r, parse_i64(buf@, p as int)),
{
    match read_uint(buf, p, 8) {
        Some((v, q)) => Some((v as i64, q)),
        None => None,
    }
}

pub fn write_u8(out: &mut Vec<u8>, v: u8)
    ensures
        final(out)@ == old(out)@ + be_bytes(v as nat, 1),
{
    put_uint(out, v as u64, 1);
}

pub fn write_i8(out: &mut Vec<u8>, v: i8)
    ensures
        final(out)@ == old(out)@ + be_bytes(v as u8 as nat, 1),
{
    put_uint(out, v as u8 as u64, 1);
}

pub fn write_u16(out: &mut Vec<u8>, v: u16)
    ensures
        final(out)@ == old(out)@ + be_bytes(v as nat, 2),
{
    put_uint(out, v as u64, 2);
}

pub fn write_i16(out: &mut Vec<u8>, v: i16)
    ensures
        final(out)@ == old(out)@ + be_bytes(v as u16 as nat, 2),
{
    put_uint(out, v as u16 as u64, 2);
}

pub fn write_u32(out: &mut Vec<u8>, v: u32)
    ensures
        final(out)@ == old(out)@ + be_bytes(v as nat, 4),
{
    put_uint(out, v as u64, 4);
}

pub fn write_i32(out: &mut Vec<u8>, v: i32)
    ensures
        final(out)@ == old(out)@ + be_bytes(v as u32 as nat, 4),
{
    put_uint(out, v as u32 as u64, 4);
}

pub fn write_u64(out: &mut Vec<u8>, v: u64)
    ensures
        final(out)@ == old(out)@ + be_bytes(v as nat, 8),
{
    put_uint(out, v, 8);
}

pub fn write_i64(out: &mut Vec<u8>, v: i64)
    ensures
        final(out)@ == old(out)@ + be_bytes(v as u64 as nat, 8),
{
    put_uint(out, v as u64, 8);
}

// ---------------------------------------------------------------------------
// Unsigned varints: seven bits per byte, least significant group first, the
// high bit of each byte set when another byte follows.

/// The most bytes a varint may take.
pub const MAX_VARINT_BYTES: usize = 10;

pub open spec fn pow128(n: nat) -> nat
    decreases n,
{
    if n == 0 {
        1
    } else {
        128 * pow128((n - 1) as nat)
    }
}

/// The varint at `p` read with at most `budget` bytes: its value and the
/// position after it.
pub open spec fn varint_value(s: Seq<u8>, p: int, budget: nat) -> Option<(nat, int)>
    decreases budget,
{
    if budget == 0 || p < 0 || p >= s.len() {
        None
    } else if s[p] < 128 {
        Some((s[p] as nat, p + 1))
    } else {
        match varint_value(s, p + 1, (budget - 1) as nat) {
            Some((v, q)) => Some((((s[p] - 128) + 128 * v) as nat, q)),
            None => None,
        }
    }
}

/// A varint of at most ten bytes whose value fits in an `i64`.
pub open spec fn parse_varint(s: Seq<u8>, p: int) -> Option<(i64, int)> {
    match varint_value(s, p, MAX_VARINT_BYTES as nat) {
        Some((v, q)) => if v <= i64::MAX {
            Some((v as i64, q))
        } else {
            None
        },
        None => None,
    }
}

/// The shortest varint encoding of `n`.
pub open spec fn varint_bytes(n: nat) -> Seq<u8>
    decreases n,
{
    if n < 128 {
        seq![n as u8]
    } else {
        seq![(n % 128 + 128) as u8] + varint_bytes(n / 128)
    }
}

fn read_varint_from(buf: &[u8], p: usize, budget: usize) -> (r: Option<(u128, usize)>)
    requires
        budget <= MAX_VARINT_BYTES,
    ensures
        match r {
            Some((v, q)) => varint_value(buf@, p as int, budget as nat) == Some((v as nat, q as int))
                && v < pow128(budget as nat),
            None => varint_value(buf@, p as int, budget as nat) is None,
        },
    decreases budget,
{
    if budget == 0 || p >= buf.len() {
        return None;
    }
    let b = buf[p];
    if b < 128 {
        proof {
            lemma_pow128_mono(1, budget as nat);
            reveal_with_fuel(pow128, 2);
        }
        Some((b as u128, p + 1))
    } else {
        match read_varint_from(buf, p + 1, budget - 1) {
            Some((v, q)) => {
                proof {
                    let k = (budget - 1) as nat;
                    lemma_pow128_mono(k, 9);
                    reveal_with_fuel(pow128, 10);
                    assert(pow128(9) == 0x8000000000000000);
                    assert(pow128(budget as nat) == 128 * pow128(k));
                    let pk = pow128(k);
                    let x = (b - 128) as nat;
                    assert(x + 128 * v < 128 * pk) by (nonlinear_arith)
                        requires
                            x < 128,
                            v < pk,
                    ;
                    assert(varint_value(buf@, p as int, budget as nat) == Some(((x + 128 * v) as nat, q as int)));
                }
                Some(((b - 128) as u128 + 128 * v, q))
            },
            None => None,
        }
    }
}

proof fn lemma_pow128_mono(a: nat, b: nat)
    requires
        a <= b,
    ensures
        pow128(a) <= pow128(b),
    decreases b,
{
    if a < b {
        lemma_pow128_mono(a, (b - 1) as nat);
    }
}

fn put_varint(out: &mut Vec<u8>, n: u128)
    ensures
        final(out)@ == old(out)@ + varint_bytes(n as nat),
    decreases n,
{
    if n < 128 {
        out.push(n as u8);
        proof {
            assert(final(out)@ =~= old(out)@ + varint_bytes(n as nat));
        }
    } else {
        out.push((n % 128 + 128) as u8);
        let ghost mid = out@;
        put_varint(out, n / 128);
        proof {
            assert(final(out)@ =~= old(out)@ + varint_bytes(n as nat));
        }
    }
}

/// The varint reader and writer.
pub struct VarInt;

impl VarInt {
    /// Reads an unsigned varint of at most ten bytes; fails on a longer one,
    /// on one that runs past the end, or on a value beyond `i64::MAX`.
    pub fn deserialize(buf: &[u8], p: usize) -> (r: Option<(i64, usize)>)
        ensures
            read_as(r, parse_varint(buf@, p as int)),
    {
        match read_varint_from(buf, p, MAX_VARINT_BYTES) {
            Some((v, q)) => if v <= i64::MAX as u128 {
                Some((v as i64, q))
            } else {
                None
            },
            None => None,
        }
    }

    /// Appends the shortest varint encoding of `n`.
    pub fn serialize(out: &mut Vec<u8>, n: u64)
        ensures
            final(out)@ == old(out)@ + varint_bytes(n as nat),
    {
        put_varint(out, n as u128);
    }
}

proof fn lemma_varint_bytes_len(n: nat, k: nat)
    requires
        k >= 1,
        n < pow128(k),
    ensures
        1 <= varint_bytes(n).len() <= k,
    decreases n,
{
    if n >= 128 {
        assert(k >= 2) by {
            if k == 1 {
                reveal_with_fuel(pow128, 2);
            }
        }
        let k1 = (k - 1) as nat;
        assert(n / 128 < pow128(k1)) by {
            assert(pow128(k) == 128 * pow128(k1));
            let pk = pow128(k1);
            assert(n / 128 < pk) by (nonlinear_arith)
                requires
                    n < 128 * pk,
            ;
        }
        lemma_varint_bytes_len(n / 128, k1);
    }
}

proof fn lemma_varint_decode_encoded(s: Seq<u8>, p: int, n: nat, budget: nat)
    requires
        0 <= p,
        p + varint_bytes(n).len() <= s.len(),
        s.subrange(p, p + varint_bytes(n).len()) == varint_bytes(n),
        varint_bytes(n).len() <= budget,
    ensures
        varint_value(s, p, budget) == Some((n, p + varint_bytes(n).len())),
    decreases n,
{
    let e = varint_bytes(n);
    assert(s[p] == s.subrange(p, p + e.len())[0]);
    if n >= 128 {
        let t = varint_bytes(n / 128);
        assert(e =~= seq![(n % 128 + 128) as u8] + t);
        assert(s.subrange(p + 1, p + 1 + t.len()) =~= e.subrange(1, e.len() as int));
        assert(e.subrange(1, e.len() as int) =~= t);
        lemma_varint_decode_encoded(s, p + 1, n / 128, (budget - 1) as nat);
    }
}

/// A varint written by the writer reads back as the same number, whatever
/// follows it, for every `n < 2^63`.
pub proof fn varint_round_trip(n: u64, s: Seq<u8>, p: int)
    requires
        n <= i64::MAX,
        0 <= p,
        p + varint_bytes(n as nat).len() <= s.len(),
        s.subrange(p, p + varint_bytes(n as nat).len()) == varint_bytes(n as nat),
    ensures
        parse_varint(s, p) == Some((n as i64, p + varint_bytes(n as nat).len())),
{
    reveal_with_fuel(pow128, 11);
    assert(pow128(10) > u64::MAX);
    lemma_varint_bytes_len(n as nat, 10);
    lemma_varint_decode_encoded(s, p, n as nat, 10);
}

/// Ten bytes that all carry the continuation bit never read as a varint.
pub proof fn varint_longer_than_ten_bytes_fails(s: Seq<u8>, p: int)
    requires
        0 <= p,
        p + MAX_VARINT_BYTES <= s.len(),
        forall|i: int| p <= i < p + MAX_VARINT_BYTES ==> #[trigger] s[i] >= 128,
    ensures
        parse_varint(s, p) is None,
{
    lemma_varint_continuation_fails(s, p, 10);
}

proof fn lemma_varint_continuation_fails(s: Seq<u8>, p: int, budget: nat)
    requires
        0 <= p,
        p + budget <= s.len(),
        forall|i: int| p <= i < p + budget ==> #[trigger] s[i] >= 128,
    ensures
        varint_value(s, p, budget) is None,
    decreases budget,
{
    if budget > 0 {
        assert(s[p] >= 128);
        lemma_varint_continuation_fails(s, p + 1, (budget - 1) as nat);
    }
}

// ---------------------------------------------------------------------------
// Lengths and raw byte runs.

/// The length `N` that a compact prefix `N + 1` announces (a prefix of zero
/// marks null, which reads as length zero).
pub open spec fn parse_compact_len(s: Seq<u8>, p: int) -> Option<(nat, int)> {
    match parse_varint(s, p) {
        Some((v, q)) => Some((if v <= 0 { 0nat } else { (v - 1) as nat }, q)),
        None => None,
    }
}

/// The bytes of a compact prefix for length `n`.
pub open spec fn compact_len_bytes(n: nat) -> Seq<u8> {
    varint_bytes(n + 1)
}

fn read_compact_len(buf: &[u8], p: usize) -> (r: Option<(u64, usize)>)
    ensures
        match r {
            Some((n, q)) => parse_compact_len(buf@, p as int) == Some((n as nat, q as int)),
            None => parse_compact_len(buf@, p as int) is None,
        },
{
    match VarInt::deserialize(buf, p) {
        Some((v, q)) => if v <= 0 {
            Some((0, q))
        } else {
            Some(((v - 1) as u64, q))
        },
        None => None,
    }
}

fn write_compact_len(out: &mut Vec<u8>, n: usize)
    ensures
        final(out)@ == old(out)@ + compact_len_bytes(n as nat),
{
    put_varint(out, n as u128 + 1);
}

/// The `n` bytes at `p`, when that many remain.
pub open spec fn parse_run(s: Seq<u8>, p: int, n: nat) -> Option<(Seq<u8>, int)> {
    if 0 <= p && p + n <= s.len() {
        Some((s.subrange(p, p + n), p + n))
    } else {
        None
    }
}

fn read_run(buf: &[u8], p: usize, n: u64) -> (r: Option<(Vec<u8>, usize)>)
    ensures
        read_as(r, parse_run(buf@, p as int, n as nat)),
{
    if p > buf.len() || n > (buf.len() - p) as u64 {
        return None;
    }
    let q = p + n as usize;
    let run = slice_to_vec(slice_subrange(buf, p, q));
    Some((run, q))
}

/// Appends the bytes of `b`.
pub fn put_slice(out: &mut Vec<u8>, b: &[u8])
    ensures
        final(out)@ == old(out)@ + b@,
{
    let mut v = slice_to_vec(b);
    out.append(&mut v);
}

// ---------------------------------------------------------------------------
// Text.

/// What the UTF-8 decoder makes of `b` when it is not valid UTF-8: each
/// invalid sequence stands replaced by U+FFFD.
pub uninterp spec fn lossy_utf8(b: Seq<u8>) -> Seq<char>;

/// The text that the bytes `b` carry: their characters when they are valid
/// UTF-8, else the lossy decoding.
pub open spec fn text_of(b: Seq<u8>) -> Seq<char> {
    if valid_utf8(b) {
        decode_utf8(b)
    } else {
        lossy_utf8(b)
    }
}

/// Relies on `String::from_utf8_lossy`: valid UTF-8 decodes to its
/// characters unchanged; otherwise the result depends on the bytes alone.
#[verifier::external_body]
fn utf8_lossy(b: &[u8]) -> (r: String)
    ensures
        valid_utf8(b@) ==> r@ == decode_utf8(b@),
        !valid_utf8(b@) ==> r@ == lossy_utf8(b@),
{
    String::from_utf8_lossy(b).into_owned()
}

/// A compact string: a compact length `N`, then `N` bytes of UTF-8.
pub open spec fn parse_compact_bytes(s: Seq<u8>, p: int) -> Option<(Seq<u8>, int)> {
    match parse_compact_len(s, p) {
        Some((n, q)) => parse_run(s, q, n),
        None => None,
    }
}

pub open spec fn parse_compact_string(s: Seq<u8>, p: int) -> Option<(Seq<char>, int)> {
    match parse_compact_bytes(s, p) {
        Some((b, q)) => Some((text_of(b), q)),
        None => None,
    }
}

pub open spec fn compact_bytes_bytes(b: Seq<u8>) -> Seq<u8> {
    compact_len_bytes(b.len()) + b
}

pub open spec fn compact_string_bytes(t: Seq<char>) -> Seq<u8> {
    compact_bytes_bytes(encode_utf8(t))
}

/// A nullable string: an `INT16` length `N`, then `N` bytes of UTF-8; a
/// length of -1 is null and reads as the empty string.
pub open spec fn parse_nullable_string(s: Seq<u8>, p: int) -> Option<(Seq<char>, int)> {
    match parse_i16(s, p) {
        Some((n, q)) => if n == -1 {
            Some((Seq::empty(), q))
        } else if n < 0 {
            None
        } else {
            match parse_run(s, q, n as nat) {
                Some((b, r)) => Some((text_of(b), r)),
                None => None,
            }
        },
        None => None,
    }
}

/// The reader and writer of compact strings.
pub struct CompactString;

impl CompactString {
    pub fn serialize(out: &mut Vec<u8>, s: &str)
        ensures
            final(out)@ == old(out)@ + compact_string_bytes(s@),
    {
        let b = s.as_bytes();
        write_compact_len(out, b.len());
        put_slice(out, b);
        proof {
            assert(final(out)@ =~= old(out)@ + compact_string_bytes(s@));
        }
    }

    pub fn deserialize(buf: &[u8], p: usize) -> (r: Option<(String, usize)>)
        ensures
            read_as(r, parse_compact_string(buf@, p as int)),
    {
        match read_compact_len(buf, p) {
            Some((n, q)) => match read_run(buf, q, n) {
                Some((b, end)) => Some((utf8_lossy(b.as_slice()), end)),
                None => None,
            },
            None => None,
        }
    }
}

/// The reader of nullable strings.
pub struct NullableString;

impl NullableString {
    pub fn deserialize(buf: &[u8], p: usize) -> (r: Option<(String, usize)>)
        ensures
            read_as(r, parse_nullable_string(buf@, p as int)),
    {
        match read_i16(buf, p) {
            Some((n, q)) => if n == -1 {
                Some((String::new(), q))
            } else if n < 0 {
                None
            } else {
                match read_run(buf, q, n as u64) {
                    Some((b, end)) => Some((utf8_lossy(b.as_slice()), end)),
                    None => None,
                }
            },
            None => None,
        }
    }
}

/// The reader and writer of compact nullable byte runs; null reads as empty.
pub struct CompactNullableBytes;

impl CompactNullableBytes {
    pub fn serialize(out: &mut Vec<u8>, b: &[u8])
        ensures
            final(out)@ == old(out)@ + compact_bytes_bytes(b@),
    {
        write_compact_len(out, b.len());
        put_slice(out, b);
        proof {
            assert(final(out)@ =~= old(out)@ + compact_bytes_bytes(b@));
        }
    }

    pub fn deserialize(buf: &[u8], p: usize) -> (r: Option<(Vec<u8>, usize)>)
        ensures
            read_as(r, parse_compact_bytes(buf@, p as int)),
    {
        match read_compact_len(buf, p) {
            Some((n, q)) => read_run(buf, q, n),
            None => None,
        }
    }
}

// ---------------------------------------------------------------------------
// Tag buffers: a count of tagged fields, always zero here.

/// An empty tag buffer; a non-zero count is refused.
pub open spec fn parse_tag_buffer(s: Seq<u8>, p: int) -> Option<int> {
    match parse_varint(s, p) {
        Some((n, q)) => if n == 0 {
            Some(q)
        } else {
            None
        },
        None => None,
    }
}

pub open spec fn tag_buffer_bytes() -> Seq<u8> {
    seq![0u8]
}

/// The reader and writer of tag buffers.
pub struct TaggedFields;

impl TaggedFields {
    pub fn serialize(out: &mut Vec<u8>)
        ensures
            final(out)@ == old(out)@ + tag_buffer_bytes(),
    {
        out.push(0);
        proof {
            assert(final(out)@ =~= old(out)@ + tag_buffer_bytes());
        }
    }

    /// Reads the count of tagged fields and returns the position after it.
    pub fn deserialize(buf: &[u8], p: usize) -> (r: Option<usize>)
        ensures
            match r {
                Some(q) => parse_tag_buffer(buf@, p as int) == Some(q as int),
                None => parse_tag_buffer(buf@, p as int) is None,
            },
    {
        match VarInt::deserialize(buf, p) {
            Some((n, q)) => if n == 0 {
                Some(q)
            } else {
                None
            },
            None => None,
        }
    }
}

// ---------------------------------------------------------------------------
// UUIDs: sixteen raw bytes on the wire, `8-4-4-4-12` lowercase hex as text.

#[verifier::external_type_specification]
#[verifier::external_body]
pub struct ExFromHexError(hex::FromHexError);

/// The lowercase hex digit for `d < 16`.
pub open spec fn hex_digit(d: int) -> char {
    seq!['0', '1', '2', '3', '4', '5', '6', '7', '8', '9', 'a', 'b', 'c', 'd', 'e', 'f'][d]
}

/// Two lowercase hex digits per byte, high nibble first.
pub open spec fn hex_text(b: Seq<u8>) -> Seq<char> {
    Seq::new(
        2 * b.len(),
        |i: int|
            if i % 2 == 0 {
                hex_digit(b[i / 2] as int / 16)
            } else {
                hex_digit(b[i / 2] as int % 16)
            },
    )
}

pub open spec fn is_hex_byte(c: u8) -> bool {
    (48 <= c <= 57) || (97 <= c <= 102) || (65 <= c <= 70)
}

/// The value of a hex digit, in either case.
pub open spec fn hex_value(c: u8) -> int {
    if 48 <= c <= 57 {
        c - 48
    } else if 97 <= c <= 102 {
        c - 87
    } else {
        c - 55
    }
}

/// The bytes that pairs of hex digits spell.
pub open spec fn unhex(h: Seq<u8>) -> Seq<u8> {
    Seq::new(h.len() / 2, |i: int| (16 * hex_value(h[2 * i]) + hex_value(h[2 * i + 1])) as u8)
}

/// Relies on `hex::encode`: two lowercase digits per byte, high nibble first.
#[verifier::external_body]
fn hex_encode(b: &[u8]) -> (r: String)
    ensures
        r@ == hex_text(b@),
{
    hex::encode(b)
}

/// Relies on `hex::decode`: an even number of hex digits of either case
/// decodes pair by pair; anything else is an error.
#[verifier::external_body]
fn hex_decode(h: &[u8]) -> (r: Result<Vec<u8>, hex::FromHexError>)
    ensures
        r is Ok <==> (h@.len() % 2 == 0 && forall|i: int| 0 <= i < h@.len() ==> is_hex_byte(#[trigger] h@[i])),
        r is Ok ==> r.unwrap()@ == unhex(h@),
{
    hex::decode(h)
}

/// Where the dashes of a UUID's text stand.
pub open spec fn is_uuid_dash(i: int) -> bool {
    i == 8 || i == 13 || i == 18 || i == 23
}

/// The character that UUID text may hold at position `i`.
pub open spec fn is_uuid_char(i: int, c: char) -> bool {
    if is_uuid_dash(i) {
        c == '-'
    } else {
        (c as nat) < 128 && is_hex_byte(c as u8)
    }
}

/// UUID text: 36 characters, dashes at 8, 13, 18 and 23, hex digits of either
/// case elsewhere.
pub open spec fn is_uuid_text(t: Seq<char>) -> bool {
    &&& t.len() == 36
    &&& is_ascii_chars(t)
    &&& forall|i: int| 0 <= i < 36 ==> is_uuid_char(i, #[trigger] t[i])
}

/// The bytes of ASCII text.
pub open spec fn ascii_bytes(t: Seq<char>) -> Seq<u8> {
    t.map_values(|c: char| c as u8)
}

/// The sixteen bytes that UUID text spells.
pub open spec fn uuid_bytes(t: Seq<char>) -> Seq<u8> {
    let a = ascii_bytes(t);
    unhex(a.subrange(0, 8)) + unhex(a.subrange(9, 13)) + unhex(a.subrange(14, 18)) + unhex(
        a.subrange(19, 23),
    ) + unhex(a.subrange(24, 36))
}

/// The canonical text of sixteen bytes.
pub open spec fn uuid_text(b: Seq<u8>) -> Seq<char> {
    hex_text(b.subrange(0, 4)) + seq!['-'] + hex_text(b.subrange(4, 6)) + seq!['-'] + hex_text(
        b.subrange(6, 8),
    ) + seq!['-'] + hex_text(b.subrange(8, 10)) + seq!['-'] + hex_text(b.subrange(10, 16))
}

pub open spec fn parse_uuid(s: Seq<u8>, p: int) -> Option<(Seq<char>, int)> {
    match parse_run(s, p, 16) {
        Some((b, q)) => Some((uuid_text(b), q)),
        None => None,
    }
}

/// The reader and writer of UUIDs.
pub struct Uuid;

impl Uuid {
    /// Appends the sixteen bytes that the UUID text `s` spells.
    pub fn serialize(out: &mut Vec<u8>, s: &str)
        requires
            is_uuid_text(s@),
        ensures
            final(out)@ == old(out)@ + uuid_bytes(s@),
    {
        proof {
            assert(is_ascii_chars(s@));
            vstd::utf8::is_ascii_chars_encode_utf8(s@);
        }
        let h = s.as_bytes();
        proof {
            assert(h@ =~= ascii_bytes(s@));
        }
        let ghost a = h@;
        Self::put_group(out, h, 0, 8);
        Self::put_group(out, h, 9, 13);
        Self::put_group(out, h, 14, 18);
        Self::put_group(out, h, 19, 23);
        Self::put_group(out, h, 24, 36);
        proof {
            assert(final(out)@ =~= old(out)@ + uuid_bytes(s@));
        }
    }

    fn put_group(out: &mut Vec<u8>, h: &[u8], i: usize, j: usize)
        requires
            i <= j <= h@.len(),
            (j - i) % 2 == 0,
            forall|k: int| i <= k < j ==> is_hex_byte(#[trigger] h@[k]),
        ensures
            final(out)@ == old(out)@ + unhex(h@.subrange(i as int, j as int)),
    {
        let g = slice_subrange(h, i, j);
        proof {
            assert forall|k: int| 0 <= k < g@.len() implies is_hex_byte(#[trigger] g@[k]) by {
                assert(g@[k] == h@[i + k]);
            }
        }
        match hex_decode(g) {
            Ok(b) => put_slice(out, b.as_slice()),
            Err(_) => {
                assert(false);
            },
        }
    }

    /// Reads sixteen bytes and renders them as canonical UUID text.
    pub fn deserialize(buf: &[u8], p: usize) -> (r: Option<(String, usize)>)
        ensures
            read_as(r, parse_uuid(buf@, p as int)),
    {
        if p > buf.len() || buf.len() - p < 16 {
            return None;
        }
        let b = slice_subrange(buf, p, p + 16);
        let dash = "-";
        proof {
            reveal_strlit("-");
        }
        let mut t = hex_encode(slice_subrange(b, 0, 4));
        t.append(dash);
        t.append(hex_encode(slice_subrange(b, 4, 6)).as_str());
        t.append(dash);
        t.append(hex_encode(slice_subrange(b, 6, 8)).as_str());
        t.append(dash);
        t.append(hex_encode(slice_subrange(b, 8, 10)).as_str());
        t.append(dash);
        t.append(hex_encode(slice_subrange(b, 10, 16)).as_str());
        proof {
            assert(t@ =~= uuid_text(b@));
        }
        Some((t, p + 16))
    }
}

// ---------------------------------------------------------------------------
// Arrays of values of one type.

/// A decoder of values of type `T` from the wire.
pub trait Deserialize<T: View> {
    /// What the bytes at `p` hold, and the position after it.
    spec fn parse(s: Seq<u8>, p: int) -> Option<(T::V, int)>;

    fn deserialize(buf: &[u8], p: usize) -> (r: Option<(T, usize)>)
        ensures
            read_as(r, Self::parse(buf@, p as int)),
    ;
}

/// An encoder of values to the wire.
pub trait Serialize: View + Sized {
    /// The values that have an encoding.
    spec fn valid(v: Self::V) -> bool;

    /// The encoding of a value.
    spec fn wire(v: Self::V) -> Seq<u8>;

    fn serialize(&self, out: &mut Vec<u8>)
        requires
            Self::valid(self@),
        ensures
            final(out)@ == old(out)@ + Self::wire(self@),
    ;
}

/// The views of the items of a vector.
pub open spec fn views<T: View>(v: Seq<T>) -> Seq<T::V> {
    v.map_values(|x: T| x@)
}

/// Like `read_as`, for a vector compared item by item through the view.
pub open spec fn read_seq_as<T: View>(r: Option<(Vec<T>, usize)>, e: Option<(Seq<T::V>, int)>) -> bool {
    match e {
        Some((v, q)) => r is Some && views(r.unwrap().0@) == v && r.unwrap().1 as int == q,
        None => r is None,
    }
}

/// `n` values one after the other from `p`.
pub open spec fn parse_elems<T: View, U: Deserialize<T>>(s: Seq<u8>, p: int, n: nat) -> Option<(Seq<T::V>, int)>
    decreases n,
{
    if n == 0 {
        Some((Seq::empty(), p))
    } else {
        match parse_elems::<T, U>(s, p, (n - 1) as nat) {
            Some((xs, q)) => match U::parse(s, q) {
                Some((x, r)) => Some((xs.push(x), r)),
                None => None,
            },
            None => None,
        }
    }
}

/// A compact array: a compact length `N`, then `N` values (null reads as
/// empty).
pub open spec fn parse_compact_array<T: View, U: Deserialize<T>>(s: Seq<u8>, p: int) -> Option<(Seq<T::V>, int)> {
    match parse_compact_len(s, p) {
        Some((n, q)) => parse_elems::<T, U>(s, q, n),
        None => None,
    }
}

/// An array: an `INT32` length `N`, then `N` values; -1 is null and reads as
/// empty.
pub open spec fn parse_array<T: View, U: Deserialize<T>>(s: Seq<u8>, p: int) -> Option<(Seq<T::V>, int)> {
    match parse_i32(s, p) {
        Some((n, q)) => if n == -1 {
            Some((Seq::empty(), q))
        } else if n < 0 {
            None
        } else {
            parse_elems::<T, U>(s, q, n as nat)
        },
        None => None,
    }
}

proof fn lemma_parse_elems_fails_on<T: View, U: Deserialize<T>>(s: Seq<u8>, p: int, k: nat, n: nat)
    requires
        k <= n,
        parse_elems::<T, U>(s, p, k) is None,
    ensures
        parse_elems::<T, U>(s, p, n) is None,
    decreases n,
{
    if k < n {
        lemma_parse_elems_fails_on::<T, U>(s, p, k, (n - 1) as nat);
    }
}

fn read_elems<T: View, U: Deserialize<T>>(buf: &[u8], p: usize, n: u64) -> (r: Option<(Vec<T>, usize)>)
    ensures
        read_seq_as(r, parse_elems::<T, U>(buf@, p as int, n as nat)),
{
    let mut items: Vec<T> = Vec::new();
    let mut q = p;
    let mut i: u64 = 0;
    while i < n
        invariant
            i <= n,
            parse_elems::<T, U>(buf@, p as int, i as nat) == Some((views(items@), q as int)),
        decreases n - i,
    {
        match U::deserialize(buf, q) {
            Some((x, next)) => {
                let ghost before = items@;
                let ghost xv = x@;
                items.push(x);
                q = next;
                i = i + 1;
                proof {
                    assert(views(items@) =~= views(before).push(xv));
                }
            },
            None => {
                proof {
                    lemma_parse_elems_fails_on::<T, U>(buf@, p as int, (i + 1) as nat, n as nat);
                }
                return None;
            },
        }
    }
    Some((items, q))
}

/// The reader and writer of compact arrays.
pub struct CompactArray;

impl CompactArray {
    pub fn deserialize<T: View, U: Deserialize<T>>(buf: &[u8], p: usize) -> (r: Option<(Vec<T>, usize)>)
        ensures
            read_seq_as(r, parse_compact_array::<T, U>(buf@, p as int)),
    {
        match read_compact_len(buf, p) {
            Some((n, q)) => read_elems::<T, U>(buf, q, n),
            None => None,
        }
    }

    pub fn serialize<T: Serialize>(out: &mut Vec<u8>, items: &[T])
        requires
            forall|i: int| 0 <= i < items@.len() ==> T::valid(#[trigger] items@[i]@),
        ensures
            final(out)@ == old(out)@ + compact_array_bytes::<T>(views(items@)),
    {
        write_compact_len(out, items.len());
        let ghost start = out@;
        let mut i: usize = 0;
        while i < items.len()
            invariant
                i <= items@.len(),
                forall|k: int| 0 <= k < items@.len() ==> T::valid(#[trigger] items@[k]@),
                out@ == start + wires::<T>(views(items@).take(i as int)),
            decreases items@.len() - i,
        {
            items[i].serialize(out);
            proof {
                assert(views(items@).take(i + 1).drop_last() =~= views(items@).take(i as int));
            }
            i = i + 1;
        }
        proof {
            assert(views(items@).take(items@.len() as int) =~= views(items@));
            assert(final(out)@ =~= old(out)@ + compact_array_bytes::<T>(views(items@)));
        }
    }
}

/// The encodings of values one after the other.
pub open spec fn wires<T: Serialize>(xs: Seq<T::V>) -> Seq<u8>
    decreases xs.len(),
{
    if xs.len() == 0 {
        Seq::empty()
    } else {
        wires::<T>(xs.drop_last()) + T::wire(xs.last())
    }
}

pub open spec fn compact_array_bytes<T: Serialize>(xs: Seq<T::V>) -> Seq<u8> {
    compact_len_bytes(xs.len()) + wires::<T>(xs)
}

/// The reader of arrays with an `INT32` length.
pub struct Array;

impl Array {
    pub fn deserialize<T: View, U: Deserialize<T>>(buf: &[u8], p: usize) -> (r: Option<(Vec<T>, usize)>)
        ensures
            read_seq_as(r, parse_array::<T, U>(buf@, p as int)),
    {
        match read_i32(buf, p) {
            Some((n, q)) => if n == -1 {
                let v: Vec<T> = Vec::new();
                proof {
                    assert(views(v@) =~= Seq::<T::V>::empty());
                }
                Some((v, q))
            } else if n < 0 {
                None
            } else {
                read_elems::<T, U>(buf, q, n as u64)
            },
            None => None,
        }
    }
}

impl Deserialize<u32> for u32 {
    open spec fn parse(s: Seq<u8>, p: int) -> Option<(u32, int)> {
        parse_u32(s, p)
    }

    fn deserialize(buf: &[u8], p: usize) -> (r: Option<(u32, usize)>) {
        read_u32(buf, p)
    }
}

impl Serialize for u32 {
    open spec fn valid(v: u32) -> bool {
        true
    }

    open spec fn wire(v: u32) -> Seq<u8> {
        be_bytes(v as nat, 4)
    }

    fn serialize(&self, out: &mut Vec<u8>) {
        write_u32(out, *self);
    }
}

impl Deserialize<String> for Uuid {
    open spec fn parse(s: Seq<u8>, p: int) -> Option<(Seq<char>, int)> {
        parse_uuid(s, p)
    }

    fn deserialize(buf: &[u8], p: usize) -> (r: Option<(String, usize)>) {
        Uuid::deserialize(buf, p)
    }
}

/// The reader and writer of byte runs and arrays with an `INT32` length.
pub struct NullableBytes;

impl NullableBytes {
    /// Appends an `INT32` length and the bytes of `b`.
    pub fn serialize(out: &mut Vec<u8>, b: &[u8])
        requires
            b@.len() <= i32::MAX,
        ensures
            final(out)@ == old(out)@ + be_bytes(b@.len(), 4) + b@,
    {
        write_i32(out, b.len() as i32);
        put_slice(out, b);
        proof {
            assert(final(out)@ =~= old(out)@ + be_bytes(b@.len(), 4) + b@);
        }
    }

    /// Reads an `INT32` count `N`, then `N` values (-1 reads as none).
    pub fn deserialize<T: View, U: Deserialize<T>>(buf: &[u8], p: usize) -> (r: Option<(Vec<T>, usize)>)
        ensures
            read_seq_as(r, parse_array::<T, U>(buf@, p as int)),
    {
        Array::deserialize::<T, U>(buf, p)
    }
}

/// An empty list encodes as the single byte 1, and the single byte 0 (null)
/// decodes as an empty list, whatever follows.
pub proof fn compact_array_null_and_empty<T: Serialize, U: Deserialize<T>>(s: Seq<u8>, p: int)
    requires
        0 <= p < s.len(),
        s[p] == 0,
    ensures
        compact_array_bytes::<T>(Seq::empty()) == seq![1u8],
        parse_compact_array::<T, U>(s, p) == Some((Seq::<T::V>::empty(), p + 1)),
{
    assert(compact_array_bytes::<T>(Seq::empty()) =~= seq![1u8]);
    reveal_with_fuel(varint_value, 2);
}

/// A character that a hex digit of canonical UUID text may be.
pub open spec fn is_hex_text_char(c: char) -> bool {
    &&& '\0' <= c <= '\u{7f}'
    &&& (c as nat) < 128
    &&& is_hex_byte(c as u8)
    &&& c != '-'
}

proof fn lemma_hex_digit(d: int)
    requires
        0 <= d < 16,
    ensures
        is_hex_text_char(hex_digit(d)),
        hex_value(hex_digit(d) as u8) == d,
{
    if d == 0 {
        assert(hex_digit(d) == '0');
    } else if d == 1 {
        assert(hex_digit(d) == '1');
    } else if d == 2 {
        assert(hex_digit(d) == '2');
    } else if d == 3 {
        assert(hex_digit(d) == '3');
    } else if d == 4 {
        assert(hex_digit(d) == '4');
    } else if d == 5 {
        assert(hex_digit(d) == '5');
    } else if d == 6 {
        assert(hex_digit(d) == '6');
    } else if d == 7 {
        assert(hex_digit(d) == '7');
    } else if d == 8 {
        assert(hex_digit(d) == '8');
    } else if d == 9 {
        assert(hex_digit(d) == '9');
    } else if d == 10 {
        assert(hex_digit(d) == 'a');
    } else if d == 11 {
        assert(hex_digit(d) == 'b');
    } else if d == 12 {
        assert(hex_digit(d) == 'c');
    } else if d == 13 {
        assert(hex_digit(d) == 'd');
    } else if d == 14 {
        assert(hex_digit(d) == 'e');
    } else {
        assert(hex_digit(d) == 'f');
    }
}

proof fn lemma_hex_text_chars(g: Seq<u8>)
    ensures
        hex_text(g).len() == 2 * g.len(),
        forall|k: int| 0 <= k < hex_text(g).len() ==> is_hex_text_char(#[trigger] hex_text(g)[k]),
{
    assert forall|k: int| 0 <= k < hex_text(g).len() implies is_hex_text_char(#[trigger] hex_text(g)[k]) by {
        let x = g[k / 2] as int;
        if k % 2 == 0 {
            lemma_hex_digit(x / 16);
        } else {
            lemma_hex_digit(x % 16);
        }
    }
}

/// The text of any sixteen bytes is UUID text.
pub proof fn lemma_uuid_text_is_uuid(b: Seq<u8>)
    requires
        b.len() == 16,
    ensures
        is_uuid_text(uuid_text(b)),
{
    let h1 = hex_text(b.subrange(0, 4));
    let h2 = hex_text(b.subrange(4, 6));
    let h3 = hex_text(b.subrange(6, 8));
    let h4 = hex_text(b.subrange(8, 10));
    let h5 = hex_text(b.subrange(10, 16));
    lemma_hex_text_chars(b.subrange(0, 4));
    lemma_hex_text_chars(b.subrange(4, 6));
    lemma_hex_text_chars(b.subrange(6, 8));
    lemma_hex_text_chars(b.subrange(8, 10));
    lemma_hex_text_chars(b.subrange(10, 16));
    let d = seq!['-'];
    let t = uuid_text(b);
    assert(t == h1 + d + h2 + d + h3 + d + h4 + d + h5);
    assert(t.len() == 36);
    assert forall|i: int| 0 <= i < 36 implies is_uuid_char(i, #[trigger] t[i]) && '\0' <= t[i] <= '\u{7f}' by {
        if i < 8 {
            assert(t[i] == h1[i]);
        } else if i == 8 {
            assert(t[i] == '-');
        } else if i < 13 {
            assert(t[i] == h2[i - 9]);
        } else if i == 13 {
            assert(t[i] == '-');
        } else if i < 18 {
            assert(t[i] == h3[i - 14]);
        } else if i == 18 {
            assert(t[i] == '-');
        } else if i < 23 {
            assert(t[i] == h4[i - 19]);
        } else if i == 23 {
            assert(t[i] == '-');
        } else {
            assert(t[i] == h5[i - 24]);
        }
    }
    assert(is_ascii_chars(t)) by {
        assert forall|i: int| 0 <= i < t.len() implies '\0' <= #[trigger] t[i] <= '\u{7f}' by {
            assert(is_uuid_char(i, t[i]));
        }
    }
}

/// Whatever a UUID reader returns is UUID text.
pub proof fn lemma_parse_uuid_is_uuid(s: Seq<u8>, p: int)
    ensures
        parse_uuid(s, p) matches Some((t, _)) ==> is_uuid_text(t),
{
    if parse_uuid(s, p) is Some {
        lemma_uuid_text_is_uuid(s.subrange(p, p + 16));
    }
}

/// Every value that a run of `n` values holds satisfies `pred` when every
/// value that the element reader returns does.
pub proof fn lemma_elems_satisfy<T: View, U: Deserialize<T>>(
    s: Seq<u8>,
    p: int,
    n: nat,
    pred: spec_fn(T::V) -> bool,
)
    requires
        forall|q: int| (#[trigger] U::parse(s, q)) matches Some((x, _)) ==> pred(x),
    ensures
        parse_elems::<T, U>(s, p, n) matches Some((xs, _)) ==> forall|i: int|
            0 <= i < xs.len() ==> pred(#[trigger] xs[i]),
    decreases n,
{
    if n > 0 {
        lemma_elems_satisfy::<T, U>(s, p, (n - 1) as nat, pred);
        match parse_elems::<T, U>(s, p, (n - 1) as nat) {
            Some((xs, q)) => {
                if let Some((x, r)) = U::parse(s, q) {
                    assert forall|i: int| 0 <= i < xs.push(x).len() implies pred(#[trigger] xs.push(x)[i]) by {
                        if i < xs.len() {
                            assert(xs.push(x)[i] == xs[i]);
                        }
                    }
                }
            },
            None => {},
        }
    }
}

/// UUID text in canonical form: its hex digits are all lowercase.
pub open spec fn is_canonical_uuid_text(t: Seq<char>) -> bool {
    &&& is_uuid_text(t)
    &&& forall|i: int| 0 <= i < t.len() ==> !(65 <= #[trigger] (t[i] as u8) <= 70)
}

proof fn lemma_lower_hex_digit(c: char)
    requires
        (c as nat) < 128,
        is_hex_byte(c as u8),
        !(65 <= c as u8 <= 70),
    ensures
        hex_digit(hex_value(c as u8)) == c,
        0 <= hex_value(c as u8) < 16,
{
    let v = hex_value(c as u8);
    lemma_hex_digit(v);
    let d = hex_digit(v);
    assert((d as u8) == (c as u8)) by {
        if v == 0 { assert(d == '0'); }
        else if v == 1 { assert(d == '1'); }
        else if v == 2 { assert(d == '2'); }
        else if v == 3 { assert(d == '3'); }
        else if v == 4 { assert(d == '4'); }
        else if v == 5 { assert(d == '5'); }
        else if v == 6 { assert(d == '6'); }
        else if v == 7 { assert(d == '7'); }
        else if v == 8 { assert(d == '8'); }
        else if v == 9 { assert(d == '9'); }
        else if v == 10 { assert(d == 'a'); }
        else if v == 11 { assert(d == 'b'); }
        else if v == 12 { assert(d == 'c'); }
        else if v == 13 { assert(d == 'd'); }
        else if v == 14 { assert(d == 'e'); }
        else { assert(d == 'f'); }
    }
    assert((d as u32) == (c as u32));
    vstd::utf8::char_u32_cast(c, c as u32);
    vstd::utf8::char_u32_cast(d, d as u32);
}

/// Pairs of lowercase hex digits decode to bytes whose text is those digits.
proof fn lemma_hex_group_round_trip(g: Seq<char>)
    requires
        g.len() % 2 == 0,
        forall|k: int|
            0 <= k < g.len() ==> (#[trigger] g[k] as nat) < 128 && is_hex_byte(g[k] as u8) && !(65 <= g[k] as u8
                <= 70),
    ensures
        hex_text(unhex(ascii_bytes(g))) == g,
{
    let a = ascii_bytes(g);
    let b = unhex(a);
    let h = hex_text(b);
    assert(h.len() == g.len());
    assert forall|m: int| 0 <= m < g.len() implies h[m] == g[m] by {
        let j = m / 2;
        lemma_lower_hex_digit(g[2 * j]);
        lemma_lower_hex_digit(g[2 * j + 1]);
        let hi = hex_value(a[2 * j]);
        let lo = hex_value(a[2 * j + 1]);
        assert(b[j] == (16 * hi + lo) as u8);
        assert((16 * hi + lo) / 16 == hi && (16 * hi + lo) % 16 == lo) by (nonlinear_arith)
            requires
                0 <= hi < 16,
                0 <= lo < 16,
        ;
        if m % 2 == 0 {
            assert(m == 2 * j);
        } else {
            assert(m == 2 * j + 1);
        }
    }
    assert(h =~= g);
}

/// Canonical UUID text, encoded to its sixteen bytes and read back, is the
/// same text.
pub proof fn uuid_round_trip(t: Seq<char>)
    requires
        is_canonical_uuid_text(t),
    ensures
        uuid_bytes(t).len() == 16,
        uuid_text(uuid_bytes(t)) == t,
{
    let a = ascii_bytes(t);
    let b = uuid_bytes(t);
    assert forall|i: int| 0 <= i < 36 && !is_uuid_dash(i) implies (#[trigger] t[i] as nat) < 128 && is_hex_byte(
        t[i] as u8,
    ) && !(65 <= t[i] as u8 <= 70) by {
        assert(is_uuid_char(i, t[i]));
    }
    let g1 = t.subrange(0, 8);
    let g2 = t.subrange(9, 13);
    let g3 = t.subrange(14, 18);
    let g4 = t.subrange(19, 23);
    let g5 = t.subrange(24, 36);
    lemma_hex_group_round_trip(g1);
    lemma_hex_group_round_trip(g2);
    lemma_hex_group_round_trip(g3);
    lemma_hex_group_round_trip(g4);
    lemma_hex_group_round_trip(g5);
    assert(ascii_bytes(g1) =~= a.subrange(0, 8));
    assert(ascii_bytes(g2) =~= a.subrange(9, 13));
    assert(ascii_bytes(g3) =~= a.subrange(14, 18));
    assert(ascii_bytes(g4) =~= a.subrange(19, 23));
    assert(ascii_bytes(g5) =~= a.subrange(24, 36));
    assert(b.len() == 16);
    assert(b.subrange(0, 4) =~= unhex(a.subrange(0, 8)));
    assert(b.subrange(4, 6) =~= unhex(a.subrange(9, 13)));
    assert(b.subrange(6, 8) =~= unhex(a.subrange(14, 18)));
    assert(b.subrange(8, 10) =~= unhex(a.subrange(19, 23)));
    assert(b.subrange(10, 16) =~= unhex(a.subrange(24, 36)));
    let u = uuid_text(b);
    assert(u == g1 + seq!['-'] + g2 + seq!['-'] + g3 + seq!['-'] + g4 + seq!['-'] + g5);
    assert forall|i: int| 0 <= i < 36 implies u[i] == t[i] by {
        if is_uuid_dash(i) {
            assert(is_uuid_char(i, t[i]));
        }
    }
    assert(u =~= t);
}

} // verus!
