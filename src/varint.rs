use vstd::arithmetic::div_mod::*;
use vstd::arithmetic::power::*;
use vstd::prelude::*;

verus! {

/// Value of the varint that starts at `pos`, read over at most `limit` bytes,
/// with the number of bytes it takes. `None` when the input ends, or the limit is
/// reached, before a byte with a clear top bit.
pub open spec fn varint_at(b: Seq<u8>, pos: int, limit: nat) -> Option<(nat, nat)>
    decreases limit,
{
    if limit == 0 || pos < 0 || pos >= b.len() {
        None
    } else if b[pos] < 128 {
        Some((b[pos] as nat, 1))
    } else {
        match varint_at(b, pos + 1, (limit - 1) as nat) {
            Some((v, n)) => Some((((b[pos] - 128) + 128 * v) as nat, n + 1)),
            None => None,
        }
    }
}

/// The bytes of the varint of `x`: seven bits per byte, least significant first,
/// the top bit set on every byte but the last.
pub open spec fn varint_bytes(x: nat) -> Seq<u8>
    decreases x,
{
    if x < 128 {
        seq![x as u8]
    } else {
        seq![(x % 128 + 128) as u8] + varint_bytes(x / 128)
    }
}

/// A varint that reads takes at least one byte and lies within the input.
pub proof fn lemma_varint_within(b: Seq<u8>, pos: int, limit: nat)
    ensures
        match varint_at(b, pos, limit) {
            Some((v, n)) => 1 <= n <= limit && 0 <= pos && pos + n <= b.len(),
            None => true,
        },
    decreases limit,
{
    if limit > 0 && 0 <= pos < b.len() && b[pos] >= 128 {
        lemma_varint_within(b, pos + 1, (limit - 1) as nat);
    }
}

/// Largest number of bytes of a `u32` varint.
pub const MAX_BYTES_U32: usize = 5;

/// Largest number of bytes of a `u64` varint.
pub const MAX_BYTES_U64: usize = 10;

/// Reads a varint of at most `limit` bytes at `pos`; the value is taken modulo 2^64.
fn read_raw(b: &[u8], pos: usize, limit: usize) -> (r: Option<(u64, usize)>)
    requires
        limit <= MAX_BYTES_U64,
    ensures
        match varint_at(b@, pos as int, limit as nat) {
            Some((v, n)) => r == Some(((v % 0x1_0000_0000_0000_0000) as u64, (pos + n) as usize))
                && pos + n <= usize::MAX,
            None => r is None,
        },
    decreases limit,
{
    if limit == 0 || pos >= b.len() {
        return None;
    }
    let x = b[pos];
    if x < 128 {
        return Some((x as u64, pos + 1));
    }
    match read_raw(b, pos + 1, limit - 1) {
        Some((v, p)) => {
            let ghost w = varint_at(b@, pos + 1, (limit - 1) as nat).unwrap().0;
            proof {
                lemma_shift_mod(w, (x - 128) as nat);
            }
            Some(((v % 0x200_0000_0000_0000) * 128 + (x - 128) as u64, p))
        },
        None => None,
    }
}

proof fn lemma_shift_mod(w: nat, low: nat)
    requires
        low < 128,
    ensures
        ((w % 0x1_0000_0000_0000_0000) % 0x200_0000_0000_0000) * 128 + low
            == (low + 128 * w) % 0x1_0000_0000_0000_0000,
        ((w % 0x1_0000_0000_0000_0000) % 0x200_0000_0000_0000) * 128 + low
            < 0x1_0000_0000_0000_0000,
{
    let m: int = 0x200_0000_0000_0000;
    lemma_mod_mod(w as int, m, 128);
    assert(0x1_0000_0000_0000_0000 == m * 128);
    let r = (w as int) % m;
    let q = (w as int) / m;
    lemma_fundamental_div_mod(w as int, m);
    lemma_mod_bound(w as int, m);
    assert(low + 128 * w == (r * 128 + low) + q * (m * 128)) by (nonlinear_arith)
        requires w == m * q + r;
    lemma_mod_multiples_vanish(q, r * 128 + low, m * 128);
    assert(r * 128 + low < m * 128) by (nonlinear_arith)
        requires 0 <= r < m, 0 <= low < 128;
    lemma_small_mod((r * 128 + low) as nat, (m * 128) as nat);
}

/// Reads the `u32` varint at `pos`: its value and the position after it, or
/// `None` when the input ends before it does or it runs past five bytes.
pub fn read_varint_u32(b: &[u8], pos: usize) -> (r: Option<(u32, usize)>)
    ensures
        match varint_at(b@, pos as int, MAX_BYTES_U32 as nat) {
            Some((v, n)) => r == Some(((v % 0x1_0000_0000) as u32, (pos + n) as usize))
                && pos + n <= b@.len() && pos + n <= usize::MAX,
            None => r is None,
        },
{
    proof {
        lemma_varint_within(b@, pos as int, MAX_BYTES_U32 as nat);
    }
    match read_raw(b, pos, MAX_BYTES_U32) {
        Some((v, p)) => {
            let ghost w = varint_at(b@, pos as int, MAX_BYTES_U32 as nat).unwrap().0;
            proof {
                lemma_mod_mod(w as int, 0x1_0000_0000, 0x1_0000_0000);
            }
            Some(((v % 0x1_0000_0000) as u32, p))
        },
        None => None,
    }
}

/// Reads the `u64` varint at `pos`: its value and the position after it, or
/// `None` when the input ends before it does or it runs past ten bytes.
pub fn read_varint_u64(b: &[u8], pos: usize) -> (r: Option<(u64, usize)>)
    ensures
        match varint_at(b@, pos as int, MAX_BYTES_U64 as nat) {
            Some((v, n)) => r == Some(((v % 0x1_0000_0000_0000_0000) as u64, (pos + n) as usize))
                && pos + n <= b@.len() && pos + n <= usize::MAX,
            None => r is None,
        },
{
    proof {
        lemma_varint_within(b@, pos as int, MAX_BYTES_U64 as nat);
    }
    read_raw(b, pos, MAX_BYTES_U64)
}

/// Appends the varint of `x` to `out`.
pub fn write_varint_u64(out: &mut Vec<u8>, x: u64)
    ensures
        final(out)@ == old(out)@ + varint_bytes(x as nat),
{
    write_varint(out, x as u128);
}

/// Appends the varint of `x` to `out`.
pub(crate) fn write_varint(out: &mut Vec<u8>, x: u128)
    ensures
        final(out)@ == old(out)@ + varint_bytes(x as nat),
{
    let mut y: u128 = x;
    let ghost start = out@;
    while y >= 128
        invariant
            out@ + varint_bytes(y as nat) == start + varint_bytes(x as nat),
        decreases y,
    {
        let ghost before = out@;
        out.push((y % 128 + 128) as u8);
        proof {
            assert(varint_bytes(y as nat) == seq![(y % 128 + 128) as u8] + varint_bytes((y / 128) as nat));
            assert(out@ + varint_bytes((y / 128) as nat) =~= before + varint_bytes(y as nat));
        }
        y = y / 128;
    }
    out.push(y as u8);
    assert(out@ =~= start + varint_bytes(x as nat));
}

/// Appends the varint of `x` to `out`.
pub fn write_varint_u32(out: &mut Vec<u8>, x: u32)
    ensures
        final(out)@ == old(out)@ + varint_bytes(x as nat),
{
    write_varint_u64(out, x as u64);
}

/// Reading the bytes of a varint back gives its value and length, whatever follows.
pub proof fn lemma_varint_read_back(b: Seq<u8>, pos: int, x: nat, limit: nat)
    requires
        0 <= pos,
        pos + varint_bytes(x).len() <= b.len(),
        b.subrange(pos, pos + varint_bytes(x).len()) == varint_bytes(x),
        varint_bytes(x).len() <= limit,
    ensures
        varint_at(b, pos, limit) == Some((x, varint_bytes(x).len())),
    decreases x,
{
    let e = varint_bytes(x);
    assert(b[pos] == e[0]);
    if x >= 128 {
        let t = varint_bytes(x / 128);
        assert(e == seq![(x % 128 + 128) as u8] + t);
        assert(b.subrange(pos + 1, pos + 1 + t.len()) =~= t) by {
            assert forall|i: int| 0 <= i < t.len() implies b[pos + 1 + i] == t[i] by {
                assert(b.subrange(pos, pos + e.len())[i + 1] == e[i + 1]);
            }
        }
        lemma_varint_read_back(b, pos + 1, x / 128, (limit - 1) as nat);
    }
}

/// A varint takes `n` bytes or fewer exactly when its value is below 128^n: so
/// its length is the larger of one and the bit length of the value divided by
/// seven, rounded up.
pub proof fn lemma_varint_len(x: nat, n: nat)
    requires
        n >= 1,
    ensures
        varint_bytes(x).len() >= 1,
        varint_bytes(x).len() <= n <==> x < pow(128, n),
    decreases x,
{
    reveal(pow);
    if x >= 128 {
        if n >= 2 {
            lemma_varint_len(x / 128, (n - 1) as nat);
            lemma_fundamental_div_mod(x as int, 128);
            lemma_pow_positive(128, (n - 1) as nat);
            let p = pow(128, (n - 1) as nat);
            assert(pow(128, n) == 128 * p);
            assert((x / 128 < p) <==> (x < 128 * p)) by (nonlinear_arith)
                requires x == 128 * (x / 128) + x % 128, 0 <= x % 128 < 128, p > 0, x / 128 >= 0;
        } else {
            lemma_varint_len(x / 128, 1);
            assert(pow(128, 1) == 128 * pow(128, 0));
        }
    } else {
        lemma_pow_positive(128, (n - 1) as nat);
        assert(pow(128, n) == 128 * pow(128, (n - 1) as nat));
    }
}

/// Every `u32` and `u64` reads back from its varint with its own value, in at most
/// five and ten bytes.
pub proof fn lemma_varint_round_trip(x: u64, rest: Seq<u8>)
    ensures
        varint_bytes(x as nat).len() <= MAX_BYTES_U64,
        x <= u32::MAX ==> varint_bytes(x as nat).len() <= MAX_BYTES_U32,
        varint_at(varint_bytes(x as nat) + rest, 0, MAX_BYTES_U64 as nat)
            == Some((x as nat, varint_bytes(x as nat).len())),
        x <= u32::MAX ==> varint_at(varint_bytes(x as nat) + rest, 0, MAX_BYTES_U32 as nat)
            == Some((x as nat, varint_bytes(x as nat).len())),
{
    reveal(pow);
    lemma_varint_len(x as nat, 10);
    lemma_varint_len(x as nat, 5);
    assert(pow(128, 0) == 1);
    assert(pow(128, 1) == 128);
    assert(pow(128, 2) == 0x4000);
    assert(pow(128, 3) == 0x20_0000);
    assert(pow(128, 4) == 0x1000_0000);
    assert(pow(128, 5) == 0x8_0000_0000);
    assert(pow(128, 6) == 0x400_0000_0000);
    assert(pow(128, 7) == 0x2_0000_0000_0000);
    assert(pow(128, 8) == 0x100_0000_0000_0000);
    assert(pow(128, 9) == 0x8000_0000_0000_0000);
    assert(pow(128, 10) == 0x40_0000_0000_0000_0000);
    let e = varint_bytes(x as nat);
    let b = e + rest;
    assert(b.subrange(0, e.len() as int) =~= e);
    lemma_varint_read_back(b, 0, x as nat, MAX_BYTES_U64 as nat);
    if x <= u32::MAX {
        lemma_varint_read_back(b, 0, x as nat, MAX_BYTES_U32 as nat);
    }
}

} // verus!
