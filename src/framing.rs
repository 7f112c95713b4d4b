//! Length-prefixed frames: an 8-byte little-endian byte count, then the payload.
use vstd::prelude::*;

verus! {

/// Width of the length prefix, in bytes.
pub const PREFIX_LEN: usize = 8;

/// 256 to the power `k`.
pub open spec fn pow256(k: nat) -> nat
    decreases k,
{
    if k == 0 {
        1
    } else {
        256 * pow256((k - 1) as nat)
    }
}

/// The low `k` bytes of `n`, least significant first.
pub open spec fn le_bytes(n: nat, k: nat) -> Seq<u8>
    decreases k,
{
    if k == 0 {
        Seq::empty()
    } else {
        seq![(n % 256) as u8] + le_bytes(n / 256, (k - 1) as nat)
    }
}

/// The number that a little-endian byte string denotes.
pub open spec fn le_value(s: Seq<u8>) -> nat
    decreases s.len(),
{
    if s.len() == 0 {
        0
    } else {
        s[0] as nat + 256 * le_value(s.drop_first())
    }
}

/// The frame that carries a payload.
pub open spec fn framed(payload: Seq<u8>) -> Seq<u8> {
    le_bytes(payload.len(), PREFIX_LEN as nat) + payload
}

/// The payload of a frame, if the bytes are exactly one frame.
pub open spec fn unframed(bytes: Seq<u8>) -> Option<Seq<u8>> {
    if bytes.len() >= PREFIX_LEN && le_value(bytes.subrange(0, PREFIX_LEN as int)) == bytes.len()
        - PREFIX_LEN {
        Some(bytes.subrange(PREFIX_LEN as int, bytes.len() as int))
    } else {
        None
    }
}

proof fn lemma_pow256_positive(k: nat)
    ensures
        pow256(k) >= 1,
    decreases k,
{
    if k > 0 {
        lemma_pow256_positive((k - 1) as nat);
    }
}

proof fn lemma_le_bytes_len(n: nat, k: nat)
    ensures
        le_bytes(n, k).len() == k,
    decreases k,
{
    if k > 0 {
        lemma_le_bytes_len(n / 256, (k - 1) as nat);
    }
}

/// A little-endian string of `len` bytes denotes a number below 256^len.
proof fn lemma_le_value_bound(s: Seq<u8>)
    ensures
        le_value(s) < pow256(s.len()),
    decreases s.len(),
{
    if s.len() > 0 {
        let rest = s.drop_first();
        lemma_le_value_bound(rest);
        let v = le_value(rest);
        let p = pow256(rest.len());
        assert(s[0] as nat + 256 * v < 256 * p) by (nonlinear_arith)
            requires
                v < p,
                s[0] < 256,
        ;
    }
}

/// Reading back the low `k` bytes of a number below 256^k gives the number.
proof fn lemma_le_round_trip(n: nat, k: nat)
    requires
        n < pow256(k),
    ensures
        le_value(le_bytes(n, k)) == n,
    decreases k,
{
    if k > 0 {
        let j = (k - 1) as nat;
        let bytes = le_bytes(n, k);
        assert(bytes.drop_first() =~= le_bytes(n / 256, j));
        assert(n / 256 < pow256(j)) by (nonlinear_arith)
            requires
                n < 256 * pow256(j),
        ;
        lemma_le_round_trip(n / 256, j);
        assert(n == n % 256 + 256 * (n / 256)) by (nonlinear_arith);
    } else {
        assert(n == 0);
    }
}

/// The prefix that announces `n` bytes.
pub fn encode_length(n: u64) -> (r: Vec<u8>)
    ensures
        r@ == le_bytes(n as nat, PREFIX_LEN as nat),
{
    let mut out: Vec<u8> = Vec::new();
    let mut x: u64 = n;
    let mut i: usize = 0;
    while i < PREFIX_LEN
        invariant
            i <= PREFIX_LEN,
            le_bytes(n as nat, PREFIX_LEN as nat) == out@ + le_bytes(
                x as nat,
                (PREFIX_LEN - i) as nat,
            ),
        decreases PREFIX_LEN - i,
    {
        let ghost before = out@;
        let ghost x0 = x as nat;
        let ghost k = (PREFIX_LEN - i) as nat;
        out.push((x % 256) as u8);
        x = x / 256;
        i = i + 1;
        proof {
            assert(le_bytes(x0, k) == seq![(x0 % 256) as u8] + le_bytes(x as nat, (k - 1) as nat));
            assert(before + le_bytes(x0, k) =~= out@ + le_bytes(x as nat, (PREFIX_LEN - i) as nat));
        }
    }
    proof {
        assert(out@ + le_bytes(x as nat, 0) =~= out@);
    }
    out
}

/// The number of bytes a prefix announces.
pub fn decode_length(prefix: &[u8]) -> (r: u64)
    requires
        prefix@.len() == PREFIX_LEN,
    ensures
        r == le_value(prefix@),
{
    let mut acc: u64 = 0;
    let mut i: usize = PREFIX_LEN;
    proof {
        assert(prefix@.subrange(PREFIX_LEN as int, PREFIX_LEN as int).len() == 0);
    }
    while i > 0
        invariant
            i <= PREFIX_LEN,
            prefix@.len() == PREFIX_LEN,
            acc == le_value(prefix@.subrange(i as int, PREFIX_LEN as int)),
        decreases i,
    {
        let ghost tail = prefix@.subrange(i as int, PREFIX_LEN as int);
        let ghost longer = prefix@.subrange(i - 1, PREFIX_LEN as int);
        proof {
            assert(longer.drop_first() =~= tail);
            lemma_le_value_bound(tail);
            lemma_le_value_bound(longer);
            reveal_with_fuel(pow256, 9);
            assert(pow256(PREFIX_LEN as nat) == 0x1_0000_0000_0000_0000);
            lemma_pow_mono(longer.len(), PREFIX_LEN as nat);
        }
        acc = prefix[i - 1] as u64 + 256 * acc;
        i = i - 1;
    }
    proof {
        assert(prefix@.subrange(0, PREFIX_LEN as int) =~= prefix@);
    }
    acc
}

proof fn lemma_pow_mono(a: nat, b: nat)
    requires
        a <= b,
    ensures
        pow256(a) <= pow256(b),
    decreases b,
{
    if a < b {
        lemma_pow_mono(a, (b - 1) as nat);
        lemma_pow256_positive((b - 1) as nat);
    }
}

/// The frame that carries `payload`: its length, then its bytes.
pub fn frame(payload: &[u8]) -> (r: Vec<u8>)
    ensures
        r@ == framed(payload@),
{
    let mut out = encode_length(payload.len() as u64);
    let mut i: usize = 0;
    while i < payload.len()
        invariant
            i <= payload@.len(),
            out@ == le_bytes(payload@.len() as nat, PREFIX_LEN as nat) + payload@.subrange(
                0,
                i as int,
            ),
        decreases payload@.len() - i,
    {
        out.push(payload[i]);
        i = i + 1;
        proof {
            assert(out@ == le_bytes(payload@.len() as nat, PREFIX_LEN as nat) + payload@.subrange(
                0,
                i as int,
            ));
        }
    }
    proof {
        assert(payload@.subrange(0, payload@.len() as int) =~= payload@);
    }
    out
}

/// The payload of `bytes`, if they are exactly one frame.
pub fn unframe(bytes: &[u8]) -> (r: Option<Vec<u8>>)
    ensures
        r matches Some(p) ==> unframed(bytes@) == Some(p@),
        r is None ==> unframed(bytes@) is None,
{
    if bytes.len() < PREFIX_LEN {
        return None;
    }
    let mut prefix: Vec<u8> = Vec::new();
    let mut i: usize = 0;
    while i < PREFIX_LEN
        invariant
            i <= PREFIX_LEN <= bytes@.len(),
            prefix@ == bytes@.subrange(0, i as int),
        decreases PREFIX_LEN - i,
    {
        prefix.push(bytes[i]);
        i = i + 1;
        proof {
            assert(prefix@ =~= bytes@.subrange(0, i as int));
        }
    }
    let n = decode_length(prefix.as_slice());
    if n as u128 != (bytes.len() - PREFIX_LEN) as u128 {
        return None;
    }
    let mut payload: Vec<u8> = Vec::new();
    let mut j: usize = PREFIX_LEN;
    while j < bytes.len()
        invariant
            PREFIX_LEN <= j <= bytes@.len(),
            payload@ == bytes@.subrange(PREFIX_LEN as int, j as int),
        decreases bytes@.len() - j,
    {
        payload.push(bytes[j]);
        j = j + 1;
        proof {
            assert(payload@ =~= bytes@.subrange(PREFIX_LEN as int, j as int));
        }
    }
    Some(payload)
}

/// Reading a frame back yields the payload that was framed.
pub proof fn lemma_frame_round_trip(payload: Seq<u8>)
    requires
        payload.len() <= u64::MAX,
    ensures
        unframed(framed(payload)) == Some(payload),
        le_value(framed(payload).subrange(0, PREFIX_LEN as int)) == payload.len(),
{
    let f = framed(payload);
    let prefix = le_bytes(payload.len(), PREFIX_LEN as nat);
    lemma_le_bytes_len(payload.len(), PREFIX_LEN as nat);
    reveal_with_fuel(pow256, 9);
    assert(pow256(PREFIX_LEN as nat) == 0x1_0000_0000_0000_0000);
    assert(f.subrange(0, PREFIX_LEN as int) =~= prefix);
    assert(f.subrange(PREFIX_LEN as int, f.len() as int) =~= payload);
    lemma_le_round_trip(payload.len(), PREFIX_LEN as nat);
}

} // verus!
