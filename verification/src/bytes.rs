//! Little-endian integers in byte sequences: what the bytes mean, and code that
//! reads and writes them.
use vstd::prelude::*;

verus! {

/// The number that `s` holds, least significant byte first.
pub open spec fn le_value(s: Seq<u8>) -> nat
    decreases s.len(),
{
    if s.len() == 0 {
        0
    } else {
        s[0] as nat + 256 * le_value(s.drop_first())
    }
}

/// The low `n` bytes of `v`, least significant byte first.
pub open spec fn le_bytes(v: nat, n: nat) -> Seq<u8>
    decreases n,
{
    if n == 0 {
        Seq::empty()
    } else {
        seq![(v % 256) as u8] + le_bytes(v / 256, (n - 1) as nat)
    }
}

/// How many values `n` bytes can hold.
pub open spec fn byte_range(n: nat) -> nat
    decreases n,
{
    if n == 0 {
        1
    } else {
        256 * byte_range((n - 1) as nat)
    }
}

/// The signed reading of a 128-bit pattern (two's complement).
pub open spec fn signed_value(v: nat) -> int {
    if v <= i128::MAX {
        v as int
    } else {
        v - 0x1_0000_0000_0000_0000_0000_0000_0000_0000
    }
}

/// The 128-bit pattern of a signed number (two's complement).
pub open spec fn signed_pattern(v: int) -> nat {
    if v >= 0 {
        v as nat
    } else {
        (v + 0x1_0000_0000_0000_0000_0000_0000_0000_0000) as nat
    }
}

/// The `u16` at offset `at`.
pub open spec fn u16_at(s: Seq<u8>, at: int) -> u16 {
    le_value(s.subrange(at, at + 2)) as u16
}

/// The `u32` at offset `at`.
pub open spec fn u32_at(s: Seq<u8>, at: int) -> u32 {
    le_value(s.subrange(at, at + 4)) as u32
}

/// The `u64` at offset `at`.
pub open spec fn u64_at(s: Seq<u8>, at: int) -> u64 {
    le_value(s.subrange(at, at + 8)) as u64
}

/// The `u128` at offset `at`.
pub open spec fn u128_at(s: Seq<u8>, at: int) -> u128 {
    le_value(s.subrange(at, at + 16)) as u128
}

/// The `i128` at offset `at`.
pub open spec fn i128_at(s: Seq<u8>, at: int) -> i128 {
    signed_value(le_value(s.subrange(at, at + 16))) as i128
}

/// `s` with `src` written over it from offset `at` on.
pub open spec fn overwritten(s: Seq<u8>, at: int, src: Seq<u8>) -> Seq<u8> {
    s.subrange(0, at) + src + s.subrange(at + src.len(), s.len() as int)
}

/// `n` zero bytes.
pub open spec fn zeros(n: nat) -> Seq<u8> {
    Seq::new(n, |i: int| 0u8)
}

/// `byte_range` at the widths that the layouts use.
pub proof fn lemma_byte_range_widths()
    ensures
        byte_range(1) == 0x100,
        byte_range(2) == 0x1_0000,
        byte_range(4) == 0x1_0000_0000,
        byte_range(8) == 0x1_0000_0000_0000_0000,
        byte_range(16) == 0x1_0000_0000_0000_0000_0000_0000_0000_0000,
{
    reveal_with_fuel(byte_range, 17);
}

/// A sequence of `n` bytes holds a number below `byte_range(n)`.
pub proof fn lemma_le_value_bound(s: Seq<u8>)
    ensures
        le_value(s) < byte_range(s.len()),
    decreases s.len(),
{
    if s.len() > 0 {
        lemma_le_value_bound(s.drop_first());
    }
}

/// More bytes hold more values.
pub proof fn lemma_byte_range_grows(m: nat, n: nat)
    requires
        m <= n,
    ensures
        1 <= byte_range(m) <= byte_range(n),
    decreases n,
{
    if m < n {
        lemma_byte_range_grows(m, (n - 1) as nat);
    } else if n > 0 {
        lemma_byte_range_grows((n - 1) as nat, (n - 1) as nat);
    }
}

/// `le_bytes` gives as many bytes as asked for.
pub broadcast proof fn lemma_le_bytes_len(v: nat, n: nat)
    ensures
        #[trigger] le_bytes(v, n).len() == n,
    decreases n,
{
    if n > 0 {
        lemma_le_bytes_len(v / 256, (n - 1) as nat);
    }
}

/// Writing a number that fits and reading it back gives the number.
pub proof fn lemma_le_value_of_le_bytes(v: nat, n: nat)
    requires
        v < byte_range(n),
    ensures
        le_bytes(v, n).len() == n,
        le_value(le_bytes(v, n)) == v,
    decreases n,
{
    if n > 0 {
        let low = (v % 256) as u8;
        let rest = le_bytes(v / 256, (n - 1) as nat);
        lemma_le_value_of_le_bytes(v / 256, (n - 1) as nat);
        assert((seq![low] + rest).drop_first() =~= rest);
    }
}

/// Reading bytes and writing the number back gives the bytes.
pub proof fn lemma_le_bytes_of_le_value(s: Seq<u8>)
    ensures
        le_bytes(le_value(s), s.len()) == s,
    decreases s.len(),
{
    if s.len() > 0 {
        let rest = s.drop_first();
        lemma_le_bytes_of_le_value(rest);
        let v = le_value(s);
        assert(v % 256 == s[0] as nat && v / 256 == le_value(rest));
        assert(seq![s[0]] + rest =~= s);
    } else {
        assert(s =~= Seq::<u8>::empty());
    }
}

/// Reads `n` bytes from offset `at`, least significant byte first.
fn read_le(data: &[u8], at: usize, n: usize) -> (r: u128)
    requires
        at + n <= data@.len(),
        n <= 16,
    ensures
        r == le_value(data@.subrange(at as int, at + n)),
        r < byte_range(n as nat),
{
    let end: usize = data.len();
    let mut acc: u128 = 0;
    let mut i: usize = n;
    proof {
        assert(data@.subrange(at + n, at + n) =~= Seq::<u8>::empty());
    }
    while i > 0
        invariant
            at + n <= end == data@.len(),
            i <= n <= 16,
            acc == le_value(data@.subrange(at + i, at + n)),
        decreases i,
    {
        i = i - 1;
        proof {
            let s = data@.subrange(at + i, at + n);
            assert(s.drop_first() =~= data@.subrange(at + i + 1, at + n));
            lemma_le_value_bound(s);
            lemma_byte_range_grows(s.len(), 16);
            lemma_byte_range_widths();
        }
        acc = acc * 256 + data[at + i] as u128;
    }
    proof {
        lemma_le_value_bound(data@.subrange(at as int, at + n));
    }
    acc
}

/// Reads the `u16` at offset `at`.
pub(crate) fn read_u16(data: &[u8], at: usize) -> (r: u16)
    requires
        at + 2 <= data@.len(),
    ensures
        r == u16_at(data@, at as int),
{
    let v: u128 = read_le(data, at, 2);
    proof {
        lemma_byte_range_widths();
    }
    v as u16
}

/// Reads the `u32` at offset `at`.
pub(crate) fn read_u32(data: &[u8], at: usize) -> (r: u32)
    requires
        at + 4 <= data@.len(),
    ensures
        r == u32_at(data@, at as int),
{
    let v: u128 = read_le(data, at, 4);
    proof {
        lemma_byte_range_widths();
    }
    v as u32
}

/// Reads the `u64` at offset `at`.
pub(crate) fn read_u64(data: &[u8], at: usize) -> (r: u64)
    requires
        at + 8 <= data@.len(),
    ensures
        r == u64_at(data@, at as int),
{
    let v: u128 = read_le(data, at, 8);
    proof {
        lemma_byte_range_widths();
    }
    v as u64
}

/// Reads the `u128` at offset `at`.
pub(crate) fn read_u128(data: &[u8], at: usize) -> (r: u128)
    requires
        at + 16 <= data@.len(),
    ensures
        r == u128_at(data@, at as int),
{
    read_le(data, at, 16)
}

/// Reads the `i128` at offset `at`.
pub(crate) fn read_i128(data: &[u8], at: usize) -> (r: i128)
    requires
        at + 16 <= data@.len(),
    ensures
        r == i128_at(data@, at as int),
{
    let v: u128 = read_le(data, at, 16);
    if v <= i128::MAX as u128 {
        v as i128
    } else {
        -1 - ((u128::MAX - v) as i128)
    }
}

/// Appends the low `n` bytes of `v`, least significant byte first.
pub(crate) fn push_le(out: &mut Vec<u8>, v: u128, n: usize)
    ensures
        final(out)@ == old(out)@ + le_bytes(v as nat, n as nat),
{
    let mut rest: u128 = v;
    let mut i: usize = 0;
    while i < n
        invariant
            i <= n,
            out@ + le_bytes(rest as nat, (n - i) as nat) == old(out)@ + le_bytes(v as nat, n as nat),
        decreases n - i,
    {
        let ghost before = out@;
        let low: u8 = (rest % 256) as u8;
        proof {
            let tail = le_bytes(rest as nat / 256, (n - i - 1) as nat);
            assert(before.push(low) + tail =~= before + (seq![low] + tail));
        }
        out.push(low);
        rest = rest / 256;
        i = i + 1;
    }
    proof {
        assert(out@ + le_bytes(rest as nat, 0) =~= out@);
    }
}

/// Appends the 16 bytes of a signed number, least significant byte first.
pub(crate) fn push_i128(out: &mut Vec<u8>, v: i128)
    ensures
        final(out)@ == old(out)@ + le_bytes(signed_pattern(v as int), 16),
{
    let pattern: u128 = if v >= 0 {
        v as u128
    } else {
        u128::MAX - ((-1 - v) as u128)
    };
    push_le(out, pattern, 16);
}

/// Appends `src`.
pub(crate) fn push_bytes(out: &mut Vec<u8>, src: &[u8])
    ensures
        final(out)@ == old(out)@ + src@,
{
    let mut i: usize = 0;
    proof {
        assert(out@ =~= old(out)@ + src@.subrange(0, 0));
    }
    while i < src.len()
        invariant
            i <= src@.len(),
            out@ == old(out)@ + src@.subrange(0, i as int),
        decreases src@.len() - i,
    {
        out.push(src[i]);
        i = i + 1;
        proof {
            assert(out@ =~= old(out)@ + src@.subrange(0, i as int));
        }
    }
    proof {
        assert(src@.subrange(0, i as int) =~= src@);
    }
}

/// Writes `src` over `data` from offset `at` on.
pub(crate) fn overwrite(data: &mut [u8], at: usize, src: &[u8])
    requires
        at + src@.len() <= old(data)@.len(),
    ensures
        final(data)@ == overwritten(old(data)@, at as int, src@),
{
    let end: usize = data.len();
    let mut i: usize = 0;
    while i < src.len()
        invariant
            i <= src@.len(),
            at + src@.len() <= end == data@.len(),
            data@.len() == old(data)@.len(),
            forall|j: int| 0 <= j < i ==> data@[at + j] == src@[j],
            forall|j: int| 0 <= j < at || at + i <= j < data@.len() ==> data@[j] == old(data)@[j],
        decreases src@.len() - i,
    {
        data[at + i] = src[i];
        i = i + 1;
    }
    proof {
        let want = overwritten(old(data)@, at as int, src@);
        assert(want.len() == data@.len());
        assert forall|j: int| 0 <= j < data@.len() implies data@[j] == want[j] by {
            if at <= j < at + src@.len() {
                assert(data@[at + (j - at)] == src@[j - at]);
            }
        }
        assert(data@ =~= want);
    }
}

} // verus!
