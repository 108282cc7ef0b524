//! Table-driven CRC-32 with the IEEE 802.3 parameters (reflected polynomial
//! 0xEDB88320, register preset to all ones, result complemented).
use vstd::prelude::*;

verus! {

/// One shift of the reflected CRC register, folding in the polynomial when
/// a one bit falls off.
pub open spec fn crc_bit_step(c: u32) -> u32 {
    if c & 1u32 == 1u32 {
        (c >> 1u32) ^ 0xEDB88320u32
    } else {
        c >> 1u32
    }
}

/// Entry `i` of the lookup table: eight register shifts applied to `i`.
pub open spec fn crc_table_entry(i: u32) -> u32 {
    crc_bit_step(
        crc_bit_step(
            crc_bit_step(
                crc_bit_step(crc_bit_step(crc_bit_step(crc_bit_step(crc_bit_step(i))))),
            ),
        ),
    )
}

/// The register after feeding one byte.
pub open spec fn crc_update(crc: u32, byte: u8) -> u32 {
    (crc >> 8u32) ^ crc_table_entry((crc ^ (byte as u32)) & 0xFFu32)
}

/// The register after feeding all of `s`, starting from `init`.
pub open spec fn crc_register(init: u32, s: Seq<u8>) -> u32
    decreases s.len(),
{
    if s.len() == 0 {
        init
    } else {
        crc_update(crc_register(init, s.drop_last()), s.last())
    }
}

/// The CRC-32 checksum of `s`.
pub open spec fn crc32_of(s: Seq<u8>) -> u32 {
    crc_register(0xFFFF_FFFFu32, s) ^ 0xFFFF_FFFFu32
}

fn bit_step(c: u32) -> (r: u32)
    ensures
        r == crc_bit_step(c),
{
    if c & 1 == 1 {
        (c >> 1u32) ^ 0xEDB88320u32
    } else {
        c >> 1u32
    }
}

/// Builds the 256-entry lookup table.
fn crc_table() -> (t: Vec<u32>)
    ensures
        t@.len() == 256,
        forall|i: int| 0 <= i < 256 ==> t@[i] == crc_table_entry(i as u32),
{
    let mut t: Vec<u32> = Vec::with_capacity(256);
    let mut i: u32 = 0;
    while i < 256
        invariant
            i <= 256,
            t@.len() == i,
            forall|j: int| 0 <= j < i ==> t@[j] == crc_table_entry(j as u32),
        decreases 256 - i,
    {
        let e = bit_step(bit_step(bit_step(bit_step(bit_step(bit_step(bit_step(bit_step(i))))))));
        t.push(e);
        i += 1;
    }
    t
}

/// CRC-32 of `data`.
pub fn crc32(data: &[u8]) -> (r: u32)
    ensures
        r == crc32_of(data@),
{
    let table = crc_table();
    let mut crc: u32 = 0xFFFF_FFFF;
    let mut i: usize = 0;
    while i < data.len()
        invariant
            i <= data@.len(),
            table@.len() == 256,
            forall|j: int| 0 <= j < 256 ==> table@[j] == crc_table_entry(j as u32),
            crc == crc_register(0xFFFF_FFFFu32, data@.subrange(0, i as int)),
        decreases data@.len() - i,
    {
        let byte = data[i];
        let index = ((crc ^ (byte as u32)) & 0xFF) as usize;
        assert(((crc ^ (byte as u32)) & 0xFFu32) < 256) by (bit_vector);
        crc = (crc >> 8u32) ^ table[index];
        assert(data@.subrange(0, i + 1).drop_last() =~= data@.subrange(0, i as int));
        i += 1;
    }
    assert(data@.subrange(0, data@.len() as int) =~= data@);
    crc ^ 0xFFFF_FFFF
}

/// Bytewise exclusive or of two sequences of the same length.
pub open spec fn xor_bytes(a: Seq<u8>, b: Seq<u8>) -> Seq<u8> {
    Seq::new(a.len(), |i: int| a[i] ^ b[i])
}

/// `n` bytes, all zero but for bit `bit` of byte `pos`.
pub open spec fn single_bit(n: int, pos: int, bit: u8) -> Seq<u8> {
    Seq::new(n as nat, |i: int| if i == pos { 1u8 << bit } else { 0u8 })
}

proof fn lemma_step_linear(a: u32, b: u32)
    ensures
        crc_bit_step(a ^ b) == crc_bit_step(a) ^ crc_bit_step(b),
{
    assert(crc_bit_step(a ^ b) == crc_bit_step(a) ^ crc_bit_step(b)) by (bit_vector);
}

proof fn lemma_steps_linear(a: u32, b: u32, k: nat)
    ensures
        crc_steps(a ^ b, k) == crc_steps(a, k) ^ crc_steps(b, k),
    decreases k,
{
    if k > 0 {
        lemma_steps_linear(a, b, (k - 1) as nat);
        lemma_step_linear(crc_steps(a, (k - 1) as nat), crc_steps(b, (k - 1) as nat));
    }
}

proof fn lemma_table_linear(a: u32, b: u32)
    ensures
        crc_table_entry(a ^ b) == crc_table_entry(a) ^ crc_table_entry(b),
{
    lemma_steps_linear(a, b, 8);
    lemma_steps_entry(a);
    lemma_steps_entry(b);
    lemma_steps_entry(a ^ b);
}

/// `k` register shifts applied to `c`.
pub open spec fn crc_steps(c: u32, k: nat) -> u32
    decreases k,
{
    if k == 0 {
        c
    } else {
        crc_bit_step(crc_steps(c, (k - 1) as nat))
    }
}

proof fn lemma_steps_entry(c: u32)
    ensures
        crc_steps(c, 8) == crc_table_entry(c),
{
    reveal_with_fuel(crc_steps, 9);
}

proof fn lemma_update_linear(r1: u32, b1: u8, r2: u32, b2: u8)
    ensures
        crc_update(r1 ^ r2, b1 ^ b2) == crc_update(r1, b1) ^ crc_update(r2, b2),
{
    let i1 = (r1 ^ (b1 as u32)) & 0xFFu32;
    let i2 = (r2 ^ (b2 as u32)) & 0xFFu32;
    let i = ((r1 ^ r2) ^ ((b1 ^ b2) as u32)) & 0xFFu32;
    assert(i == i1 ^ i2) by (bit_vector)
        requires
            i1 == (r1 ^ (b1 as u32)) & 0xFFu32,
            i2 == (r2 ^ (b2 as u32)) & 0xFFu32,
            i == ((r1 ^ r2) ^ ((b1 ^ b2) as u32)) & 0xFFu32,
    ;
    lemma_table_linear(i1, i2);
    let (t, t1, t2) = (crc_table_entry(i), crc_table_entry(i1), crc_table_entry(i2));
    assert(((r1 ^ r2) >> 8u32) ^ t == ((r1 >> 8u32) ^ t1) ^ ((r2 >> 8u32) ^ t2)) by (bit_vector)
        requires
            t == t1 ^ t2,
    ;
}

/// The register is linear: feeding the exclusive or of two inputs from the
/// exclusive or of two presets gives the exclusive or of the two registers.
pub proof fn lemma_register_linear(i1: u32, s1: Seq<u8>, i2: u32, s2: Seq<u8>)
    requires
        s1.len() == s2.len(),
    ensures
        crc_register(i1 ^ i2, xor_bytes(s1, s2)) == crc_register(i1, s1) ^ crc_register(i2, s2),
    decreases s1.len(),
{
    if s1.len() > 0 {
        let x = xor_bytes(s1, s2);
        assert(x.drop_last() =~= xor_bytes(s1.drop_last(), s2.drop_last()));
        lemma_register_linear(i1, s1.drop_last(), i2, s2.drop_last());
        lemma_update_linear(
            crc_register(i1, s1.drop_last()),
            s1.last(),
            crc_register(i2, s2.drop_last()),
            s2.last(),
        );
    }
}

/// Feeding `a` then `b` is feeding `a + b`.
pub proof fn lemma_register_append(init: u32, a: Seq<u8>, b: Seq<u8>)
    ensures
        crc_register(init, a + b) == crc_register(crc_register(init, a), b),
    decreases b.len(),
{
    if b.len() == 0 {
        assert(a + b =~= a);
    } else {
        assert((a + b).drop_last() =~= a + b.drop_last());
        lemma_register_append(init, a, b.drop_last());
    }
}

/// Zero bytes keep a zero register zero and a non-zero register non-zero.
proof fn lemma_zeros_keep(init: u32, n: nat)
    ensures
        (crc_register(init, Seq::new(n, |i: int| 0u8)) == 0) == (init == 0),
    decreases n,
{
    if n > 0 {
        let z = Seq::new(n, |i: int| 0u8);
        assert(z.drop_last() =~= Seq::new((n - 1) as nat, |i: int| 0u8));
        lemma_zeros_keep(init, (n - 1) as nat);
        let r = crc_register(init, z.drop_last());
        assert((crc_update(r, 0u8) == 0) == (r == 0)) by (bit_vector);
    }
}

/// A single flipped bit always changes the register.
pub proof fn lemma_single_bit_nonzero(n: int, pos: int, bit: u8)
    requires
        0 <= pos < n,
        bit < 8,
    ensures
        crc_register(0, single_bit(n, pos, bit)) != 0,
{
    let e = single_bit(n, pos, bit);
    let before = Seq::new(pos as nat, |i: int| 0u8);
    let after = Seq::new((n - pos - 1) as nat, |i: int| 0u8);
    assert(e =~= before + seq![1u8 << bit] + after);
    lemma_register_append(0, before + seq![1u8 << bit], after);
    lemma_register_append(0, before, seq![1u8 << bit]);
    lemma_zeros_keep(0, pos as nat);
    let one = seq![1u8 << bit];
    assert(one.drop_last() =~= Seq::<u8>::empty());
    assert(crc_register(0, one.drop_last()) == 0);
    assert(one.last() == 1u8 << bit);
    assert(crc_register(0, one) == crc_update(0, 1u8 << bit));
    assert(crc_update(0, 1u8 << bit) != 0) by (bit_vector)
        requires
            bit < 8,
    ;
    lemma_zeros_keep(crc_register(0, before + one), (n - pos - 1) as nat);
}

/// CRC-32 detects every single-bit error.
pub proof fn lemma_crc32_detects_bit_flip(s: Seq<u8>, pos: int, bit: u8)
    requires
        0 <= pos < s.len(),
        bit < 8,
    ensures
        crc32_of(s.update(pos, s[pos] ^ (1u8 << bit))) != crc32_of(s),
{
    let e = single_bit(s.len() as int, pos, bit);
    assert(s.update(pos, s[pos] ^ (1u8 << bit)) =~= xor_bytes(s, e)) by {
        assert forall|i: int| 0 <= i < s.len() && i != pos implies s[i] ^ 0u8 == s[i] by {
            let b = s[i];
            assert(b ^ 0u8 == b) by (bit_vector);
        }
    }
    assert(0xFFFF_FFFFu32 ^ 0u32 == 0xFFFF_FFFFu32) by (bit_vector);
    lemma_register_linear(0xFFFF_FFFFu32, s, 0u32, e);
    lemma_single_bit_nonzero(s.len() as int, pos, bit);
    let (a, d) = (crc_register(0xFFFF_FFFFu32, s), crc_register(0, e));
    assert((a ^ d) ^ 0xFFFF_FFFFu32 != a ^ 0xFFFF_FFFFu32) by (bit_vector)
        requires
            d != 0,
    ;
}

} // verus!
