use vstd::prelude::*;

verus! {

/// One step of the reflected CRC-32 register: shift right by one bit, and
/// fold the polynomial 0xEDB88320 in where the bit shifted out was set.
pub open spec fn crc_shift(c: u32) -> u32 {
    if c & 1 == 1 {
        (c >> 1) ^ 0xEDB8_8320u32
    } else {
        c >> 1
    }
}

/// `n` steps of the register.
pub open spec fn crc_shifts(c: u32, n: nat) -> u32
    decreases n,
{
    if n == 0 {
        c
    } else {
        crc_shifts(crc_shift(c), (n - 1) as nat)
    }
}

/// The register after byte `b` has been fed into it.
pub open spec fn crc_byte(c: u32, b: u8) -> u32 {
    crc_shifts(c ^ (b as u32), 8)
}

/// The register after every byte of `data` has been fed into it, in order.
pub open spec fn crc_fold(c: u32, data: Seq<u8>) -> u32
    decreases data.len(),
{
    if data.len() == 0 {
        c
    } else {
        crc_byte(crc_fold(c, data.drop_last()), data.last())
    }
}

/// The CRC-32 of a chunk: the register starts at 0xFFFFFFFF, takes the tag and
/// then the payload, and is inverted at the end.
pub open spec fn spec_crc32(tag: Seq<u8>, payload: Seq<u8>) -> u32 {
    crc_fold(0xFFFF_FFFFu32, tag + payload) ^ 0xFFFF_FFFFu32
}

/// Feeding `a + b` is feeding `a` and then `b`.
pub proof fn lemma_crc_fold_concat(c: u32, a: Seq<u8>, b: Seq<u8>)
    ensures
        crc_fold(c, a + b) == crc_fold(crc_fold(c, a), b),
    decreases b.len(),
{
    if b.len() == 0 {
        assert(a + b =~= a);
    } else {
        assert((a + b).drop_last() =~= a + b.drop_last());
        assert((a + b).last() == b.last());
        lemma_crc_fold_concat(c, a, b.drop_last());
    }
}

/// Feeding one more byte, seen from the front of the data.
pub proof fn lemma_crc_fold_push(c: u32, data: Seq<u8>, b: u8)
    ensures
        crc_fold(c, data.push(b)) == crc_byte(crc_fold(c, data), b),
{
    assert(data.push(b).drop_last() =~= data);
}

/// Different registers stay different through any number of steps.
pub proof fn lemma_crc_shifts_injective(x: u32, y: u32, n: nat)
    requires
        x != y,
    ensures
        crc_shifts(x, n) != crc_shifts(y, n),
    decreases n,
{
    if n > 0 {
        assert(x != y ==> (if x & 1 == 1 {
            (x >> 1) ^ 0xEDB8_8320u32
        } else {
            x >> 1
        }) != (if y & 1 == 1 {
            (y >> 1) ^ 0xEDB8_8320u32
        } else {
            y >> 1
        })) by (bit_vector);
        lemma_crc_shifts_injective(crc_shift(x), crc_shift(y), (n - 1) as nat);
    }
}

/// Different registers stay different when the same data is fed into both.
pub proof fn lemma_crc_fold_injective(x: u32, y: u32, data: Seq<u8>)
    requires
        x != y,
    ensures
        crc_fold(x, data) != crc_fold(y, data),
    decreases data.len(),
{
    if data.len() > 0 {
        lemma_crc_fold_injective(x, y, data.drop_last());
        let p = crc_fold(x, data.drop_last());
        let q = crc_fold(y, data.drop_last());
        let b = data.last();
        assert(p != q ==> p ^ (b as u32) != q ^ (b as u32)) by (bit_vector);
        lemma_crc_shifts_injective(p ^ (b as u32), q ^ (b as u32), 8);
    }
}

/// The checksum tells apart two payloads that differ in exactly one byte.
pub proof fn lemma_crc32_detects_byte_change(tag: Seq<u8>, payload: Seq<u8>, i: int, b: u8)
    requires
        0 <= i < payload.len(),
        payload[i] != b,
    ensures
        spec_crc32(tag, payload.update(i, b)) != spec_crc32(tag, payload),
{
    let head = tag + payload.take(i);
    let tail = payload.skip(i + 1);
    let a = payload[i];
    assert(tag + payload =~= head.push(a) + tail);
    assert(tag + payload.update(i, b) =~= head.push(b) + tail);
    let c = crc_fold(0xFFFF_FFFFu32, head);
    lemma_crc_fold_push(0xFFFF_FFFFu32, head, a);
    lemma_crc_fold_push(0xFFFF_FFFFu32, head, b);
    assert(a != b ==> c ^ (a as u32) != c ^ (b as u32)) by (bit_vector);
    lemma_crc_shifts_injective(c ^ (a as u32), c ^ (b as u32), 8);
    let x = crc_byte(c, a);
    let y = crc_byte(c, b);
    lemma_crc_fold_concat(0xFFFF_FFFFu32, head.push(a), tail);
    lemma_crc_fold_concat(0xFFFF_FFFFu32, head.push(b), tail);
    lemma_crc_fold_injective(x, y, tail);
    let p = crc_fold(x, tail);
    let q = crc_fold(y, tail);
    assert(p != q ==> p ^ 0xFFFF_FFFFu32 != q ^ 0xFFFF_FFFFu32) by (bit_vector);
}

/// Feeds one byte into the register.
fn crc_update_byte(c: u32, b: u8) -> (r: u32)
    ensures
        r == crc_byte(c, b),
{
    let mut x: u32 = c ^ (b as u32);
    let mut k: u8 = 0;
    while k < 8
        invariant
            k <= 8,
            crc_shifts(x, (8 - k) as nat) == crc_byte(c, b),
        decreases 8 - k,
    {
        x = if x & 1 == 1 {
            (x >> 1) ^ 0xEDB8_8320u32
        } else {
            x >> 1
        };
        k += 1;
    }
    x
}

/// Feeds every byte of `data` into the register.
fn crc_update(c: u32, data: &[u8]) -> (r: u32)
    ensures
        r == crc_fold(c, data@),
{
    let mut x: u32 = c;
    let mut i: usize = 0;
    while i < data.len()
        invariant
            i <= data.len(),
            x == crc_fold(c, data@.take(i as int)),
        decreases data.len() - i,
    {
        proof {
            assert(data@.take(i + 1) =~= data@.take(i as int).push(data@[i as int]));
            lemma_crc_fold_push(c, data@.take(i as int), data@[i as int]);
        }
        x = crc_update_byte(x, data[i]);
        i += 1;
    }
    assert(data@.take(i as int) =~= data@);
    x
}

/// The CRC-32 of a chunk's tag followed by its payload, as zlib and PNG
/// compute it.
pub fn crc32(type_tag: &[u8; 4], payload: &[u8]) -> (r: u32)
    ensures
        r == spec_crc32(type_tag@, payload@),
{
    let c = crc_update(0xFFFF_FFFFu32, type_tag.as_slice());
    let c = crc_update(c, payload);
    proof {
        lemma_crc_fold_concat(0xFFFF_FFFFu32, type_tag@, payload@);
    }
    c ^ 0xFFFF_FFFFu32
}

} // verus!
