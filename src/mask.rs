use vstd::prelude::*;

verus! {

/// A 32-bit masking key.
///
/// On the wire the key is four bytes; the value's least significant byte is
/// the first of them. Payload byte `i` is XORed with key byte `i % 4`.
#[derive(Copy, Clone, Debug, PartialEq, Eq, Structural)]
pub struct Mask(pub u32);

/// The four key bytes of a mask value, in wire order.
pub open spec fn mask_key(mask: u32) -> Seq<u8> {
    seq![mask as u8, (mask >> 8) as u8, (mask >> 16) as u8, (mask >> 24) as u8]
}

/// `data` with byte `i` XORed with key byte `i % 4` of `mask`.
pub open spec fn masked(data: Seq<u8>, mask: u32) -> Seq<u8> {
    Seq::new(data.len(), |i: int| data[i] ^ mask_key(mask)[i % 4])
}

/// The mask value whose key continues the key of `mask` after `n` bytes.
pub open spec fn mask_after(rotated: u32, mask: u32, n: int) -> bool {
    forall|j: int| 0 <= j < 4 ==> #[trigger] mask_key(rotated)[j] == mask_key(mask)[(j + n) % 4]
}

/// Rotating a mask value right by one byte moves its key along by one byte.
proof fn lemma_rotate_one_byte(m: u32)
    ensures
        ((m >> 8u32) | (m << 24u32)) as u8 == (m >> 8u32) as u8,
        (((m >> 8u32) | (m << 24u32)) >> 8u32) as u8 == (m >> 16u32) as u8,
        (((m >> 8u32) | (m << 24u32)) >> 16u32) as u8 == (m >> 24u32) as u8,
        (((m >> 8u32) | (m << 24u32)) >> 24u32) as u8 == m as u8,
{
    assert(((m >> 8u32) | (m << 24u32)) as u8 == (m >> 8u32) as u8) by (bit_vector);
    assert((((m >> 8u32) | (m << 24u32)) >> 8u32) as u8 == (m >> 16u32) as u8) by (bit_vector);
    assert((((m >> 8u32) | (m << 24u32)) >> 16u32) as u8 == (m >> 24u32) as u8) by (bit_vector);
    assert((((m >> 8u32) | (m << 24u32)) >> 24u32) as u8 == m as u8) by (bit_vector);
}

/// After one more byte, the key of the right-rotated value continues the key.
proof fn lemma_mask_after_step(cur: u32, mask: u32, n: int)
    requires
        mask_after(cur, mask, n),
        n >= 0,
    ensures
        mask_after((cur >> 8u32) | (cur << 24u32), mask, n + 1),
{
    lemma_rotate_one_byte(cur);
    let next = (cur >> 8u32) | (cur << 24u32);
    assert(mask_key(cur)[1] == mask_key(mask)[(1 + n) % 4]);
    assert(mask_key(cur)[2] == mask_key(mask)[(2 + n) % 4]);
    assert(mask_key(cur)[3] == mask_key(mask)[(3 + n) % 4]);
    assert(mask_key(cur)[0] == mask_key(mask)[(0 + n) % 4]);
    assert((3 + (n + 1)) % 4 == (0 + n) % 4);
    assert(mask_key(next)[0] == mask_key(mask)[(0 + (n + 1)) % 4]);
    assert(mask_key(next)[1] == mask_key(mask)[(1 + (n + 1)) % 4]);
    assert(mask_key(next)[2] == mask_key(mask)[(2 + (n + 1)) % 4]);
    assert(mask_key(next)[3] == mask_key(mask)[(3 + (n + 1)) % 4]);
}

/// XORing twice with the same byte gives the byte back.
proof fn lemma_xor_twice(a: u8, b: u8)
    ensures
        (a ^ b) ^ b == a,
{
    assert((a ^ b) ^ b == a) by (bit_vector);
}

/// Masking is its own inverse: masking twice with one key gives the data back.
pub proof fn lemma_mask_twice(data: Seq<u8>, mask: u32)
    ensures
        masked(masked(data, mask), mask) == data,
{
    assert forall|i: int| 0 <= i < data.len() implies #[trigger] masked(
        masked(data, mask),
        mask,
    )[i] == data[i] by {
        lemma_xor_twice(data[i], mask_key(mask)[i % 4]);
    }
    assert(masked(masked(data, mask), mask) =~= data);
}

impl Mask {
    /// Returns a mask with a freshly drawn random value.
    pub fn new() -> (r: Mask) {
        Mask(rand::random::<u32>())
    }

    /// Returns the mask's 32-bit value.
    pub fn value(self) -> (r: u32)
        ensures
            r == self.0,
    {
        self.0
    }
}

/// Relies on rand::random: draws a value from the thread-local generator.
/// Nothing is known of the value drawn.
pub assume_specification<T>[ rand::random::<T> ]() -> (r: T)
    where
        rand::distributions::Standard: rand::distributions::Distribution<T>,
;

impl From<u32> for Mask {
    fn from(data: u32) -> (r: Mask) {
        Mask(data)
    }
}

impl vstd::std_specs::convert::FromSpecImpl<u32> for Mask {
    open spec fn obeys_from_spec() -> bool {
        true
    }

    open spec fn from_spec(v: u32) -> Mask {
        Mask(v)
    }
}

impl From<Mask> for u32 {
    fn from(mask: Mask) -> (r: u32) {
        mask.0
    }
}

impl vstd::std_specs::convert::FromSpecImpl<Mask> for u32 {
    open spec fn obeys_from_spec() -> bool {
        true
    }

    open spec fn from_spec(v: Mask) -> u32 {
        v.0
    }
}

/// Masks `data` in place, byte by byte, and returns the mask value that
/// continues the key for the bytes that follow.
pub fn mask_u8_in_place(data: &mut [u8], mask: u32) -> (r: u32)
    ensures
        final(data)@ == masked(old(data)@, mask),
        mask_after(r, mask, old(data)@.len() as int),
{
    let ghost orig = data@;
    let mut cur: u32 = mask;
    let mut i: usize = 0;
    while i < data.len()
        invariant
            i <= data@.len(),
            data@.len() == orig.len(),
            mask_after(cur, mask, i as int),
            forall|k: int| 0 <= k < i ==> #[trigger] data@[k] == orig[k] ^ mask_key(mask)[k % 4],
            forall|k: int| i <= k < data@.len() ==> #[trigger] data@[k] == orig[k],
        decreases data@.len() - i,
    {
        assert(mask_key(cur)[0] == mask_key(mask)[(0 + i) % 4]);
        let b = data[i] ^ (cur as u8);
        data[i] = b;
        let next: u32 = (cur >> 8) | (cur << 24);
        proof {
            lemma_mask_after_step(cur, mask, i as int);
        }
        cur = next;
        i = i + 1;
    }
    assert(data@ =~= masked(orig, mask));
    cur
}

/// Masks `data` into `buf`, byte by byte, and returns the mask value that
/// continues the key for the bytes that follow.
pub fn mask_u8_copy(buf: &mut [u8], data: &[u8], mask: u32) -> (r: u32)
    requires
        old(buf)@.len() == data@.len(),
    ensures
        final(buf)@ == masked(data@, mask),
        mask_after(r, mask, data@.len() as int),
{
    let mut cur: u32 = mask;
    let mut i: usize = 0;
    while i < data.len()
        invariant
            i <= data@.len(),
            buf@.len() == data@.len(),
            mask_after(cur, mask, i as int),
            forall|k: int| 0 <= k < i ==> #[trigger] buf@[k] == data@[k] ^ mask_key(mask)[k % 4],
        decreases data@.len() - i,
    {
        assert(mask_key(cur)[0] == mask_key(mask)[(0 + i) % 4]);
        buf[i] = data[i] ^ (cur as u8);
        let next: u32 = (cur >> 8) | (cur << 24);
        proof {
            lemma_mask_after_step(cur, mask, i as int);
        }
        cur = next;
        i = i + 1;
    }
    assert(buf@ =~= masked(data@, mask));
    cur
}

/// XORs each word of `data` with `mask`.
pub fn mask_aligned_in_place(data: &mut [u32], mask: u32)
    ensures
        final(data)@.len() == old(data)@.len(),
        forall|k: int| 0 <= k < old(data)@.len() ==> #[trigger] final(data)@[k] == old(data)@[k] ^ mask,
{
    let ghost orig = data@;
    let mut i: usize = 0;
    while i < data.len()
        invariant
            i <= data@.len(),
            data@.len() == orig.len(),
            forall|k: int| 0 <= k < i ==> #[trigger] data@[k] == orig[k] ^ mask,
            forall|k: int| i <= k < data@.len() ==> #[trigger] data@[k] == orig[k],
        decreases data@.len() - i,
    {
        let w = data[i] ^ mask;
        data[i] = w;
        i = i + 1;
    }
}

/// Writes each word of `data` XORed with `mask` into `buf`.
pub fn mask_aligned_copy(buf: &mut [u32], data: &[u32], mask: u32)
    requires
        old(buf)@.len() == data@.len(),
    ensures
        final(buf)@.len() == data@.len(),
        forall|k: int| 0 <= k < data@.len() ==> #[trigger] final(buf)@[k] == data@[k] ^ mask,
{
    let mut i: usize = 0;
    while i < data.len()
        invariant
            i <= data@.len(),
            buf@.len() == data@.len(),
            forall|k: int| 0 <= k < i ==> #[trigger] buf@[k] == data@[k] ^ mask,
        decreases data@.len() - i,
    {
        buf[i] = data[i] ^ mask;
        i = i + 1;
    }
}

/// Masks data sent by a client, and unmasks data received by a server.
pub fn mask_in_place(data: &mut [u8], mask: Mask)
    ensures
        final(data)@ == masked(old(data)@, mask.0),
{
    mask_u8_in_place(data, mask.0);
}

/// Masks *by copying* data sent by a client, and unmasks data received by a server.
pub fn mask_copy(buf: &mut [u8], data: &[u8], mask: Mask)
    requires
        old(buf)@.len() == data@.len(),
    ensures
        final(buf)@ == masked(data@, mask.0),
{
    mask_u8_copy(buf, data, mask.0);
}

} // verus!
