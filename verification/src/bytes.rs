use vstd::prelude::*;
use crate::state::Address;

verus! {

/// The eight bytes of `w` in little-endian order.
pub open spec fn le8(w: u64) -> Seq<u8> {
    Seq::new(8, |i: int| ((w >> ((8 * i) as u64)) & 0xff) as u8)
}

/// The 32-byte string of an address: its four words, each little-endian.
pub open spec fn addr_bytes(a: Address) -> Seq<u8> {
    le8(a.w0) + le8(a.w1) + le8(a.w2) + le8(a.w3)
}

/// The word assembled from eight bytes in little-endian order.
pub open spec fn word_of(b0: u8, b1: u8, b2: u8, b3: u8, b4: u8, b5: u8, b6: u8, b7: u8) -> u64 {
    (b0 as u64) | ((b1 as u64) << 8u64) | ((b2 as u64) << 16u64) | ((b3 as u64) << 24u64)
        | ((b4 as u64) << 32u64) | ((b5 as u64) << 40u64) | ((b6 as u64) << 48u64)
        | ((b7 as u64) << 56u64)
}

/// Reading a word out of eight bytes and spelling it back out gives the same
/// eight bytes: `word_of` and `le8` are inverse.
pub proof fn lemma_word_of_le8(b0: u8, b1: u8, b2: u8, b3: u8, b4: u8, b5: u8, b6: u8, b7: u8)
    ensures
        le8(word_of(b0, b1, b2, b3, b4, b5, b6, b7)) =~= seq![b0, b1, b2, b3, b4, b5, b6, b7],
{
    let x = word_of(b0, b1, b2, b3, b4, b5, b6, b7);
    assert((x >> 0u64) & 0xff == b0 && (x >> 8u64) & 0xff == b1 && (x >> 16u64) & 0xff == b2
        && (x >> 24u64) & 0xff == b3 && (x >> 32u64) & 0xff == b4 && (x >> 40u64) & 0xff == b5
        && (x >> 48u64) & 0xff == b6 && (x >> 56u64) & 0xff == b7) by (bit_vector)
        requires
            x == (b0 as u64) | ((b1 as u64) << 8u64) | ((b2 as u64) << 16u64)
                | ((b3 as u64) << 24u64) | ((b4 as u64) << 32u64) | ((b5 as u64) << 40u64)
                | ((b6 as u64) << 48u64) | ((b7 as u64) << 56u64),
    ;
}

/// The eight little-endian bytes of `w`, executably.
pub fn u64_le_bytes(w: u64) -> (r: Vec<u8>)
    ensures
        r@ == le8(w),
{
    let mut r: Vec<u8> = Vec::new();
    let mut i: usize = 0;
    while i < 8
        invariant
            i <= 8,
            r@.len() == i,
            forall|k: int| 0 <= k < i ==> r@[k] == le8(w)[k],
        decreases 8 - i,
    {
        r.push(((w >> ((8 * i) as u64)) & 0xff) as u8);
        i += 1;
    }
    proof {
        assert(r@ =~= le8(w));
    }
    r
}

/// The 32-byte string of an address, executably.
pub fn address_to_bytes(a: &Address) -> (r: Vec<u8>)
    ensures
        r@ == addr_bytes(*a),
        r@.len() == 32,
{
    let mut r = u64_le_bytes(a.w0);
    let mut t = u64_le_bytes(a.w1);
    r.append(&mut t);
    let mut t = u64_le_bytes(a.w2);
    r.append(&mut t);
    let mut t = u64_le_bytes(a.w3);
    r.append(&mut t);
    r
}

/// Assemble the word stored little-endian at `off`.
fn u64_from_le(b: &Vec<u8>, off: usize) -> (r: u64)
    requires
        off + 8 <= b@.len(),
    ensures
        le8(r) == b@.subrange(off as int, off as int + 8),
{
    let n = b.len();
    proof {
        assert(off + 8 <= n);
    }
    let r = (b[off] as u64) | ((b[off + 1] as u64) << 8u64) | ((b[off + 2] as u64) << 16u64)
        | ((b[off + 3] as u64) << 24u64) | ((b[off + 4] as u64) << 32u64)
        | ((b[off + 5] as u64) << 40u64) | ((b[off + 6] as u64) << 48u64)
        | ((b[off + 7] as u64) << 56u64);
    proof {
        lemma_word_of_le8(
            b@[off as int],
            b@[off as int + 1],
            b@[off as int + 2],
            b@[off as int + 3],
            b@[off as int + 4],
            b@[off as int + 5],
            b@[off as int + 6],
            b@[off as int + 7],
        );
        assert(le8(r) =~= b@.subrange(off as int, off as int + 8));
    }
    r
}

/// Parse an address back out of its 32-byte string. Returns `None` for any
/// other length; on 32 bytes the parsed address spells back to the input.
pub fn address_from_bytes(b: &Vec<u8>) -> (r: Option<Address>)
    ensures
        b@.len() != 32 ==> r is None,
        b@.len() == 32 ==> (r matches Some(a) && addr_bytes(a) == b@),
{
    if b.len() != 32 {
        return None;
    }
    let a = Address {
        w0: u64_from_le(b, 0),
        w1: u64_from_le(b, 8),
        w2: u64_from_le(b, 16),
        w3: u64_from_le(b, 24),
    };
    proof {
        assert(addr_bytes(a) =~= b@);
    }
    Some(a)
}

/// Byte-string equality, executably.
pub fn bytes_eq(a: &Vec<u8>, b: &Vec<u8>) -> (r: bool)
    ensures
        r == (a@ == b@),
{
    if a.len() != b.len() {
        proof {
            assert(a@ != b@);
        }
        return false;
    }
    let mut i: usize = 0;
    while i < a.len()
        invariant
            i <= a@.len(),
            a@.len() == b@.len(),
            forall|k: int| 0 <= k < i ==> a@[k] == b@[k],
        decreases a@.len() - i,
    {
        if a[i] != b[i] {
            proof {
                assert(a@[i as int] != b@[i as int]);
            }
            return false;
        }
        i += 1;
    }
    proof {
        assert(a@ =~= b@);
    }
    true
}

} // verus!
