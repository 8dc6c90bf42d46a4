//! Numbers in the compact form of the SCALE encoding.

use vstd::prelude::*;
use vstd::slice::slice_subrange;

verus! {

/// The number that the bytes stand for, the least significant one first.
pub open spec fn le_value(bytes: Seq<u8>) -> nat
    decreases bytes.len(),
{
    if bytes.len() == 0 {
        0
    } else {
        bytes[0] as nat + 256 * le_value(bytes.drop_first())
    }
}

/// The compact number at the start of `bytes`, and the number of bytes that it takes. The two low
/// bits of the first byte tell how many bytes there are. Numbers of more than eight bytes do not
/// count as numbers.
pub open spec fn compact(bytes: Seq<u8>) -> Option<(nat, nat)> {
    if bytes.len() == 0 {
        None
    } else {
        let low = bytes[0] as nat % 4;
        let high = bytes[0] as nat / 4;
        if low == 0 {
            Some((high, 1))
        } else if low == 1 {
            if bytes.len() < 2 {
                None
            } else {
                Some((high + 64 * bytes[1] as nat, 2))
            }
        } else if low == 2 {
            if bytes.len() < 4 {
                None
            } else {
                Some((high + 64 * le_value(bytes.subrange(1, 4)), 4))
            }
        } else if high > 4 || bytes.len() < high + 5 {
            None
        } else {
            Some((le_value(bytes.subrange(1, high as int + 5)), high + 5))
        }
    }
}

/// One more than the greatest number that fits in the given number of bytes.
spec fn le_bound(len: nat) -> nat
    decreases len,
{
    if len == 0 {
        1
    } else {
        256 * le_bound((len - 1) as nat)
    }
}

proof fn lemma_le_value_bound(bytes: Seq<u8>)
    ensures
        le_value(bytes) < le_bound(bytes.len()),
    decreases bytes.len(),
{
    if bytes.len() > 0 {
        lemma_le_value_bound(bytes.drop_first());
    }
}

proof fn lemma_le_bound(len: nat)
    requires
        len <= 8,
    ensures
        le_bound(len) <= 0x1_0000_0000_0000_0000,
        len <= 7 ==> le_bound(len) <= 0x100_0000_0000_0000,
        len <= 3 ==> le_bound(len) <= 0x100_0000,
{
    reveal_with_fuel(le_bound, 9);
}

/// The low bytes of a number, the least significant one first.
pub open spec fn le_bytes(n: nat, len: nat) -> Seq<u8>
    decreases len,
{
    if len == 0 {
        Seq::empty()
    } else {
        seq![(n % 256) as u8] + le_bytes(n / 256, (len - 1) as nat)
    }
}

/// Number of bytes that a number takes at least.
pub open spec fn bytes_needed(n: nat) -> nat
    decreases n,
{
    if n == 0 {
        0
    } else {
        1 + bytes_needed(n / 256)
    }
}

/// A number in the compact form, in as few bytes as it takes.
pub open spec fn compact_encoding(n: nat) -> Seq<u8> {
    if n < 0x40 {
        seq![(4 * n) as u8]
    } else if n < 0x4000 {
        seq![(4 * (n % 64) + 1) as u8, (n / 64) as u8]
    } else if n < 0x4000_0000 {
        seq![(4 * (n % 64) + 2) as u8] + le_bytes(n / 64, 3)
    } else {
        seq![(4 * (bytes_needed(n) - 4) + 3) as u8] + le_bytes(n, bytes_needed(n))
    }
}

/// The bytes of a number stand for this number, if there are enough of them.
pub proof fn le_round_trip(n: nat, len: nat)
    requires
        bytes_needed(n) <= len,
    ensures
        le_bytes(n, len).len() == len,
        le_value(le_bytes(n, len)) == n,
    decreases len,
{
    if len > 0 {
        assert(bytes_needed(n / 256) <= len - 1);
        le_round_trip(n / 256, (len - 1) as nat);
        assert(le_bytes(n, len).drop_first() =~= le_bytes(n / 256, (len - 1) as nat));
    }
}

proof fn lemma_bytes_needed(n: nat, len: nat)
    ensures
        bytes_needed(n) <= len <==> n < le_bound(len),
    decreases len,
{
    if len > 0 {
        lemma_bytes_needed(n / 256, (len - 1) as nat);
        assert(le_bound(len) == 256 * le_bound((len - 1) as nat));
        lemma_bytes_needed_zero(n);
    } else {
        lemma_bytes_needed_zero(n);
    }
}

proof fn lemma_bytes_needed_zero(n: nat)
    ensures
        bytes_needed(n) == 0 <==> n == 0,
{
}

/// A number of up to sixty-four bits that was written in the compact form is read back, whatever
/// comes behind it and however many bytes it takes. It takes one byte below two to the power of
/// six, two bytes below the power of fourteen, four below the power of thirty, and otherwise one
/// byte more than the number itself.
pub proof fn compact_round_trip(n: nat, rest: Seq<u8>)
    requires
        n <= u64::MAX,
    ensures
        compact(compact_encoding(n) + rest) == Some((n, compact_encoding(n).len())),
        n < 0x40 ==> compact_encoding(n).len() == 1,
        0x40 <= n < 0x4000 ==> compact_encoding(n).len() == 2,
        0x4000 <= n < 0x4000_0000 ==> compact_encoding(n).len() == 4,
        0x4000_0000 <= n ==> compact_encoding(n).len() == 1 + bytes_needed(n) <= 9,
{
    let code = compact_encoding(n);
    let all = code + rest;
    reveal_with_fuel(le_bound, 9);
    lemma_bytes_needed(n, 8);
    lemma_bytes_needed(n, 3);
    if n < 0x40 {
    } else if n < 0x4000 {
        assert(all[1] == (n / 64) as u8);
    } else if n < 0x4000_0000 {
        lemma_bytes_needed(n / 64, 3);
        le_round_trip(n / 64, 3);
        assert(all.subrange(1, 4) =~= le_bytes(n / 64, 3));
    } else {
        let len = bytes_needed(n);
        le_round_trip(n, len);
        assert(all[0] as nat == 4 * (len - 4) + 3);
        assert(all.subrange(1, len as int + 1) =~= le_bytes(n, len));
    }
}

/// Reads a number of eight bytes at most, the least significant one first.
fn read_le(bytes: &[u8]) -> (r: u64)
    requires
        bytes@.len() <= 8,
    ensures
        r == le_value(bytes@),
{
    let mut value: u64 = 0;
    let mut i: usize = bytes.len();
    while i > 0
        invariant
            bytes@.len() <= 8,
            i <= bytes@.len(),
            value == le_value(bytes@.skip(i as int)),
        decreases i,
    {
        i -= 1;
        proof {
            let rest = bytes@.skip(i as int);
            assert(rest.drop_first() =~= bytes@.skip(i + 1));
            lemma_le_value_bound(bytes@.skip(i + 1));
            lemma_le_bound(bytes@.skip(i + 1).len());
        }
        value = 256 * value + bytes[i] as u64;
    }
    assert(bytes@.skip(0) =~= bytes@);
    value
}

/// Reads the compact number at the start of `bytes`. Returns it and the number of bytes that it
/// takes.
pub fn read_compact(bytes: &[u8]) -> (r: Option<(u64, usize)>)
    ensures
        match r {
            Some((value, len)) => {
                &&& compact(bytes@) == Some((value as nat, len as nat))
                &&& 0 < len <= bytes@.len()
            },
            None => compact(bytes@) is None,
        },
{
    if bytes.len() == 0 {
        return None;
    }
    let low: u8 = bytes[0] % 4;
    let high: u8 = bytes[0] / 4;
    if low == 0 {
        Some((high as u64, 1))
    } else if low == 1 {
        if bytes.len() < 2 {
            None
        } else {
            Some((high as u64 + 64 * bytes[1] as u64, 2))
        }
    } else if low == 2 {
        if bytes.len() < 4 {
            None
        } else {
            let value: u64 = read_le(slice_subrange(bytes, 1, 4));
            proof {
                lemma_le_value_bound(bytes@.subrange(1, 4));
                lemma_le_bound(3);
            }
            Some((high as u64 + 64 * value, 4))
        }
    } else if high > 4 || bytes.len() < high as usize + 5 {
        None
    } else {
        let len: usize = high as usize + 5;
        Some((read_le(slice_subrange(bytes, 1, len)), len))
    }
}

/// A compact number is made of bytes that are there, is one of up to sixty-four bits, and does not
/// depend on what comes behind it. If the last of its bytes is missing, there is no number.
pub proof fn compact_number_is_all_there(bytes: Seq<u8>, other: Seq<u8>, k: int)
    ensures
        compact(bytes) is None <== bytes.len() == 0,
        compact(bytes) matches Some((n, used)) ==> {
            &&& n <= u64::MAX
            &&& 1 <= used <= 9
            &&& used <= bytes.len()
            &&& compact(bytes.take(used as int) + other) == Some((n, used))
            &&& 0 <= k < used ==> compact(bytes.take(k)) is None
        },
{
    if let Some((n, used)) = compact(bytes) {
        let alone = bytes.take(used as int) + other;
        assert(alone[0] == bytes[0]);
        let read = bytes.subrange(1, used as int);
        assert(alone.subrange(1, used as int) =~= read);
        lemma_le_value_bound(read);
        lemma_le_bound(read.len());
        if used > 1 {
            assert(alone[1] == bytes[1]);
        }
        if 0 < k < used {
            assert(bytes.take(k)[0] == bytes[0]);
        }
    }
}

/// A number that was written in the compact form is not read if one of its last bytes is missing.
pub proof fn compact_cut_short_is_refused(n: nat, k: int)
    requires
        n <= u64::MAX,
        0 <= k < compact_encoding(n).len(),
    ensures
        compact(compact_encoding(n).take(k)) is None,
{
    let code = compact_encoding(n);
    compact_round_trip(n, Seq::empty());
    assert(code + Seq::<u8>::empty() =~= code);
    compact_number_is_all_there(code, Seq::empty(), k);
}

} // verus!
