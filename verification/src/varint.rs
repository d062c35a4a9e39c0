//! Numbers in base 128, least significant group first, as the wire format
//! of the batch files writes them.

use vstd::prelude::*;

verus! {

/// The bytes of `n`: groups of seven bits, least significant first, each but
/// the last marked with the high bit. The shortest such form.
pub open spec fn varint(n: nat) -> Seq<u8>
    decreases n,
{
    if n < 128 {
        seq![n as u8]
    } else {
        seq![(n % 128 + 128) as u8] + varint(n / 128)
    }
}

/// `s` begins with `prefix`.
pub open spec fn starts_with(s: Seq<u8>, prefix: Seq<u8>) -> bool {
    prefix.len() <= s.len() && s.take(prefix.len() as int) == prefix
}

/// A number takes at least one byte.
pub proof fn lemma_varint_len(n: nat)
    ensures
        varint(n).len() >= 1,
        n < 128 ==> varint(n).len() == 1 && varint(n)[0] == n,
        n >= 128 ==> varint(n)[0] == n % 128 + 128 && varint(n).skip(1) == varint(n / 128),
    decreases n,
{
    if n >= 128 {
        lemma_varint_len(n / 128);
        assert(varint(n).skip(1) =~= varint(n / 128));
    }
}

/// No number's bytes are the beginning of another's: what begins with the
/// bytes of two numbers begins with the same number twice.
pub proof fn lemma_varint_prefix_free(s: Seq<u8>, a: nat, b: nat)
    requires
        starts_with(s, varint(a)),
        starts_with(s, varint(b)),
    ensures
        a == b,
    decreases a,
{
    lemma_varint_len(a);
    lemma_varint_len(b);
    assert(s[0] == s.take(varint(a).len() as int)[0]);
    assert(s[0] == s.take(varint(b).len() as int)[0]);
    if a >= 128 {
        assert(b >= 128);
        let rest = s.skip(1);
        assert(rest.take(varint(a / 128).len() as int) =~= s.take(varint(a).len() as int).skip(1));
        assert(rest.take(varint(b / 128).len() as int) =~= s.take(varint(b).len() as int).skip(1));
        lemma_varint_prefix_free(rest, a / 128, b / 128);
    }
}

/// Appends the bytes of `n`.
pub fn write_varint(buf: &mut Vec<u8>, n: u64)
    ensures
        final(buf)@ == old(buf)@ + varint(n as nat),
    decreases n,
{
    if n < 128 {
        buf.push(n as u8);
        assert(buf@ =~= old(buf)@ + varint(n as nat));
    } else {
        let ghost before = buf@;
        buf.push((n % 128 + 128) as u8);
        write_varint(buf, n / 128);
        assert(buf@ =~= before + varint(n as nat));
    }
}

/// Reads the number whose bytes begin at `pos`, if it is at most `max` and,
/// where `positive` is set, not zero. The answer holds the number and the
/// position after its bytes.
pub fn read_varint(data: &Vec<u8>, pos: usize, max: u64, positive: bool) -> (r: Option<
    (u64, usize),
>)
    requires
        pos <= data@.len(),
    ensures
        match r {
            Some((n, next)) => {
                &&& pos < next <= data@.len()
                &&& data@.subrange(pos as int, next as int) == varint(n as nat)
                &&& n <= max
                &&& positive ==> n >= 1
            },
            None => forall|n: nat|
                n <= max && (positive ==> n >= 1) ==> !starts_with(
                    data@.skip(pos as int),
                    #[trigger] varint(n),
                ),
        },
    decreases data@.len() - pos,
{
    if pos >= data.len() {
        proof {
            assert forall|n: nat| n <= max && (positive ==> n >= 1) implies !starts_with(
                data@.skip(pos as int),
                #[trigger] varint(n),
            ) by {
                lemma_varint_len(n);
            }
        }
        return None;
    }
    let b = data[pos];
    let ghost rest = data@.skip(pos as int);
    proof {
        assert(rest[0] == b);
    }
    if b < 128 {
        if b as u64 > max || (positive && b == 0) {
            proof {
                assert forall|n: nat| n <= max && (positive ==> n >= 1) implies !starts_with(
                    rest,
                    #[trigger] varint(n),
                ) by {
                    lemma_varint_len(n);
                    if starts_with(rest, varint(n)) {
                        assert(rest.take(varint(n).len() as int)[0] == rest[0]);
                    }
                }
            }
            return None;
        }
        proof {
            assert(data@.subrange(pos as int, pos + 1) =~= varint(b as nat));
        }
        return Some((b as u64, pos + 1));
    }
    let low = (b - 128) as u64;
    if low > max {
        proof {
            assert forall|n: nat| n <= max && (positive ==> n >= 1) implies !starts_with(
                rest,
                #[trigger] varint(n),
            ) by {
                lemma_varint_len(n);
                if starts_with(rest, varint(n)) {
                    assert(rest.take(varint(n).len() as int)[0] == rest[0]);
                }
            }
        }
        return None;
    }
    let high_max = (max - low) / 128;
    match read_varint(data, pos + 1, high_max, true) {
        Some((high, next)) => {
            let n = high * 128 + low;
            proof {
                assert(data@.subrange(pos as int, next as int) =~= seq![b] + data@.subrange(
                    pos + 1,
                    next as int,
                ));
                assert(n >= 128 && n % 128 == low && n / 128 == high);
            }
            Some((n, next))
        },
        None => {
            proof {
                assert forall|n: nat| n <= max && (positive ==> n >= 1) implies !starts_with(
                    rest,
                    #[trigger] varint(n),
                ) by {
                    lemma_varint_len(n);
                    if starts_with(rest, varint(n)) {
                        assert(rest.take(varint(n).len() as int)[0] == rest[0]);
                        assert(n >= 128);
                        let tail = data@.skip(pos + 1);
                        assert(tail.take(varint(n / 128).len() as int) =~= rest.take(
                            varint(n).len() as int,
                        ).skip(1));
                        assert(starts_with(tail, varint(n / 128)));
                        assert(n / 128 <= high_max);
                    }
                }
            }
            None
        },
    }
}

} // verus!
