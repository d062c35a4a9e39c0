//! The record that a batch file holds, byte by byte: each transaction's
//! serialized form as a length-delimited field, then the version of the
//! first of them.

use vstd::prelude::*;
use crate::varint::{
    lemma_varint_len, lemma_varint_prefix_free, read_varint, starts_with, varint, write_varint,
};

verus! {

/// The byte that opens a transaction: field 1, length-delimited.
pub const TRANSACTION_TAG: u8 = 10;

/// The byte that opens the starting version: field 2, a number.
pub const STARTING_VERSION_TAG: u8 = 16;

/// One transaction in the record: the tag, the length, the bytes.
pub open spec fn field(payload: Seq<u8>) -> Seq<u8> {
    seq![TRANSACTION_TAG] + varint(payload.len()) + payload
}

/// The transactions in the record, in order.
pub open spec fn fields(payloads: Seq<Seq<u8>>) -> Seq<u8>
    decreases payloads.len(),
{
    if payloads.len() == 0 {
        Seq::empty()
    } else {
        field(payloads[0]) + fields(payloads.drop_first())
    }
}

/// The whole record: the transactions, then the starting version.
pub open spec fn storage_bytes(payloads: Seq<Seq<u8>>, starting_version: u64) -> Seq<u8> {
    fields(payloads) + seq![STARTING_VERSION_TAG] + varint(starting_version as nat)
}

/// The bytes of each of a run of byte strings.
pub open spec fn byte_views(payloads: Seq<Vec<u8>>) -> Seq<Seq<u8>> {
    payloads.map_values(|p: Vec<u8>| p@)
}

/// The record of a run with one more transaction is the record of the run,
/// then that transaction.
pub proof fn lemma_fields_push(payloads: Seq<Seq<u8>>, payload: Seq<u8>)
    ensures
        fields(payloads.push(payload)) == fields(payloads) + field(payload),
    decreases payloads.len(),
{
    let all = payloads.push(payload);
    if payloads.len() == 0 {
        assert(all.drop_first() =~= Seq::<Seq<u8>>::empty());
        assert(fields(all.drop_first()) =~= Seq::<u8>::empty());
        assert(fields(all) =~= field(payload));
        assert(fields(payloads) + field(payload) =~= field(payload));
    } else {
        assert(all.drop_first() =~= payloads.drop_first().push(payload));
        lemma_fields_push(payloads.drop_first(), payload);
        assert(fields(all) =~= fields(payloads) + field(payload));
    }
}

/// How a record begins: with a transaction if it holds one, with the
/// starting version otherwise.
pub proof fn lemma_storage_head(payloads: Seq<Seq<u8>>, starting_version: u64)
    ensures
        storage_bytes(payloads, starting_version).len() >= 2,
        storage_bytes(payloads, starting_version)[0] == if payloads.len() == 0 {
            STARTING_VERSION_TAG
        } else {
            TRANSACTION_TAG
        },
        payloads.len() == 0 ==> storage_bytes(payloads, starting_version).skip(1) == varint(
            starting_version as nat,
        ),
        payloads.len() > 0 ==> storage_bytes(payloads, starting_version).skip(1) == varint(
            payloads[0].len(),
        ) + payloads[0] + storage_bytes(payloads.drop_first(), starting_version),
{
    lemma_varint_len(starting_version as nat);
    let all = storage_bytes(payloads, starting_version);
    if payloads.len() == 0 {
        assert(all.skip(1) =~= varint(starting_version as nat));
    } else {
        lemma_varint_len(payloads[0].len());
        assert(all.skip(1) =~= varint(payloads[0].len()) + payloads[0] + storage_bytes(
            payloads.drop_first(),
            starting_version,
        ));
    }
}

/// What has been read of `data` up to `pos` agrees with the record of
/// `payloads` and `starting_version`, if `data` is that record.
pub open spec fn agrees(
    data: Seq<u8>,
    pos: int,
    parsed: Seq<Seq<u8>>,
    payloads: Seq<Seq<u8>>,
    starting_version: u64,
) -> bool {
    data == storage_bytes(payloads, starting_version) ==> {
        &&& parsed.len() <= payloads.len()
        &&& payloads.take(parsed.len() as int) == parsed
        &&& data.skip(pos) == storage_bytes(payloads.skip(parsed.len() as int), starting_version)
    }
}

/// Reading one more transaction keeps what has been read in agreement with
/// any record that `data` may be.
proof fn lemma_agrees_step(
    data: Seq<u8>,
    pos: int,
    parsed: Seq<Seq<u8>>,
    n: nat,
    next: int,
    payloads: Seq<Seq<u8>>,
    starting_version: u64,
)
    requires
        agrees(data, pos, parsed, payloads, starting_version),
        data == storage_bytes(payloads, starting_version),
        0 <= pos < data.len(),
        data[pos] == TRANSACTION_TAG,
        pos < next <= data.len(),
        data.subrange(pos + 1, next) == varint(n),
    ensures
        next + n <= data.len(),
        agrees(
            data,
            next + n,
            parsed.push(data.subrange(next, next + n)),
            payloads,
            starting_version,
        ),
        parsed.len() < payloads.len(),
{
    let k = parsed.len() as int;
    let rest = payloads.skip(k);
    let tail = data.skip(pos);
    lemma_storage_head(rest, starting_version);
    assert(tail[0] == data[pos]);
    assert(rest.len() > 0);
    let after = tail.skip(1);
    assert(after =~= data.skip(pos + 1));
    let first = rest[0];
    let remainder = storage_bytes(rest.drop_first(), starting_version);
    assert(after == varint(first.len()) + first + remainder);
    assert(after.take(varint(first.len()).len() as int) =~= varint(first.len()));
    assert(after.take(varint(n).len() as int) =~= data.subrange(pos + 1, next));
    lemma_varint_prefix_free(after, n, first.len());
    let width = varint(n).len() as int;
    assert(data.subrange(pos + 1, next).len() == next - pos - 1);
    assert(width == next - pos - 1);
    assert(after.len() == width + n + remainder.len());
    assert(first =~= after.subrange(width, width + n));
    assert(after.subrange(width, width + n) =~= data.subrange(next, next + n));
    assert(remainder =~= after.skip(width + n));
    assert(after.skip(width + n) =~= data.skip(next + n));
    assert(rest.drop_first() =~= payloads.skip(k + 1));
    assert(payloads.take(k + 1) =~= parsed.push(first));
}

/// Appends `bytes`.
fn push_all(buf: &mut Vec<u8>, bytes: &Vec<u8>)
    ensures
        final(buf)@ == old(buf)@ + bytes@,
{
    let mut i: usize = 0;
    while i < bytes.len()
        invariant
            i <= bytes@.len(),
            buf@ == old(buf)@ + bytes@.take(i as int),
        decreases bytes@.len() - i,
    {
        buf.push(bytes[i]);
        i = i + 1;
        assert(buf@ =~= old(buf)@ + bytes@.take(i as int));
    }
    assert(bytes@.take(i as int) =~= bytes@);
}

/// The bytes of `data` from `from` up to `to`.
fn copy_range(data: &Vec<u8>, from: usize, to: usize) -> (r: Vec<u8>)
    requires
        from <= to <= data@.len(),
    ensures
        r@ == data@.subrange(from as int, to as int),
{
    let mut r: Vec<u8> = Vec::new();
    let mut i = from;
    while i < to
        invariant
            from <= i <= to <= data@.len(),
            r@ == data@.subrange(from as int, i as int),
        decreases to - i,
    {
        r.push(data[i]);
        i = i + 1;
        assert(r@ =~= data@.subrange(from as int, i as int));
    }
    r
}

/// Writes the record of `payloads` and `starting_version`.
pub fn encode_storage(payloads: &Vec<Vec<u8>>, starting_version: u64) -> (r: Vec<u8>)
    ensures
        r@ == storage_bytes(byte_views(payloads@), starting_version),
{
    let mut buf: Vec<u8> = Vec::new();
    let ghost all = byte_views(payloads@);
    let mut i: usize = 0;
    proof {
        assert(all.take(0) =~= Seq::<Seq<u8>>::empty());
    }
    while i < payloads.len()
        invariant
            i <= payloads@.len(),
            all == byte_views(payloads@),
            buf@ == fields(all.take(i as int)),
        decreases payloads@.len() - i,
    {
        let ghost before = buf@;
        proof {
            lemma_fields_push(all.take(i as int), all[i as int]);
            assert(all.take(i + 1) =~= all.take(i as int).push(all[i as int]));
        }
        buf.push(TRANSACTION_TAG);
        write_varint(&mut buf, payloads[i].len() as u64);
        push_all(&mut buf, &payloads[i]);
        proof {
            assert(buf@ =~= before + field(all[i as int]));
        }
        i = i + 1;
    }
    proof {
        assert(all.take(i as int) =~= all);
    }
    buf.push(STARTING_VERSION_TAG);
    write_varint(&mut buf, starting_version);
    proof {
        assert(buf@ =~= storage_bytes(all, starting_version));
    }
    buf
}

/// Reads a record: the transactions' bytes and the starting version, exactly
/// if `data` is the record of some transactions and a starting version.
pub fn decode_storage(data: &Vec<u8>) -> (r: Option<(Vec<Vec<u8>>, u64)>)
    ensures
        match r {
            Some((payloads, starting_version)) => data@ == storage_bytes(
                byte_views(payloads@),
                starting_version,
            ),
            None => forall|payloads: Seq<Seq<u8>>, starting_version: u64|
                data@ != #[trigger] storage_bytes(payloads, starting_version),
        },
{
    let len = data.len();
    let mut parsed: Vec<Vec<u8>> = Vec::new();
    let mut pos: usize = 0;
    proof {
        assert(byte_views(parsed@) =~= Seq::<Seq<u8>>::empty());
        assert(data@.take(0) =~= fields(byte_views(parsed@)));
        assert forall|payloads: Seq<Seq<u8>>, starting_version: u64| #[trigger]
            agrees(data@, 0, byte_views(parsed@), payloads, starting_version) by {
            assert(data@.skip(0) =~= data@);
            assert(payloads.skip(0) =~= payloads);
            assert(payloads.take(0) =~= byte_views(parsed@));
        }
    }
    while pos < len && data[pos] == TRANSACTION_TAG
        invariant
            len == data@.len(),
            pos <= len,
            data@.take(pos as int) == fields(byte_views(parsed@)),
            forall|payloads: Seq<Seq<u8>>, starting_version: u64| #[trigger]
                agrees(data@, pos as int, byte_views(parsed@), payloads, starting_version),
        decreases len - pos,
    {
        let ghost old_parsed = byte_views(parsed@);
        let ghost old_pos = pos;
        let (n, next) = match read_varint(data, pos + 1, u64::MAX, false) {
            Some(found) => found,
            None => {
                proof {
                    assert forall|payloads: Seq<Seq<u8>>, starting_version: u64|
                        data@ != #[trigger] storage_bytes(payloads, starting_version) by {
                        assert(agrees(data@, pos as int, old_parsed, payloads, starting_version));
                        if data@ == storage_bytes(payloads, starting_version) {
                            let rest = payloads.skip(old_parsed.len() as int);
                            lemma_storage_head(rest, starting_version);
                            assert(data@.skip(pos as int)[0] == data@[pos as int]);
                            assert(data@.skip(pos as int).skip(1) =~= data@.skip(pos + 1));
                            let m = rest[0].len();
                            assert(data@.skip(pos + 1).take(varint(m).len() as int) =~= varint(m));
                            assert(m <= data@.skip(pos + 1).len());
                            assert(starts_with(data@.skip(pos + 1), varint(m)));
                        }
                    }
                }
                return None;
            },
        };
        if n > (len - next) as u64 {
            proof {
                assert forall|payloads: Seq<Seq<u8>>, starting_version: u64|
                    data@ != #[trigger] storage_bytes(payloads, starting_version) by {
                    assert(agrees(data@, pos as int, old_parsed, payloads, starting_version));
                    if data@ == storage_bytes(payloads, starting_version) {
                        lemma_agrees_step(
                            data@,
                            pos as int,
                            old_parsed,
                            n as nat,
                            next as int,
                            payloads,
                            starting_version,
                        );
                    }
                }
            }
            return None;
        }
        let end = next + n as usize;
        let payload = copy_range(data, next, end);
        proof {
            lemma_fields_push(old_parsed, payload@);
            assert(data@.take(end as int) =~= data@.take(pos as int) + field(payload@)) by {
                assert(data@.subrange(pos + 1, next as int).len() == next - pos - 1);
                assert(data@.take(end as int) =~= data@.take(pos as int) + seq![
                    data@[pos as int],
                ] + data@.subrange(pos + 1, next as int) + data@.subrange(
                    next as int,
                    end as int,
                ));
            }
        }
        parsed.push(payload);
        pos = end;
        proof {
            assert(byte_views(parsed@) =~= old_parsed.push(payload@));
            assert forall|payloads: Seq<Seq<u8>>, starting_version: u64| #[trigger]
                agrees(data@, pos as int, byte_views(parsed@), payloads, starting_version) by {
                assert(agrees(data@, old_pos as int, old_parsed, payloads, starting_version));
                if data@ == storage_bytes(payloads, starting_version) {
                    lemma_agrees_step(
                        data@,
                        old_pos as int,
                        old_parsed,
                        n as nat,
                        next as int,
                        payloads,
                        starting_version,
                    );
                }
            }
        }
    }
    let ghost views = byte_views(parsed@);
    if pos >= len || data[pos] != STARTING_VERSION_TAG {
        proof {
            assert forall|payloads: Seq<Seq<u8>>, starting_version: u64|
                data@ != #[trigger] storage_bytes(payloads, starting_version) by {
                assert(agrees(data@, pos as int, views, payloads, starting_version));
                if data@ == storage_bytes(payloads, starting_version) {
                    let rest = payloads.skip(views.len() as int);
                    lemma_storage_head(rest, starting_version);
                    assert(data@.skip(pos as int)[0] == data@[pos as int]);
                }
            }
        }
        return None;
    }
    match read_varint(data, pos + 1, u64::MAX, false) {
        Some((starting_version, next)) => {
            if next != len {
                proof {
                    assert forall|payloads: Seq<Seq<u8>>, other: u64|
                        data@ != #[trigger] storage_bytes(payloads, other) by {
                        assert(agrees(data@, pos as int, views, payloads, other));
                        if data@ == storage_bytes(payloads, other) {
                            let rest = payloads.skip(views.len() as int);
                            lemma_storage_head(rest, other);
                            assert(data@.skip(pos as int)[0] == data@[pos as int]);
                            let tail = data@.skip(pos + 1);
                            assert(data@.skip(pos as int).skip(1) =~= tail);
                            assert(tail.take(varint(other as nat).len() as int) =~= varint(
                                other as nat,
                            ));
                            assert(tail.take(varint(starting_version as nat).len() as int)
                                =~= data@.subrange(pos + 1, next as int));
                            lemma_varint_prefix_free(
                                tail,
                                starting_version as nat,
                                other as nat,
                            );
                        }
                    }
                }
                return None;
            }
            proof {
                assert(data@ =~= data@.take(pos as int) + seq![STARTING_VERSION_TAG]
                    + data@.subrange(pos + 1, next as int));
            }
            Some((parsed, starting_version))
        },
        None => {
            proof {
                assert forall|payloads: Seq<Seq<u8>>, starting_version: u64|
                    data@ != #[trigger] storage_bytes(payloads, starting_version) by {
                    assert(agrees(data@, pos as int, views, payloads, starting_version));
                    if data@ == storage_bytes(payloads, starting_version) {
                        let rest = payloads.skip(views.len() as int);
                        lemma_storage_head(rest, starting_version);
                        assert(data@.skip(pos as int)[0] == data@[pos as int]);
                        let tail = data@.skip(pos + 1);
                        assert(data@.skip(pos as int).skip(1) =~= tail);
                        assert(tail.take(varint(starting_version as nat).len() as int) =~= varint(
                            starting_version as nat,
                        ));
                        assert(starts_with(tail, varint(starting_version as nat)));
                    }
                }
            }
            None
        },
    }
}

/// A record tells its transactions and its starting version apart: two
/// records with the same bytes hold the same.
pub proof fn lemma_storage_injective(
    a: Seq<Seq<u8>>,
    version_a: u64,
    b: Seq<Seq<u8>>,
    version_b: u64,
)
    requires
        storage_bytes(a, version_a) == storage_bytes(b, version_b),
    ensures
        a == b,
        version_a == version_b,
    decreases a.len(),
{
    let bytes = storage_bytes(a, version_a);
    lemma_storage_head(a, version_a);
    lemma_storage_head(b, version_b);
    let tail = bytes.skip(1);
    if a.len() == 0 {
        assert(b.len() == 0);
        assert(tail.take(tail.len() as int) =~= tail);
        lemma_varint_prefix_free(tail, version_a as nat, version_b as nat);
        assert(a =~= b);
    } else {
        assert(b.len() > 0);
        let la = varint(a[0].len());
        let lb = varint(b[0].len());
        let rest_a = storage_bytes(a.drop_first(), version_a);
        let rest_b = storage_bytes(b.drop_first(), version_b);
        assert(tail == la + a[0] + rest_a);
        assert(tail == lb + b[0] + rest_b);
        assert(tail.take(la.len() as int) =~= la);
        assert(tail.take(lb.len() as int) =~= lb);
        lemma_varint_prefix_free(tail, a[0].len(), b[0].len());
        let from = la.len() as int;
        let to = from + a[0].len();
        assert(a[0] =~= tail.subrange(from, to));
        assert(b[0] =~= tail.subrange(from, to));
        assert(rest_a =~= tail.skip(to));
        assert(rest_b =~= tail.skip(to));
        lemma_storage_injective(a.drop_first(), version_a, b.drop_first(), version_b);
        assert(a =~= seq![a[0]] + a.drop_first());
        assert(b =~= seq![b[0]] + b.drop_first());
    }
}

} // verus!
