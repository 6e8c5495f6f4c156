//! Layouts for compound values.
use std::marker::PhantomData;
use vstd::prelude::*;

use super::{
    decode_size4, lemma_size4_roundtrip, size4_max, u32_to_be, write_outcome, Decoded, ProtoAsProxy,
    ProtoError, ProtoReader, ProtoType, ProtoWriter,
};

verus! {

/// The layout of a `Vec<T>`: a 4-byte item count, then the items one after
/// the other.
pub struct Size4Vec<T> {
    data: PhantomData<T>,
}

/// Decoding of `n` items one after the other from the front of `b`.
pub open spec fn decode_items<T: ProtoType>(b: Seq<u8>, n: nat) -> Decoded<Seq<<T as DeepView>::V>>
    decreases n,
{
    if n == 0 {
        Ok((Seq::empty(), 0))
    } else {
        match decode_items::<T>(b, (n - 1) as nat) {
            Err(e) => Err(e),
            Ok((vs, m)) => match T::spec_decode(b.skip(m as int)) {
                Ok((v, k)) => Ok((vs.push(v), m + k)),
                Err((e, k)) => Err((e, m + k)),
            },
        }
    }
}

/// The error writing the items one after the other fails with, if any.
pub open spec fn items_error<T: ProtoType>(vs: Seq<<T as DeepView>::V>) -> Option<ProtoError>
    decreases vs.len(),
{
    if vs.len() == 0 {
        None
    } else {
        match items_error::<T>(vs.drop_last()) {
            Some(e) => Some(e),
            None => T::spec_encode_error(vs.last()),
        }
    }
}

/// The bytes written for the items one after the other, up to the first
/// item that fails.
pub open spec fn encode_items<T: ProtoType>(vs: Seq<<T as DeepView>::V>) -> Seq<u8>
    decreases vs.len(),
{
    if vs.len() == 0 {
        Seq::empty()
    } else if items_error::<T>(vs.drop_last()) is Some {
        encode_items::<T>(vs.drop_last())
    } else {
        encode_items::<T>(vs.drop_last()) + T::spec_encode(vs.last())
    }
}

/// Once decoding the first items fails, decoding more fails the same way.
proof fn lemma_items_error_persists<T: ProtoType>(b: Seq<u8>, i: nat, n: nat)
    requires
        i <= n,
        decode_items::<T>(b, i) is Err,
    ensures
        decode_items::<T>(b, n) == decode_items::<T>(b, i),
    decreases n,
{
    if n > i {
        lemma_items_error_persists::<T>(b, i, (n - 1) as nat);
    }
}

/// Once writing the first items fails, writing more writes nothing more and
/// fails the same way.
proof fn lemma_items_write_stops<T: ProtoType>(vs: Seq<<T as DeepView>::V>, j: int, k: int)
    requires
        0 <= j <= k <= vs.len(),
        items_error::<T>(vs.take(j)) is Some,
    ensures
        items_error::<T>(vs.take(k)) == items_error::<T>(vs.take(j)),
        encode_items::<T>(vs.take(k)) == encode_items::<T>(vs.take(j)),
    decreases k,
{
    if k > j {
        lemma_items_write_stops::<T>(vs, j, k - 1);
        assert(vs.take(k).drop_last() =~= vs.take(k - 1));
    }
}

proof fn lemma_items_roundtrip<T: ProtoType>(vs: Seq<<T as DeepView>::V>, rest: Seq<u8>)
    requires
        items_error::<T>(vs) is None,
    ensures
        decode_items::<T>(encode_items::<T>(vs) + rest, vs.len()) == Ok::<
            (Seq<<T as DeepView>::V>, nat),
            (ProtoError, nat),
        >((vs, encode_items::<T>(vs).len())),
    decreases vs.len(),
{
    if vs.len() == 0 {
        assert(vs =~= Seq::<<T as DeepView>::V>::empty());
    } else {
        let ws = vs.drop_last();
        let x = vs.last();
        let ew = encode_items::<T>(ws);
        let ex = T::spec_encode(x);
        lemma_items_roundtrip::<T>(ws, ex + rest);
        assert(encode_items::<T>(vs) + rest =~= ew + (ex + rest));
        assert((ew + (ex + rest)).skip(ew.len() as int) =~= ex + rest);
        T::lemma_roundtrip(x, rest);
        assert(ws.push(x) =~= vs);
        let b = encode_items::<T>(vs) + rest;
        assert(((vs.len() - 1) as nat) == ws.len());
        assert(decode_items::<T>(b, ws.len()) == Ok::<
            (Seq<<T as DeepView>::V>, nat),
            (ProtoError, nat),
        >((ws, ew.len())));
        assert(b.skip(ew.len() as int) =~= ex + rest);
        assert(T::spec_decode(b.skip(ew.len() as int)) == Ok::<
            (<T as DeepView>::V, nat),
            (ProtoError, nat),
        >((x, ex.len())));
        assert(encode_items::<T>(vs) =~= ew + ex);
        assert(decode_items::<T>(b, vs.len()) == Ok::<
            (Seq<<T as DeepView>::V>, nat),
            (ProtoError, nat),
        >((ws.push(x), ew.len() + ex.len())));
    }
}

impl<T: ProtoType> ProtoAsProxy for Size4Vec<T> {
    type AsType = Vec<T>;

    open spec fn spec_decode(bytes: Seq<u8>) -> Decoded<Seq<<T as DeepView>::V>> {
        match decode_size4(bytes) {
            Err(e) => Err(e),
            Ok((n, k)) => match decode_items::<T>(bytes.skip(4), n as nat) {
                Ok((vs, m)) => Ok((vs, k + m)),
                Err((e, m)) => Err((e, k + m)),
            },
        }
    }

    open spec fn spec_encode(vs: Seq<<T as DeepView>::V>) -> Seq<u8> {
        if vs.len() > size4_max() {
            Seq::empty()
        } else {
            u32_to_be(vs.len() as u32) + encode_items::<T>(vs)
        }
    }

    open spec fn spec_encode_error(vs: Seq<<T as DeepView>::V>) -> Option<ProtoError> {
        if vs.len() > size4_max() {
            Some(ProtoError::VecTooLarge)
        } else {
            items_error::<T>(vs)
        }
    }

    fn read(reader: &mut ProtoReader) -> (r: Result<Vec<T>, ProtoError>) {
        let ghost rest0 = old(reader).rest();
        let size = match reader.read_size4() {
            Ok(s) => s,
            Err(e) => return Err(e),
        };
        let ghost items_in = rest0.skip(4);
        let ghost start = reader.spec_position();
        assert(reader.rest() =~= items_in);
        let mut result: Vec<T> = Vec::new();
        let mut i: u32 = 0;
        assert(result.deep_view() =~= Seq::<<T as DeepView>::V>::empty());
        while i < size
            invariant
                reader.input() == old(reader).input(),
                reader.spec_position() <= reader.input().len(),
                start == old(reader).spec_position() + 4,
                start <= reader.spec_position(),
                i <= size,
                size == crate::proto::u32_from_be(rest0),
                rest0.len() >= 4,
                rest0 == old(reader).rest(),
                items_in == rest0.skip(4),
                items_in == reader.input().skip(start as int),
                reader.rest() == items_in.skip(reader.spec_position() - start),
                decode_items::<T>(items_in, i as nat) == Ok::<
                    (Seq<<T as DeepView>::V>, nat),
                    (ProtoError, nat),
                >((result.deep_view(), (reader.spec_position() - start) as nat)),
            decreases size - i,
        {
            let ghost before = reader.spec_position();
            let ghost prev = result.deep_view();
            let ghost d = T::spec_decode(items_in.skip(before - start));
            assert(((i + 1) as nat - 1) as nat == i as nat);
            match T::read(reader) {
                Ok(v) => {
                    result.push(v);
                    assert(result.deep_view() =~= prev.push(v.deep_view()));
                },
                Err(e) => {
                    assert(decode_items::<T>(items_in, (i + 1) as nat) == Err::<
                        (Seq<<T as DeepView>::V>, nat),
                        (ProtoError, nat),
                    >((e, (before - start + crate::proto::consumed(d)) as nat)));
                    proof {
                        lemma_items_error_persists::<T>(items_in, (i + 1) as nat, size as nat);
                    }
                    return Err(e);
                },
            }
            i = i + 1;
            assert(reader.rest() =~= items_in.skip(reader.spec_position() - start));
        }
        Ok(result)
    }

    fn write(writer: &mut ProtoWriter, data: &Vec<T>) -> (r: Result<(), ProtoError>) {
        let len = data.len();
        if len > 0xffff_ffff {
            assert(old(writer)@ + Self::spec_encode(data.deep_view()) =~= old(writer)@);
            return Err(ProtoError::VecTooLarge);
        }
        let _ = writer.write_size4(len as u32);
        let ghost dv = data.deep_view();
        let mut i: usize = 0;
        assert(dv.take(0) =~= Seq::<<T as DeepView>::V>::empty());
        while i < len
            invariant
                len == data@.len(),
                dv == data.deep_view(),
                len <= size4_max(),
                i <= len,
                items_error::<T>(dv.take(i as int)) is None,
                writer@ == old(writer)@ + u32_to_be(len as u32) + encode_items::<T>(dv.take(i as int)),
            decreases len - i,
        {
            let r = data[i].write(writer);
            assert(dv.take(i + 1).drop_last() =~= dv.take(i as int));
            assert(dv.take(i + 1).last() == data@[i as int].deep_view());
            match r {
                Ok(()) => {},
                Err(e) => {
                    proof {
                        lemma_items_write_stops::<T>(dv, i + 1, len as int);
                        assert(dv.take(len as int) =~= dv);
                    }
                    assert(writer@ =~= old(writer)@ + Self::spec_encode(dv));
                    return Err(e);
                },
            }
            i = i + 1;
            assert(writer@ =~= old(writer)@ + u32_to_be(len as u32) + encode_items::<T>(dv.take(i as int)));
        }
        assert(dv.take(len as int) =~= dv);
        assert(writer@ =~= old(writer)@ + Self::spec_encode(dv));
        Ok(())
    }

    proof fn lemma_roundtrip(vs: Seq<<T as DeepView>::V>, rest: Seq<u8>) {
        let len = vs.len() as u32;
        let body = encode_items::<T>(vs);
        lemma_size4_roundtrip(len, body + rest);
        assert(Self::spec_encode(vs) + rest =~= u32_to_be(len) + (body + rest));
        assert((u32_to_be(len) + (body + rest)).skip(4) =~= body + rest);
        lemma_items_roundtrip::<T>(vs, rest);
    }
}

} // verus!
