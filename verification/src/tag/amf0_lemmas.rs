//! What holds of the AMF0 decoders on every input: each one hands back a
//! proper suffix of its input, none looks at bytes beyond the value it
//! decodes, a value cut short is `Truncated`, and an object written out pair
//! by pair decodes to those pairs.

use vstd::prelude::*;
use vstd::utf8::valid_utf8;
use crate::bytes::{
    lemma_u64_round_trip, spec_u16_be, spec_u32_be, spec_u64_be, spec_u64_be_bytes, tail,
};
use crate::error::{Decoded, FlvError};
use crate::tag::amf0::{
    pairs_after, spec_amf_date, spec_amf_ecma_array, spec_amf_long_string, spec_amf_object,
    spec_amf_pairs, spec_amf_strict_array, spec_amf_string, spec_amf_value, spec_amf_values,
    values_after, AmfPair, AmfValue,
};

verus! {

/// `rest` is what is left of `bytes` after at least `least` bytes were taken
/// from its front.
pub open spec fn left_after(bytes: Seq<u8>, rest: Seq<u8>, least: int) -> bool {
    &&& rest.len() + least <= bytes.len()
    &&& rest == tail(bytes, bytes.len() - rest.len())
}

/// A decoder's result, if it is one, leaves a suffix of `bytes` that is
/// shorter by `least` bytes or more.
pub open spec fn advances<T>(r: Decoded<T>, bytes: Seq<u8>, least: int) -> bool {
    r matches Ok((_, rest)) ==> left_after(bytes, rest, least)
}

/// What is left of what is left of `bytes` is left of `bytes`.
pub proof fn lemma_left_after_twice(bytes: Seq<u8>, mid: Seq<u8>, rest: Seq<u8>, a: int, b: int)
    requires
        0 <= a,
        0 <= b,
        left_after(bytes, mid, a),
        left_after(mid, rest, b),
    ensures
        left_after(bytes, rest, a + b),
{
    assert(rest =~= tail(bytes, bytes.len() - rest.len()));
}

/// A string leaves a suffix of its input, shorter by its length field or more.
pub proof fn lemma_string_advances(bytes: Seq<u8>)
    ensures
        advances(spec_amf_string(bytes), bytes, 2),
        advances(spec_amf_long_string(bytes), bytes, 4),
        advances(spec_amf_date(bytes), bytes, 10),
{
}

/// A value leaves a suffix of its input, shorter by one byte or more.
pub proof fn lemma_value_advances(bytes: Seq<u8>, depth: nat)
    ensures
        advances(spec_amf_value(bytes, depth), bytes, 1),
    decreases depth, bytes.len(), 0nat,
{
    if bytes.len() >= 1 {
        let body = tail(bytes, 1);
        lemma_string_advances(body);
        if depth > 0 {
            let inner = (depth - 1) as nat;
            lemma_pairs_advances(body, inner);
            lemma_ecma_array_advances(body, inner);
            lemma_strict_array_advances(body, inner);
        }
        if let Ok((_, rest)) = spec_amf_value(bytes, depth) {
            assert(left_after(bytes, body, 1)) by {
                assert(body =~= tail(bytes, bytes.len() - body.len()));
            }
            assert(left_after(body, rest, 0)) by {
                assert(rest =~= tail(body, body.len() - rest.len()));
            }
            lemma_left_after_twice(bytes, body, rest, 1, 0);
        }
    }
}

/// A pair leaves a suffix of its input, shorter by three bytes or more.
pub proof fn lemma_pair_advances(bytes: Seq<u8>, depth: nat)
    ensures
        advances(spec_amf_object(bytes, depth), bytes, 3),
    decreases depth, bytes.len(), 1nat,
{
    lemma_string_advances(bytes);
    if let Ok((_, mid)) = spec_amf_string(bytes) {
        lemma_value_advances(mid, depth);
        if let Ok((_, rest)) = spec_amf_value(mid, depth) {
            lemma_left_after_twice(bytes, mid, rest, 2, 1);
        }
    }
}

/// A run of pairs leaves a suffix of its input, shorter by the three bytes
/// of the closing pair or more.
pub proof fn lemma_pairs_advances(bytes: Seq<u8>, depth: nat)
    ensures
        advances(spec_amf_pairs(bytes, depth), bytes, 3),
    decreases depth, bytes.len(), 2nat,
{
    lemma_pair_advances(bytes, depth);
    if let Ok((pair, mid)) = spec_amf_object(bytes, depth) {
        if !(pair.data is ObjectEnd) {
            lemma_pairs_advances(mid, depth);
            if let Ok((_, rest)) = spec_amf_pairs(mid, depth) {
                lemma_left_after_twice(bytes, mid, rest, 3, 3);
            }
        }
    }
}

/// An associative array leaves a suffix of its input.
pub proof fn lemma_ecma_array_advances(bytes: Seq<u8>, depth: nat)
    ensures
        advances(spec_amf_ecma_array(bytes, depth), bytes, 7),
    decreases depth, bytes.len(), 3nat,
{
    if bytes.len() >= 4 {
        let body = tail(bytes, 4);
        lemma_pairs_advances(body, depth);
        if let Ok((_, rest)) = spec_amf_pairs(body, depth) {
            assert(left_after(bytes, body, 4));
            lemma_left_after_twice(bytes, body, rest, 4, 3);
        }
    }
}

/// A counted run of values leaves a suffix of its input, shorter by one
/// byte for each value or more.
pub proof fn lemma_values_advance(bytes: Seq<u8>, count: nat, depth: nat)
    ensures
        advances(spec_amf_values(bytes, count, depth), bytes, count as int),
    decreases depth, bytes.len(), 1nat,
{
    if count == 0 {
        assert(bytes =~= tail(bytes, 0));
    } else {
        lemma_value_advances(bytes, depth);
        if let Ok((_, mid)) = spec_amf_value(bytes, depth) {
            lemma_values_advance(mid, (count - 1) as nat, depth);
            if let Ok((_, rest)) = spec_amf_values(mid, (count - 1) as nat, depth) {
                lemma_left_after_twice(bytes, mid, rest, 1, count - 1);
            }
        }
    }
}

/// A strict array leaves a suffix of its input.
pub proof fn lemma_strict_array_advances(bytes: Seq<u8>, depth: nat)
    ensures
        advances(spec_amf_strict_array(bytes, depth), bytes, 4),
    decreases depth, bytes.len(), 2nat,
{
    if bytes.len() >= 4 {
        let body = tail(bytes, 4);
        let count = spec_u32_be(bytes, 0) as nat;
        lemma_values_advance(body, count, depth);
        if let Ok((_, rest)) = spec_amf_values(body, count, depth) {
            assert(left_after(bytes, body, 4));
            lemma_left_after_twice(bytes, body, rest, 4, 0);
        }
    }
}

/// A run of pairs is its first pair and, unless that one closes the run,
/// the run that follows it: the test on the lengths in `spec_amf_pairs` never
/// fails.
pub proof fn lemma_pairs_unfold(bytes: Seq<u8>, depth: nat)
    ensures
        spec_amf_pairs(bytes, depth) == (match spec_amf_object(bytes, depth) {
            Err(e) => Err(e),
            Ok((pair, rest)) => if pair.data is ObjectEnd {
                Ok((Seq::empty(), rest))
            } else {
                pairs_after(seq![pair], spec_amf_pairs(rest, depth))
            },
        }),
{
    lemma_pair_advances(bytes, depth);
}

/// A counted run of values is its first value and the run of one fewer that
/// follows it: the test on the lengths in `spec_amf_values` never fails.
pub proof fn lemma_values_unfold(bytes: Seq<u8>, count: nat, depth: nat)
    requires
        count > 0,
    ensures
        spec_amf_values(bytes, count, depth) == (match spec_amf_value(bytes, depth) {
            Err(e) => Err(e),
            Ok((v, rest)) => values_after(
                seq![v],
                spec_amf_values(rest, (count - 1) as nat, depth),
            ),
        }),
{
    lemma_value_advances(bytes, depth);
}

/// A decoder's result with `extra` added to what it leaves.
pub open spec fn followed_by<T>(r: Decoded<T>, extra: Seq<u8>) -> Decoded<T> {
    match r {
        Ok((v, rest)) => Ok((v, rest + extra)),
        Err(e) => Err(e),
    }
}

/// A string, a long string and a date that decode from `bytes` decode to
/// the same from `bytes` with more bytes behind, and leave those as well.
pub proof fn lemma_string_framed(bytes: Seq<u8>, extra: Seq<u8>)
    ensures
        spec_amf_string(bytes) is Ok ==> spec_amf_string(bytes + extra) == followed_by(
            spec_amf_string(bytes),
            extra,
        ),
        spec_amf_long_string(bytes) is Ok ==> spec_amf_long_string(bytes + extra) == followed_by(
            spec_amf_long_string(bytes),
            extra,
        ),
        spec_amf_date(bytes) is Ok ==> spec_amf_date(bytes + extra) == followed_by(
            spec_amf_date(bytes),
            extra,
        ),
{
    let more = bytes + extra;
    if spec_amf_string(bytes) is Ok {
        let end = 2 + spec_u16_be(bytes, 0);
        assert(more.subrange(2, end) =~= bytes.subrange(2, end));
        assert(tail(more, end) =~= tail(bytes, end) + extra);
    }
    if spec_amf_long_string(bytes) is Ok {
        let end = 4 + spec_u32_be(bytes, 0);
        assert(more.subrange(4, end) =~= bytes.subrange(4, end));
        assert(tail(more, end) =~= tail(bytes, end) + extra);
    }
    if spec_amf_date(bytes) is Ok {
        assert(tail(more, 10) =~= tail(bytes, 10) + extra);
    }
}

/// A value that decodes from `bytes` decodes to the same from `bytes` with
/// more bytes behind, and leaves those as well: no decoder looks beyond the
/// value.
pub proof fn lemma_value_framed(bytes: Seq<u8>, depth: nat, extra: Seq<u8>)
    requires
        spec_amf_value(bytes, depth) is Ok,
    ensures
        spec_amf_value(bytes + extra, depth) == followed_by(spec_amf_value(bytes, depth), extra),
    decreases depth, bytes.len(), 0nat,
{
    let more = bytes + extra;
    let body = tail(bytes, 1);
    assert(tail(more, 1) =~= body + extra);
    lemma_string_framed(body, extra);
    let code = bytes[0];
    if code == 0 {
        assert(tail(body + extra, 8) =~= tail(body, 8) + extra);
    } else if code == 1 {
        assert(tail(body + extra, 1) =~= tail(body, 1) + extra);
    } else if code == 7 {
        assert(tail(body + extra, 2) =~= tail(body, 2) + extra);
    } else if code == 3 {
        lemma_pairs_framed(body, (depth - 1) as nat, extra);
    } else if code == 8 {
        lemma_ecma_array_framed(body, (depth - 1) as nat, extra);
    } else if code == 10 {
        lemma_strict_array_framed(body, (depth - 1) as nat, extra);
    }
}

/// A pair that decodes from `bytes` decodes to the same with more bytes
/// behind.
pub proof fn lemma_pair_framed(bytes: Seq<u8>, depth: nat, extra: Seq<u8>)
    requires
        spec_amf_object(bytes, depth) is Ok,
    ensures
        spec_amf_object(bytes + extra, depth) == followed_by(spec_amf_object(bytes, depth), extra),
    decreases depth, bytes.len(), 1nat,
{
    lemma_string_framed(bytes, extra);
    let mid = spec_amf_string(bytes)->Ok_0.1;
    lemma_value_framed(mid, depth, extra);
}

/// A run of pairs that decodes from `bytes` decodes to the same with more
/// bytes behind.
pub proof fn lemma_pairs_framed(bytes: Seq<u8>, depth: nat, extra: Seq<u8>)
    requires
        spec_amf_pairs(bytes, depth) is Ok,
    ensures
        spec_amf_pairs(bytes + extra, depth) == followed_by(spec_amf_pairs(bytes, depth), extra),
    decreases depth, bytes.len(), 2nat,
{
    lemma_pair_framed(bytes, depth, extra);
    let (pair, mid) = spec_amf_object(bytes, depth)->Ok_0;
    if !(pair.data is ObjectEnd) {
        lemma_pairs_framed(mid, depth, extra);
    }
}

/// An associative array that decodes from `bytes` decodes to the same with
/// more bytes behind.
pub proof fn lemma_ecma_array_framed(bytes: Seq<u8>, depth: nat, extra: Seq<u8>)
    requires
        spec_amf_ecma_array(bytes, depth) is Ok,
    ensures
        spec_amf_ecma_array(bytes + extra, depth) == followed_by(
            spec_amf_ecma_array(bytes, depth),
            extra,
        ),
    decreases depth, bytes.len(), 3nat,
{
    assert(tail(bytes + extra, 4) =~= tail(bytes, 4) + extra);
    lemma_pairs_framed(tail(bytes, 4), depth, extra);
}

/// A counted run of values that decodes from `bytes` decodes to the same
/// with more bytes behind.
pub proof fn lemma_values_framed(bytes: Seq<u8>, count: nat, depth: nat, extra: Seq<u8>)
    requires
        spec_amf_values(bytes, count, depth) is Ok,
    ensures
        spec_amf_values(bytes + extra, count, depth) == followed_by(
            spec_amf_values(bytes, count, depth),
            extra,
        ),
    decreases depth, bytes.len(), 1nat,
{
    if count > 0 {
        lemma_value_framed(bytes, depth, extra);
        let mid = spec_amf_value(bytes, depth)->Ok_0.1;
        lemma_values_framed(mid, (count - 1) as nat, depth, extra);
    }
}

/// A strict array that decodes from `bytes` decodes to the same with more
/// bytes behind.
pub proof fn lemma_strict_array_framed(bytes: Seq<u8>, depth: nat, extra: Seq<u8>)
    requires
        spec_amf_strict_array(bytes, depth) is Ok,
    ensures
        spec_amf_strict_array(bytes + extra, depth) == followed_by(
            spec_amf_strict_array(bytes, depth),
            extra,
        ),
    decreases depth, bytes.len(), 2nat,
{
    assert(tail(bytes + extra, 4) =~= tail(bytes, 4) + extra);
    lemma_values_framed(tail(bytes, 4), spec_u32_be(bytes, 0) as nat, depth, extra);
}

/// What a decoder that makes `r` of `bytes` makes of the first `n` of them:
/// `Truncated` as long as the value is not whole, then the same value, and
/// what is left of the `n` bytes.
pub open spec fn cut_to<T>(r: Decoded<T>, bytes: Seq<u8>, n: int) -> Decoded<T> {
    match r {
        Ok((v, rest)) => {
            let used = bytes.len() - rest.len();
            if n < used {
                Err(FlvError::Truncated)
            } else {
                Ok((v, rest.subrange(0, n - used)))
            }
        },
        Err(e) => Err(e),
    }
}

/// A string, a long string and a date that decode from `bytes` are
/// `Truncated` in every prefix that ends inside them, and the same in every
/// longer one.
pub proof fn lemma_string_cut(bytes: Seq<u8>, n: int)
    requires
        0 <= n <= bytes.len(),
    ensures
        spec_amf_string(bytes) is Ok ==> spec_amf_string(bytes.subrange(0, n)) == cut_to(
            spec_amf_string(bytes),
            bytes,
            n,
        ),
        spec_amf_long_string(bytes) is Ok ==> spec_amf_long_string(bytes.subrange(0, n))
            == cut_to(spec_amf_long_string(bytes), bytes, n),
        spec_amf_date(bytes) is Ok ==> spec_amf_date(bytes.subrange(0, n)) == cut_to(
            spec_amf_date(bytes),
            bytes,
            n,
        ),
{
    let front = bytes.subrange(0, n);
    if spec_amf_string(bytes) is Ok {
        let end = 2 + spec_u16_be(bytes, 0);
        if n >= end {
            assert(front.subrange(2, end) =~= bytes.subrange(2, end));
            assert(tail(front, end) =~= tail(bytes, end).subrange(0, n - end));
        }
    }
    if spec_amf_long_string(bytes) is Ok {
        let end = 4 + spec_u32_be(bytes, 0);
        if n >= end {
            assert(front.subrange(4, end) =~= bytes.subrange(4, end));
            assert(tail(front, end) =~= tail(bytes, end).subrange(0, n - end));
        }
    }
    if spec_amf_date(bytes) is Ok {
        if n >= 10 {
            assert(tail(front, 10) =~= tail(bytes, 10).subrange(0, n - 10));
        }
    }
}

/// A value that decodes from `bytes` is `Truncated` in every prefix that
/// ends inside it, and the same value in every longer one.
pub proof fn lemma_value_cut(bytes: Seq<u8>, depth: nat, n: int)
    requires
        spec_amf_value(bytes, depth) is Ok,
        0 <= n <= bytes.len(),
    ensures
        spec_amf_value(bytes.subrange(0, n), depth) == cut_to(
            spec_amf_value(bytes, depth),
            bytes,
            n,
        ),
    decreases depth, bytes.len(), 0nat,
{
    let front = bytes.subrange(0, n);
    let body = tail(bytes, 1);
    let code = bytes[0];
    lemma_value_advances(bytes, depth);
    if n >= 1 {
        let m = n - 1;
        assert(tail(front, 1) =~= body.subrange(0, m));
        let cut = body.subrange(0, m);
        lemma_string_cut(body, m);
        if code == 0 {
            if m >= 8 {
                assert(tail(cut, 8) =~= tail(body, 8).subrange(0, m - 8));
            }
        } else if code == 1 {
            if m >= 1 {
                assert(tail(cut, 1) =~= tail(body, 1).subrange(0, m - 1));
            }
        } else if code == 7 {
            if m >= 2 {
                assert(tail(cut, 2) =~= tail(body, 2).subrange(0, m - 2));
            }
        } else if code == 3 {
            lemma_pairs_cut(body, (depth - 1) as nat, m);
        } else if code == 8 {
            lemma_ecma_array_cut(body, (depth - 1) as nat, m);
        } else if code == 10 {
            lemma_strict_array_cut(body, (depth - 1) as nat, m);
        }
    }
}

/// A pair that decodes from `bytes` is `Truncated` in every prefix that ends
/// inside it, and the same pair in every longer one.
pub proof fn lemma_pair_cut(bytes: Seq<u8>, depth: nat, n: int)
    requires
        spec_amf_object(bytes, depth) is Ok,
        0 <= n <= bytes.len(),
    ensures
        spec_amf_object(bytes.subrange(0, n), depth) == cut_to(
            spec_amf_object(bytes, depth),
            bytes,
            n,
        ),
    decreases depth, bytes.len(), 1nat,
{
    lemma_string_cut(bytes, n);
    lemma_string_advances(bytes);
    let mid = spec_amf_string(bytes)->Ok_0.1;
    let used = bytes.len() - mid.len();
    lemma_value_advances(mid, depth);
    if n >= used {
        lemma_value_cut(mid, depth, n - used);
    }
}

/// A run of pairs that decodes from `bytes` is `Truncated` in every prefix
/// that ends before its closing pair does, and the same run in every longer
/// one.
pub proof fn lemma_pairs_cut(bytes: Seq<u8>, depth: nat, n: int)
    requires
        spec_amf_pairs(bytes, depth) is Ok,
        0 <= n <= bytes.len(),
    ensures
        spec_amf_pairs(bytes.subrange(0, n), depth) == cut_to(
            spec_amf_pairs(bytes, depth),
            bytes,
            n,
        ),
    decreases depth, bytes.len(), 2nat,
{
    lemma_pair_cut(bytes, depth, n);
    lemma_pair_advances(bytes, depth);
    let (pair, mid) = spec_amf_object(bytes, depth)->Ok_0;
    let used = bytes.len() - mid.len();
    if !(pair.data is ObjectEnd) {
        lemma_pairs_advances(mid, depth);
        if n >= used {
            lemma_pairs_cut(mid, depth, n - used);
        }
    }
}

/// An associative array that decodes from `bytes` is `Truncated` in every
/// prefix that ends inside it, and the same in every longer one.
pub proof fn lemma_ecma_array_cut(bytes: Seq<u8>, depth: nat, n: int)
    requires
        spec_amf_ecma_array(bytes, depth) is Ok,
        0 <= n <= bytes.len(),
    ensures
        spec_amf_ecma_array(bytes.subrange(0, n), depth) == cut_to(
            spec_amf_ecma_array(bytes, depth),
            bytes,
            n,
        ),
    decreases depth, bytes.len(), 3nat,
{
    let body = tail(bytes, 4);
    lemma_pairs_advances(body, depth);
    if n >= 4 {
        assert(tail(bytes.subrange(0, n), 4) =~= body.subrange(0, n - 4));
        lemma_pairs_cut(body, depth, n - 4);
    }
}

/// A counted run of values that decodes from `bytes` is `Truncated` in every
/// prefix that ends inside it, and the same run in every longer one.
pub proof fn lemma_values_cut(bytes: Seq<u8>, count: nat, depth: nat, n: int)
    requires
        spec_amf_values(bytes, count, depth) is Ok,
        0 <= n <= bytes.len(),
    ensures
        spec_amf_values(bytes.subrange(0, n), count, depth) == cut_to(
            spec_amf_values(bytes, count, depth),
            bytes,
            n,
        ),
    decreases depth, bytes.len(), 1nat,
{
    if count == 0 {
        assert(bytes.subrange(0, n) =~= bytes.subrange(0, n - 0));
    } else {
        lemma_value_cut(bytes, depth, n);
        lemma_value_advances(bytes, depth);
        let mid = spec_amf_value(bytes, depth)->Ok_0.1;
        let used = bytes.len() - mid.len();
        lemma_values_advance(mid, (count - 1) as nat, depth);
        if n >= used {
            lemma_values_cut(mid, (count - 1) as nat, depth, n - used);
        }
    }
}

/// A strict array that decodes from `bytes` is `Truncated` in every prefix
/// that ends inside it, and the same in every longer one.
pub proof fn lemma_strict_array_cut(bytes: Seq<u8>, depth: nat, n: int)
    requires
        spec_amf_strict_array(bytes, depth) is Ok,
        0 <= n <= bytes.len(),
    ensures
        spec_amf_strict_array(bytes.subrange(0, n), depth) == cut_to(
            spec_amf_strict_array(bytes, depth),
            bytes,
            n,
        ),
    decreases depth, bytes.len(), 2nat,
{
    let body = tail(bytes, 4);
    let count = spec_u32_be(bytes, 0) as nat;
    lemma_values_advance(body, count, depth);
    if n >= 4 {
        assert(tail(bytes.subrange(0, n), 4) =~= body.subrange(0, n - 4));
        lemma_values_cut(body, count, depth, n - 4);
    }
}

/// The byte sequences `parts`, one after the other.
pub open spec fn joined(parts: Seq<Seq<u8>>) -> Seq<u8>
    decreases parts.len(),
{
    if parts.len() == 0 {
        Seq::empty()
    } else {
        parts[0] + joined(parts.drop_first())
    }
}

/// The pair that closes an object: an empty name and the end marker.
pub open spec fn closing_pair() -> Seq<u8> {
    seq![0u8, 0u8, 9u8]
}

/// `part` is the bytes of the pair `pair`, all of them, and `pair` does not
/// close an object.
pub open spec fn is_member(part: Seq<u8>, pair: AmfPair, depth: nat) -> bool {
    &&& spec_amf_object(part, depth) == Ok::<(AmfPair, Seq<u8>), FlvError>((pair, Seq::empty()))
    &&& !(pair.data is ObjectEnd)
}

/// The closing pair ends a run of pairs: it decodes to a pair that holds
/// the end marker and leaves what follows it.
pub proof fn lemma_closing_pair(rest: Seq<u8>, depth: nat)
    ensures
        spec_amf_object(closing_pair() + rest, depth) matches Ok((pair, left)) && pair.data
            is ObjectEnd && left == rest,
        spec_amf_pairs(closing_pair() + rest, depth) == Ok::<(Seq<AmfPair>, Seq<u8>), FlvError>(
            (Seq::empty(), rest),
        ),
{
    let closed = closing_pair() + rest;
    assert(closed.subrange(2, 2) =~= Seq::<u8>::empty());
    assert(valid_utf8(Seq::<u8>::empty()));
    assert(tail(tail(closed, 2), 1) =~= rest);
}

/// A run of pairs written out one after the other, then the closing pair,
/// decodes to exactly those pairs and leaves what follows the closing pair.
/// Without the closing pair the run is `Truncated`.
pub proof fn lemma_pairs_of_members(
    parts: Seq<Seq<u8>>,
    pairs: Seq<AmfPair>,
    rest: Seq<u8>,
    depth: nat,
)
    requires
        parts.len() == pairs.len(),
        forall|i: int| 0 <= i < parts.len() ==> is_member(#[trigger] parts[i], pairs[i], depth),
    ensures
        spec_amf_pairs(joined(parts) + closing_pair() + rest, depth) == Ok::<
            (Seq<AmfPair>, Seq<u8>),
            FlvError,
        >((pairs, rest)),
        spec_amf_pairs(joined(parts), depth) == Err::<(Seq<AmfPair>, Seq<u8>), FlvError>(
            FlvError::Truncated,
        ),
    decreases parts.len(),
{
    let closed = joined(parts) + closing_pair() + rest;
    if parts.len() == 0 {
        lemma_closing_pair(rest, depth);
        assert(pairs =~= Seq::<AmfPair>::empty());
        assert(spec_amf_object(joined(parts), depth) == Err::<(AmfPair, Seq<u8>), FlvError>(
            FlvError::Truncated,
        ));
    } else {
        let first = parts[0];
        let others = parts.drop_first();
        let later = pairs.drop_first();
        assert forall|i: int| 0 <= i < others.len() implies is_member(
            #[trigger] others[i],
            later[i],
            depth,
        ) by {
            assert(is_member(parts[i + 1], pairs[i + 1], depth));
        }
        lemma_pairs_of_members(others, later, rest, depth);
        lemma_pair_advances(first, depth);

        let closed_tail = joined(others) + closing_pair() + rest;
        assert(closed =~= first + closed_tail);
        lemma_pair_framed(first, depth, closed_tail);
        assert(seq![pairs[0]] + later =~= pairs);

        lemma_pair_framed(first, depth, joined(others));
    }
}

/// An object of N pairs, closed by the empty-named end marker, decodes to
/// exactly those N pairs; the same bytes without the closing pair are
/// `Truncated`.
pub proof fn lemma_object_of_members(
    parts: Seq<Seq<u8>>,
    pairs: Seq<AmfPair>,
    rest: Seq<u8>,
    depth: nat,
)
    requires
        parts.len() == pairs.len(),
        forall|i: int| 0 <= i < parts.len() ==> is_member(#[trigger] parts[i], pairs[i], depth),
    ensures
        spec_amf_value(seq![3u8] + (joined(parts) + closing_pair() + rest), depth + 1) == Ok::<
            (AmfValue, Seq<u8>),
            FlvError,
        >((AmfValue::Object(pairs), rest)),
        spec_amf_value(seq![3u8] + joined(parts), depth + 1) == Err::<
            (AmfValue, Seq<u8>),
            FlvError,
        >(FlvError::Truncated),
{
    lemma_pairs_of_members(parts, pairs, rest, depth);
    let closed = joined(parts) + closing_pair() + rest;
    assert(tail(seq![3u8] + closed, 1) =~= closed);
    assert(tail(seq![3u8] + joined(parts), 1) =~= joined(parts));
}

/// A number written as its type byte and the eight big-endian bytes of its
/// bits decodes to those bits, and the eight bytes of a decoded number are
/// the bytes it was decoded from.
pub proof fn lemma_number_round_trip(bits: u64, rest: Seq<u8>, depth: nat)
    ensures
        spec_amf_value(seq![0u8] + spec_u64_be_bytes(bits) + rest, depth) == Ok::<
            (AmfValue, Seq<u8>),
            FlvError,
        >((AmfValue::Number(bits), rest)),
        spec_u64_be_bytes(spec_u64_be(spec_u64_be_bytes(bits), 0) as u64) == spec_u64_be_bytes(
            bits,
        ),
{
    let wire = spec_u64_be_bytes(bits);
    let bytes = seq![0u8] + wire + rest;
    lemma_u64_round_trip(bits, wire, 0);
    let body = tail(bytes, 1);
    assert(tail(body, 8) =~= rest);
}

/// The bytes of a number that was decoded are the eight bytes that follow
/// its type byte.
pub proof fn lemma_number_bytes(bytes: Seq<u8>, depth: nat)
    requires
        bytes.len() >= 9,
        bytes[0] == 0,
    ensures
        spec_amf_value(bytes, depth) == Ok::<(AmfValue, Seq<u8>), FlvError>(
            (AmfValue::Number(spec_u64_be(bytes, 1) as u64), tail(bytes, 9)),
        ),
        spec_u64_be_bytes(spec_u64_be(bytes, 1) as u64) == bytes.subrange(1, 9),
{
    lemma_u64_round_trip(0, bytes, 1);
    let body = tail(bytes, 1);
    assert(tail(body, 8) =~= tail(bytes, 9));
}

} // verus!
