//! Draft-15 parameter lists: a count, then that many Key-Value-Pairs, each
//! its Type and a value whose shape the Type's parity gives, with the rules a
//! reader and a writer hold them to.

use vstd::prelude::*;
use crate::cursor::{cur_bytes, cur_varint, group_cursor, rd_bytes, rd_varint};
use crate::draft15::message::{
    check_no_duplicate_parameters_received, check_no_duplicate_parameters_sent,
    check_parameter_value_ranges, spec_parameter_value_in_range, spec_value_out_of_range,
    KNOWN_SETUP_PARAMETERS, KNOWN_VERSION_SPECIFIC_PARAMETERS, REPEATABLE_PARAMETER,
};
use crate::error::{CodecError, KvpError};
use crate::kvp::{
    first_failure, lemma_first_failure_none, lemma_first_failure_ok, lemma_first_failure_scan,
    spec_is_repeat, spec_repeat_checked, KeyValuePair, KeyValuePairView, KvpValue, KvpValueView,
};
use crate::varint::{spec_varint_encode, VarInt, VARINT_BOUND};

verus! {

/// SUBSCRIPTION_FILTER (0x21): the one message parameter whose value is a
/// structure of its own.
pub const SUBSCRIPTION_FILTER: u64 = 0x21;

// ── Reading pairs off the front of the bytes ─────────────────

/// The value of a pair of Type `key` at the front of `s`: a varint under
/// an even Type, a length of at most 2^16-1 and that many bytes under an
/// odd one.
pub open spec fn rd_kvp_value(key: u64, s: Seq<u8>) -> Result<(KvpValueView, Seq<u8>), CodecError> {
    match rd_varint(s) {
        Err(e) => Err(e),
        Ok((v, s1)) => if key % 2 == 0 {
            Ok((KvpValueView::Varint(v), s1))
        } else if v > 0xFFFF {
            Err(CodecError::Kvp(KvpError::ValueTooLong(v as usize)))
        } else {
            match rd_bytes(s1, v) {
                Err(e) => Err(e),
                Ok((b, s2)) => Ok((KvpValueView::Bytes(b), s2)),
            }
        },
    }
}

/// The mathematical values of a list of pairs.
pub open spec fn spec_kvp_views(ps: Seq<KeyValuePair>) -> Seq<KeyValuePairView> {
    ps.map_values(|kv: KeyValuePair| kv@)
}

/// One pair at the front of `s`: its Type, then its value.
pub open spec fn rd_pair(s: Seq<u8>) -> Result<(KeyValuePairView, Seq<u8>), CodecError> {
    match rd_varint(s) {
        Err(e) => Err(e),
        Ok((key, s1)) => match rd_kvp_value(key, s1) {
            Err(e) => Err(e),
            Ok((v, s2)) => Ok((KeyValuePairView { key, value: v }, s2)),
        },
    }
}

/// `n` pairs at the front of `s`.
pub open spec fn rd_pairs(s: Seq<u8>, n: nat) -> Result<(Seq<KeyValuePairView>, Seq<u8>), CodecError>
    decreases n,
{
    if n == 0 {
        Ok((Seq::empty(), s))
    } else {
        match rd_pair(s) {
            Err(e) => Err(e),
            Ok((kv, s1)) => match rd_pairs(s1, (n - 1) as nat) {
                Err(e) => Err(e),
                Ok((ps, s2)) => Ok((seq![kv] + ps, s2)),
            },
        }
    }
}

/// A count and that many pairs at the front of `s`.
pub open spec fn rd_pair_list(s: Seq<u8>) -> Result<(Seq<KeyValuePairView>, Seq<u8>), CodecError> {
    match rd_varint(s) {
        Err(e) => Err(e),
        Ok((count, s1)) => rd_pairs(s1, count as nat),
    }
}

/// A value as written: a varint, or a length and the bytes.
pub open spec fn enc_kvp_value(v: KvpValueView) -> Seq<u8> {
    match v {
        KvpValueView::Varint(x) => spec_varint_encode(x),
        KvpValueView::Bytes(b) => spec_varint_encode(b.len() as u64) + b,
    }
}

/// What writing the pairs `ps` puts on the wire, and the error it stops at:
/// a byte value longer than 2^16-1 stops it before its pair.
pub open spec fn enc_pairs(ps: Seq<KeyValuePairView>) -> (Seq<u8>, Option<CodecError>)
    decreases ps.len(),
{
    if ps.len() == 0 {
        (Seq::empty(), None)
    } else {
        let kv = ps[0];
        match kv.value {
            KvpValueView::Bytes(b) if b.len() > 0xFFFF => (
                Seq::empty(),
                Some(CodecError::Kvp(KvpError::ValueTooLong(b.len() as usize))),
            ),
            _ => {
                let (rest, e) = enc_pairs(ps.drop_first());
                (spec_varint_encode(kv.key) + enc_kvp_value(kv.value) + rest, e)
            },
        }
    }
}

fn read_kvp_value(key: u64, buf: &[u8], pos: usize) -> (r: Result<(KvpValue, usize), CodecError>)
    requires
        pos <= buf@.len(),
    ensures
        match rd_kvp_value(key, buf@.skip(pos as int)) {
            Ok((v, rest)) => (r matches Ok((x, n)) && x@ == v && pos <= n <= buf@.len() && buf@.skip(n as int) == rest),
            Err(e) => r == Err::<(KvpValue, usize), CodecError>(e),
        },
{
    let (v, p1) = cur_varint(buf, pos)?;
    if key % 2 == 0 {
        return Ok((KvpValue::Varint(v), p1));
    }
    let len = v.into_inner();
    if len > 0xFFFF {
        return Err(CodecError::Kvp(KvpError::ValueTooLong(len as usize)));
    }
    let (b, p2) = cur_bytes(buf, p1, len)?;
    Ok((KvpValue::Bytes(b), p2))
}

/// Read a count and that many pairs at `pos`.
pub fn read_pair_list(buf: &[u8], pos: usize) -> (r: Result<(Vec<KeyValuePair>, usize), CodecError>)
    requires
        pos <= buf@.len(),
    ensures
        match rd_pair_list(buf@.skip(pos as int)) {
            Ok((ps, rest)) => (r matches Ok((v, n)) && spec_kvp_views(v@) == ps && pos <= n <= buf@.len()
                && buf@.skip(n as int) == rest),
            Err(e) => r == Err::<(Vec<KeyValuePair>, usize), CodecError>(e),
        },
{
    let (count, p1) = cur_varint(buf, pos)?;
    let count = count.into_inner();
    let mut out: Vec<KeyValuePair> = Vec::new();
    let mut p = p1;
    let mut i: u64 = 0;
    proof {
        assert(spec_kvp_views(out@) =~= Seq::<KeyValuePairView>::empty());
    }
    while i < count
        invariant
            i <= count,
            p1 <= p <= buf@.len(),
            rd_pair_list(buf@.skip(pos as int)) == match rd_pairs(buf@.skip(p as int), (count - i) as nat) {
                Err(e) => Err::<(Seq<KeyValuePairView>, Seq<u8>), CodecError>(e),
                Ok((ps, rest)) => Ok((spec_kvp_views(out@) + ps, rest)),
            },
        decreases count - i,
    {
        let (key, q1) = cur_varint(buf, p)?;
        let (value, q) = read_kvp_value(key.into_inner(), buf, q1)?;
        let kv = KeyValuePair { key, value };
        let ghost before = spec_kvp_views(out@);
        out.push(kv);
        proof {
            assert(spec_kvp_views(out@) =~= before.push(kv@));
            let r1 = rd_pairs(buf@.skip(q as int), (count - i - 1) as nat);
            match r1 {
                Ok((ps, rest)) => {
                    assert(before + (seq![kv@] + ps) =~= before.push(kv@) + ps);
                },
                Err(_) => {},
            }
        }
        p = q;
        i = i + 1;
    }
    proof {
        assert(spec_kvp_views(out@) + Seq::<KeyValuePairView>::empty() =~= spec_kvp_views(out@));
    }
    Ok((out, p))
}

/// Write the pairs one after another, stopping before the first whose
/// byte value is longer than 2^16-1.
pub fn encode_pairs(ps: &[KeyValuePair], buf: &mut Vec<u8>) -> (r: Result<(), CodecError>)
    ensures
        ({
            let (bytes, err) = enc_pairs(spec_kvp_views(ps@));
            &&& final(buf)@ == old(buf)@ + bytes
            &&& r == match err {
                None => Ok::<(), CodecError>(()),
                Some(e) => Err::<(), CodecError>(e),
            }
        }),
{
    let ghost views = spec_kvp_views(ps@);
    let ghost start = buf@;
    let ghost mut written: Seq<u8> = Seq::empty();
    let mut i: usize = 0;
    proof {
        assert(views.skip(0) =~= views);
    }
    while i < ps.len()
        invariant
            i <= ps@.len(),
            views == spec_kvp_views(ps@),
            start == old(buf)@,
            buf@ == start + written,
            enc_pairs(views).0 == written + enc_pairs(views.skip(i as int)).0,
            enc_pairs(views).1 == enc_pairs(views.skip(i as int)).1,
        decreases ps@.len() - i,
    {
        let ghost tail = views.skip(i as int);
        proof {
            assert(tail[0] == ps@[i as int]@);
            assert(tail.drop_first() =~= views.skip(i + 1));
        }
        let kv = &ps[i];
        match &kv.value {
            KvpValue::Bytes(b) => {
                if b.len() > 0xFFFF {
                    proof {
                        assert(written + Seq::<u8>::empty() =~= written);
                    }
                    return Err(CodecError::Kvp(KvpError::ValueTooLong(b.len())));
                }
                kv.key.encode(buf);
                VarInt::from_usize(b.len()).encode(buf);
                crate::wire::put_slice(buf, b.as_slice());
            },
            KvpValue::Varint(x) => {
                kv.key.encode(buf);
                x.encode(buf);
            },
        }
        proof {
            let piece = spec_varint_encode(tail[0].key) + enc_kvp_value(tail[0].value);
            assert(buf@ =~= start + (written + piece));
            assert(written + enc_pairs(tail).0 =~= (written + piece) + enc_pairs(views.skip(i + 1)).0);
            written = written + piece;
        }
        i = i + 1;
    }
    proof {
        assert(views.skip(i as int) =~= Seq::<KeyValuePairView>::empty());
        assert(written + Seq::<u8>::empty() =~= written);
    }
    Ok(())
}

/// Whether pairs are read back as written: each value has the shape its
/// Type's parity gives, integers are varints, byte values hold at most
/// 2^16-1 bytes.
pub open spec fn pairs_read_back(ps: Seq<KeyValuePairView>) -> bool {
    forall|i: int| 0 <= i < ps.len() ==> (#[trigger] ps[i]).key < VARINT_BOUND && match ps[i].value {
        KvpValueView::Varint(v) => ps[i].key % 2 == 0 && v < VARINT_BOUND,
        KvpValueView::Bytes(b) => ps[i].key % 2 == 1 && b.len() <= 0xFFFF,
    }
}

/// Pairs that are read back as written are, whatever follows them.
pub proof fn lemma_pairs_roundtrip(ps: Seq<KeyValuePairView>, rest: Seq<u8>)
    requires
        pairs_read_back(ps),
    ensures
        enc_pairs(ps).1 is None,
        rd_pairs(enc_pairs(ps).0 + rest, ps.len()) == Ok::<(Seq<KeyValuePairView>, Seq<u8>), CodecError>((ps, rest)),
    decreases ps.len(),
{
    broadcast use group_cursor;
    if ps.len() == 0 {
        assert(Seq::<u8>::empty() + rest =~= rest);
        assert(ps =~= Seq::<KeyValuePairView>::empty());
    } else {
        let kv = ps[0];
        let tail = ps.drop_first();
        assert forall|i: int| 0 <= i < tail.len() implies (#[trigger] tail[i]).key < VARINT_BOUND && match tail[i].value {
            KvpValueView::Varint(v) => tail[i].key % 2 == 0 && v < VARINT_BOUND,
            KvpValueView::Bytes(b) => tail[i].key % 2 == 1 && b.len() <= 0xFFFF,
        } by {
            assert(tail[i] == ps[i + 1]);
        }
        assert(kv.key < VARINT_BOUND);
        lemma_pairs_roundtrip(tail, rest);
        let k = spec_varint_encode(kv.key);
        let v = enc_kvp_value(kv.value);
        let rb = enc_pairs(tail).0;
        assert(enc_pairs(ps).0 + rest =~= k + (v + (rb + rest)));
        match kv.value {
            KvpValueView::Varint(x) => {
                assert(rd_kvp_value(kv.key, v + (rb + rest)) == Ok::<(KvpValueView, Seq<u8>), CodecError>((kv.value, rb + rest)));
            },
            KvpValueView::Bytes(b) => {
                let l = spec_varint_encode(b.len() as u64);
                assert(v + (rb + rest) =~= l + (b + (rb + rest)));
                assert(rd_kvp_value(kv.key, v + (rb + rest)) == Ok::<(KvpValueView, Seq<u8>), CodecError>((kv.value, rb + rest)));
            },
        }
        assert(rd_pair(k + (v + (rb + rest))) == Ok::<(KeyValuePairView, Seq<u8>), CodecError>((kv, rb + rest)));
        assert(seq![kv] + tail =~= ps);
    }
}

// ── The structures two parameters hold ────────────────────────

/// Whether `b` is a Subscription Filter that fills it exactly: a Filter
/// Type of 0x1 or 0x2 alone, 0x3 with a start Location, or 0x4 with a
/// start Location and an end group.
pub open spec fn spec_filter_ok(b: Seq<u8>) -> bool {
    match rd_varint(b) {
        Err(_) => false,
        Ok((t, s1)) => if t == 1 || t == 2 {
            s1.len() == 0
        } else if t == 3 || t == 4 {
            match rd_varint(s1) {
                Err(_) => false,
                Ok((_, s2)) => match rd_varint(s2) {
                    Err(_) => false,
                    Ok((_, s3)) => if t == 3 {
                        s3.len() == 0
                    } else {
                        match rd_varint(s3) {
                            Err(_) => false,
                            Ok((_, s4)) => s4.len() == 0,
                        }
                    },
                },
            }
        } else {
            false
        },
    }
}

/// Whether `b` is an Authorization Token structure that fills it exactly:
/// an Alias Type, then a Token Alias for DELETE (0x0) and USE_ALIAS (0x2),
/// a Token Alias, a Token Type and the value for REGISTER (0x1), a Token
/// Type and the value for USE_VALUE (0x3).
pub open spec fn spec_token_ok(b: Seq<u8>) -> bool {
    match rd_varint(b) {
        Err(_) => false,
        Ok((t, s1)) => if t == 0 || t == 2 {
            match rd_varint(s1) {
                Err(_) => false,
                Ok((_, s2)) => s2.len() == 0,
            }
        } else if t == 1 {
            match rd_varint(s1) {
                Err(_) => false,
                Ok((_, s2)) => rd_varint(s2) is Ok,
            }
        } else if t == 3 {
            rd_varint(s1) is Ok
        } else {
            false
        },
    }
}

fn varint_at(b: &[u8], pos: usize) -> (r: Option<usize>)
    requires
        pos <= b@.len(),
    ensures
        match rd_varint(b@.skip(pos as int)) {
            Ok((_, rest)) => r matches Some(n) && pos <= n <= b@.len() && b@.skip(n as int) == rest,
            Err(_) => r is None,
        },
{
    match cur_varint(b, pos) {
        Ok((_, n)) => Some(n),
        Err(_) => None,
    }
}

/// Whether `b` is a Subscription Filter that fills it exactly.
pub fn subscription_filter_ok(b: &[u8]) -> (r: bool)
    ensures
        r == spec_filter_ok(b@),
{
    assert(b@.skip(0) =~= b@);
    let (t, p1) = match cur_varint(b, 0) {
        Ok(x) => x,
        Err(_) => return false,
    };
    let t = t.into_inner();
    if t == 1 || t == 2 {
        return p1 == b.len();
    }
    if t != 3 && t != 4 {
        return false;
    }
    let p2 = match varint_at(b, p1) {
        Some(n) => n,
        None => return false,
    };
    let p3 = match varint_at(b, p2) {
        Some(n) => n,
        None => return false,
    };
    if t == 3 {
        return p3 == b.len();
    }
    match varint_at(b, p3) {
        Some(n) => n == b.len(),
        None => false,
    }
}

/// Whether `b` is an Authorization Token structure that fills it exactly.
pub fn token_ok(b: &[u8]) -> (r: bool)
    ensures
        r == spec_token_ok(b@),
{
    assert(b@.skip(0) =~= b@);
    let (t, p1) = match cur_varint(b, 0) {
        Ok(x) => x,
        Err(_) => return false,
    };
    let t = t.into_inner();
    if t == 0 || t == 2 {
        match varint_at(b, p1) {
            Some(n) => n == b.len(),
            None => false,
        }
    } else if t == 1 {
        match varint_at(b, p1) {
            Some(n) => varint_at(b, n).is_some(),
            None => false,
        }
    } else if t == 3 {
        varint_at(b, p1).is_some()
    } else {
        false
    }
}

// ── The rules a list is held to ──────────────────────────────

/// The pair at `i` is an AUTHORIZATION TOKEN whose value is not a Token
/// structure.
pub open spec fn auth_bad(ps: Seq<KeyValuePairView>) -> spec_fn(int) -> bool {
    |i: int| ps[i].key == REPEATABLE_PARAMETER && !(ps[i].value matches KvpValueView::Bytes(b) && spec_token_ok(b))
}

/// The pair at `i` is a SUBSCRIPTION_FILTER whose value is not a filter.
pub open spec fn filter_bad(ps: Seq<KeyValuePairView>) -> spec_fn(int) -> bool {
    |i: int| ps[i].key == SUBSCRIPTION_FILTER && !(ps[i].value matches KvpValueView::Bytes(b) && spec_filter_ok(b))
}

/// The pair at `i` holds a varint outside its Type's range.
pub open spec fn range_bad(ps: Seq<KeyValuePairView>) -> spec_fn(int) -> bool {
    |i: int| ps[i].value matches KvpValueView::Varint(v) && !spec_parameter_value_in_range(ps[i].key, v)
}

/// The pair at `i` repeats an earlier Type the rule holds.
pub open spec fn repeat_bad(ps: Seq<KeyValuePairView>, known: Seq<u64>, only_known: bool) -> spec_fn(int) -> bool {
    |i: int| spec_repeat_checked(ps[i].key, REPEATABLE_PARAMETER, known, only_known) && exists|j: int|
        0 <= j < i && ps[j].key == ps[i].key
}

pub open spec fn key_err(ps: Seq<KeyValuePairView>) -> spec_fn(int) -> CodecError {
    |i: int| CodecError::KeyValueFormatting {
        key: ps[i].key,
        detail: if ps[i].value is Varint {
            "its value is a bare varint where the type defines a Token structure"
        } else {
            "its value is not a Token structure that fills it"
        },
    }
}

pub open spec fn filter_err(ps: Seq<KeyValuePairView>) -> spec_fn(int) -> CodecError {
    |i: int| CodecError::SubscriptionFilterMalformed {
        detail: if ps[i].value is Varint {
            "its value is a bare varint where the type defines a filter"
        } else {
            "its value is not a filter that fills it"
        },
    }
}

pub open spec fn range_err(ps: Seq<KeyValuePairView>) -> spec_fn(int) -> CodecError {
    |i: int| CodecError::ParameterValueOutOfRange { key: ps[i].key, value: ps[i].value->Varint_0 }
}

pub open spec fn repeat_err(ps: Seq<KeyValuePairView>) -> spec_fn(int) -> CodecError {
    |i: int| CodecError::DuplicateParameter(ps[i].key)
}

/// The first of two verdicts that fails, or success.
pub open spec fn chain(a: Result<(), CodecError>, b: Result<(), CodecError>) -> Result<(), CodecError> {
    match a {
        Err(e) => Err(e),
        Ok(()) => b,
    }
}

/// Refuse an AUTHORIZATION TOKEN whose value is not a Token structure,
/// naming its Type as `KeyValueFormatting`.
pub fn check_authorization_tokens(parameters: &[KeyValuePair]) -> (r: Result<(), CodecError>)
    ensures
        r == first_failure(parameters@.len() as int, 0, auth_bad(spec_kvp_views(parameters@)), key_err(spec_kvp_views(parameters@))),
{
    let ghost ps = spec_kvp_views(parameters@);
    let ghost n = parameters@.len() as int;
    let mut i: usize = 0;
    while i < parameters.len()
        invariant
            i <= parameters@.len(),
            ps == spec_kvp_views(parameters@),
            n == parameters@.len(),
            first_failure(n, 0, auth_bad(ps), key_err(ps)) == first_failure(n, i as int, auth_bad(ps), key_err(ps)),
        decreases parameters@.len() - i,
    {
        let key = parameters[i].key.into_inner();
        assert(ps[i as int] == parameters@[i as int]@);
        if key == REPEATABLE_PARAMETER {
            match &parameters[i].value {
                KvpValue::Bytes(b) => if !token_ok(b.as_slice()) {
                    return Err(CodecError::KeyValueFormatting {
                        key,
                        detail: "its value is not a Token structure that fills it",
                    });
                },
                KvpValue::Varint(_) => {
                    return Err(CodecError::KeyValueFormatting {
                        key,
                        detail: "its value is a bare varint where the type defines a Token structure",
                    });
                },
            }
        }
        i = i + 1;
    }
    Ok(())
}

/// Refuse a SUBSCRIPTION_FILTER whose value is not a filter that fills it.
pub fn check_subscription_filters(parameters: &[KeyValuePair]) -> (r: Result<(), CodecError>)
    ensures
        r == first_failure(parameters@.len() as int, 0, filter_bad(spec_kvp_views(parameters@)), filter_err(spec_kvp_views(parameters@))),
{
    let ghost ps = spec_kvp_views(parameters@);
    let ghost n = parameters@.len() as int;
    let mut i: usize = 0;
    while i < parameters.len()
        invariant
            i <= parameters@.len(),
            ps == spec_kvp_views(parameters@),
            n == parameters@.len(),
            first_failure(n, 0, filter_bad(ps), filter_err(ps)) == first_failure(n, i as int, filter_bad(ps), filter_err(ps)),
        decreases parameters@.len() - i,
    {
        let key = parameters[i].key.into_inner();
        assert(ps[i as int] == parameters@[i as int]@);
        if key == SUBSCRIPTION_FILTER {
            match &parameters[i].value {
                KvpValue::Bytes(b) => if !subscription_filter_ok(b.as_slice()) {
                    return Err(CodecError::SubscriptionFilterMalformed {
                        detail: "its value is not a filter that fills it",
                    });
                },
                KvpValue::Varint(_) => {
                    return Err(CodecError::SubscriptionFilterMalformed {
                        detail: "its value is a bare varint where the type defines a filter",
                    });
                },
            }
        }
        i = i + 1;
    }
    Ok(())
}


/// The verdict a reader gives a parameter list: a repeated Type among
/// `known`, then a malformed Token, then, for version-specific parameters,
/// a varint out of range and a malformed filter.
pub open spec fn spec_read_verdict(ps: Seq<KeyValuePairView>, message: bool) -> Result<(), CodecError> {
    let n = ps.len() as int;
    let known = if message {
        KNOWN_VERSION_SPECIFIC_PARAMETERS@
    } else {
        KNOWN_SETUP_PARAMETERS@
    };
    chain(
        first_failure(n, 0, repeat_bad(ps, known, true), repeat_err(ps)),
        chain(
            first_failure(n, 0, auth_bad(ps), key_err(ps)),
            if message {
                chain(
                    first_failure(n, 0, range_bad(ps), range_err(ps)),
                    first_failure(n, 0, filter_bad(ps), filter_err(ps)),
                )
            } else {
                Ok(())
            },
        ),
    )
}

/// The verdict a writer gives a parameter list: any repeated Type but the
/// Token's, then a malformed Token, then, for version-specific parameters,
/// a varint out of range and a malformed filter.
pub open spec fn spec_write_verdict(ps: Seq<KeyValuePairView>, message: bool) -> Result<(), CodecError> {
    let n = ps.len() as int;
    chain(
        first_failure(n, 0, repeat_bad(ps, Seq::empty(), false), repeat_err(ps)),
        chain(
            first_failure(n, 0, auth_bad(ps), key_err(ps)),
            if message {
                chain(
                    first_failure(n, 0, range_bad(ps), range_err(ps)),
                    first_failure(n, 0, filter_bad(ps), filter_err(ps)),
                )
            } else {
                Ok(())
            },
        ),
    )
}

/// A parameter list at the front of `s`, held to the reader's rules.
pub open spec fn rd_params(s: Seq<u8>, message: bool) -> Result<(Seq<KeyValuePairView>, Seq<u8>), CodecError> {
    match rd_pair_list(s) {
        Err(e) => Err(e),
        Ok((ps, rest)) => match spec_read_verdict(ps, message) {
            Err(e) => Err(e),
            Ok(()) => Ok((ps, rest)),
        },
    }
}

/// A parameter list as written, or the writer's refusal.
pub open spec fn enc_params(ps: Seq<KeyValuePairView>, message: bool) -> Result<Seq<u8>, CodecError> {
    match spec_write_verdict(ps, message) {
        Err(e) => Err(e),
        Ok(()) => match enc_pairs(ps) {
            (b, None) => Ok(spec_varint_encode(ps.len() as u64) + b),
            (_, Some(e)) => Err(e),
        },
    }
}

proof fn lemma_repeat_view(ps: Seq<KeyValuePair>, known: Seq<u64>, only_known: bool)
    ensures
        forall|i: int| 0 <= i < ps.len() ==> (#[trigger] spec_is_repeat(ps, i, REPEATABLE_PARAMETER, known, only_known)
            == repeat_bad(spec_kvp_views(ps), known, only_known)(i)),
{
    let vs = spec_kvp_views(ps);
    assert forall|i: int| 0 <= i < ps.len() implies (#[trigger] spec_is_repeat(ps, i, REPEATABLE_PARAMETER, known, only_known)
        == repeat_bad(vs, known, only_known)(i)) by {
        assert(vs[i] == ps[i]@);
        if exists|j: int| 0 <= j < i && ps[j].key@ == ps[i].key@ {
            let j = choose|j: int| 0 <= j < i && ps[j].key@ == ps[i].key@;
            assert(vs[j] == ps[j]@);
        }
        if exists|j: int| 0 <= j < i && vs[j].key == vs[i].key {
            let j = choose|j: int| 0 <= j < i && vs[j].key == vs[i].key;
            assert(vs[j] == ps[j]@);
        }
    }
}
proof fn bridge_range(params: Seq<KeyValuePair>, r: Result<(), CodecError>)
    requires
        match r {
            Ok(()) => forall|i: int|
                0 <= i < params.len() ==> !#[trigger] spec_value_out_of_range(params, i),
            Err(e) => exists|i: int|
                0 <= i < params.len() && #[trigger] spec_value_out_of_range(params, i)
                    && (forall|i2: int|
                    0 <= i2 < i ==> !#[trigger] spec_value_out_of_range(params, i2)) && e
                    == CodecError::ParameterValueOutOfRange {
                    key: params[i].key@,
                    value: params[i].value->Varint_0@,
                },
        },
    ensures
        r == first_failure(params.len() as int, 0, range_bad(spec_kvp_views(params)), range_err(spec_kvp_views(params))),
{
    let vs = spec_kvp_views(params);
    let n = params.len() as int;
    match r {
        Ok(()) => {
            assert forall|i: int| 0 <= i < n implies !#[trigger] range_bad(vs)(i) by {
                assert(vs[i] == params[i]@);
                assert(!spec_value_out_of_range(params, i));
            }
        },
        Err(e) => {
            let i = choose|i: int|
                0 <= i < params.len() && #[trigger] spec_value_out_of_range(params, i)
                    && (forall|i2: int|
                    0 <= i2 < i ==> !#[trigger] spec_value_out_of_range(params, i2)) && e
                    == CodecError::ParameterValueOutOfRange {
                    key: params[i].key@,
                    value: params[i].value->Varint_0@,
                };
            assert(vs[i] == params[i]@);
            assert forall|i2: int| 0 <= i2 < i implies !#[trigger] range_bad(vs)(i2) by {
                assert(vs[i2] == params[i2]@);
                assert(!spec_value_out_of_range(params, i2));
            }
            assert(range_bad(vs)(i));
        },
    }
    lemma_first_failure_scan(n, range_bad(vs), range_err(vs), r);
}

/// The verdict of a repeat check on pairs, restated as the first repeat
/// among their views.
pub proof fn bridge_repeat(params: Seq<KeyValuePair>, known: Seq<u64>, only_known: bool, r: Result<(), CodecError>)
    requires
        match r {
            Ok(()) => forall|i: int|
                0 <= i < params.len() ==> !#[trigger] spec_is_repeat(params, i, REPEATABLE_PARAMETER, known, only_known),
            Err(e) => exists|i: int|
                0 <= i < params.len() && #[trigger] spec_is_repeat(params, i, REPEATABLE_PARAMETER, known, only_known)
                    && (forall|i2: int|
                    0 <= i2 < i ==> !#[trigger] spec_is_repeat(params, i2, REPEATABLE_PARAMETER, known, only_known))
                    && e == CodecError::DuplicateParameter(params[i].key@),
        },
    ensures
        r == first_failure(params.len() as int, 0, repeat_bad(spec_kvp_views(params), known, only_known), repeat_err(spec_kvp_views(params))),
{
    let vs = spec_kvp_views(params);
    let n = params.len() as int;
    lemma_repeat_view(params, known, only_known);
    match r {
        Ok(()) => {
            assert forall|i: int| 0 <= i < n implies !#[trigger] repeat_bad(vs, known, only_known)(i) by {
                assert(!spec_is_repeat(params, i, REPEATABLE_PARAMETER, known, only_known));
            }
        },
        Err(e) => {
            let i = choose|i: int|
                0 <= i < params.len() && #[trigger] spec_is_repeat(params, i, REPEATABLE_PARAMETER, known, only_known)
                    && (forall|i2: int|
                    0 <= i2 < i ==> !#[trigger] spec_is_repeat(params, i2, REPEATABLE_PARAMETER, known, only_known))
                    && e == CodecError::DuplicateParameter(params[i].key@);
            assert(vs[i] == params[i]@);
            assert forall|i2: int| 0 <= i2 < i implies !#[trigger] repeat_bad(vs, known, only_known)(i2) by {
                assert(!spec_is_repeat(params, i2, REPEATABLE_PARAMETER, known, only_known));
            }
            assert(repeat_bad(vs, known, only_known)(i));
        },
    }
    lemma_first_failure_scan(n, repeat_bad(vs, known, only_known), repeat_err(vs), r);
}


/// Read a parameter list at `pos`, held to the reader's rules:
/// version-specific parameters when `message`, setup parameters otherwise.
pub fn decode_parameters_in(buf: &[u8], pos: usize, message: bool) -> (r: Result<(Vec<KeyValuePair>, usize), CodecError>)
    requires
        pos <= buf@.len(),
    ensures
        match rd_params(buf@.skip(pos as int), message) {
            Ok((ps, rest)) => (r matches Ok((v, n)) && spec_kvp_views(v@) == ps && pos <= n <= buf@.len()
                && buf@.skip(n as int) == rest),
            Err(e) => r == Err::<(Vec<KeyValuePair>, usize), CodecError>(e),
        },
{
    let (parameters, n) = read_pair_list(buf, pos)?;
    let ghost ps = spec_kvp_views(parameters@);
    let ghost len = parameters@.len() as int;
    proof {
        assert forall|i: int| 0 <= i < len implies #[trigger] ps[i] == parameters@[i]@ by {}
    }
    if message {
        let r1 = check_no_duplicate_parameters_received(parameters.as_slice(), &KNOWN_VERSION_SPECIFIC_PARAMETERS);
        proof {
            bridge_repeat(parameters@, KNOWN_VERSION_SPECIFIC_PARAMETERS@, true, r1);
        }
        r1?;
    } else {
        let r1 = check_no_duplicate_parameters_received(parameters.as_slice(), &KNOWN_SETUP_PARAMETERS);
        proof {
            bridge_repeat(parameters@, KNOWN_SETUP_PARAMETERS@, true, r1);
        }
        r1?;
    }
    check_authorization_tokens(parameters.as_slice())?;
    if message {
        let r2 = check_parameter_value_ranges(parameters.as_slice());
        proof {
            bridge_range(parameters@, r2);
        }
        r2?;
        check_subscription_filters(parameters.as_slice())?;
    }
    Ok((parameters, n))
}

/// Write a parameter list, refusing what the writer's rules refuse:
/// version-specific parameters when `message`, setup parameters otherwise.
/// A value too long to write stops the write part way.
pub fn encode_parameters_in(parameters: &[KeyValuePair], message: bool, buf: &mut Vec<u8>) -> (r: Result<(), CodecError>)
    requires
        parameters@.len() < VARINT_BOUND,
    ensures
        match enc_params(spec_kvp_views(parameters@), message) {
            Ok(b) => r == Ok::<(), CodecError>(()) && final(buf)@ == old(buf)@ + b,
            Err(e) => r == Err::<(), CodecError>(e),
        },
{
    let ghost ps = spec_kvp_views(parameters@);
    let ghost len = parameters@.len() as int;
    proof {
        assert forall|i: int| 0 <= i < len implies #[trigger] ps[i] == parameters@[i]@ by {}
    }
    let r1 = check_no_duplicate_parameters_sent(parameters);
    proof {
        bridge_repeat(parameters@, Seq::empty(), false, r1);
    }
    r1?;
    check_authorization_tokens(parameters)?;
    if message {
        let r2 = check_parameter_value_ranges(parameters);
        proof {
            bridge_range(parameters@, r2);
        }
        r2?;
        check_subscription_filters(parameters)?;
    }
    proof {
        assert(ps.len() == parameters@.len());
    }
    VarInt::from_usize(parameters.len()).encode(buf);
    encode_pairs(parameters, buf)
}

/// A list the writer accepts passes the reader's rules: a repeat the
/// reader refuses is one the writer refuses, and the value rules are the
/// same on both sides.
pub proof fn lemma_verdicts_agree(ps: Seq<KeyValuePairView>, message: bool)
    requires
        spec_write_verdict(ps, message) is Ok,
    ensures
        spec_read_verdict(ps, message) is Ok,
{
    let n = ps.len() as int;
    let known = if message {
        KNOWN_VERSION_SPECIFIC_PARAMETERS@
    } else {
        KNOWN_SETUP_PARAMETERS@
    };
    assert(first_failure(n, 0, repeat_bad(ps, Seq::empty(), false), repeat_err(ps)) is Ok);
    lemma_first_failure_ok(n, 0, repeat_bad(ps, Seq::empty(), false), repeat_err(ps));
    assert forall|j: int| 0 <= j < n implies !#[trigger] repeat_bad(ps, known, true)(j) by {
        assert(!repeat_bad(ps, Seq::empty(), false)(j));
    }
    lemma_first_failure_none(n, 0, repeat_bad(ps, known, true), repeat_err(ps));
    assert(first_failure(n, 0, auth_bad(ps), key_err(ps)) is Ok);
    if message {
        assert(first_failure(n, 0, range_bad(ps), range_err(ps)) is Ok);
        assert(first_failure(n, 0, filter_bad(ps), filter_err(ps)) is Ok);
    }
}

/// A parameter list the writer accepts, whose pairs are read back as
/// written, is read back as the same list, whatever follows it.
pub proof fn lemma_params_roundtrip(ps: Seq<KeyValuePairView>, message: bool, rest: Seq<u8>)
    requires
        enc_params(ps, message) is Ok,
        pairs_read_back(ps),
        ps.len() < VARINT_BOUND,
    ensures
        rd_params(enc_params(ps, message)->Ok_0 + rest, message) == Ok::<(Seq<KeyValuePairView>, Seq<u8>), CodecError>((ps, rest)),
{
    broadcast use group_cursor;
    lemma_verdicts_agree(ps, message);
    lemma_pairs_roundtrip(ps, rest);
    let rb = enc_pairs(ps).0;
    assert(enc_params(ps, message)->Ok_0 + rest =~= spec_varint_encode(ps.len() as u64) + (rb + rest));
}

} // verus!
