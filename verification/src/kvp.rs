//! Key-Value-Pairs: the parameters and extensions control messages carry,
//! and the rule against repeating a parameter type.

use vstd::prelude::*;
use crate::error::CodecError;
use crate::varint::VarInt;

verus! {

/// The value of a Key-Value-Pair: a varint under an even type, a byte string
/// under an odd one.
#[derive(Debug, Clone, PartialEq, Eq)]
pub enum KvpValue {
    /// The value of an even type.
    Varint(VarInt),
    /// The value of an odd type.
    Bytes(Vec<u8>),
}

/// One Key-Value-Pair.
#[derive(Debug, Clone, PartialEq, Eq)]
pub struct KeyValuePair {
    /// The pair's type.
    pub key: VarInt,
    /// The pair's value.
    pub value: KvpValue,
}

/// The mathematical value of a [`KvpValue`].
pub enum KvpValueView {
    Varint(u64),
    Bytes(Seq<u8>),
}

/// The mathematical value of a [`KeyValuePair`].
pub struct KeyValuePairView {
    pub key: u64,
    pub value: KvpValueView,
}

impl View for KvpValue {
    type V = KvpValueView;

    open spec fn view(&self) -> KvpValueView {
        match self {
            KvpValue::Varint(v) => KvpValueView::Varint(v@),
            KvpValue::Bytes(b) => KvpValueView::Bytes(b@),
        }
    }
}

impl View for KeyValuePair {
    type V = KeyValuePairView;

    open spec fn view(&self) -> KeyValuePairView {
        KeyValuePairView { key: self.key@, value: self.value@ }
    }
}

/// The largest value a Key-Value-Pair may hold, in bytes: 2^16-1.
pub const MAX_KVP_VALUE_LEN: usize = 0xFFFF;

/// Whether the no-repeat rule applies to parameter type `key`: it is not the
/// one type allowed to repeat, and, where only named types are held to the
/// rule, it is among `known`.
pub open spec fn spec_repeat_checked(key: u64, exempt: u64, known: Seq<u64>, only_known: bool) -> bool {
    key != exempt && (!only_known || known.contains(key))
}

/// Whether the parameter at `i` repeats the type of one before it and is
/// held to the rule.
pub open spec fn spec_is_repeat(
    ps: Seq<KeyValuePair>,
    i: int,
    exempt: u64,
    known: Seq<u64>,
    only_known: bool,
) -> bool {
    &&& spec_repeat_checked(ps[i].key@, exempt, known, only_known)
    &&& exists|j: int| 0 <= j < i && ps[j].key@ == ps[i].key@
}

/// Whether `x` is in `xs`.
pub fn slice_contains(xs: &[u64], x: u64) -> (r: bool)
    ensures
        r == xs@.contains(x),
{
    let mut k: usize = 0;
    while k < xs.len()
        invariant
            k <= xs@.len(),
            forall|m: int| 0 <= m < k ==> xs@[m] != x,
        decreases xs@.len() - k,
    {
        if xs[k] == x {
            assert(xs@[k as int] == x);
            return true;
        }
        k = k + 1;
    }
    false
}

/// Refuse a parameter list that repeats a type held to the rule, naming the
/// type of the first parameter, in list order, that repeats an earlier one.
pub fn check_no_repeats(parameters: &[KeyValuePair], exempt: u64, known: &[u64], only_known: bool) -> (r: Result<(), CodecError>)
    ensures
        match r {
            Ok(()) => forall|i: int|
                0 <= i < parameters@.len() ==> !#[trigger] spec_is_repeat(
                    parameters@,
                    i,
                    exempt,
                    known@,
                    only_known,
                ),
            Err(e) => exists|i: int|
                0 <= i < parameters@.len() && #[trigger] spec_is_repeat(
                    parameters@,
                    i,
                    exempt,
                    known@,
                    only_known,
                ) && (forall|i2: int|
                    0 <= i2 < i ==> !#[trigger] spec_is_repeat(
                        parameters@,
                        i2,
                        exempt,
                        known@,
                        only_known,
                    )) && e == CodecError::DuplicateParameter(parameters@[i].key@),
        },
{
    let ghost ps = parameters@;
    let mut i: usize = 0;
    while i < parameters.len()
        invariant
            i <= ps.len(),
            ps == parameters@,
            forall|i2: int| 0 <= i2 < i ==> !#[trigger] spec_is_repeat(ps, i2, exempt, known@, only_known),
        decreases ps.len() - i,
    {
        let key = parameters[i].key.into_inner();
        let checked = key != exempt && (!only_known || slice_contains(known, key));
        if checked {
            let mut j: usize = 0;
            while j < i
                invariant
                    j <= i < ps.len(),
                    ps == parameters@,
                    key == ps[i as int].key@,
                    spec_repeat_checked(key, exempt, known@, only_known),
                    forall|m: int| 0 <= m < j ==> ps[m].key@ != key,
                    forall|i2: int|
                        0 <= i2 < i ==> !#[trigger] spec_is_repeat(ps, i2, exempt, known@, only_known),
                decreases i - j,
            {
                if parameters[j].key.into_inner() == key {
                    assert(ps[j as int].key@ == ps[i as int].key@);
                    assert(spec_is_repeat(ps, i as int, exempt, known@, only_known));
                    return Err(CodecError::DuplicateParameter(key));
                }
                j = j + 1;
            }
            assert(!spec_is_repeat(ps, i as int, exempt, known@, only_known));
        }
        i = i + 1;
    }
    Ok(())
}

/// The verdict of a check that walks a list from position `i` to `n` and
/// stops at the first position where `bad` holds, with the error `err`
/// gives for it.
pub open spec fn first_failure(n: int, i: int, bad: spec_fn(int) -> bool, err: spec_fn(int) -> CodecError) -> Result<(), CodecError>
    decreases n - i,
{
    if i >= n {
        Ok(())
    } else if bad(i) {
        Err(err(i))
    } else {
        first_failure(n, i + 1, bad, err)
    }
}

/// A check with no bad position from `i` on passes.
pub proof fn lemma_first_failure_none(n: int, i: int, bad: spec_fn(int) -> bool, err: spec_fn(int) -> CodecError)
    requires
        forall|j: int| i <= j < n ==> !#[trigger] bad(j),
    ensures
        first_failure(n, i, bad, err) == Ok::<(), CodecError>(()),
    decreases n - i,
{
    if i < n {
        lemma_first_failure_none(n, i + 1, bad, err);
    }
}

/// A check whose first bad position from `i` on is `k` fails with `k`'s
/// error.
pub proof fn lemma_first_failure_at(n: int, i: int, k: int, bad: spec_fn(int) -> bool, err: spec_fn(int) -> CodecError)
    requires
        i <= k < n,
        bad(k),
        forall|j: int| i <= j < k ==> !#[trigger] bad(j),
    ensures
        first_failure(n, i, bad, err) == Err::<(), CodecError>(err(k)),
    decreases k - i,
{
    if i < k {
        lemma_first_failure_at(n, i + 1, k, bad, err);
    }
}

/// A scan that passes exactly when no position is bad, and otherwise
/// reports the first bad one, gives the verdict of [`first_failure`].
pub proof fn lemma_first_failure_scan(n: int, bad: spec_fn(int) -> bool, err: spec_fn(int) -> CodecError, r: Result<(), CodecError>)
    requires
        r is Ok ==> forall|i: int| 0 <= i < n ==> !#[trigger] bad(i),
        r is Err ==> exists|i: int|
            0 <= i < n && #[trigger] bad(i) && (forall|i2: int| 0 <= i2 < i ==> !#[trigger] bad(i2)) && r->Err_0
                == err(i),
    ensures
        r == first_failure(n, 0, bad, err),
{
    if r is Ok {
        lemma_first_failure_none(n, 0, bad, err);
        match r {
            Ok(u) => assert(u == ()),
            Err(_) => {},
        }
    } else {
        let k = choose|i: int|
            0 <= i < n && #[trigger] bad(i) && (forall|i2: int| 0 <= i2 < i ==> !#[trigger] bad(i2)) && r->Err_0
                == err(i);
        lemma_first_failure_at(n, 0, k, bad, err);
        assert(r == Err::<(), CodecError>(err(k)));
    }
}

/// A check that passes from `i` on finds no bad position there.
pub proof fn lemma_first_failure_ok(n: int, i: int, bad: spec_fn(int) -> bool, err: spec_fn(int) -> CodecError)
    requires
        first_failure(n, i, bad, err) is Ok,
    ensures
        forall|j: int| i <= j < n ==> !#[trigger] bad(j),
    decreases n - i,
{
    if i < n {
        lemma_first_failure_ok(n, i + 1, bad, err);
    }
}

} // verus!
