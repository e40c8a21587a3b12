//! Draft-14 parameter lists: a count, then that many Key-Value-Pairs, held
//! to the draft's rules on repeats and on AUTHORIZATION TOKEN values. The
//! pair grammar and the Token structure are those of draft 15.

use vstd::prelude::*;
use crate::cursor::group_cursor;
use crate::draft14::message::{
    check_no_duplicate_parameters_received, check_no_duplicate_parameters_sent,
    KNOWN_SETUP_PARAMETERS, KNOWN_VERSION_SPECIFIC_PARAMETERS,
};
use crate::draft15::params::{
    auth_bad, bridge_repeat, chain, enc_pairs, encode_pairs, key_err, lemma_pairs_roundtrip,
    pairs_read_back, rd_pair_list, read_pair_list, repeat_bad, repeat_err, spec_kvp_views,
};
pub use crate::draft15::params::check_authorization_tokens;
use crate::error::CodecError;
use crate::kvp::{first_failure, lemma_first_failure_none, lemma_first_failure_ok, KeyValuePair, KeyValuePairView};
use crate::varint::{spec_varint_encode, VarInt, VARINT_BOUND};

verus! {

/// The verdict a reader gives a parameter list: a repeated Type among the
/// Types this draft names (version-specific ones when `message`, setup ones
/// otherwise), then a malformed Token.
pub open spec fn spec_read_verdict(ps: Seq<KeyValuePairView>, message: bool) -> Result<(), CodecError> {
    let n = ps.len() as int;
    let known = if message {
        KNOWN_VERSION_SPECIFIC_PARAMETERS@
    } else {
        KNOWN_SETUP_PARAMETERS@
    };
    chain(
        first_failure(n, 0, repeat_bad(ps, known, true), repeat_err(ps)),
        first_failure(n, 0, auth_bad(ps), key_err(ps)),
    )
}

/// The verdict a writer gives a parameter list: any repeated Type but the
/// Token's, then a malformed Token.
pub open spec fn spec_write_verdict(ps: Seq<KeyValuePairView>) -> Result<(), CodecError> {
    let n = ps.len() as int;
    chain(
        first_failure(n, 0, repeat_bad(ps, Seq::empty(), false), repeat_err(ps)),
        first_failure(n, 0, auth_bad(ps), key_err(ps)),
    )
}

/// A parameter list at the front of `s`, held to the reader's rules.
pub closed spec fn rd_params(s: Seq<u8>, message: bool) -> Result<(Seq<KeyValuePairView>, Seq<u8>), CodecError> {
    match rd_pair_list(s) {
        Err(e) => Err(e),
        Ok((ps, rest)) => match spec_read_verdict(ps, message) {
            Err(e) => Err(e),
            Ok(()) => Ok((ps, rest)),
        },
    }
}

/// A parameter list as written, or the writer's refusal.
pub closed spec fn enc_params(ps: Seq<KeyValuePairView>) -> Result<Seq<u8>, CodecError> {
    match spec_write_verdict(ps) {
        Err(e) => Err(e),
        Ok(()) => match enc_pairs(ps) {
            (b, None) => Ok(spec_varint_encode(ps.len() as u64) + b),
            (_, Some(e)) => Err(e),
        },
    }
}

/// Read a version-specific parameter list at `pos`, refusing a repeated
/// Type this draft names and a malformed Token.
pub fn decode_parameters(buf: &[u8], pos: usize) -> (r: Result<(Vec<KeyValuePair>, usize), CodecError>)
    requires
        pos <= buf@.len(),
    ensures
        match rd_params(buf@.skip(pos as int), true) {
            Ok((ps, rest)) => (r matches Ok((v, n)) && spec_kvp_views(v@) == ps && pos <= n <= buf@.len()
                && buf@.skip(n as int) == rest),
            Err(e) => r == Err::<(Vec<KeyValuePair>, usize), CodecError>(e),
        },
{
    let (parameters, n) = read_pair_list(buf, pos)?;
    let r1 = check_no_duplicate_parameters_received(parameters.as_slice(), &KNOWN_VERSION_SPECIFIC_PARAMETERS);
    proof {
        bridge_repeat(parameters@, KNOWN_VERSION_SPECIFIC_PARAMETERS@, true, r1);
    }
    r1?;
    check_authorization_tokens(parameters.as_slice())?;
    Ok((parameters, n))
}

/// Read a SETUP message's parameter list at `pos`: the same rules as
/// [`decode_parameters`], over the setup Types this draft names.
pub fn decode_setup_parameters(buf: &[u8], pos: usize) -> (r: Result<(Vec<KeyValuePair>, usize), CodecError>)
    requires
        pos <= buf@.len(),
    ensures
        match rd_params(buf@.skip(pos as int), false) {
            Ok((ps, rest)) => (r matches Ok((v, n)) && spec_kvp_views(v@) == ps && pos <= n <= buf@.len()
                && buf@.skip(n as int) == rest),
            Err(e) => r == Err::<(Vec<KeyValuePair>, usize), CodecError>(e),
        },
{
    let (parameters, n) = read_pair_list(buf, pos)?;
    let r1 = check_no_duplicate_parameters_received(parameters.as_slice(), &KNOWN_SETUP_PARAMETERS);
    proof {
        bridge_repeat(parameters@, KNOWN_SETUP_PARAMETERS@, true, r1);
    }
    r1?;
    check_authorization_tokens(parameters.as_slice())?;
    Ok((parameters, n))
}

/// Write a parameter list of either namespace, refusing every repeat but the
/// Token's and every Token that is not one. A value too long to write stops
/// the write part way.
pub fn encode_parameters(parameters: &[KeyValuePair], buf: &mut Vec<u8>) -> (r: Result<(), CodecError>)
    requires
        parameters@.len() < VARINT_BOUND,
    ensures
        match enc_params(spec_kvp_views(parameters@)) {
            Ok(b) => r == Ok::<(), CodecError>(()) && final(buf)@ == old(buf)@ + b,
            Err(e) => r == Err::<(), CodecError>(e),
        },
{
    let r1 = check_no_duplicate_parameters_sent(parameters);
    proof {
        bridge_repeat(parameters@, Seq::empty(), false, r1);
    }
    r1?;
    check_authorization_tokens(parameters)?;
    VarInt::from_usize(parameters.len()).encode(buf);
    encode_pairs(parameters, buf)
}

/// A list the writer accepts passes the reader's rules, in either
/// namespace: a repeat the reader refuses is one the writer refuses, and
/// the Token rule is the same on both sides.
pub proof fn lemma_verdicts_agree(ps: Seq<KeyValuePairView>, message: bool)
    requires
        spec_write_verdict(ps) is Ok,
    ensures
        spec_read_verdict(ps, message) is Ok,
{
    let n = ps.len() as int;
    let known = if message {
        KNOWN_VERSION_SPECIFIC_PARAMETERS@
    } else {
        KNOWN_SETUP_PARAMETERS@
    };
    assert(first_failure(n, 0, repeat_bad(ps, Seq::empty(), false), repeat_err(ps)) is Ok);
    lemma_first_failure_ok(n, 0, repeat_bad(ps, Seq::empty(), false), repeat_err(ps));
    assert forall|j: int| 0 <= j < n implies !#[trigger] repeat_bad(ps, known, true)(j) by {
        assert(!repeat_bad(ps, Seq::empty(), false)(j));
    }
    lemma_first_failure_none(n, 0, repeat_bad(ps, known, true), repeat_err(ps));
    assert(first_failure(n, 0, auth_bad(ps), key_err(ps)) is Ok);
}

/// A parameter list the writer accepts, whose pairs are read back as
/// written, is read back as the same list in either namespace, whatever
/// follows it.
pub proof fn lemma_params_roundtrip(ps: Seq<KeyValuePairView>, message: bool, rest: Seq<u8>)
    requires
        enc_params(ps) is Ok,
        pairs_read_back(ps),
        ps.len() < VARINT_BOUND,
    ensures
        rd_params(enc_params(ps)->Ok_0 + rest, message) == Ok::<(Seq<KeyValuePairView>, Seq<u8>), CodecError>((ps, rest)),
{
    broadcast use group_cursor;
    lemma_verdicts_agree(ps, message);
    lemma_pairs_roundtrip(ps, rest);
    let rb = enc_pairs(ps).0;
    assert(enc_params(ps)->Ok_0 + rest =~= spec_varint_encode(ps.len() as u64) + (rb + rest));
}

} // verus!
