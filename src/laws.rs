use vstd::prelude::*;
use crate::be32::{be32_bytes, be32_value, lemma_be32_bytes_of_value, lemma_be32_round_trip};
use crate::envelope::{
    encodable, header_bytes, header_check, parsed, serialized, signature_field, signed,
    signed_bytes, signed_region, CachetError, ChainOutcome, ChainView, EnvelopeView, TAG_0, TAG_1, HEADER_BYTES,
};
use crate::sig::{ed25519_verifies, is_key_pair};

verus! {

/// Whether the trust-chain parser, handed bytes that open with `chain`'s encoding,
/// reported that chain as trusted: it read exactly the encoding (the encoding is
/// self-delimiting) and gave back the chain's leaf key.
pub open spec fn reports_chain(outcome: ChainOutcome, chain: ChainView) -> bool {
    outcome matches ChainOutcome::Trusted { consumed, leaf_key } && consumed
        == chain.encoded.len() && leaf_key@ == chain.leaf_key
}

/// Round trip: a payload signed with a chain and the secret key of the chain's leaf
/// key, written out and parsed back with a store that trusts the chain's root, gives
/// back the same envelope.
pub proof fn lemma_round_trip(
    data: Seq<u8>,
    chain: ChainView,
    secret_key: Seq<u8>,
    outcome: ChainOutcome,
)
    requires
        encodable(chain, data),
        is_key_pair(secret_key, chain.leaf_key),
        reports_chain(outcome, chain),
    ensures
        parsed(serialized(signed(data, chain, secret_key)), outcome) == Ok::<
            EnvelopeView,
            CachetError,
        >(signed(data, chain, secret_key)),
{
    let e = signed(data, chain, secret_key);
    let b = serialized(e);
    let body = signed_bytes(chain, data);
    assert(e.signature.len() == 64 && ed25519_verifies(e.signature, body, chain.leaf_key));
    assert(signature_field(b) =~= e.signature);
    assert(signed_region(b) =~= body);
    let k = chain.encoded.len();
    let rest = body.subrange(k as int, body.len() as int);
    assert(rest =~= be32_bytes(data.len() as u32) + data);
    lemma_be32_round_trip(data.len() as u32);
    assert(be32_value(rest) == be32_value(be32_bytes(data.len() as u32)));
    assert(rest.subrange(4, rest.len() as int) =~= data);
    assert(body.subrange(0, k as int) =~= chain.encoded);
}

/// Fail-closed: an input is accepted only if it is exactly the wire form of the envelope
/// returned, and that envelope's signature verifies, under its chain's leaf key, over the
/// bytes it covers. A changed tag, chain, signature or payload is accepted only with a
/// signature that verifies over the changed bytes.
pub proof fn lemma_accepts_only_verified(b: Seq<u8>, outcome: ChainOutcome)
    ensures
        parsed(b, outcome) matches Ok(e) ==> b == serialized(e) && ed25519_verifies(
            e.signature,
            signed_bytes(e.chain, e.data),
            e.chain.leaf_key,
        ),
{
    if let Ok(e) = parsed(b, outcome) {
        let region = signed_region(b);
        if let ChainOutcome::Trusted { consumed, leaf_key } = outcome {
            let rest = region.subrange(consumed as int, region.len() as int);
            lemma_be32_bytes_of_value(rest);
            assert(be32_value(rest) == e.data.len());
            assert(rest =~= be32_bytes(e.data.len() as u32) + e.data);
            assert(region =~= signed_bytes(e.chain, e.data));
            assert(b.subrange(0, 4) =~= header_bytes());
            assert(b =~= serialized(e));
        }
    }
}

/// A changed byte of the magic tag is refused as a bad tag, whatever the rest holds.
pub proof fn lemma_tag_tamper(b: Seq<u8>, i: int, v: u8, outcome: ChainOutcome)
    requires
        b.len() >= 2,
        b[0] == TAG_0,
        b[1] == TAG_1,
        0 <= i < 2,
        v != b[i],
    ensures
        parsed(b.update(i, v), outcome) == Err::<EnvelopeView, CachetError>(CachetError::BadTag),
{
}

/// An envelope whose chain has an untrusted root, or is not a well-formed chain, is
/// refused, whatever its signature.
pub proof fn lemma_untrusted_chain_refused(b: Seq<u8>)
    ensures
        parsed(b, ChainOutcome::UntrustedRoot) is Err,
        parsed(b, ChainOutcome::Malformed) is Err,
        header_check(b) is Ok ==> parsed(b, ChainOutcome::UntrustedRoot) == Err::<
            EnvelopeView,
            CachetError,
        >(CachetError::UntrustedRoot),
{
}

/// The leaf key a trusted chain was reported with.
pub open spec fn reported_leaf_key(outcome: ChainOutcome) -> Seq<u8> {
    match outcome {
        ChainOutcome::Trusted { leaf_key, .. } => leaf_key@,
        _ => Seq::empty(),
    }
}

/// A changed byte of the signature field of an accepted envelope, with the chain
/// reported as before, is refused as an invalid signature unless the changed signature
/// verifies too.
pub proof fn lemma_signature_tamper(b: Seq<u8>, j: int, v: u8, outcome: ChainOutcome)
    requires
        parsed(b, outcome) is Ok,
        4 <= j < HEADER_BYTES,
        v != b[j],
    ensures
        !ed25519_verifies(
            signature_field(b.update(j, v)),
            signed_region(b),
            reported_leaf_key(outcome),
        ) ==> parsed(b.update(j, v), outcome) == Err::<EnvelopeView, CachetError>(
            CachetError::SignatureInvalid,
        ),
{
    let t = b.update(j, v);
    assert(t.subrange(0, 4) =~= b.subrange(0, 4));
    assert(signed_region(t) =~= signed_region(b));
}

/// A changed byte after the signature field (in the chain, the length field or the
/// payload) of an accepted envelope, with the chain reported as before, is refused as an
/// invalid signature unless the signature verifies over the changed bytes.
pub proof fn lemma_signed_region_tamper(b: Seq<u8>, j: int, v: u8, outcome: ChainOutcome)
    requires
        parsed(b, outcome) is Ok,
        HEADER_BYTES <= j < b.len(),
        v != b[j],
    ensures
        !ed25519_verifies(
            signature_field(b),
            signed_region(b.update(j, v)),
            reported_leaf_key(outcome),
        ) ==> parsed(b.update(j, v), outcome) == Err::<EnvelopeView, CachetError>(
            CachetError::SignatureInvalid,
        ),
{
    let t = b.update(j, v);
    assert(t.subrange(0, 4) =~= b.subrange(0, 4));
    assert(signature_field(t) =~= signature_field(b));
}

/// Parsing is repeatable: the wire form of an accepted envelope, parsed again with the
/// same report on its chain, gives the same envelope.
pub proof fn lemma_parse_repeatable(b: Seq<u8>, outcome: ChainOutcome)
    ensures
        parsed(b, outcome) matches Ok(e) ==> parsed(serialized(e), outcome) == parsed(
            b,
            outcome,
        ),
{
    lemma_accepts_only_verified(b, outcome);
}

} // verus!
