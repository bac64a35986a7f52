use vstd::prelude::*;
use crate::be32::{be32_bytes, be32_value, read_be32, write_be32};
use crate::sig::{ed25519_signature, ed25519_verifies, sign_detached, verify_detached};

verus! {

/// First byte of the magic tag, `C`.
pub const TAG_0: u8 = 0x43;

/// Second byte of the magic tag, `T`.
pub const TAG_1: u8 = 0x54;

/// Bytes in a detached Ed25519 signature.
pub const SIGNATURE_BYTES: usize = 64;

/// Bytes before the signed region: tag, version and signature.
pub const HEADER_BYTES: usize = 68;

/// The ways an envelope can be refused.
#[derive(Clone, Copy, Debug, PartialEq, Eq, Structural)]
pub enum CachetError {
    /// The payload cannot be signed: it is too long for the length field, or the
    /// envelope would not fit in memory.
    SigningFailed,
    /// The magic tag is absent or wrong.
    BadTag,
    /// The format version is not one this library reads.
    UnsupportedVersion,
    /// The input is shorter than a field requires.
    Truncated,
    /// The trust chain does not parse as a well-formed chain.
    MalformedChain,
    /// The trust chain's root key is not among the trusted root keys.
    UntrustedRoot,
    /// The signature does not verify over the signed region.
    SignatureInvalid,
    /// Bytes remain after the payload its length field declares.
    DataLengthMismatch,
}

/// A trust chain as an envelope holds it: its self-delimiting encoding and the public
/// key of its last link, the key that signs envelopes.
#[derive(Clone, Debug, PartialEq, Eq)]
pub struct Chain {
    pub encoded: Vec<u8>,
    pub leaf_key: [u8; 32],
}

/// What a chain holds: its encoding and its leaf key.
pub struct ChainView {
    pub encoded: Seq<u8>,
    pub leaf_key: Seq<u8>,
}

impl View for Chain {
    type V = ChainView;

    open spec fn view(&self) -> ChainView {
        ChainView { encoded: self.encoded@, leaf_key: self.leaf_key@ }
    }
}

impl Chain {
    pub fn new(encoded: Vec<u8>, leaf_key: [u8; 32]) -> (r: Chain)
        ensures
            r@ == (ChainView { encoded: encoded@, leaf_key: leaf_key@ }),
    {
        Chain { encoded, leaf_key }
    }

    fn copy(&self) -> (r: Chain)
        ensures
            r@ == self@,
    {
        let mut encoded: Vec<u8> = Vec::new();
        append_bytes(&mut encoded, self.encoded.as_slice());
        Chain { encoded, leaf_key: self.leaf_key }
    }
}

/// What an envelope holds: signature, trust chain and payload.
pub struct EnvelopeView {
    pub signature: Seq<u8>,
    pub chain: ChainView,
    pub data: Seq<u8>,
}

/// Whether an envelope of this chain and payload can be written: the payload length
/// fits its four-byte field, and the whole encoding fits in memory.
pub open spec fn encodable(chain: ChainView, data: Seq<u8>) -> bool {
    &&& data.len() <= u32::MAX
    &&& HEADER_BYTES + chain.encoded.len() + 4 + data.len() <= usize::MAX
}

/// The bytes a signature covers: the chain's encoding, the payload length and the payload.
pub open spec fn signed_bytes(chain: ChainView, data: Seq<u8>) -> Seq<u8> {
    chain.encoded + be32_bytes(data.len() as u32) + data
}

/// The envelope that signing `data` with `chain` and `secret_key` produces.
pub open spec fn signed(data: Seq<u8>, chain: ChainView, secret_key: Seq<u8>) -> EnvelopeView {
    EnvelopeView {
        signature: ed25519_signature(signed_bytes(chain, data), secret_key),
        chain,
        data,
    }
}

/// The tag and the version, as they open every envelope.
pub open spec fn header_bytes() -> Seq<u8> {
    seq![TAG_0, TAG_1, 0u8, 1u8]
}

/// The wire form of an envelope.
pub open spec fn serialized(e: EnvelopeView) -> Seq<u8> {
    header_bytes() + e.signature + signed_bytes(e.chain, e.data)
}

/// What the trust-chain parser reported on the signed region, which it was handed
/// together with the trusted root keys.
#[derive(Clone, Copy, Debug, PartialEq, Eq)]
pub enum ChainOutcome {
    /// A chain whose root key is trusted was read from the first `consumed` bytes;
    /// `leaf_key` is the public key of its last link.
    Trusted { consumed: usize, leaf_key: [u8; 32] },
    /// A well-formed chain whose root key is not trusted.
    UntrustedRoot,
    /// No well-formed chain.
    Malformed,
}

/// The checks on tag and version, and that the signature is there.
pub open spec fn header_check(b: Seq<u8>) -> Result<(), CachetError> {
    if b.len() < 2 {
        Err(CachetError::Truncated)
    } else if b[0] != TAG_0 || b[1] != TAG_1 {
        Err(CachetError::BadTag)
    } else if b.len() < 4 {
        Err(CachetError::Truncated)
    } else if b[2] != 0 || b[3] != 1 {
        Err(CachetError::UnsupportedVersion)
    } else if b.len() < HEADER_BYTES {
        Err(CachetError::Truncated)
    } else {
        Ok(())
    }
}

/// The signature field of a header that passed its checks.
pub open spec fn signature_field(b: Seq<u8>) -> Seq<u8> {
    b.subrange(4, HEADER_BYTES as int)
}

/// Everything after the signature: the bytes the signature covers.
pub open spec fn signed_region(b: Seq<u8>) -> Seq<u8> {
    b.subrange(HEADER_BYTES as int, b.len() as int)
}

/// The payload length field and the payload, read from what follows the chain.
pub open spec fn payload(rest: Seq<u8>) -> Result<Seq<u8>, CachetError> {
    if rest.len() < 4 {
        Err(CachetError::Truncated)
    } else if be32_value(rest) > rest.len() - 4 {
        Err(CachetError::Truncated)
    } else if be32_value(rest) < rest.len() - 4 {
        Err(CachetError::DataLengthMismatch)
    } else {
        Ok(rest.subrange(4, rest.len() as int))
    }
}

/// The result of parsing `b`, given what the trust-chain parser reported on its signed
/// region. Each check runs only once those before it have passed, the first failure is
/// the result, and the signature is checked against the raw signed region under the
/// leaf key of a trusted chain before the payload is read.
pub open spec fn parsed(b: Seq<u8>, outcome: ChainOutcome) -> Result<EnvelopeView, CachetError> {
    match header_check(b) {
        Err(e) => Err(e),
        Ok(_) => {
            let region = signed_region(b);
            match outcome {
                ChainOutcome::UntrustedRoot => Err(CachetError::UntrustedRoot),
                ChainOutcome::Malformed => Err(CachetError::MalformedChain),
                ChainOutcome::Trusted { consumed, leaf_key } => {
                    if consumed > region.len() {
                        Err(CachetError::Truncated)
                    } else if !ed25519_verifies(signature_field(b), region, leaf_key@) {
                        Err(CachetError::SignatureInvalid)
                    } else {
                        match payload(region.subrange(consumed as int, region.len() as int)) {
                            Err(e) => Err(e),
                            Ok(data) => Ok(
                                EnvelopeView {
                                    signature: signature_field(b),
                                    chain: ChainView {
                                        encoded: region.subrange(0, consumed as int),
                                        leaf_key: leaf_key@,
                                    },
                                    data,
                                },
                            ),
                        }
                    }
                },
            }
        },
    }
}

/// A signed envelope.
#[derive(Debug, PartialEq, Eq)]
pub struct Cachet {
    signature: [u8; 64],
    trust_chain: Chain,
    data: Vec<u8>,
}

impl View for Cachet {
    type V = EnvelopeView;

    closed spec fn view(&self) -> EnvelopeView {
        EnvelopeView { signature: self.signature@, chain: self.trust_chain@, data: self.data@ }
    }
}

/// The view of a parse result.
pub open spec fn result_view(r: Result<Cachet, CachetError>) -> Result<EnvelopeView, CachetError> {
    match r {
        Ok(c) => Ok(c@),
        Err(e) => Err(e),
    }
}

/// Checks tag, version and the presence of the signature. On success, returns where the
/// signed region starts: the bytes to hand to the trust-chain parser.
pub fn signed_region_start(bytes: &[u8]) -> (r: Result<usize, CachetError>)
    ensures
        r == (match header_check(bytes@) {
            Ok(_) => Ok(HEADER_BYTES),
            Err(e) => Err::<usize, CachetError>(e),
        }),
{
    if bytes.len() < 2 {
        Err(CachetError::Truncated)
    } else if bytes[0] != TAG_0 || bytes[1] != TAG_1 {
        Err(CachetError::BadTag)
    } else if bytes.len() < 4 {
        Err(CachetError::Truncated)
    } else if bytes[2] != 0 || bytes[3] != 1 {
        Err(CachetError::UnsupportedVersion)
    } else if bytes.len() < HEADER_BYTES {
        Err(CachetError::Truncated)
    } else {
        Ok(HEADER_BYTES)
    }
}

/// Copies `b[start..end]`.
fn copy_range(b: &[u8], start: usize, end: usize) -> (r: Vec<u8>)
    requires
        start <= end <= b@.len(),
    ensures
        r@ == b@.subrange(start as int, end as int),
{
    let mut v: Vec<u8> = Vec::new();
    append_bytes(&mut v, &b[start..end]);
    v
}

/// Copies the signature field.
fn signature_of(b: &[u8]) -> (r: [u8; 64])
    requires
        b@.len() >= HEADER_BYTES,
    ensures
        r@ == signature_field(b@),
{
    let mut sig = [0u8; 64];
    let mut i: usize = 0;
    while i < SIGNATURE_BYTES
        invariant
            i <= SIGNATURE_BYTES,
            b@.len() >= HEADER_BYTES,
            forall|k: int| 0 <= k < i ==> sig@[k] == b@[4 + k],
        decreases SIGNATURE_BYTES - i,
    {
        sig[i] = b[4 + i];
        i = i + 1;
    }
    assert(sig@ =~= signature_field(b@));
    sig
}

/// Parses and verifies an envelope. `chain` is what the trust-chain parser reported on
/// the signed region (see `signed_region_start`) with the trusted root keys.
pub fn cachet(bytes: &[u8], chain: &ChainOutcome) -> (r: Result<Cachet, CachetError>)
    ensures
        result_view(r) == parsed(bytes@, *chain),
{
    let start = match signed_region_start(bytes) {
        Ok(s) => s,
        Err(e) => return Err(e),
    };
    let region = &bytes[start..bytes.len()];
    assert(region@ == signed_region(bytes@));
    match *chain {
        ChainOutcome::UntrustedRoot => Err(CachetError::UntrustedRoot),
        ChainOutcome::Malformed => Err(CachetError::MalformedChain),
        ChainOutcome::Trusted { consumed, leaf_key } => {
            if consumed > region.len() {
                return Err(CachetError::Truncated);
            }
            let signature = signature_of(bytes);
            if !verify_detached(&signature, region, &leaf_key) {
                return Err(CachetError::SignatureInvalid);
            }
            let rest = &region[consumed..region.len()];
            if rest.len() < 4 {
                return Err(CachetError::Truncated);
            }
            let len = read_be32(rest);
            let avail = rest.len() - 4;
            if len as usize > avail {
                return Err(CachetError::Truncated);
            }
            if (len as usize) < avail {
                return Err(CachetError::DataLengthMismatch);
            }
            let data = copy_range(rest, 4, rest.len());
            let encoded = copy_range(region, 0, consumed);
            assert(bytes@.len() == HEADER_BYTES + consumed + 4 + data@.len());
            Ok(Cachet { signature, trust_chain: Chain { encoded, leaf_key }, data })
        },
    }
}

/// Appends `src` to `out`.
fn append_bytes(out: &mut Vec<u8>, src: &[u8])
    ensures
        final(out)@ == old(out)@ + src@,
{
    let mut i: usize = 0;
    while i < src.len()
        invariant
            i <= src@.len(),
            out@ == old(out)@ + src@.subrange(0, i as int),
        decreases src@.len() - i,
    {
        out.push(src[i]);
        i = i + 1;
        assert(out@ =~= old(out)@ + src@.subrange(0, i as int));
    }
    assert(src@.subrange(0, src@.len() as int) =~= src@);
}

/// Appends the payload length and the payload.
fn append_length_and_data(out: &mut Vec<u8>, data: &[u8])
    requires
        data@.len() <= u32::MAX,
    ensures
        final(out)@ == old(out)@ + be32_bytes(data@.len() as u32) + data@,
{
    let len = write_be32(data.len() as u32);
    append_bytes(out, len.as_slice());
    append_bytes(out, data);
}

impl Clone for Cachet {
    fn clone(&self) -> (r: Cachet)
        ensures
            r@ == self@,
    {
        proof {
            use_type_invariant(self);
        }
        let mut data: Vec<u8> = Vec::new();
        append_bytes(&mut data, self.data.as_slice());
        Cachet { signature: self.signature, trust_chain: self.trust_chain.copy(), data }
    }
}

impl Cachet {
    #[verifier::type_invariant]
    spec fn fits(&self) -> bool {
        encodable(self.trust_chain@, self.data@)
    }

    /// Signs `data` with the chain's leaf secret key `skey`. The caller vouches that
    /// `skey` belongs to the chain's leaf key; nothing is verified here. Fails only when
    /// the envelope could not be written out.
    pub fn new(data: Vec<u8>, chain: &Chain, skey: &[u8; 64]) -> (r: Result<Cachet, CachetError>)
        ensures
            r is Ok <==> encodable(chain@, data@),
            r matches Ok(c) ==> c@ == signed(data@, chain@, skey@),
            r matches Err(e) ==> e == CachetError::SigningFailed,
    {
        if data.len() as u64 > u32::MAX as u64 || data.len() > usize::MAX - HEADER_BYTES - 4
            || chain.encoded.len() > usize::MAX - HEADER_BYTES - 4 - data.len() {
            return Err(CachetError::SigningFailed);
        }
        let mut signed_region: Vec<u8> = Vec::new();
        append_bytes(&mut signed_region, chain.encoded.as_slice());
        append_length_and_data(&mut signed_region, data.as_slice());
        let signature = sign_detached(signed_region.as_slice(), skey);
        Ok(Cachet { signature, trust_chain: chain.copy(), data })
    }

    /// The detached signature.
    pub fn signature(&self) -> (r: [u8; 64])
        ensures
            r@ == self@.signature,
    {
        self.signature
    }

    /// The trust chain the signing key derives its authority from.
    pub fn trust_chain(&self) -> (r: &Chain)
        ensures
            r@ == self@.chain,
    {
        &self.trust_chain
    }

    /// The payload.
    pub fn data(&self) -> (r: &[u8])
        ensures
            r@ == self@.data,
    {
        self.data.as_slice()
    }

    /// The wire form: tag, version, signature, chain, payload length, payload.
    pub fn as_bytes(&self) -> (r: Vec<u8>)
        ensures
            r@ == serialized(self@),
    {
        proof {
            use_type_invariant(self);
        }
        let mut v: Vec<u8> = Vec::new();
        v.push(TAG_0);
        v.push(TAG_1);
        v.push(0u8);
        v.push(1u8);
        append_bytes(&mut v, self.signature.as_slice());
        append_bytes(&mut v, self.trust_chain.encoded.as_slice());
        append_length_and_data(&mut v, self.data.as_slice());
        assert(v@ =~= serialized(self@));
        v
    }
}

} // verus!
