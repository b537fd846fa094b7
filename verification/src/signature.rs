use base64::Engine;
use ed25519_dalek::pkcs8::DecodePublicKey;
use vstd::prelude::*;

use crate::errors::AcquireError;
use crate::hexstr::hex_decode;
use crate::hexstr::hex_decoded;
use crate::hexstr::is_hex_seq;
use crate::text::spec_split_char;
use crate::text::starts_with_spec;
use crate::text::str_starts_with;
use crate::text::spec_trim;
use crate::text::split_char_strings;
use crate::text::trim_ascii;

verus! {

/// Whether a trimmed PEM line carries base64 payload (armour lines and blank
/// lines do not).
pub open spec fn pem_line_kept(t: Seq<char>) -> bool {
    t.len() > 0 && !starts_with_spec(t, "-----BEGIN"@) && !starts_with_spec(t, "-----END"@)
}

/// The concatenated base64 payload of the first `n` PEM lines, each trimmed.
pub open spec fn spec_pem_b64(lines: Seq<Seq<char>>, n: int) -> Seq<char>
    decreases n,
{
    if n <= 0 {
        Seq::empty()
    } else {
        let rest = spec_pem_b64(lines, n - 1);
        let t = spec_trim(lines[n - 1]);
        if pem_line_kept(t) {
            rest + t
        } else {
            rest
        }
    }
}

/// The whole base64 payload of a PEM document.
pub open spec fn spec_pem_payload(pem: Seq<char>) -> Seq<char> {
    spec_pem_b64(spec_split_char(pem, '\n'), spec_split_char(pem, '\n').len() as int)
}

/// What `base64`'s standard-alphabet decoding (strict padding) yields on a
/// character sequence: the decoded bytes, or nothing when the input is not
/// well-formed base64. The outcome is a function of the input alone.
pub uninterp spec fn base64_decode_of(s: Seq<char>) -> Option<Seq<u8>>;

/// Relies on `base64::engine::general_purpose::STANDARD.decode`: decodes
/// standard base64 with padding, failing exactly on malformed input.
#[verifier::external_body]
fn base64_decode(s: &str) -> (r: Option<Vec<u8>>)
    ensures
        r is Some <==> base64_decode_of(s@) is Some,
        r is Some ==> r->0@ == base64_decode_of(s@)->0,
{
    base64::engine::general_purpose::STANDARD.decode(s).ok()
}

/// Strips a PEM document to its base64 payload and decodes it to DER bytes.
/// Fails exactly when no payload line is left or the payload is not valid
/// base64.
pub fn decode_pem_to_der(pem: &str) -> (r: Result<Vec<u8>, AcquireError>)
    ensures
        r is Ok <==> spec_pem_payload(pem@).len() > 0 && base64_decode_of(
            spec_pem_payload(pem@),
        ) is Some,
        r is Ok ==> r->Ok_0@ == base64_decode_of(spec_pem_payload(pem@))->0,
        r is Err ==> r->Err_0 is Protocol,
{
    let lines = split_char_strings(pem, '\n');
    let ghost ls = spec_split_char(pem@, '\n');
    let mut b64 = String::new();
    let n = lines.len();
    let mut i: usize = 0;
    while i < n
        invariant
            0 <= i <= n,
            n == lines@.len(),
            n == ls.len(),
            forall|k: int| 0 <= k < n ==> #[trigger] lines@[k]@ == ls[k],
            b64@ =~= spec_pem_b64(ls, i as int),
        decreases n - i,
    {
        let t = trim_ascii(lines[i].as_str());
        let keep = t.unicode_len() > 0 && !str_starts_with(t.as_str(), "-----BEGIN")
            && !str_starts_with(t.as_str(), "-----END");
        if keep {
            b64.append(t.as_str());
        }
        i += 1;
    }
    if b64.unicode_len() == 0 {
        return Err(AcquireError::Protocol { detail: "empty PEM".to_owned() });
    }
    match base64_decode(b64.as_str()) {
        Some(der) => Ok(der),
        None => Err(AcquireError::Protocol { detail: "bad base64 in PEM".to_owned() }),
    }
}

/// Whether a DER document parses as an ed25519 public key; a function of the
/// bytes alone.
pub uninterp spec fn ed25519_key_parses(der: Seq<u8>) -> bool;

/// Whether the 64-byte signature verifies over the message under the key,
/// in strict (non-malleable) mode; a function of the three byte strings.
pub uninterp spec fn ed25519_verify_ok(der: Seq<u8>, msg: Seq<u8>, sig: Seq<u8>) -> bool;

/// How a strict signature check ended.
#[derive(Debug)]
pub enum SignatureCheck {
    /// The key DER did not parse.
    BadKey,
    /// The signature verified over the message.
    Accepted,
    /// The signature did not verify.
    Rejected,
}

/// Relies on `ed25519_dalek::VerifyingKey::from_public_key_der`,
/// `ed25519_dalek::Signature::from_slice` (which accepts every 64-byte
/// slice), and `VerifyingKey::verify_strict`: parses the key, builds the
/// signature and checks it over the exact message bytes in strict mode. All
/// three depend on their byte inputs alone.
#[verifier::external_body]
fn ed25519_verify_strict_der(key_der: &[u8], msg: &[u8], sig: &[u8]) -> (r: SignatureCheck)
    requires
        sig@.len() == 64,
    ensures
        r is BadKey <==> !ed25519_key_parses(key_der@),
        ed25519_key_parses(key_der@) ==> (r is Accepted <==> ed25519_verify_ok(
            key_der@,
            msg@,
            sig@,
        )),
{
    let Ok(key) = ed25519_dalek::VerifyingKey::from_public_key_der(key_der) else {
        return SignatureCheck::BadKey;
    };
    let Ok(signature) = ed25519_dalek::Signature::from_slice(sig) else {
        return SignatureCheck::Rejected;
    };
    match key.verify_strict(msg, &signature) {
        Ok(()) => SignatureCheck::Accepted,
        Err(_) => SignatureCheck::Rejected,
    }
}

/// Everything `verify_engine_signature` demands: the signature hex decodes
/// to 64 bytes, the PEM yields a parsable ed25519 key, and the signature
/// verifies strictly over the archive bytes.
pub open spec fn spec_engine_signature_valid(
    msg: Seq<u8>,
    sig_hex: Seq<char>,
    pem: Seq<char>,
) -> bool {
    &&& is_hex_seq(spec_trim(sig_hex))
    &&& hex_decoded(spec_trim(sig_hex)).len() == 64
    &&& spec_pem_payload(pem).len() > 0
    &&& base64_decode_of(spec_pem_payload(pem)) is Some
    &&& ed25519_key_parses(base64_decode_of(spec_pem_payload(pem))->0)
    &&& ed25519_verify_ok(
        base64_decode_of(spec_pem_payload(pem))->0,
        msg,
        hex_decoded(spec_trim(sig_hex)),
    )
}

/// Verifies the engine archive's bytes against the server-claimed hex
/// signature, using the trusted public key shipped as a PEM document.
/// Succeeds exactly when the signature hex, the key and the strict
/// verification all hold; a well-formed signature that does not verify is an
/// integrity error, a malformed signature or key a protocol error.
pub fn verify_engine_signature(
    engine_bytes: &[u8],
    signature_hex: &str,
    public_key_pem: &str,
) -> (r: Result<(), AcquireError>)
    ensures
        r is Ok <==> spec_engine_signature_valid(engine_bytes@, signature_hex@, public_key_pem@),
        r is Err ==> (r->Err_0 is Protocol || r->Err_0 is Integrity),
{
    let trimmed = trim_ascii(signature_hex);
    let sig = match hex_decode(trimmed.as_str()) {
        Some(s) => s,
        None => {
            return Err(
                AcquireError::Protocol { detail: "bad engine signature hex".to_owned() },
            );
        },
    };
    if sig.len() != 64 {
        return Err(
            AcquireError::Protocol { detail: "engine signature is not 64 bytes".to_owned() },
        );
    }
    let der = match decode_pem_to_der(public_key_pem) {
        Ok(d) => d,
        Err(e) => {
            return Err(e);
        },
    };
    match ed25519_verify_strict_der(der.as_slice(), engine_bytes, sig.as_slice()) {
        SignatureCheck::BadKey => Err(
            AcquireError::Protocol { detail: "bad public key DER".to_owned() },
        ),
        SignatureCheck::Accepted => Ok(()),
        SignatureCheck::Rejected => Err(
            AcquireError::Integrity {
                expected: "a signature by the trusted engine key".to_owned(),
                actual: "a signature that does not verify".to_owned(),
            },
        ),
    }
}

} // verus!
