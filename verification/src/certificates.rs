//! Attaching certificates to the keys of a JSON Web Key Set: each key that
//! has no `x5c` member gets a leaf certificate for its public key, issued by
//! an ephemeral P-256 key; all else in the document stays as it was.

use vstd::prelude::*;
use vstd::slice::slice_to_vec;
use vstd::string::StringExecFns;
use p256::elliptic_curve::rand_core::RngCore;
use x509_cert::builder::Builder;
use x509_cert::der::Decode;
use x509_cert::der::Encode;
use crate::encoding::base64_encode;
use crate::encoding::encode_base64;
use crate::encoding::symbol;
use crate::json::attach_certificate;
use crate::json::document_keys;
use crate::json::document_model;
use crate::json::has_member;
use crate::json::json_text_model;
use crate::json::key_count;
use crate::json::key_has_member;
use crate::json::key_member_text;
use crate::json::member_text;
use crate::json::members_besides_keys;
use crate::json::parse_document;
use crate::json::plain_json_text;
use crate::json::serialize_document;
use crate::json::serialized_document;
use crate::json::single_string_array_json;
use crate::json::DocumentModel;
use crate::json::JwkEntry;
use crate::jwk::big_endian_value;
use crate::jwk::key_fault;
use crate::jwk::public_key;
use crate::jwk::spki_encoding;
use crate::jwk::JwkFields;
use crate::jwk::JwkText;
use crate::jwk::KeyFault;
use crate::jwk::PublicKeyError;

verus! {

#[verifier::external_type_specification]
#[verifier::external_body]
pub struct ExBuilderError(x509_cert::builder::Error);

/// How many times the issuer's secret scalar is drawn before giving up.
pub const ISSUER_KEY_DRAWS: usize = 16;

/// Seconds for which an issued certificate is valid: 365 days.
pub const CERTIFICATE_LIFETIME_SECS: u64 = 31536000;

/// The issuer name of every certificate.
pub open spec fn issuer_name_text() -> Seq<char> {
    "CN=jwksproxy experimental issuer"@
}

/// The subject name of every certificate.
pub open spec fn subject_name_text() -> Seq<char> {
    "CN=Kubernetes service account signing key"@
}

/// The ephemeral issuer key: the big-endian secret scalar of a P-256
/// signing key, kept only in memory. Its view is that scalar.
pub struct SigningIssuer {
    scalar: Vec<u8>,
}

impl View for SigningIssuer {
    type V = Seq<u8>;

    closed spec fn view(&self) -> Seq<u8> {
        self.scalar@
    }
}

/// A P-256 secret scalar: 32 big-endian bytes of a number from 1 below the
/// group order.
pub open spec fn valid_issuer_scalar(scalar: Seq<u8>) -> bool {
    scalar.len() == 32 && 1 <= big_endian_value(scalar) < p256_order()
}

impl SigningIssuer {
    /// Every issuer holds a valid scalar.
    #[verifier::type_invariant]
    spec fn well_formed(self) -> bool {
        valid_issuer_scalar(self.scalar@)
    }
}

/// Whether certificates are attached, and the issuer that signs them.
pub enum Certificates {
    Disabled,
    EphemeralIssuer(SigningIssuer),
}

/// Why a key set could not be given certificates; the spec view of
/// [`CertificateError`].
pub enum CertificateFault {
    InvalidJson { detail: Seq<char> },
    MissingKeysArray,
    PublicKey(KeyFault),
    NotAnObject,
    Randomness { detail: Seq<char> },
    NoValidIssuerKey,
    Issuance { detail: Seq<char> },
    Serialization { detail: Seq<char> },
}

/// Why a key set could not be given certificates. The details are the texts
/// of the failures that the JSON parser, the random generator and the
/// certificate builder report.
#[derive(Debug)]
pub enum CertificateError {
    InvalidJson { detail: String },
    MissingKeysArray,
    PublicKey(PublicKeyError),
    NotAnObject,
    Randomness { detail: String },
    NoValidIssuerKey,
    Issuance { detail: String },
    Serialization { detail: String },
}

impl View for CertificateError {
    type V = CertificateFault;

    open spec fn view(&self) -> CertificateFault {
        match self {
            CertificateError::InvalidJson { detail } => CertificateFault::InvalidJson {
                detail: detail@,
            },
            CertificateError::MissingKeysArray => CertificateFault::MissingKeysArray,
            CertificateError::PublicKey(e) => CertificateFault::PublicKey(e@),
            CertificateError::NotAnObject => CertificateFault::NotAnObject,
            CertificateError::Randomness { detail } => CertificateFault::Randomness {
                detail: detail@,
            },
            CertificateError::NoValidIssuerKey => CertificateFault::NoValidIssuerKey,
            CertificateError::Issuance { detail } => CertificateFault::Issuance { detail: detail@ },
            CertificateError::Serialization { detail } => CertificateFault::Serialization {
                detail: detail@,
            },
        }
    }
}

/// The text a fault is reported with; the fault of a key is detailed by
/// [`PublicKeyError::message`].
pub open spec fn certificate_fault_message(fault: CertificateFault) -> Seq<char> {
    match fault {
        CertificateFault::InvalidJson { detail } => detail,
        CertificateFault::MissingKeysArray => "JWKS must contain a keys array"@,
        CertificateFault::PublicKey(f) => "could not construct JWK public key"@,
        CertificateFault::NotAnObject => "JWK must be an object"@,
        CertificateFault::Randomness { detail } => detail,
        CertificateFault::NoValidIssuerKey => "no drawn scalar was a valid P-256 signing key"@,
        CertificateFault::Issuance { detail } => detail,
        CertificateFault::Serialization { detail } => detail,
    }
}

impl CertificateError {
    /// The text this fault is reported with.
    pub fn message(&self) -> (m: String)
        ensures
            m@ == certificate_fault_message(self@),
    {
        match self {
            CertificateError::InvalidJson { detail } => String::from_str(detail.as_str()),
            CertificateError::MissingKeysArray => String::from_str(
                "JWKS must contain a keys array",
            ),
            CertificateError::PublicKey(_) => String::from_str(
                "could not construct JWK public key",
            ),
            CertificateError::NotAnObject => String::from_str("JWK must be an object"),
            CertificateError::Randomness { detail } => String::from_str(detail.as_str()),
            CertificateError::NoValidIssuerKey => String::from_str(
                "no drawn scalar was a valid P-256 signing key",
            ),
            CertificateError::Issuance { detail } => String::from_str(detail.as_str()),
            CertificateError::Serialization { detail } => String::from_str(detail.as_str()),
        }
    }
}

/// The faults that come from drawing randomness or issuing a certificate,
/// whose outcome depends on chance and the clock, not on the key material.
pub open spec fn outside_failure(f: CertificateFault) -> bool {
    f is Randomness || f is Issuance
}

/// The string members of an entry that its public key is built from.
pub open spec fn entry_text(entry: JwkEntry) -> JwkText {
    JwkText {
        kty: member_text(entry, "kty"@),
        crv: member_text(entry, "crv"@),
        n: member_text(entry, "n"@),
        e: member_text(entry, "e"@),
        x: member_text(entry, "x"@),
        y: member_text(entry, "y"@),
    }
}

/// A key gets a certificate when it has no `x5c` member.
pub open spec fn needs_certificate(entry: JwkEntry) -> bool {
    !has_member(entry, "x5c"@)
}

/// A serial number as issued: 16 bytes, the first with its top bit clear
/// and its low bit set, so that it reads as a positive nonzero integer.
pub open spec fn issued_serial(serial: Seq<u8>) -> bool {
    serial.len() == 16 && serial[0] < 128 && serial[0] % 2 == 1
}

/// `cert` is the DER of a leaf certificate made by [`sign_leaf_certificate`]:
/// signed by the P-256 key of the secret scalar `issuer_key` (so that the
/// public key [`p256_public_key_of`] gives verifies it), with the given
/// issuer and subject names, serial number, validity of `lifetime_secs`
/// from the time of signing, key-usage flags, and subject public key
/// (SubjectPublicKeyInfo in DER).
pub uninterp spec fn issued_leaf_certificate(
    cert: Seq<u8>,
    issuer_key: Seq<u8>,
    issuer_name: Seq<char>,
    subject_name: Seq<char>,
    serial: Seq<u8>,
    lifetime_secs: nat,
    key_agreement: bool,
    key_encipherment: bool,
    subject_key: Seq<u8>,
) -> bool;

/// `cert` is a certificate for the subject key `subject_key`, signed by the
/// issuer key `issuer_key`, as this library issues them: its names, a
/// year's lifetime, no key agreement or key encipherment, and a serial as
/// [`issued_serial`] says.
pub open spec fn library_certificate(cert: Seq<u8>, issuer_key: Seq<u8>, subject_key: Seq<u8>) -> bool {
    exists|serial: Seq<u8>|
        issued_serial(serial) && #[trigger] issued_leaf_certificate(
            cert,
            issuer_key,
            issuer_name_text(),
            subject_name_text(),
            serial,
            CERTIFICATE_LIFETIME_SECS as nat,
            false,
            false,
            subject_key,
        )
}

/// `after` is `before` with a certificate attached: a key without `x5c` gains
/// that member, an array holding the standard base64 of a certificate for
/// the key's own public key signed by `issuer_key`; every other entry stays
/// as it was.
pub open spec fn certified_entry(issuer_key: Seq<u8>, before: JwkEntry, after: JwkEntry) -> bool {
    match before {
        Some(members) => if needs_certificate(before) {
            exists|cert: Seq<u8>|
                #[trigger] library_certificate(cert, issuer_key, spki_encoding(entry_text(before))) && after
                    == Some(
                    members.insert(
                        "x5c"@,
                        (None, single_string_array_json(base64_encode(cert, false, true))),
                    ),
                )
        } else {
            after == before
        },
        None => after == before,
    }
}

/// Each entry of `after` is the entry of `keys` at the same place with a
/// certificate attached.
pub open spec fn certified_keys(issuer_key: Seq<u8>, keys: Seq<JwkEntry>, after: Seq<JwkEntry>) -> bool {
    &&& after.len() == keys.len()
    &&& forall|i: int| 0 <= i < keys.len() ==> #[trigger] certified_entry(issuer_key, keys[i], after[i])
}

/// The fault of the key at `i`, when it needs a certificate and its key
/// material is not acceptable.
pub open spec fn fault_at(keys: Seq<JwkEntry>, i: int) -> Option<KeyFault> {
    if needs_certificate(keys[i]) {
        key_fault(entry_text(keys[i]))
    } else {
        None
    }
}

/// Every key that needs a certificate has acceptable key material.
pub open spec fn keys_certifiable(keys: Seq<JwkEntry>) -> bool {
    forall|i: int| 0 <= i < keys.len() ==> #[trigger] fault_at(keys, i) is None
}

/// The key at `i` is the first that needs a certificate and cannot get one,
/// for the fault `f`.
pub open spec fn first_fault_is(keys: Seq<JwkEntry>, i: int, f: KeyFault) -> bool {
    &&& 0 <= i < keys.len()
    &&& fault_at(keys, i) == Some(f)
    &&& forall|j: int| 0 <= j < i ==> #[trigger] fault_at(keys, j) is None
}

/// A certificate is issued for the key at `j`: it needs one, and neither it
/// nor any key before it shows a fault.
pub open spec fn issuance_reached(keys: Seq<JwkEntry>, j: int) -> bool {
    &&& 0 <= j < keys.len()
    &&& needs_certificate(keys[j])
    &&& forall|k: int| 0 <= k <= j ==> #[trigger] fault_at(keys, k) is None
}

/// A `Result` taken by the views of its value and its error.
pub open spec fn outcome_of(r: Result<Vec<u8>, CertificateError>) -> Result<Seq<u8>, CertificateFault> {
    match r {
        Ok(out) => Ok(out@),
        Err(e) => Err(e@),
    }
}

/// `out` is the serialization of a document whose keys are `keys` with
/// certificates attached and whose other top-level members are those of
/// `model`, and that parses back to that document; every key that needed a
/// certificate could get one.
pub open spec fn certified_output(
    issuer_key: Seq<u8>,
    model: DocumentModel,
    keys: Seq<JwkEntry>,
    out: Seq<u8>,
) -> bool {
    &&& keys_certifiable(keys)
    &&& exists|document: serde_json::Value, after: Seq<JwkEntry>|
        #![trigger document_model(document), certified_keys(issuer_key, keys, after)]
        {
            &&& certified_keys(issuer_key, keys, after)
            &&& document_keys(document) == Some(after)
            &&& members_besides_keys(document_model(document).0) == members_besides_keys(model.0)
            &&& out == serialized_document(document)
            &&& json_text_model(out) == Some(document_model(document))
        }
}

/// A failure is the fault of the first key that needs a certificate and
/// cannot get one, or a failure of randomness or issuance met while issuing
/// a certificate for a key.
pub open spec fn permitted_failure(keys: Seq<JwkEntry>, f: CertificateFault) -> bool {
    ||| (f matches CertificateFault::PublicKey(k) && exists|i: int| first_fault_is(keys, i, k))
    ||| (outside_failure(f) && exists|j: int| issuance_reached(keys, j))
}

/// When some key that needs a certificate cannot get one, the outcome is a
/// failure: that key's fault, or a failure of randomness or issuance met
/// while issuing for a key before it.
pub open spec fn reports_first_fault(
    keys: Seq<JwkEntry>,
    r: Result<Seq<u8>, CertificateFault>,
) -> bool {
    forall|i: int, f: KeyFault|
        #![trigger first_fault_is(keys, i, f)]
        first_fault_is(keys, i, f) ==> (r matches Err(e) && (e == CertificateFault::PublicKey(f)
            || (outside_failure(e) && exists|j: int| j < i && issuance_reached(keys, j))))
}

/// What attaching certificates signed by `issuer_key` to the key set `body`
/// may give.
pub open spec fn transform_outcome(
    body: Seq<u8>,
    issuer_key: Seq<u8>,
    r: Result<Seq<u8>, CertificateFault>,
) -> bool {
    match json_text_model(body) {
        None => r matches Err(CertificateFault::InvalidJson { .. }),
        Some(model) => match model.1 {
            None => r == Err::<Seq<u8>, CertificateFault>(CertificateFault::MissingKeysArray),
            Some(keys) => {
                &&& match r {
                    Ok(out) => certified_output(issuer_key, model, keys, out),
                    Err(f) => permitted_failure(keys, f),
                }
                &&& reports_first_fault(keys, r)
            },
        },
    }
}

/// A key that already carries `x5c` is left exactly as it was.
pub proof fn lemma_existing_certificates_kept(issuer_key: Seq<u8>, before: JwkEntry, after: JwkEntry)
    requires
        has_member(before, "x5c"@),
        certified_entry(issuer_key, before, after),
    ensures
        after == before,
{
}

/// Attaching certificates touches no member but `x5c`: every other member is
/// present, with the same value, exactly when it was before.
pub proof fn lemma_certification_changes_only_x5c(
    issuer_key: Seq<u8>,
    before: JwkEntry,
    after: JwkEntry,
    name: Seq<char>,
)
    requires
        certified_entry(issuer_key, before, after),
        name != "x5c"@,
    ensures
        has_member(after, name) == has_member(before, name),
        has_member(before, name) ==> after.unwrap()[name] == before.unwrap()[name],
{
}

/// After certificates are attached no key that is an object needs one, so
/// attaching them again changes nothing.
pub proof fn lemma_certification_idempotent(issuer_key: Seq<u8>, keys: Seq<JwkEntry>, after: Seq<JwkEntry>)
    requires
        certified_keys(issuer_key, keys, after),
    ensures
        forall|i: int|
            0 <= i < keys.len() && keys[i] is Some ==> !needs_certificate(#[trigger] after[i]),
        certified_keys(issuer_key, after, after),
{
    assert forall|i: int| 0 <= i < keys.len() && keys[i] is Some implies !needs_certificate(
        #[trigger] after[i],
    ) by {
        assert(certified_entry(issuer_key, keys[i], after[i]));
        if needs_certificate(keys[i]) {
            let members = keys[i].unwrap();
            let cert = choose|cert: Seq<u8>|
                #[trigger] library_certificate(cert, issuer_key, spki_encoding(entry_text(keys[i])))
                    && after[i] == Some(
                    members.insert(
                        "x5c"@,
                        (None, single_string_array_json(base64_encode(cert, false, true))),
                    ),
                );
            assert(after[i].unwrap().contains_key("x5c"@));
        }
    }
    assert forall|i: int| 0 <= i < after.len() implies #[trigger] certified_entry(
        issuer_key,
        after[i],
        after[i],
    ) by {
        assert(certified_entry(issuer_key, keys[i], after[i]));
        if keys[i] is Some && needs_certificate(keys[i]) {
            let members = keys[i].unwrap();
            let cert = choose|cert: Seq<u8>|
                #[trigger] library_certificate(cert, issuer_key, spki_encoding(entry_text(keys[i])))
                    && after[i] == Some(
                    members.insert(
                        "x5c"@,
                        (None, single_string_array_json(base64_encode(cert, false, true))),
                    ),
                );
            assert(after[i].unwrap().contains_key("x5c"@));
        }
    }
}

/// The key set that attaching certificates gives parses back to the input's
/// keys, each with its certificate attached, beside the input's other
/// top-level members.
pub proof fn lemma_output_reparses_certified(body: Seq<u8>, issuer_key: Seq<u8>, out: Seq<u8>)
    requires
        transform_outcome(body, issuer_key, Ok(out)),
    ensures
        json_text_model(body) matches Some(model) && model.1 matches Some(keys)
            && json_text_model(out) matches Some(reparsed) && reparsed.1 matches Some(after)
            && certified_keys(issuer_key, keys, after) && members_besides_keys(reparsed.0)
            == members_besides_keys(model.0),
{
    let model = json_text_model(body).unwrap();
    let keys = model.1.unwrap();
    let (document, after) = choose|document: serde_json::Value, after: Seq<JwkEntry>|
        {
            &&& #[trigger] certified_keys(issuer_key, keys, after)
            &&& document_keys(document) == Some(after)
            &&& members_besides_keys(#[trigger] document_model(document).0)
                == members_besides_keys(model.0)
            &&& out == serialized_document(document)
            &&& json_text_model(out) == Some(document_model(document))
        };
    assert(json_text_model(out) == Some(document_model(document)));
}

/// When every key already carries a certificate, the key set comes back
/// with the same keys and the same other top-level members.
pub proof fn lemma_certified_key_set_comes_back_unchanged(
    body: Seq<u8>,
    issuer_key: Seq<u8>,
    out: Seq<u8>,
)
    requires
        transform_outcome(body, issuer_key, Ok(out)),
        json_text_model(body) matches Some(model) && model.1 matches Some(keys) && forall|i: int|
            0 <= i < keys.len() ==> has_member(#[trigger] keys[i], "x5c"@),
    ensures
        json_text_model(out) matches Some(reparsed) && reparsed.1 == json_text_model(body).unwrap().1
            && members_besides_keys(reparsed.0) == members_besides_keys(
            json_text_model(body).unwrap().0,
        ),
{
    lemma_output_reparses_certified(body, issuer_key, out);
    let keys = json_text_model(body).unwrap().1.unwrap();
    let after = json_text_model(out).unwrap().1.unwrap();
    assert forall|i: int| 0 <= i < keys.len() implies after[i] == keys[i] by {
        assert(has_member(keys[i], "x5c"@));
        assert(certified_entry(issuer_key, keys[i], after[i]));
    }
    assert(after =~= keys);
}

/// Attaching certificates gives every key a certificate chain: a key that
/// carries `x5c` comes back exactly as it was, and every other key, whatever
/// other members it has, comes back with an `x5c` member added and all its
/// other members as they were. Every key is an object.
pub proof fn lemma_every_key_comes_back_with_x5c(body: Seq<u8>, issuer_key: Seq<u8>, out: Seq<u8>)
    requires
        transform_outcome(body, issuer_key, Ok(out)),
    ensures
        json_text_model(body) matches Some(model) && model.1 matches Some(keys)
            && json_text_model(out) matches Some(reparsed) && reparsed.1 matches Some(after) && {
            &&& after.len() == keys.len()
            &&& forall|i: int|
                0 <= i < keys.len() ==> {
                    &&& keys[i] is Some
                    &&& has_member(#[trigger] after[i], "x5c"@)
                    &&& has_member(keys[i], "x5c"@) ==> after[i] == keys[i]
                    &&& !has_member(keys[i], "x5c"@) ==> after[i].unwrap().remove("x5c"@)
                        == keys[i].unwrap()
                }
        },
{
    lemma_output_reparses_certified(body, issuer_key, out);
    let keys = json_text_model(body).unwrap().1.unwrap();
    let after = json_text_model(out).unwrap().1.unwrap();
    assert forall|i: int| 0 <= i < keys.len() implies {
        &&& keys[i] is Some
        &&& has_member(#[trigger] after[i], "x5c"@)
        &&& has_member(keys[i], "x5c"@) ==> after[i] == keys[i]
        &&& !has_member(keys[i], "x5c"@) ==> after[i].unwrap().remove("x5c"@) == keys[i].unwrap()
    } by {
        assert(certified_entry(issuer_key, keys[i], after[i]));
        assert(fault_at(keys, i) is None);
        if keys[i] is None {
            assert(key_fault(entry_text(keys[i])) is Some);
        }
        if !has_member(keys[i], "x5c"@) {
            let members = keys[i].unwrap();
            let cert = choose|cert: Seq<u8>|
                #[trigger] library_certificate(cert, issuer_key, spki_encoding(entry_text(keys[i])))
                    && after[i] == Some(
                    members.insert(
                        "x5c"@,
                        (None, single_string_array_json(base64_encode(cert, false, true))),
                    ),
                );
            assert(after[i].unwrap().remove("x5c"@) =~= members);
        }
    }
}

/// Attaching certificates fails over a key's material only for a key
/// without `x5c` whose material cannot give a public key: the first such
/// key, with its fault.
pub proof fn lemma_key_failure_names_a_key_without_x5c(
    body: Seq<u8>,
    issuer_key: Seq<u8>,
    fault: KeyFault,
)
    requires
        transform_outcome(body, issuer_key, Err(CertificateFault::PublicKey(fault))),
    ensures
        json_text_model(body) matches Some(model) && model.1 matches Some(keys) && exists|i: int|
            0 <= i < keys.len() && !has_member(#[trigger] keys[i], "x5c"@) && key_fault(
                entry_text(keys[i]),
            ) == Some(fault) && forall|j: int|
                0 <= j < i && !has_member(#[trigger] keys[j], "x5c"@) ==> key_fault(
                    entry_text(keys[j]),
                ) is None,
{
    let keys = json_text_model(body).unwrap().1.unwrap();
    let i = choose|i: int| first_fault_is(keys, i, fault);
    assert(fault_at(keys, i) == Some(fault));
    assert forall|j: int| 0 <= j < i && !has_member(#[trigger] keys[j], "x5c"@) implies key_fault(
        entry_text(keys[j]),
    ) is None by {
        assert(fault_at(keys, j) is None);
    }
}

/// The symbols of the standard alphabet and `=` are written in JSON as they
/// are.
proof fn lemma_standard_symbol_plain(v: int)
    requires
        0 <= v < 64,
    ensures
        ' ' <= symbol(v, false) <= '~',
        symbol(v, false) != '"',
        symbol(v, false) != '\\',
{
}

/// Standard base64 text needs no escaping in JSON.
proof fn lemma_base64_plain(bytes: Seq<u8>)
    ensures
        plain_json_text(base64_encode(bytes, false, true)),
    decreases bytes.len(),
{
    let t = base64_encode(bytes, false, true);
    if bytes.len() == 0 {
    } else if bytes.len() < 3 {
        let b0 = bytes[0] as int;
        lemma_standard_symbol_plain(b0 / 4);
        if bytes.len() == 1 {
            lemma_standard_symbol_plain((b0 % 4) * 16);
        } else {
            let b1 = bytes[1] as int;
            lemma_standard_symbol_plain((b0 % 4) * 16 + b1 / 16);
            lemma_standard_symbol_plain((b1 % 16) * 4);
        }
    } else {
        let b0 = bytes[0] as int;
        let b1 = bytes[1] as int;
        let b2 = bytes[2] as int;
        lemma_standard_symbol_plain(b0 / 4);
        lemma_standard_symbol_plain((b0 % 4) * 16 + b1 / 16);
        lemma_standard_symbol_plain((b1 % 16) * 4 + b2 / 64);
        lemma_standard_symbol_plain(b2 % 64);
        lemma_base64_plain(bytes.skip(3));
        let rest = base64_encode(bytes.skip(3), false, true);
        assert forall|i: int| 0 <= i < t.len() implies ' ' <= #[trigger] t[i] <= '~' && t[i]
            != '"' && t[i] != '\\' by {
            if i >= 4 {
                assert(t[i] == rest[i - 4]);
            }
        }
    }
}

/// The order of P-256's group: a signing key is a scalar from 1 below it.
pub open spec fn p256_order() -> int {
    0xffffffff00000000ffffffffffffffffbce6faada7179e84f3b9cac2fc632551int
}

/// The SubjectPublicKeyInfo, in DER, that `EncodePublicKey::to_public_key_der`
/// writes for the public key of the P-256 secret scalar `scalar`.
pub uninterp spec fn p256_public_key_of(scalar: Seq<u8>) -> Seq<u8>;

/// The public key of the signing key `p256::ecdsa::SigningKey::from_slice`
/// makes of `scalar`, encoded with `EncodePublicKey::to_public_key_der`.
/// Trusted: a valid scalar is accepted and the encoding of its public key
/// does not fail.
#[verifier::external_body]
fn issuer_public_key_der(scalar: &[u8]) -> (r: Option<Vec<u8>>)
    requires
        valid_issuer_scalar(scalar@),
    ensures
        r is Some,
        r matches Some(der) ==> der@ == p256_public_key_of(scalar@),
{
    let key = p256::ecdsa::SigningKey::from_slice(scalar).ok()?;
    p256::pkcs8::EncodePublicKey::to_public_key_der(key.verifying_key())
        .ok()
        .map(|document| document.as_bytes().to_vec())
}

impl SigningIssuer {
    /// The issuer's public key, which verifies the certificates it signs:
    /// its SubjectPublicKeyInfo in DER.
    pub fn public_key_der(&self) -> (der: Vec<u8>)
        ensures
            der@ == p256_public_key_of(self@),
    {
        proof {
            use_type_invariant(self);
        }
        match issuer_public_key_der(self.scalar.as_slice()) {
            Some(der) => der,
            None => Vec::new(),
        }
    }
}

/// The issuer whose secret scalar is the drawn `scalar`, when it is a valid
/// P-256 scalar; `None` when it must be drawn again.
pub fn issuer_from_draw(scalar: Vec<u8>) -> (r: Option<SigningIssuer>)
    requires
        scalar@.len() == 32,
    ensures
        r is Some <==> valid_issuer_scalar(scalar@),
        r matches Some(issuer) ==> issuer@ == scalar@,
{
    if scalar_accepted(scalar.as_slice()) {
        Some(SigningIssuer { scalar })
    } else {
        None
    }
}

/// What one draw of the issuer's secret scalar leads to.
pub enum IssuerDraw {
    Issued(SigningIssuer),
    DrawAgain,
    Failed(CertificateError),
}

/// The outcome of a draw after `rejected` draws were out of range: a
/// failed draw fails with its text; a valid scalar becomes the issuer; an
/// invalid one is drawn again, unless it was the last of
/// [`ISSUER_KEY_DRAWS`] draws.
pub fn after_issuer_draw(rejected: usize, draw: Result<Vec<u8>, String>) -> (r: IssuerDraw)
    requires
        rejected < ISSUER_KEY_DRAWS,
        draw matches Ok(scalar) ==> scalar@.len() == 32,
    ensures
        match draw {
            Err(detail) => r matches IssuerDraw::Failed(e) && e@ == (CertificateFault::Randomness {
                detail: detail@,
            }),
            Ok(scalar) => if valid_issuer_scalar(scalar@) {
                r matches IssuerDraw::Issued(issuer) && issuer@ == scalar@
            } else if rejected + 1 < ISSUER_KEY_DRAWS {
                r is DrawAgain
            } else {
                r matches IssuerDraw::Failed(e) && e@ == CertificateFault::NoValidIssuerKey
            },
        },
{
    match draw {
        Err(detail) => IssuerDraw::Failed(CertificateError::Randomness { detail }),
        Ok(scalar) => match issuer_from_draw(scalar) {
            Some(issuer) => IssuerDraw::Issued(issuer),
            None => if rejected + 1 < ISSUER_KEY_DRAWS {
                IssuerDraw::DrawAgain
            } else {
                IssuerDraw::Failed(CertificateError::NoValidIssuerKey)
            },
        },
    }
}

/// Fills `len` bytes with `RngCore::try_fill_bytes` of the operating
/// system's generator; a failure is reported by its text. Trusted: on
/// success there are `len` bytes; their values are chance.
#[verifier::external_body]
pub(crate) fn random_bytes(len: usize) -> (r: Result<Vec<u8>, String>)
    ensures
        r matches Ok(bytes) ==> bytes@.len() == len,
{
    let mut bytes = vec![0u8; len];
    match p256::elliptic_curve::rand_core::OsRng.try_fill_bytes(&mut bytes) {
        Ok(()) => Ok(bytes),
        Err(error) => Err(error.to_string()),
    }
}

/// Whether `p256::ecdsa::SigningKey::from_slice` accepts the 32 big-endian
/// bytes `scalar` as a secret key. Trusted: it accepts exactly a scalar from
/// 1 below the group order.
#[verifier::external_body]
pub(crate) fn scalar_accepted(scalar: &[u8]) -> (r: bool)
    requires
        scalar@.len() == 32,
    ensures
        r == (1 <= big_endian_value(scalar@) < p256_order()),
{
    p256::ecdsa::SigningKey::from_slice(scalar).is_ok()
}

/// Builds a leaf certificate signed by `issuer` and returns its DER: the
/// signing key by `SigningKey::from_slice` of the issuer's scalar, the names
/// by `RdnSequence::from_str`, `SerialNumber::new`, `Validity::from_now`,
/// the subject key by `SubjectPublicKeyInfoOwned::from_der`, then
/// `CertificateBuilder::new` with `Profile::Leaf`, `Builder::build` with a
/// DER ECDSA signature, and `Encode::to_der`. Trusted: what it returns is
/// such a certificate, for exactly these inputs; the bound on the lifetime
/// keeps the end time within what `SystemTime` adds without panic.
#[verifier::external_body]
pub(crate) fn sign_leaf_certificate(
    issuer: &SigningIssuer,
    issuer_name: &str,
    subject_name: &str,
    serial: &[u8],
    lifetime_secs: u64,
    key_agreement: bool,
    key_encipherment: bool,
    subject_key: &[u8],
) -> (r: Result<Vec<u8>, x509_cert::builder::Error>)
    requires
        lifetime_secs <= 3153600000,
    ensures
        r matches Ok(cert) ==> issued_leaf_certificate(
            cert@,
            issuer@,
            issuer_name@,
            subject_name@,
            serial@,
            lifetime_secs as nat,
            key_agreement,
            key_encipherment,
            subject_key@,
        ),
{
    let profile = x509_cert::builder::Profile::Leaf {
        issuer: issuer_name.parse()?,
        enable_key_agreement: key_agreement,
        enable_key_encipherment: key_encipherment,
    };
    let serial = x509_cert::serial_number::SerialNumber::new(serial)?;
    let validity = x509_cert::time::Validity::from_now(std::time::Duration::from_secs(lifetime_secs))?;
    let subject_key = x509_cert::spki::SubjectPublicKeyInfoOwned::from_der(subject_key)?;
    let key = p256::ecdsa::SigningKey::from_slice(issuer.scalar.as_slice())?;
    let builder = x509_cert::builder::CertificateBuilder::new(
        profile, serial, validity, subject_name.parse()?, subject_key, &key)?;
    Ok(builder.build::<p256::ecdsa::DerSignature>()?.to_der()?)
}

/// The text of a certificate-building failure, by its `Display`.
#[verifier::external_body]
pub(crate) fn issuance_failure_text(error: &x509_cert::builder::Error) -> (r: String) {
    error.to_string()
}

/// A random serial number made positive and nonzero: the top bit of the
/// first byte is cleared and its low bit set.
pub fn positive_serial(serial: Vec<u8>) -> (r: Vec<u8>)
    requires
        serial@.len() == 16,
    ensures
        r@.len() == 16,
        r@[0] == (serial@[0] & 0x7f) | 1,
        r@[0] < 128,
        r@[0] % 2 == 1,
        forall|i: int| 1 <= i < 16 ==> r@[i] == serial@[i],
{
    let mut serial = serial;
    let first = serial[0];
    proof {
        lemma_serial_first_byte_positive(first);
    }
    serial.set(0, (first & 0x7f) | 1);
    serial
}

/// The first byte of a serial from [`positive_serial`] has its top bit
/// clear and its low bit set, so the serial read as a signed big-endian
/// integer is positive and nonzero.
pub proof fn lemma_serial_first_byte_positive(first: u8)
    ensures
        ((first & 0x7f) | 1) < 128,
        ((first & 0x7f) | 1) % 2 == 1,
{
    assert(((first & 0x7f) | 1) < 128 && ((first & 0x7f) | 1) % 2 == 1) by (bit_vector);
}

/// The serial number made of 16 drawn bytes: the draw with its first byte's
/// top bit cleared and low bit set.
pub open spec fn serial_of_draw(drawn: Seq<u8>) -> Seq<u8> {
    drawn.update(0, (drawn[0] & 0x7f) | 1)
}

/// A serial keeps the drawn bytes: all but the first as they were, the
/// first with only its top bit cleared and its low bit set; so it is an
/// issued serial, and two draws that differ past their first byte give
/// different serials.
pub proof fn lemma_serial_keeps_the_draw(drawn: Seq<u8>, other: Seq<u8>)
    requires
        drawn.len() == 16,
        other.len() == 16,
    ensures
        serial_of_draw(drawn).len() == 16,
        serial_of_draw(drawn)[0] == (drawn[0] & 0x7f) | 1,
        forall|i: int| 1 <= i < 16 ==> #[trigger] serial_of_draw(drawn)[i] == drawn[i],
        issued_serial(serial_of_draw(drawn)),
        (exists|i: int| 1 <= i < 16 && #[trigger] drawn[i] != other[i]) ==> serial_of_draw(drawn)
            != serial_of_draw(other),
{
    lemma_serial_first_byte_positive(drawn[0]);
    if exists|i: int| 1 <= i < 16 && #[trigger] drawn[i] != other[i] {
        let i = choose|i: int| 1 <= i < 16 && #[trigger] drawn[i] != other[i];
        assert(serial_of_draw(drawn)[i] != serial_of_draw(other)[i]);
    }
}

/// Issues a leaf certificate for the subject key `subject_key` (a
/// SubjectPublicKeyInfo in DER), signed by `issuer`, from the serial drawn
/// as `drawn`: a failed draw fails with its text; otherwise the certificate
/// carries [`serial_of_draw`] of the drawn bytes, this library's names, a
/// year's lifetime from now, and neither key agreement nor key
/// encipherment. The result is its DER.
pub fn certificate_from_draw(
    issuer: &SigningIssuer,
    subject_key: &[u8],
    drawn: Result<Vec<u8>, String>,
) -> (r: Result<Vec<u8>, CertificateError>)
    requires
        drawn matches Ok(bytes) ==> bytes@.len() == 16,
    ensures
        drawn matches Err(detail) ==> (r matches Err(e) && e@ == (CertificateFault::Randomness {
            detail: detail@,
        })),
        drawn matches Ok(bytes) ==> (r matches Ok(cert) ==> issued_leaf_certificate(
            cert@,
            issuer@,
            issuer_name_text(),
            subject_name_text(),
            serial_of_draw(bytes@),
            CERTIFICATE_LIFETIME_SECS as nat,
            false,
            false,
            subject_key@,
        )),
        drawn matches Ok(bytes) ==> (r matches Err(e) ==> e@ is Issuance),
{
    let serial = match drawn {
        Ok(bytes) => {
            let serial = positive_serial(bytes);
            assert(serial@ =~= serial_of_draw(drawn->Ok_0@));
            serial
        },
        Err(detail) => {
            return Err(CertificateError::Randomness { detail });
        },
    };
    match sign_leaf_certificate(
        issuer,
        "CN=jwksproxy experimental issuer",
        "CN=Kubernetes service account signing key",
        serial.as_slice(),
        CERTIFICATE_LIFETIME_SECS,
        false,
        false,
        subject_key,
    ) {
        Ok(cert) => Ok(cert),
        Err(error) => Err(CertificateError::Issuance { detail: issuance_failure_text(&error) }),
    }
}

/// Issues a leaf certificate for the subject key `subject_key` (a
/// SubjectPublicKeyInfo in DER), signed by `issuer`, with this library's
/// names, a serial drawn fresh from the random source and made positive, a
/// year's lifetime from now, and neither key agreement nor key
/// encipherment; the result is its DER.
pub fn issue_certificate(issuer: &SigningIssuer, subject_key: &[u8]) -> (r: Result<
    Vec<u8>,
    CertificateError,
>)
    ensures
        r matches Ok(cert) ==> library_certificate(cert@, issuer@, subject_key@),
        r matches Err(e) ==> (e@ is Randomness || e@ is Issuance),
{
    let drawn = random_bytes(16);
    let ghost draw = drawn;
    let r = certificate_from_draw(issuer, subject_key, drawn);
    proof {
        if r is Ok {
            let bytes = draw->Ok_0@;
            lemma_serial_keeps_the_draw(bytes, bytes);
            assert(issued_leaf_certificate(
                r->Ok_0@,
                issuer@,
                issuer_name_text(),
                subject_name_text(),
                serial_of_draw(bytes),
                CERTIFICATE_LIFETIME_SECS as nat,
                false,
                false,
                subject_key@,
            ));
        }
    }
    r
}

/// Sets member `x5c` of entry `index` of the `keys` array to the chain
/// holding the certificate `der` alone, as standard base64 text; returns
/// whether the entry is an object, as only an object gets it. No other entry
/// and no top-level member besides `keys` changes.
pub fn attach_certificate_der(document: &mut serde_json::Value, index: usize, der: &[u8]) -> (attached: bool)
    requires
        document_keys(*old(document)) matches Some(keys) && index < keys.len(),
    ensures
        attached == document_keys(*old(document)).unwrap()[index as int] is Some,
        attached ==> document_keys(*final(document)) == Some(
            document_keys(*old(document)).unwrap().update(
                index as int,
                Some(
                    document_keys(*old(document)).unwrap()[index as int].unwrap().insert(
                        "x5c"@,
                        (None, single_string_array_json(base64_encode(der@, false, true))),
                    ),
                ),
            ),
        ),
        attached ==> members_besides_keys(document_model(*final(document)).0)
            == members_besides_keys(document_model(*old(document)).0),
        !attached ==> *final(document) == *old(document),
        json_text_model(serialized_document(*old(document))) == Some(document_model(*old(document)))
            ==> json_text_model(serialized_document(*final(document))) == Some(
            document_model(*final(document)),
        ),
{
    let encoded = encode_base64(der);
    proof {
        lemma_base64_plain(der@);
    }
    attach_certificate(document, index, encoded)
}

/// The members of entry `index` that its public key is built from.
fn key_fields(document: &serde_json::Value, index: usize) -> (jwk: JwkFields)
    requires
        document_keys(*document) matches Some(keys) && index < keys.len(),
    ensures
        jwk@ == entry_text(document_keys(*document).unwrap()[index as int]),
{
    JwkFields {
        kty: key_member_text(document, index, "kty"),
        crv: key_member_text(document, index, "crv"),
        n: key_member_text(document, index, "n"),
        e: key_member_text(document, index, "e"),
        x: key_member_text(document, index, "x"),
        y: key_member_text(document, index, "y"),
    }
}

impl Certificates {
    /// Certificates are attached when `enabled`, signed by an issuer key
    /// drawn at random; otherwise key sets pass through untouched. A drawn
    /// scalar that is no valid P-256 key is drawn again, up to
    /// [`ISSUER_KEY_DRAWS`] times; each draw is out of range with a
    /// probability below 2^-32. A failure of the random source is reported
    /// as `Randomness`; running out of draws as `NoValidIssuerKey`.
    pub fn new(enabled: bool) -> (r: Result<Certificates, CertificateError>)
        ensures
            !enabled ==> (r matches Ok(c) && c is Disabled),
            enabled ==> (r matches Ok(Certificates::EphemeralIssuer(issuer)) && valid_issuer_scalar(
                issuer@,
            )) || (r matches Err(e) && (e@ is Randomness || e@ is NoValidIssuerKey)),
    {
        if !enabled {
            return Ok(Certificates::Disabled);
        }
        let mut rejected: usize = 0;
        loop
            invariant
                enabled,
                rejected < ISSUER_KEY_DRAWS,
            decreases ISSUER_KEY_DRAWS - rejected,
        {
            match after_issuer_draw(rejected, random_bytes(32)) {
                IssuerDraw::Issued(issuer) => {
                    return Ok(Certificates::EphemeralIssuer(issuer));
                },
                IssuerDraw::DrawAgain => {
                    rejected = rejected + 1;
                },
                IssuerDraw::Failed(e) => {
                    return Err(e);
                },
            }
        }
    }

    /// Gives every key of a JSON Web Key Set that has no `x5c` member a
    /// certificate for its public key. When disabled, `body` comes back as it
    /// is.
    pub fn transform(&self, body: &[u8]) -> (r: Result<Vec<u8>, CertificateError>)
        ensures
            self is Disabled ==> (r matches Ok(out) && out@ == body@),
            self matches Certificates::EphemeralIssuer(issuer) ==> transform_outcome(
                body@,
                issuer@,
                outcome_of(r),
            ),
    {
        let issuer = match self {
            Certificates::Disabled => {
                return Ok(slice_to_vec(body));
            },
            Certificates::EphemeralIssuer(issuer) => issuer,
        };
        let mut document = match parse_document(body) {
            Ok(document) => document,
            Err(detail) => {
                return Err(CertificateError::InvalidJson { detail });
            },
        };
        let ghost model = document_model(document);
        let count = match key_count(&document) {
            Some(count) => count,
            None => {
                return Err(CertificateError::MissingKeysArray);
            },
        };
        let ghost keys = document_keys(document).unwrap();
        let mut i: usize = 0;
        while i < count
            invariant
                *self == Certificates::EphemeralIssuer(*issuer),
                json_text_model(body@) == Some(model),
                model.1 == Some(keys),
                count == keys.len(),
                i <= count,
                document_keys(document) matches Some(current) && current.len() == keys.len()
                    && (forall|j: int| 0 <= j < i ==> #[trigger] certified_entry(issuer@, keys[j], current[j]))
                    && (forall|j: int| i <= j < keys.len() ==> #[trigger] current[j] == keys[j]),
                members_besides_keys(document_model(document).0) == members_besides_keys(model.0),
                json_text_model(serialized_document(document)) == Some(document_model(document)),
                forall|j: int| 0 <= j < i ==> #[trigger] fault_at(keys, j) is None,
            decreases count - i,
        {
            let ghost current = document_keys(document).unwrap();
            assert(current[i as int] == keys[i as int]);
            if key_has_member(&document, i, "x5c") {
                assert(certified_entry(issuer@, keys[i as int], current[i as int]));
            } else {
                let jwk = key_fields(&document, i);
                let subject_key = match public_key(&jwk) {
                    Ok(subject_key) => subject_key,
                    Err(e) => {
                        proof {
                            assert(fault_at(keys, i as int) == Some(e@));
                            assert(first_fault_is(keys, i as int, e@));
                            assert forall|k: int, f: KeyFault| #[trigger]
                                first_fault_is(keys, k, f) implies k == i && f == e@ by {
                                if k > i {
                                    assert(fault_at(keys, i as int) is None);
                                } else if k < i {
                                    assert(fault_at(keys, k) is None);
                                }
                            }
                        }
                        let r: Result<Vec<u8>, CertificateError> = Err(
                            CertificateError::PublicKey(e),
                        );
                        assert(transform_outcome(body@, issuer@, outcome_of(r)));
                        return r;
                    },
                };
                assert(fault_at(keys, i as int) is None);
                assert(issuance_reached(keys, i as int));
                let der = match issue_certificate(issuer, subject_key.as_slice()) {
                    Ok(der) => der,
                    Err(e) => {
                        proof {
                            assert forall|k: int, f: KeyFault| #[trigger]
                                first_fault_is(keys, k, f) implies (exists|j: int|
                                j < k && issuance_reached(keys, j)) by {
                                if k <= i {
                                    assert(fault_at(keys, k) is None);
                                }
                                assert(i < k && issuance_reached(keys, i as int));
                            }
                        }
                        let r: Result<Vec<u8>, CertificateError> = Err(e);
                        assert(transform_outcome(body@, issuer@, outcome_of(r)));
                        return r;
                    },
                };
                assert(keys[i as int] is Some);
                let attached = attach_certificate_der(&mut document, i, der.as_slice());
                if !attached {
                    return Err(CertificateError::NotAnObject);
                }
                proof {
                    let after = document_keys(document).unwrap();
                    assert(library_certificate(der@, issuer@, spki_encoding(entry_text(keys[i as int]))));
                    assert(certified_entry(issuer@, keys[i as int], after[i as int]));
                    assert forall|j: int| 0 <= j < i + 1 implies #[trigger] certified_entry(
                        issuer@,
                        keys[j],
                        after[j],
                    ) by {
                        if j < i {
                            assert(after[j] == current[j]);
                        }
                    }
                }
            }
            i = i + 1;
        }
        assert(keys_certifiable(keys));
        match serialize_document(&document) {
            Ok(out) => {
                let ghost after = document_keys(document).unwrap();
                assert(certified_keys(issuer@, keys, after));
                assert(certified_output(issuer@, model, keys, out@));
                Ok(out)
            },
            Err(detail) => Err(CertificateError::Serialization { detail }),
        }
    }
}

} // verus!
