//! The public key of a JSON Web Key: which members each key type needs, the
//! curves that are supported, and the SubjectPublicKeyInfo built from them.

use vstd::prelude::*;
use vstd::string::StringExecFns;
use vstd::string::StrSliceExecFns;
use vstd::arithmetic::power2::pow2;
use p256::pkcs8::EncodePublicKey;
use crate::encoding::base64url_decoding;
use crate::encoding::base64url_error_text;
use crate::encoding::decode_url_safe;
use crate::text::same_text;

verus! {

/// The string members of a JSON Web Key that its public key is built from.
pub struct JwkFields {
    pub kty: Option<String>,
    pub crv: Option<String>,
    pub n: Option<String>,
    pub e: Option<String>,
    pub x: Option<String>,
    pub y: Option<String>,
}

/// The spec view of [`JwkFields`].
pub struct JwkText {
    pub kty: Option<Seq<char>>,
    pub crv: Option<Seq<char>>,
    pub n: Option<Seq<char>>,
    pub e: Option<Seq<char>>,
    pub x: Option<Seq<char>>,
    pub y: Option<Seq<char>>,
}

pub open spec fn text_of(s: Option<String>) -> Option<Seq<char>> {
    match s {
        Some(s) => Some(s@),
        None => None,
    }
}

impl View for JwkFields {
    type V = JwkText;

    open spec fn view(&self) -> JwkText {
        JwkText {
            kty: text_of(self.kty),
            crv: text_of(self.crv),
            n: text_of(self.n),
            e: text_of(self.e),
            x: text_of(self.x),
            y: text_of(self.y),
        }
    }
}

/// Why no public key is built from a JSON Web Key; the spec view of
/// [`PublicKeyError`].
pub enum KeyFault {
    MissingField { name: Seq<char> },
    UnsupportedKeyType { kty: Seq<char> },
    UnsupportedCurve { crv: Seq<char> },
    InvalidBase64 { name: Seq<char>, detail: Seq<char> },
    InvalidCoordinateLength { crv: Seq<char> },
    RsaKeyRejected { detail: Seq<char> },
    EcPointRejected { detail: Seq<char> },
}

/// Why no public key is built from a JSON Web Key.
#[derive(Debug)]
pub enum PublicKeyError {
    MissingField { name: String },
    UnsupportedKeyType { kty: String },
    UnsupportedCurve { crv: String },
    InvalidBase64 { name: String, detail: String },
    InvalidCoordinateLength { crv: String },
    RsaKeyRejected { detail: String },
    EcPointRejected { detail: String },
}

impl View for PublicKeyError {
    type V = KeyFault;

    open spec fn view(&self) -> KeyFault {
        match self {
            PublicKeyError::MissingField { name } => KeyFault::MissingField { name: name@ },
            PublicKeyError::UnsupportedKeyType { kty } => KeyFault::UnsupportedKeyType { kty: kty@ },
            PublicKeyError::UnsupportedCurve { crv } => KeyFault::UnsupportedCurve { crv: crv@ },
            PublicKeyError::InvalidBase64 { name, detail } => KeyFault::InvalidBase64 {
                name: name@,
                detail: detail@,
            },
            PublicKeyError::InvalidCoordinateLength { crv } => KeyFault::InvalidCoordinateLength {
                crv: crv@,
            },
            PublicKeyError::RsaKeyRejected { detail } => KeyFault::RsaKeyRejected {
                detail: detail@,
            },
            PublicKeyError::EcPointRejected { detail } => KeyFault::EcPointRejected {
                detail: detail@,
            },
        }
    }
}

/// The text a key fault is reported with.
pub open spec fn key_fault_message(fault: KeyFault) -> Seq<char> {
    match fault {
        KeyFault::MissingField { name } => "missing JWK string field "@ + name,
        KeyFault::UnsupportedKeyType { kty } => "unsupported JWK key type "@ + kty,
        KeyFault::UnsupportedCurve { crv } => "unsupported JWK curve "@ + crv,
        KeyFault::InvalidBase64 { name, detail } => detail,
        KeyFault::InvalidCoordinateLength { crv } => "invalid coordinate length for "@ + crv,
        KeyFault::RsaKeyRejected { detail } => detail,
        KeyFault::EcPointRejected { detail } => detail,
    }
}

impl PublicKeyError {
    /// The text this fault is reported with.
    pub fn message(&self) -> (m: String)
        ensures
            m@ == key_fault_message(self@),
    {
        match self {
            PublicKeyError::MissingField { name } => {
                String::from_str("missing JWK string field ").concat(name.as_str())
            },
            PublicKeyError::UnsupportedKeyType { kty } => {
                String::from_str("unsupported JWK key type ").concat(kty.as_str())
            },
            PublicKeyError::UnsupportedCurve { crv } => {
                String::from_str("unsupported JWK curve ").concat(crv.as_str())
            },
            PublicKeyError::InvalidBase64 { detail, .. } => String::from_str(detail.as_str()),
            PublicKeyError::InvalidCoordinateLength { crv } => {
                String::from_str("invalid coordinate length for ").concat(crv.as_str())
            },
            PublicKeyError::RsaKeyRejected { detail } => String::from_str(detail.as_str()),
            PublicKeyError::EcPointRejected { detail } => String::from_str(detail.as_str()),
        }
    }
}

/// The unsigned integer that `bytes` write, most significant byte first.
pub open spec fn big_endian_value(bytes: Seq<u8>) -> nat
    decreases bytes.len(),
{
    if bytes.len() == 0 {
        0
    } else {
        big_endian_value(bytes.drop_last()) * 256 + bytes.last() as nat
    }
}

/// Why `rsa::RsaPublicKey::new` refuses the modulus `n` and exponent `e`,
/// by the text of its error, in the order it checks: a modulus of more than
/// 4096 bits, an exponent that does not fit in 64 bits, an even modulus or
/// one not above the exponent, an even exponent, an exponent below 2 or
/// above 2^33 - 1. `None` when it accepts them.
pub open spec fn rsa_rejection(n: nat, e: nat) -> Option<Seq<char>> {
    if n >= pow2(4096) {
        Some("modulus too large"@)
    } else if e >= pow2(64) {
        Some("public exponent too large"@)
    } else if e >= n || n % 2 == 0 {
        Some("invalid modulus"@)
    } else if e % 2 == 0 {
        Some("invalid exponent"@)
    } else if e < 2 {
        Some("public exponent too small"@)
    } else if e > 0x1_ffff_ffff {
        Some("public exponent too large"@)
    } else {
        None
    }
}

/// The text `elliptic_curve::Error` displays: it has no other.
pub open spec fn ec_rejection_text() -> Seq<char> {
    "crypto error"@
}

pub open spec fn p256_prime() -> int {
    0xffffffff00000001000000000000000000000000ffffffffffffffffffffffffint
}

pub open spec fn p256_b() -> int {
    0x5ac635d8aa3a93e7b3ebbd55769886bc651d06b0cc53b0f63bce3c3e27d2604bint
}

pub open spec fn p384_prime() -> int {
    0xfffffffffffffffffffffffffffffffffffffffffffffffffffffffffffffffeffffffff0000000000000000ffffffffint
}

pub open spec fn p384_b() -> int {
    0xb3312fa7e23ee7e4988e056be3f82d19181d9c6efe8141120314088f5013875ac656398d8a2ed19d2a85c8edd3ec2aefint
}

pub open spec fn p521_prime() -> int {
    0x1ffffffffffffffffffffffffffffffffffffffffffffffffffffffffffffffffffffffffffffffffffffffffffffffffffffffffffffffffffffffffffffffffffint
}

pub open spec fn p521_b() -> int {
    0x51953eb9618e1c9a1f929a21a0b68540eea2da725b99b315f3b8b489918ef109e156193951ec7e937b1652c0bd3bb1bf073573df883d2c34f1ef451fd46b503f00int
}

/// Whether `(x, y)` lies on the curve y^2 = x^3 - 3x + b over the integers
/// modulo the prime `p`, with both coordinates reduced.
pub open spec fn on_curve(p: int, b: int, x: int, y: int) -> bool {
    &&& x < p
    &&& y < p
    &&& (y * y) % p == (x * x * x - 3 * x + b) % p
}

/// Whether an uncompressed SEC1 point `0x04 || x || y` with coordinates of
/// `size` bytes lies on the curve of prime `p` and coefficient `b`.
pub open spec fn sec1_point_on_curve(p: int, b: int, size: int, point: Seq<u8>) -> bool {
    on_curve(
        p,
        b,
        big_endian_value(point.subrange(1, 1 + size)) as int,
        big_endian_value(point.subrange(1 + size, 1 + 2 * size)) as int,
    )
}

/// The coordinate size in bytes of each supported curve.
pub open spec fn curve_size(crv: Seq<char>) -> Option<nat> {
    if crv == "P-256"@ {
        Some(32)
    } else if crv == "P-384"@ {
        Some(48)
    } else if crv == "P-521"@ {
        Some(66)
    } else {
        None
    }
}

/// Whether the point `0x04 || x || y` is a public key on the curve `crv`.
pub open spec fn curve_accepts_point(crv: Seq<char>, point: Seq<u8>) -> bool {
    if crv == "P-256"@ {
        sec1_point_on_curve(p256_prime(), p256_b(), 32, point)
    } else if crv == "P-384"@ {
        sec1_point_on_curve(p384_prime(), p384_b(), 48, point)
    } else {
        sec1_point_on_curve(p521_prime(), p521_b(), 66, point)
    }
}

/// The bytes a base64url member decodes to, or why it does not.
pub open spec fn decoded_member(text: Option<Seq<char>>, name: Seq<char>) -> Result<
    Seq<u8>,
    KeyFault,
> {
    match text {
        None => Err(KeyFault::MissingField { name }),
        Some(t) => match base64url_decoding(t) {
            None => Err(KeyFault::InvalidBase64 { name, detail: base64url_error_text(t) }),
            Some(bytes) => Ok(bytes),
        },
    }
}

pub open spec fn rsa_fault(k: JwkText) -> Option<KeyFault> {
    match decoded_member(k.n, "n"@) {
        Err(f) => Some(f),
        Ok(n) => match decoded_member(k.e, "e"@) {
            Err(f) => Some(f),
            Ok(e) => match rsa_rejection(big_endian_value(n), big_endian_value(e)) {
                None => None,
                Some(detail) => Some(KeyFault::RsaKeyRejected { detail }),
            },
        },
    }
}

pub open spec fn ec_fault(k: JwkText) -> Option<KeyFault> {
    match k.crv {
        None => Some(KeyFault::MissingField { name: "crv"@ }),
        Some(crv) => match curve_size(crv) {
            None => Some(KeyFault::UnsupportedCurve { crv }),
            Some(size) => match decoded_member(k.x, "x"@) {
                Err(f) => Some(f),
                Ok(x) => match decoded_member(k.y, "y"@) {
                    Err(f) => Some(f),
                    Ok(y) => if x.len() != size || y.len() != size {
                        Some(KeyFault::InvalidCoordinateLength { crv })
                    } else if curve_accepts_point(crv, seq![4u8] + x + y) {
                        None
                    } else {
                        Some(KeyFault::EcPointRejected { detail: ec_rejection_text() })
                    },
                },
            },
        },
    }
}

/// The first reason, in the order the members are read, why no public key
/// can be built from a key; `None` when the key material is acceptable.
pub open spec fn key_fault(k: JwkText) -> Option<KeyFault> {
    match k.kty {
        None => Some(KeyFault::MissingField { name: "kty"@ }),
        Some(kty) => if kty == "RSA"@ {
            rsa_fault(k)
        } else if kty == "EC"@ {
            ec_fault(k)
        } else {
            Some(KeyFault::UnsupportedKeyType { kty })
        },
    }
}

/// The DER SubjectPublicKeyInfo that `EncodePublicKey::to_public_key_der`
/// writes for the RSA key of modulus `n` and exponent `e`.
pub uninterp spec fn rsa_spki_encoding(n: nat, e: nat) -> Seq<u8>;

/// The DER SubjectPublicKeyInfo that `EncodePublicKey::to_public_key_der`
/// writes for the P-256 key of the uncompressed SEC1 point `point`.
pub uninterp spec fn p256_spki_encoding(point: Seq<u8>) -> Seq<u8>;

/// As [`p256_spki_encoding`], for P-384.
pub uninterp spec fn p384_spki_encoding(point: Seq<u8>) -> Seq<u8>;

/// As [`p256_spki_encoding`], for P-521.
pub uninterp spec fn p521_spki_encoding(point: Seq<u8>) -> Seq<u8>;

/// Builds the key with `rsa::RsaPublicKey::new` from the big-endian modulus
/// and exponent and encodes it with `EncodePublicKey::to_public_key_der`,
/// so that the result is a function of the two numbers; a refusal is
/// reported by the error's text. Trusted: the key is refused exactly as
/// [`rsa_rejection`] says, with that text, and the encoding of an accepted
/// key, bounded by the 4096-bit modulus, does not fail.
#[verifier::external_body]
pub(crate) fn rsa_public_key_der(n: &[u8], e: &[u8]) -> (r: Result<Vec<u8>, String>)
    ensures
        r is Ok <==> rsa_rejection(big_endian_value(n@), big_endian_value(e@)) is None,
        r matches Ok(der) ==> der@ == rsa_spki_encoding(big_endian_value(n@), big_endian_value(e@)),
        r matches Err(detail) ==> rsa_rejection(big_endian_value(n@), big_endian_value(e@)) == Some(
            detail@,
        ),
{
    let key = rsa::RsaPublicKey::new(rsa::BigUint::from_bytes_be(n), rsa::BigUint::from_bytes_be(e));
    match key {
        Ok(key) => match key.to_public_key_der() {
            Ok(document) => Ok(document.as_bytes().to_vec()),
            Err(error) => Err(error.to_string()),
        },
        Err(error) => Err(error.to_string()),
    }
}

/// Reads a P-256 point with `p256::PublicKey::from_sec1_bytes` and encodes
/// it with `EncodePublicKey::to_public_key_der`, so that the result is a
/// function of the point; a refusal is reported by the error's text.
/// Trusted: the point is accepted exactly when it is on the curve, the
/// encoding of an accepted point does not fail, and the refusal's text is
/// the one `elliptic_curve::Error` displays.
#[verifier::external_body]
pub(crate) fn p256_public_key_der(point: &[u8]) -> (r: Result<Vec<u8>, String>)
    requires
        point@.len() == 65,
        point@[0] == 4,
    ensures
        r is Ok <==> sec1_point_on_curve(p256_prime(), p256_b(), 32, point@),
        r matches Ok(der) ==> der@ == p256_spki_encoding(point@),
        r matches Err(detail) ==> detail@ == ec_rejection_text(),
{
    match p256::PublicKey::from_sec1_bytes(point) {
        Ok(key) => match key.to_public_key_der() {
            Ok(document) => Ok(document.as_bytes().to_vec()),
            Err(error) => Err(error.to_string()),
        },
        Err(error) => Err(error.to_string()),
    }
}

/// Reads a P-384 point with `p384::PublicKey::from_sec1_bytes` and encodes
/// it with `EncodePublicKey::to_public_key_der`, as for P-256.
#[verifier::external_body]
pub(crate) fn p384_public_key_der(point: &[u8]) -> (r: Result<Vec<u8>, String>)
    requires
        point@.len() == 97,
        point@[0] == 4,
    ensures
        r is Ok <==> sec1_point_on_curve(p384_prime(), p384_b(), 48, point@),
        r matches Ok(der) ==> der@ == p384_spki_encoding(point@),
        r matches Err(detail) ==> detail@ == ec_rejection_text(),
{
    match p384::PublicKey::from_sec1_bytes(point) {
        Ok(key) => match key.to_public_key_der() {
            Ok(document) => Ok(document.as_bytes().to_vec()),
            Err(error) => Err(error.to_string()),
        },
        Err(error) => Err(error.to_string()),
    }
}

/// Reads a P-521 point with `p521::PublicKey::from_sec1_bytes` and encodes
/// it with `EncodePublicKey::to_public_key_der`, as for P-256.
#[verifier::external_body]
pub(crate) fn p521_public_key_der(point: &[u8]) -> (r: Result<Vec<u8>, String>)
    requires
        point@.len() == 133,
        point@[0] == 4,
    ensures
        r is Ok <==> sec1_point_on_curve(p521_prime(), p521_b(), 66, point@),
        r matches Ok(der) ==> der@ == p521_spki_encoding(point@),
        r matches Err(detail) ==> detail@ == ec_rejection_text(),
{
    match p521::PublicKey::from_sec1_bytes(point) {
        Ok(key) => match key.to_public_key_der() {
            Ok(document) => Ok(document.as_bytes().to_vec()),
            Err(error) => Err(error.to_string()),
        },
        Err(error) => Err(error.to_string()),
    }
}

/// The SubjectPublicKeyInfo, in DER, that a key with acceptable material
/// gets: from `n` and `e` for `RSA`, from the point `0x04 || x || y` on the
/// curve `crv` for `EC`.
pub open spec fn spki_encoding(k: JwkText) -> Seq<u8> {
    if k.kty == Some("RSA"@) {
        rsa_spki_encoding(
            big_endian_value(base64url_decoding(k.n.unwrap()).unwrap()),
            big_endian_value(base64url_decoding(k.e.unwrap()).unwrap()),
        )
    } else {
        let crv = k.crv.unwrap();
        let point = seq![4u8] + base64url_decoding(k.x.unwrap()).unwrap() + base64url_decoding(
            k.y.unwrap(),
        ).unwrap();
        if crv == "P-256"@ {
            p256_spki_encoding(point)
        } else if crv == "P-384"@ {
            p384_spki_encoding(point)
        } else {
            p521_spki_encoding(point)
        }
    }
}

/// Two keys of the same type with the same key material (`n` and `e` for
/// `RSA`; `crv`, `x` and `y` for `EC`), whatever their other members, get
/// the same outcome: the same fault, or the same SubjectPublicKeyInfo.
pub proof fn lemma_outcome_depends_on_key_material(a: JwkText, b: JwkText)
    requires
        a.kty == b.kty,
        a.kty == Some("RSA"@) ==> a.n == b.n && a.e == b.e,
        a.kty == Some("EC"@) ==> a.crv == b.crv && a.x == b.x && a.y == b.y,
    ensures
        key_fault(a) == key_fault(b),
        key_fault(a) is None ==> spki_encoding(a) == spki_encoding(b),
{
    reveal_strlit("EC");
    reveal_strlit("RSA");
    assert("EC"@.len() == 2 && "RSA"@.len() == 3);
}

/// An RSA key whose `n` and `e` decode is refused only for the reasons
/// `rsa::RsaPublicKey::new` gives: it is accepted exactly when the modulus is
/// odd, below 2^4096 (up to 4096 bits) and above the exponent, and the
/// exponent is odd, from 3 to 2^33 - 1. The number of bytes that carry the
/// modulus plays no part.
pub proof fn lemma_rsa_key_accepted_exactly(k: JwkText, n: Seq<u8>, e: Seq<u8>)
    requires
        k.kty == Some("RSA"@),
        k.n matches Some(t) && base64url_decoding(t) == Some(n),
        k.e matches Some(t) && base64url_decoding(t) == Some(e),
    ensures
        key_fault(k) is None <==> {
            &&& big_endian_value(n) < pow2(4096)
            &&& big_endian_value(e) < big_endian_value(n)
            &&& big_endian_value(n) % 2 == 1
            &&& big_endian_value(e) % 2 == 1
            &&& 3 <= big_endian_value(e) <= 0x1_ffff_ffff
        },
        key_fault(k) is None ==> spki_encoding(k) == rsa_spki_encoding(
            big_endian_value(n),
            big_endian_value(e),
        ),
{
    vstd::arithmetic::power2::lemma2_to64();
}

/// An EC key on a supported curve whose `x` and `y` decode is refused only
/// when a coordinate has the wrong length for the curve (32 bytes for
/// P-256, 48 for P-384, 66 for P-521) or the point `0x04 || x || y` is not
/// on the curve.
pub proof fn lemma_ec_key_accepted_exactly(k: JwkText, x: Seq<u8>, y: Seq<u8>)
    requires
        k.kty == Some("EC"@),
        k.crv == Some("P-256"@) || k.crv == Some("P-384"@) || k.crv == Some("P-521"@),
        k.x matches Some(t) && base64url_decoding(t) == Some(x),
        k.y matches Some(t) && base64url_decoding(t) == Some(y),
    ensures
        k.crv == Some("P-256"@) ==> (key_fault(k) is None <==> x.len() == 32 && y.len() == 32
            && sec1_point_on_curve(p256_prime(), p256_b(), 32, seq![4u8] + x + y)),
        k.crv == Some("P-384"@) ==> (key_fault(k) is None <==> x.len() == 48 && y.len() == 48
            && sec1_point_on_curve(p384_prime(), p384_b(), 48, seq![4u8] + x + y)),
        k.crv == Some("P-521"@) ==> (key_fault(k) is None <==> x.len() == 66 && y.len() == 66
            && sec1_point_on_curve(p521_prime(), p521_b(), 66, seq![4u8] + x + y)),
{
    reveal_strlit("EC");
    reveal_strlit("RSA");
    reveal_strlit("P-256");
    reveal_strlit("P-384");
    reveal_strlit("P-521");
    assert("EC"@.len() == 2 && "RSA"@.len() == 3);
    assert("P-256"@[4] == '6' && "P-384"@[4] == '4' && "P-521"@[4] == '1');
}

/// The text of a string member, or the fault that it is missing.
pub fn field<'a>(value: &'a Option<String>, name: &str) -> (r: Result<&'a str, PublicKeyError>)
    ensures
        match r {
            Ok(text) => text_of(*value) == Some(text@),
            Err(e) => text_of(*value) is None && e@ == (KeyFault::MissingField { name: name@ }),
        },
{
    match value {
        Some(text) => Ok(text.as_str()),
        None => Err(PublicKeyError::MissingField { name: String::from_str(name) }),
    }
}

/// The bytes a base64url string member decodes to.
pub fn decode_field(value: &Option<String>, name: &str) -> (r: Result<Vec<u8>, PublicKeyError>)
    ensures
        match r {
            Ok(bytes) => decoded_member(text_of(*value), name@) == Ok::<Seq<u8>, KeyFault>(
                bytes@,
            ),
            Err(e) => decoded_member(text_of(*value), name@) == Err::<Seq<u8>, KeyFault>(e@),
        },
{
    let text = field(value, name)?;
    match decode_url_safe(text) {
        Ok(bytes) => Ok(bytes),
        Err(detail) => Err(PublicKeyError::InvalidBase64 { name: String::from_str(name), detail }),
    }
}

/// The coordinate size in bytes of a supported curve.
pub fn curve_coordinate_size(crv: &str) -> (r: Option<usize>)
    ensures
        match curve_size(crv@) {
            Some(size) => r == Some(size as usize),
            None => r is None,
        },
{
    if same_text(crv, "P-256") {
        Some(32)
    } else if same_text(crv, "P-384") {
        Some(48)
    } else if same_text(crv, "P-521") {
        Some(66)
    } else {
        None
    }
}

fn rsa_public_key_info(jwk: &JwkFields) -> (r: Result<Vec<u8>, PublicKeyError>)
    requires
        jwk@.kty == Some("RSA"@),
    ensures
        match rsa_fault(jwk@) {
            Some(f) => r matches Err(e) && e@ == f,
            None => r matches Ok(der) && der@ == spki_encoding(jwk@),
        },
{
    let n = decode_field(&jwk.n, "n")?;
    let e = decode_field(&jwk.e, "e")?;
    match rsa_public_key_der(n.as_slice(), e.as_slice()) {
        Ok(der) => Ok(der),
        Err(detail) => Err(PublicKeyError::RsaKeyRejected { detail }),
    }
}

fn ec_public_key_info(jwk: &JwkFields) -> (r: Result<Vec<u8>, PublicKeyError>)
    requires
        jwk@.kty == Some("EC"@),
    ensures
        match ec_fault(jwk@) {
            Some(f) => r matches Err(e) && e@ == f,
            None => r matches Ok(der) && der@ == spki_encoding(jwk@),
        },
{
    proof {
        reveal_strlit("EC");
        reveal_strlit("RSA");
        assert("EC"@.len() == 2 && "RSA"@.len() == 3);
        assert("EC"@ != "RSA"@);
    }
    let crv = field(&jwk.crv, "crv")?;
    let size = match curve_coordinate_size(crv) {
        Some(size) => size,
        None => {
            return Err(PublicKeyError::UnsupportedCurve { crv: String::from_str(crv) });
        },
    };
    let mut x = decode_field(&jwk.x, "x")?;
    let mut y = decode_field(&jwk.y, "y")?;
    if x.len() != size || y.len() != size {
        return Err(PublicKeyError::InvalidCoordinateLength { crv: String::from_str(crv) });
    }
    let ghost xs = x@;
    let ghost ys = y@;
    let mut point: Vec<u8> = Vec::new();
    point.push(4u8);
    point.append(&mut x);
    point.append(&mut y);
    assert(point@ =~= seq![4u8] + xs + ys);
    let der = if size == 32 {
        p256_public_key_der(point.as_slice())
    } else if size == 48 {
        p384_public_key_der(point.as_slice())
    } else {
        p521_public_key_der(point.as_slice())
    };
    match der {
        Ok(der) => Ok(der),
        Err(detail) => Err(PublicKeyError::EcPointRejected { detail }),
    }
}

/// The SubjectPublicKeyInfo, in DER, of a JSON Web Key of type `RSA` (from
/// `n` and `e`) or `EC` (from `crv`, `x` and `y`): the one [`spki_encoding`]
/// gives when the key material is acceptable, else the fault [`key_fault`]
/// reports.
pub fn public_key(jwk: &JwkFields) -> (r: Result<Vec<u8>, PublicKeyError>)
    ensures
        match key_fault(jwk@) {
            Some(f) => r matches Err(e) && e@ == f,
            None => r matches Ok(der) && der@ == spki_encoding(jwk@),
        },
{
    let kty = field(&jwk.kty, "kty")?;
    if same_text(kty, "RSA") {
        rsa_public_key_info(jwk)
    } else if same_text(kty, "EC") {
        ec_public_key_info(jwk)
    } else {
        Err(PublicKeyError::UnsupportedKeyType { kty: String::from_str(kty) })
    }
}

} // verus!
