use base64::engine::general_purpose::{STANDARD, URL_SAFE_NO_PAD};
use base64::Engine;
use jwksproxy::certificates::{
    after_issuer_draw, attach_certificate_der, issuer_from_draw, positive_serial, CertificateError, Certificates, IssuerDraw,
    ISSUER_KEY_DRAWS,
};
use jwksproxy::jwk::{public_key, JwkFields, PublicKeyError};
use jwksproxy::upstream::{served_key_set, FetchError};
use p256::ecdsa::signature::{Signer, Verifier};
use p256::ecdsa::{DerSignature, Signature, SigningKey, VerifyingKey};
use p256::elliptic_curve::rand_core::OsRng;
use p256::elliptic_curve::sec1::ToEncodedPoint;
use p256::pkcs8::{DecodePublicKey, EncodePublicKey};
use rsa::traits::PublicKeyParts;
use rsa::RsaPublicKey;
use serde_json::Value;
use x509_cert::der::{Decode, Encode};
use x509_cert::Certificate;

fn object(members: &[(&str, Value)]) -> Value {
    let mut map = serde_json::Map::new();
    for (name, value) in members {
        map.insert(name.to_string(), value.clone());
    }
    Value::Object(map)
}

fn text(value: &str) -> Value {
    Value::String(value.to_string())
}

fn key_set(keys: Vec<Value>) -> Value {
    object(&[("keys", Value::Array(keys))])
}

fn transform_certificate(document: &Value) -> (Certificates, Value, Certificate) {
    let certificates = Certificates::new(true).unwrap();
    let output: Value = serde_json::from_slice(
        &certificates.transform(&serde_json::to_vec(document).unwrap()).unwrap(),
    )
    .unwrap();
    let cert = Certificate::from_der(
        &STANDARD.decode(output["keys"][0]["x5c"][0].as_str().unwrap()).unwrap(),
    )
    .unwrap();
    (certificates, output, cert)
}

#[test]
fn certificate_verifies_original_ec_token_signature() {
    let signing_key = SigningKey::random(&mut OsRng);
    let point = signing_key.verifying_key().to_encoded_point(false);
    let document = object(&[
        (
            "keys",
            Value::Array(vec![object(&[
                ("kty", text("EC")),
                ("crv", text("P-256")),
                ("kid", text("original-key")),
                ("alg", text("ES256")),
                ("x", text(&URL_SAFE_NO_PAD.encode(point.x().unwrap()))),
                ("y", text(&URL_SAFE_NO_PAD.encode(point.y().unwrap()))),
            ])]),
        ),
        ("extra", Value::Bool(true)),
    ]);
    let (certificates, output, cert) = transform_certificate(&document);
    let certified = VerifyingKey::from_public_key_der(
        &cert.tbs_certificate.subject_public_key_info.to_der().unwrap(),
    )
    .unwrap();
    assert_eq!(&certified, signing_key.verifying_key());
    let Certificates::EphemeralIssuer(issuer) = certificates else {
        unreachable!()
    };
    let issuer_key = VerifyingKey::from_public_key_der(&issuer.public_key_der()).unwrap();
    issuer_key
        .verify(
            &cert.tbs_certificate.to_der().unwrap(),
            &DerSignature::from_bytes(cert.signature.as_bytes().unwrap()).unwrap(),
        )
        .unwrap();
    assert_ne!(certified, issuer_key);
    let signature: Signature = signing_key.sign(b"header.payload");
    certified.verify(b"header.payload", &signature).unwrap();
    assert!(certified.verify(b"modified.payload", &signature).is_err());
    let mut restored = output;
    restored["keys"][0].as_object_mut().unwrap().remove("x5c");
    assert_eq!(restored, document);
}

#[test]
fn preserves_disabled_bytes_and_existing_certificates() {
    let body = br#"{"keys": [{"x5c": ["existing"]}], "extra": 1}"#;
    assert_eq!(Certificates::new(false).unwrap().transform(body).unwrap(), body);
    let output: Value =
        serde_json::from_slice(&Certificates::new(true).unwrap().transform(body).unwrap()).unwrap();
    assert_eq!(output, serde_json::from_slice::<Value>(body).unwrap());
    assert!(Certificates::new(true).unwrap().transform(br#"{"keys":[{"kty":"EC"}]}"#).is_err());
}

#[test]
fn supports_rsa_public_keys() {
    // Fixed public key: this test exercises encoding, not RSA key generation.
    let public = RsaPublicKey::from_public_key_pem(
        "-----BEGIN PUBLIC KEY-----
MIIBIjANBgkqhkiG9w0BAQEFAAOCAQ8AMIIBCgKCAQEAvSR+XY9rMsRgj7yrz847
j5drDUKH5G7FrY5gXj9gUerAw4uUE00Zco901P12t5JMDB+J9jqNF/UtMP/sDf86
wBMV0qaEK3hR65ISP1H9lfeHQN/gHlKQrmOsnhRPd+sJ0ro+CPmX8TCMdTA3/jWT
MFImNh7FM0H7g+jSgkUjSg50+pNACKGXMGIHLFiNiLncSbBLww2Or79BwKSq+8tT
K4kTawX4BNn3oy+G1XNIFjOdcBd8BAS9IUMc9WMf/p5OsIMKosoz/ZbGyu3RdTu1
Zb34vge2J5VZONLvqHJIkgqmGPenj921fSPYWvncQJsE/lyg+icPFpVnVwIS6SMK
LQIDAQAB
-----END PUBLIC KEY-----
",
    )
    .unwrap();
    let document = key_set(vec![object(&[
        ("kty", text("RSA")),
        ("n", text(&URL_SAFE_NO_PAD.encode(public.n().to_bytes_be()))),
        ("e", text(&URL_SAFE_NO_PAD.encode(public.e().to_bytes_be()))),
    ])]);
    let (_, _, cert) = transform_certificate(&document);
    let certified = RsaPublicKey::from_public_key_der(
        &cert.tbs_certificate.subject_public_key_info.to_der().unwrap(),
    )
    .unwrap();
    assert_eq!(certified, public);
}

#[test]
fn supports_larger_ec_curves() {
    let p384 = p384::SecretKey::random(&mut OsRng).public_key();
    let p521 = p521::SecretKey::random(&mut OsRng).public_key();
    for (curve, point, expected) in [
        (
            "P-384",
            p384.to_encoded_point(false).as_bytes().to_vec(),
            p384.to_public_key_der().unwrap(),
        ),
        (
            "P-521",
            p521.to_encoded_point(false).as_bytes().to_vec(),
            p521.to_public_key_der().unwrap(),
        ),
    ] {
        let size = (point.len() - 1) / 2;
        let document = key_set(vec![object(&[
            ("kty", text("EC")),
            ("crv", text(curve)),
            ("x", text(&URL_SAFE_NO_PAD.encode(&point[1..1 + size]))),
            ("y", text(&URL_SAFE_NO_PAD.encode(&point[1 + size..]))),
        ])]);
        let (_, _, cert) = transform_certificate(&document);
        assert_eq!(
            cert.tbs_certificate.subject_public_key_info.to_der().unwrap(),
            expected.as_bytes()
        );
    }
}

#[test]
fn rejects_invalid_ec_points() {
    for size in [31, 32] {
        let document = key_set(vec![object(&[
            ("kty", text("EC")),
            ("crv", text("P-256")),
            ("x", text(&URL_SAFE_NO_PAD.encode(vec![0; size]))),
            ("y", text(&URL_SAFE_NO_PAD.encode(vec![0; size]))),
        ])]);
        let body = serde_json::to_vec(&document).unwrap();
        assert!(Certificates::new(true).unwrap().transform(&body).is_err());
    }
}

fn transform_error(body: &[u8]) -> CertificateError {
    Certificates::new(true).unwrap().transform(body).unwrap_err()
}

fn ec_key(curve: &str, x: &[u8], y: &[u8]) -> Value {
    object(&[
        ("kty", text("EC")),
        ("crv", text(curve)),
        ("x", text(&URL_SAFE_NO_PAD.encode(x))),
        ("y", text(&URL_SAFE_NO_PAD.encode(y))),
    ])
}

fn valid_p256_key() -> Value {
    let point = SigningKey::random(&mut OsRng).verifying_key().to_encoded_point(false);
    ec_key("P-256", point.x().unwrap(), point.y().unwrap())
}

#[test]
fn reports_document_faults() {
    assert!(matches!(transform_error(b"{not json"), CertificateError::InvalidJson { .. }));
    assert_eq!(
        transform_error(b"{not json").message(),
        serde_json::from_slice::<Value>(b"{not json").unwrap_err().to_string()
    );
    assert!(matches!(transform_error(br#"{"keys": 5}"#), CertificateError::MissingKeysArray));
    assert!(matches!(transform_error(br#"[1, 2]"#), CertificateError::MissingKeysArray));
    assert_eq!(
        transform_error(br#"{"other": []}"#).message(),
        "JWKS must contain a keys array"
    );
}

#[test]
fn reports_key_faults_with_their_messages() {
    let base64_refusal = URL_SAFE_NO_PAD.decode("a+b").unwrap_err().to_string();
    let rsa_refusal = RsaPublicKey::new(65537u32.into(), 2u32.into()).unwrap_err().to_string();
    let cases: [(Vec<u8>, &str); 9] = [
        (br#"{"keys": [7]}"#.to_vec(), "missing JWK string field kty"),
        (br#"{"keys": [{"kty": "OKP"}]}"#.to_vec(), "unsupported JWK key type OKP"),
        (br#"{"keys": [{"kty": 3}]}"#.to_vec(), "missing JWK string field kty"),
        (br#"{"keys": [{"kty": "EC"}]}"#.to_vec(), "missing JWK string field crv"),
        (br#"{"keys": [{"kty": "EC", "crv": "P-192"}]}"#.to_vec(), "unsupported JWK curve P-192"),
        (br#"{"keys": [{"kty": "EC", "crv": "P-256"}]}"#.to_vec(), "missing JWK string field x"),
        (
            br#"{"keys": [{"kty": "EC", "crv": "P-256", "x": "a+b", "y": "AA"}]}"#.to_vec(),
            &base64_refusal,
        ),
        (br#"{"keys": [{"kty": "RSA", "e": "AQAB"}]}"#.to_vec(), "missing JWK string field n"),
        (br#"{"keys": [{"kty": "RSA", "n": "AQAB", "e": "Ag"}]}"#.to_vec(), &rsa_refusal),
    ];
    for (body, detail) in cases {
        let error = transform_error(&body);
        assert_eq!(error.message(), "could not construct JWK public key");
        let CertificateError::PublicKey(fault) = error else {
            panic!("expected a key fault for {detail}")
        };
        assert_eq!(fault.message(), detail);
    }
    let document = key_set(vec![ec_key("P-256", &[0; 32], &[0; 32])]);
    assert!(matches!(
        transform_error(&serde_json::to_vec(&document).unwrap()),
        CertificateError::PublicKey(PublicKeyError::EcPointRejected { .. })
    ));
    let CertificateError::PublicKey(fault) = transform_error(&serde_json::to_vec(&document).unwrap())
    else {
        unreachable!()
    };
    assert_eq!(fault.message(), p256::elliptic_curve::Error.to_string());
    let document = key_set(vec![ec_key("P-384", &[0; 32], &[0; 32])]);
    assert!(matches!(
        transform_error(&serde_json::to_vec(&document).unwrap()),
        CertificateError::PublicKey(PublicKeyError::InvalidCoordinateLength { .. })
    ));
}

#[test]
fn reports_the_first_faulty_key() {
    let bad_curve = object(&[("kty", text("EC")), ("crv", text("P-192"))]);
    let bad_type = object(&[("kty", text("oct"))]);
    let document = key_set(vec![valid_p256_key(), bad_curve.clone(), bad_type.clone()]);
    assert!(matches!(
        transform_error(&serde_json::to_vec(&document).unwrap()),
        CertificateError::PublicKey(PublicKeyError::UnsupportedCurve { .. })
    ));
    let document = key_set(vec![bad_type, valid_p256_key(), bad_curve]);
    assert!(matches!(
        transform_error(&serde_json::to_vec(&document).unwrap()),
        CertificateError::PublicKey(PublicKeyError::UnsupportedKeyType { .. })
    ));
}

#[test]
fn faulty_keys_with_certificates_are_left_alone() {
    let mut with_chain = object(&[("kty", text("oct"))]);
    with_chain.as_object_mut().unwrap().insert("x5c".into(), Value::Array(vec![text("c")]));
    let document = key_set(vec![with_chain, valid_p256_key()]);
    let certificates = Certificates::new(true).unwrap();
    let output: Value = serde_json::from_slice(
        &certificates.transform(&serde_json::to_vec(&document).unwrap()).unwrap(),
    )
    .unwrap();
    assert_eq!(output["keys"][0], document["keys"][0]);
    assert!(output["keys"][1]["x5c"][0].is_string());
}

#[test]
fn second_transform_changes_nothing() {
    let document = key_set(vec![valid_p256_key(), valid_p256_key()]);
    let certificates = Certificates::new(true).unwrap();
    let once = certificates.transform(&serde_json::to_vec(&document).unwrap()).unwrap();
    let twice = certificates.transform(&once).unwrap();
    assert_eq!(
        serde_json::from_slice::<Value>(&once).unwrap(),
        serde_json::from_slice::<Value>(&twice).unwrap()
    );
}

#[test]
fn disabled_passes_any_bytes_through() {
    let body = b"\xff not json at all";
    assert_eq!(Certificates::new(false).unwrap().transform(body).unwrap(), body.to_vec());
    assert!(matches!(Certificates::new(false).unwrap(), Certificates::Disabled));
    assert!(matches!(Certificates::new(true).unwrap(), Certificates::EphemeralIssuer(_)));
}

#[test]
fn certificate_carries_names_serial_and_lifetime() {
    let document = key_set(vec![valid_p256_key()]);
    let (_, _, cert) = transform_certificate(&document);
    let tbs = &cert.tbs_certificate;
    assert_eq!(tbs.issuer.to_string(), "CN=jwksproxy experimental issuer");
    assert_eq!(tbs.subject.to_string(), "CN=Kubernetes service account signing key");
    let serial = tbs.serial_number.as_bytes();
    assert_eq!(serial.len(), 16);
    assert_eq!(serial[0] & 0x81, 0x01);
    let not_before = tbs.validity.not_before.to_unix_duration().as_secs();
    let not_after = tbs.validity.not_after.to_unix_duration().as_secs();
    assert_eq!(not_after - not_before, 365 * 24 * 60 * 60);
}

#[test]
fn serial_first_byte_is_positive_and_nonzero() {
    assert_eq!(positive_serial(vec![0xff; 16]), [vec![0x7f], vec![0xff; 15]].concat());
    assert_eq!(positive_serial(vec![0; 16]), [vec![1], vec![0; 15]].concat());
    assert_eq!(positive_serial(vec![0x80; 16])[0], 1);
    assert_eq!(positive_serial(vec![0x42; 16])[0], 0x43);
}

#[test]
fn builds_public_keys_directly() {
    let point = SigningKey::random(&mut OsRng).verifying_key().to_encoded_point(false);
    let jwk = JwkFields {
        kty: Some("EC".into()),
        crv: Some("P-256".into()),
        n: None,
        e: None,
        x: Some(URL_SAFE_NO_PAD.encode(point.x().unwrap())),
        y: Some(URL_SAFE_NO_PAD.encode(point.y().unwrap())),
    };
    let spki = public_key(&jwk).unwrap();
    let key = VerifyingKey::from_public_key_der(&spki).unwrap();
    assert_eq!(spki, key.to_public_key_der().unwrap().as_bytes());
    assert_eq!(key.to_encoded_point(false), point);
    let missing = JwkFields { kty: None, crv: None, n: None, e: None, x: None, y: None };
    assert_eq!(public_key(&missing).unwrap_err().message(), "missing JWK string field kty");
}

#[test]
fn same_key_material_gives_the_same_public_key() {
    let point = SigningKey::random(&mut OsRng).verifying_key().to_encoded_point(false);
    let x = URL_SAFE_NO_PAD.encode(point.x().unwrap());
    let y = URL_SAFE_NO_PAD.encode(point.y().unwrap());
    let ec = JwkFields {
        kty: Some("EC".into()),
        crv: Some("P-256".into()),
        n: None,
        e: None,
        x: Some(x.clone()),
        y: Some(y.clone()),
    };
    let ec_with_rsa_members = JwkFields {
        kty: Some("EC".into()),
        crv: Some("P-256".into()),
        n: Some("unused".into()),
        e: Some("AQAB".into()),
        x: Some(x),
        y: Some(y),
    };
    assert_eq!(public_key(&ec).unwrap(), public_key(&ec_with_rsa_members).unwrap());
}

#[test]
fn certificates_are_signed_by_the_issuer_of_the_transform() {
    let document = key_set(vec![valid_p256_key()]);
    let (certificates, _, cert) = transform_certificate(&document);
    let other = Certificates::new(true).unwrap();
    let (Certificates::EphemeralIssuer(issuer), Certificates::EphemeralIssuer(other)) =
        (&certificates, &other)
    else {
        unreachable!()
    };
    let tbs = cert.tbs_certificate.to_der().unwrap();
    let signature = DerSignature::from_bytes(cert.signature.as_bytes().unwrap()).unwrap();
    let issuer_key = VerifyingKey::from_public_key_der(&issuer.public_key_der()).unwrap();
    let other_key = VerifyingKey::from_public_key_der(&other.public_key_der()).unwrap();
    assert!(issuer_key.verify(&tbs, &signature).is_ok());
    assert!(other_key.verify(&tbs, &signature).is_err());
}

#[test]
fn fetch_serves_the_certified_body_only_on_ok() {
    let body = serde_json::to_vec(&key_set(vec![valid_p256_key()])).unwrap();
    let disabled = Certificates::new(false).unwrap();
    match served_key_set(&disabled, 404, &body) {
        Err(FetchError::Upstream(error)) => {
            assert_eq!(error.message(), "cluster JWKS endpoint returned HTTP 404")
        }
        _ => panic!("a 404 answer must fail the fetch"),
    }
    assert_eq!(served_key_set(&disabled, 200, &body).unwrap(), body);
    let enabled = Certificates::new(true).unwrap();
    let served: Value = serde_json::from_slice(&served_key_set(&enabled, 200, &body).unwrap()).unwrap();
    assert!(served["keys"][0]["x5c"][0].is_string());
    assert!(matches!(
        served_key_set(&enabled, 200, b"not json"),
        Err(FetchError::Certificates(CertificateError::InvalidJson { .. }))
    ));
}

#[test]
fn reparsed_output_keeps_floats_exactly() {
    let body = br#"{"keys": [{"x5c": ["existing"], "weight": 0.1}], "extra": 2.5e-300}"#;
    let out = Certificates::new(true).unwrap().transform(body).unwrap();
    let again = Certificates::new(true).unwrap().transform(&out).unwrap();
    assert_eq!(out, again);
    assert_eq!(
        serde_json::from_slice::<Value>(&out).unwrap(),
        serde_json::from_slice::<Value>(body).unwrap()
    );
}

#[test]
fn issuer_comes_only_from_a_valid_scalar() {
    assert!(issuer_from_draw(vec![0; 32]).is_none());
    assert!(issuer_from_draw(vec![0xff; 32]).is_none());
    let mut one = vec![0; 32];
    one[31] = 1;
    let issuer = issuer_from_draw(one.clone()).unwrap();
    let expected = SigningKey::from_slice(&one).unwrap().verifying_key().to_public_key_der().unwrap();
    assert_eq!(issuer.public_key_der(), expected.as_bytes());
}

#[test]
fn running_out_of_draws_has_its_own_message() {
    assert_eq!(
        CertificateError::NoValidIssuerKey.message(),
        "no drawn scalar was a valid P-256 signing key"
    );
    assert!(Certificates::new(true).is_ok());
}

#[test]
fn each_draw_issues_retries_or_fails() {
    let mut valid = vec![0; 32];
    valid[31] = 7;
    assert!(matches!(after_issuer_draw(0, Ok(valid)), IssuerDraw::Issued(_)));
    assert!(matches!(after_issuer_draw(0, Ok(vec![0xff; 32])), IssuerDraw::DrawAgain));
    assert!(matches!(
        after_issuer_draw(ISSUER_KEY_DRAWS - 2, Ok(vec![0; 32])),
        IssuerDraw::DrawAgain
    ));
    assert!(matches!(
        after_issuer_draw(ISSUER_KEY_DRAWS - 1, Ok(vec![0; 32])),
        IssuerDraw::Failed(CertificateError::NoValidIssuerKey)
    ));
    match after_issuer_draw(3, Err("entropy source unavailable".to_string())) {
        IssuerDraw::Failed(CertificateError::Randomness { detail }) => {
            assert_eq!(detail, "entropy source unavailable")
        }
        _ => panic!("a failed draw must fail with its text"),
    }
}

#[test]
fn attaches_the_certificate_as_standard_base64() {
    let mut document = key_set(vec![object(&[("kid", text("a"))]), Value::from(7), object(&[])]);
    document
        .as_object_mut()
        .unwrap()
        .insert("extra".to_string(), Value::from(1));
    let der = [0xfb, 0xff, 0x00, 0x10];
    assert!(attach_certificate_der(&mut document, 0, &der));
    assert_eq!(document["keys"][0]["x5c"], Value::Array(vec![text(&STANDARD.encode(der))]));
    assert_eq!(document["keys"][0]["x5c"][0], "+/8AEA==");
    assert_eq!(document["keys"][0]["kid"], "a");
    assert!(!attach_certificate_der(&mut document, 1, &der));
    assert_eq!(document["keys"][1], 7);
    assert!(document["keys"][2].get("x5c").is_none());
    assert_eq!(document["extra"], 1);
}
