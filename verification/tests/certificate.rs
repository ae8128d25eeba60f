//! Certificates that are read from a buffer.
use litebox::lvbs::cert::parse_certs;
use litebox::lvbs::error::VsmError;
use x509_cert::der::asn1::{BitString, UtcTime};
use x509_cert::der::Encode;
use x509_cert::name::Name;
use x509_cert::serial_number::SerialNumber;
use x509_cert::spki::{AlgorithmIdentifierOwned, ObjectIdentifier, SubjectPublicKeyInfoOwned};
use x509_cert::time::{Time, Validity};
use x509_cert::{Certificate, TbsCertificate, Version};

fn certificate(serial: u8) -> Vec<u8> {
    let algorithm = AlgorithmIdentifierOwned {
        oid: ObjectIdentifier::new("1.2.840.113549.1.1.11").unwrap(),
        parameters: None,
    };
    let time = |secs: u64| {
        Time::UtcTime(UtcTime::from_unix_duration(std::time::Duration::from_secs(secs)).unwrap())
    };
    let tbs_certificate = TbsCertificate {
        version: Version::V3,
        serial_number: SerialNumber::new(&[serial]).unwrap(),
        signature: algorithm.clone(),
        issuer: Name::default(),
        validity: Validity { not_before: time(0), not_after: time(1_000_000) },
        subject: Name::default(),
        subject_public_key_info: SubjectPublicKeyInfoOwned {
            algorithm: algorithm.clone(),
            subject_public_key: BitString::from_bytes(&[serial; 256]).unwrap(),
        },
        issuer_unique_id: None,
        subject_unique_id: None,
        extensions: None,
    };
    let certificate = Certificate {
        tbs_certificate,
        signature_algorithm: algorithm,
        signature: BitString::from_bytes(&[7; 64]).unwrap(),
    };
    certificate.to_der().unwrap()
}

#[test]
fn certificates_are_read_one_behind_the_other() {
    let first = certificate(1);
    let second = certificate(2);
    let mut buf = first.clone();
    buf.extend_from_slice(&second);
    buf.extend_from_slice(&[0; 32]);
    assert_eq!(parse_certs(&buf).unwrap(), vec![first, second]);
}

#[test]
fn damaged_certificate_is_refused() {
    let mut buf = certificate(1);
    buf[4] = 0x31;
    assert!(matches!(parse_certs(&buf), Err(VsmError::CertificateParseFailed)));
    let cut = certificate(1);
    let actual_len = cut.len() - 1;
    assert!(matches!(
        parse_certs(&cut[..actual_len]),
        Err(VsmError::CertificateDerLengthInvalid { expected, actual })
            if expected == cut.len() && actual == actual_len
    ));
}
