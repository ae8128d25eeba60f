//! System certificates: DER structures, one behind the other.
use vstd::prelude::*;
use vstd::slice::slice_subrange;

use crate::bytes::copy_bytes;
use crate::lvbs::error::VsmError;
use x509_cert::der::Decode;

verus! {

/// What stands at the front of a buffer of certificates.
#[derive(Clone, Copy, PartialEq, Eq, Structural, Debug)]
pub enum CertFrame {
    /// No long-form DER sequence: the certificates end here.
    End,
    /// A sequence of `expected` bytes, of which the buffer holds only `actual`.
    Truncated { expected: usize, actual: usize },
    /// A sequence of `len` bytes.
    Sequence { len: usize },
}

/// What stands at the front of `buf`. A sequence with a two-byte length starts with `30 82`, then
/// the length of what follows, high byte first.
pub open spec fn cert_frame(buf: Seq<u8>) -> CertFrame {
    if buf.len() < 4 || buf[0] != 0x30 || buf[1] != 0x82 {
        CertFrame::End
    } else {
        let total = buf[2] * 256 + buf[3] + 4;
        if buf.len() < total {
            CertFrame::Truncated { expected: total as usize, actual: buf.len() as usize }
        } else {
            CertFrame::Sequence { len: total as usize }
        }
    }
}

/// Whether the bytes are the DER encoding of an X.509 certificate, by
/// `x509_cert::Certificate::from_der`.
pub uninterp spec fn der_certificate(bytes: Seq<u8>) -> bool;

/// `x509_cert::Certificate::from_der`: whether it accepts the bytes. It reads nothing but the
/// bytes. The certificate itself is not passed on.
#[verifier::external_body]
fn is_der_certificate(bytes: &[u8]) -> (r: bool)
    ensures
        r == der_certificate(bytes@),
{
    x509_cert::Certificate::from_der(bytes).is_ok()
}

/// The certificates at the front of `buf`, each as its bytes, or why they cannot be read.
pub open spec fn certs_of(buf: Seq<u8>) -> Result<Seq<Seq<u8>>, VsmError>
    decreases buf.len(),
{
    match cert_frame(buf) {
        CertFrame::End => Ok(Seq::empty()),
        CertFrame::Truncated { expected, actual } => Err(
            VsmError::CertificateDerLengthInvalid { expected, actual },
        ),
        CertFrame::Sequence { len } => {
            if len == 0 || len > buf.len() || !der_certificate(buf.take(len as int)) {
                Err(VsmError::CertificateParseFailed)
            } else {
                match certs_of(buf.skip(len as int)) {
                    Ok(rest) => Ok(seq![buf.take(len as int)] + rest),
                    Err(e) => Err(e),
                }
            }
        },
    }
}

/// Finds what stands at the front of `buf`.
pub fn next_cert(buf: &[u8]) -> (r: CertFrame)
    ensures
        r == cert_frame(buf@),
        r matches CertFrame::Sequence { len } ==> 4 <= len <= buf@.len(),
{
    let len: usize = buf.len();
    if len < 4 || buf[0] != 0x30 || buf[1] != 0x82 {
        return CertFrame::End;
    }
    let total: usize = buf[2] as usize * 256 + buf[3] as usize + 4;
    if len < total {
        CertFrame::Truncated { expected: total, actual: len }
    } else {
        CertFrame::Sequence { len: total }
    }
}

/// Takes a sequence into the certificates if it was found to be one.
pub fn accept_cert(certs: &mut Vec<Vec<u8>>, der: &[u8], valid: bool) -> (r: Result<(), VsmError>)
    ensures
        r == (if valid {
            Ok::<(), VsmError>(())
        } else {
            Err(VsmError::CertificateParseFailed)
        }),
        cert_bytes(final(certs)@) == (if valid {
            cert_bytes(old(certs)@).push(der@)
        } else {
            cert_bytes(old(certs)@)
        }),
{
    if !valid {
        return Err(VsmError::CertificateParseFailed);
    }
    let cert = copy_bytes(der);
    certs.push(cert);
    assert(cert_bytes(certs@) =~= cert_bytes(old(certs)@).push(der@));
    Ok(())
}

/// The bytes of certificates.
pub open spec fn cert_bytes(certs: Seq<Vec<u8>>) -> Seq<Seq<u8>> {
    certs.map_values(|c: Vec<u8>| c@)
}

/// The certificates at the front of `buf`, each as its DER bytes.
pub fn parse_certs(buf: &[u8]) -> (r: Result<Vec<Vec<u8>>, VsmError>)
    ensures
        match r {
            Ok(certs) => certs_of(buf@) == Ok::<Seq<Seq<u8>>, VsmError>(cert_bytes(certs@)),
            Err(e) => certs_of(buf@) == Err::<Seq<Seq<u8>>, VsmError>(e),
        },
{
    let mut certs: Vec<Vec<u8>> = Vec::new();
    let mut from: usize = 0;
    proof {
        assert(buf@.skip(0) =~= buf@);
        assert(cert_bytes(certs@) =~= Seq::empty());
        assert(certs_of(buf@) matches Ok(all) ==> Seq::<Seq<u8>>::empty() + all =~= all);
    }
    loop
        invariant
            from <= buf@.len(),
            certs_of(buf@) == (match certs_of(buf@.skip(from as int)) {
                Ok(rest) => Ok::<Seq<Seq<u8>>, VsmError>(cert_bytes(certs@) + rest),
                Err(e) => Err(e),
            }),
        decreases buf@.len() - from,
    {
        let rest = slice_subrange(buf, from, buf.len());
        assert(rest@ =~= buf@.skip(from as int));
        match next_cert(rest) {
            CertFrame::End => {
                assert(cert_bytes(certs@) + Seq::<Seq<u8>>::empty() =~= cert_bytes(certs@));
                return Ok(certs);
            },
            CertFrame::Truncated { expected, actual } => {
                return Err(VsmError::CertificateDerLengthInvalid { expected, actual });
            },
            CertFrame::Sequence { len } => {
                let der = slice_subrange(rest, 0, len);
                assert(der@ =~= rest@.take(len as int));
                let ghost before = cert_bytes(certs@);
                let valid = is_der_certificate(der);
                match accept_cert(&mut certs, der, valid) {
                    Ok(()) => {},
                    Err(e) => return Err(e),
                }
                proof {
                    assert(rest@.skip(len as int) =~= buf@.skip(from + len));
                    match certs_of(buf@.skip(from + len)) {
                        Ok(tail) => {
                            assert(before + (seq![der@] + tail) =~= before.push(der@) + tail);
                        },
                        Err(_) => {},
                    }
                }
                from = from + len;
            },
        }
    }
}

} // verus!
