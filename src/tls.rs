//! TLS-related helper types.
use vstd::prelude::*;
use vstd::string::StringSliceAdditionalSpecFns;

use crate::cstr::{c_bytes, c_string, find_nul, first_nul, has_nul};

verus! {

/// A pre-shared key and the hint that names it.
#[derive(Copy, Clone, PartialEq, Eq)]
pub struct Psk<'a> {
    pub key: &'a [u8],
    pub hint: &'a str,
}

/// PSK data in the shape the TLS stack takes it: the key with its size, and
/// the hint as a null-terminated byte string that lives as long as this value.
pub struct TlsPsk<'a> {
    pub key: &'a [u8],
    pub key_size: usize,
    pub hint: Vec<u8>,
}

impl<'a> TlsPsk<'a> {
    /// Prepares `conf` for the TLS stack. The hint must not hold a NUL byte.
    pub fn from(conf: &Psk<'a>) -> (r: Self)
        requires
            !has_nul(conf.hint.spec_bytes()),
        ensures
            r.key@ == conf.key@,
            r.key_size == conf.key@.len(),
            r.hint@ == c_bytes(conf.hint.spec_bytes()),
    {
        let hint = match c_string(conf.hint.as_bytes()) {
            Some(h) => h,
            None => Vec::new(),
        };
        TlsPsk { key: conf.key, key_size: conf.key.len(), hint }
    }
}

#[verifier::external_type_specification]
#[verifier::external_body]
pub struct ExCStr(core::ffi::CStr);

/// The bytes `CStr::to_bytes_with_nul` gives for `c`, terminator included.
pub uninterp spec fn c_str_bytes_of(c: &core::ffi::CStr) -> Seq<u8>;

/// Relies on `CStr::to_bytes_with_nul`: the string's bytes with its single
/// NUL terminator, which is the last byte and the only NUL among them.
#[verifier::external_body]
fn c_str_bytes(cstr: &core::ffi::CStr) -> (r: &[u8])
    ensures
        r@ == c_str_bytes_of(cstr),
        r@.len() >= 1,
        r@.last() == 0,
        forall|j: int| 0 <= j < r@.len() - 1 ==> r@[j] != 0,
{
    cstr.to_bytes_with_nul()
}

/// A certificate handed to the TLS stack as a span of raw bytes:
/// PEM text ending with its NUL byte, or DER.
#[derive(Copy, Clone, PartialEq, Eq)]
pub struct X509<'a>(&'a [u8]);

impl<'a> View for X509<'a> {
    type V = Seq<u8>;

    closed spec fn view(&self) -> Seq<u8> {
        self.0@
    }
}

impl<'a> X509<'a> {
    /// A PEM certificate held in a C string, terminator included.
    pub fn pem(cstr: &'a core::ffi::CStr) -> (r: Self)
        ensures
            r@ == c_str_bytes_of(cstr),
            r@.len() >= 1,
            r@.last() == 0,
            forall|j: int| 0 <= j < r@.len() - 1 ==> r@[j] != 0,
    {
        X509(c_str_bytes(cstr))
    }

    /// A PEM certificate held in `bytes`: everything up to and including the
    /// first NUL byte, which `bytes` must hold.
    pub fn pem_until_nul(bytes: &'a [u8]) -> (r: Self)
        requires
            has_nul(bytes@),
        ensures
            r@ == bytes@.subrange(0, first_nul(bytes@) + 1),
    {
        let len = bytes.len();
        let end = match find_nul(bytes) {
            Some(i) => i + 1,
            None => len,
        };
        X509(&bytes[0..end])
    }

    /// A DER certificate: the bytes are taken as they are.
    pub fn der(bytes: &'a [u8]) -> (r: Self)
        ensures
            r@ == bytes@,
    {
        X509(bytes)
    }

    /// The raw bytes of the certificate.
    pub fn data(&self) -> (r: &[u8])
        ensures
            r@ == self@,
    {
        self.0
    }

    /// The number of bytes the TLS stack is told the certificate spans.
    pub fn as_esp_idf_raw_len(&self) -> (r: usize)
        ensures
            r == self@.len(),
    {
        self.data().len()
    }
}

} // verus!
