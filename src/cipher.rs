//! The encryption methods a server configuration may name.

use vstd::prelude::*;
use crate::text::same_chars;

verus! {

/// A supported encryption method.
#[derive(Clone, Copy, Debug, PartialEq, Eq, Structural)]
pub enum CipherKind {
    Aes128Gcm,
    Aes256Gcm,
    ChaCha20IetfPoly1305,
}

/// The name under which a configuration selects each method.
pub open spec fn cipher_name(k: CipherKind) -> Seq<char> {
    match k {
        CipherKind::Aes128Gcm => "aes-128-gcm"@,
        CipherKind::Aes256Gcm => "aes-256-gcm"@,
        CipherKind::ChaCha20IetfPoly1305 => "chacha20-ietf-poly1305"@,
    }
}

/// The method a name selects: an exact, case-sensitive match of one of the names.
pub open spec fn cipher_of(s: Seq<char>) -> Option<CipherKind> {
    if s == cipher_name(CipherKind::Aes128Gcm) {
        Some(CipherKind::Aes128Gcm)
    } else if s == cipher_name(CipherKind::Aes256Gcm) {
        Some(CipherKind::Aes256Gcm)
    } else if s == cipher_name(CipherKind::ChaCha20IetfPoly1305) {
        Some(CipherKind::ChaCha20IetfPoly1305)
    } else {
        None
    }
}

impl CipherKind {
    /// The method's configuration name.
    pub fn name(&self) -> (r: &'static str)
        ensures
            r@ == cipher_name(*self),
    {
        match self {
            CipherKind::Aes128Gcm => "aes-128-gcm",
            CipherKind::Aes256Gcm => "aes-256-gcm",
            CipherKind::ChaCha20IetfPoly1305 => "chacha20-ietf-poly1305",
        }
    }

    /// The method that `s` names; `None` for an unknown name.
    pub fn from_name(s: &str) -> (r: Option<CipherKind>)
        ensures
            r == cipher_of(s@),
    {
        if same_chars(s, "aes-128-gcm") {
            Some(CipherKind::Aes128Gcm)
        } else if same_chars(s, "aes-256-gcm") {
            Some(CipherKind::Aes256Gcm)
        } else if same_chars(s, "chacha20-ietf-poly1305") {
            Some(CipherKind::ChaCha20IetfPoly1305)
        } else {
            None
        }
    }
}

/// Each method's name selects that method.
pub proof fn lemma_cipher_name_round_trip(k: CipherKind)
    ensures
        cipher_of(cipher_name(k)) == Some(k),
{
    reveal_strlit("aes-128-gcm");
    reveal_strlit("aes-256-gcm");
    reveal_strlit("chacha20-ietf-poly1305");
    assert(cipher_name(CipherKind::Aes128Gcm)[4] != cipher_name(CipherKind::Aes256Gcm)[4]);
    assert(cipher_name(CipherKind::Aes128Gcm).len() != cipher_name(
        CipherKind::ChaCha20IetfPoly1305,
    ).len());
    assert(cipher_name(CipherKind::Aes256Gcm).len() != cipher_name(
        CipherKind::ChaCha20IetfPoly1305,
    ).len());
}

} // verus!
