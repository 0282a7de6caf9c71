//! Core version and the protocol compatibility rule derived from it.
//!
//! Only `major.minor` decides compatibility; the patch level does not. The DATA channel binds
//! `major.minor` as AES-GCM associated data, so peers of different `major.minor` cannot read
//! each other's payloads.
use vstd::prelude::*;
use vstd::string::*;
use vstd::utf8::*;
use crate::text::{
    chars_of, dec_digits, parse_u32, parse_unsigned, push_dec, push_str, split, split_seq,
    trim, trim_chars, trim_seq, lemma_split_nonempty,
};

verus! {

/// Version of this core (`major.minor.patch`).
pub const CORE_VERSION: &'static str = "0.2.0";

/// `(major, minor)` of a version text: trimmed, split at `.`, each part trimmed and parsed as
/// `u32`; a missing minor counts as 0; empty or malformed input has none.
pub open spec fn major_minor_spec(v: Seq<char>) -> Option<(u32, u32)> {
    let t = trim_seq(v);
    if t.len() == 0 {
        None
    } else {
        let parts = split_seq(t, '.');
        match parse_unsigned(trim_seq(parts[0]), u32::MAX as nat) {
            None => None,
            Some(ma) => if parts.len() >= 2 {
                match parse_unsigned(trim_seq(parts[1]), u32::MAX as nat) {
                    Some(mi) => Some((ma as u32, mi as u32)),
                    None => None,
                }
            } else {
                Some((ma as u32, 0u32))
            },
        }
    }
}

/// A peer version is compatible when both versions parse and their `major.minor` agree.
pub open spec fn compatible_spec(local: Seq<char>, remote: Seq<char>) -> bool {
    match (major_minor_spec(local), major_minor_spec(remote)) {
        (Some(l), Some(p)) => l == p,
        _ => false,
    }
}

/// Text of the DATA channel's associated data for a `major.minor`.
pub open spec fn aad_text(major: u32, minor: u32) -> Seq<char> {
    "NotifyRelay-Data-v"@ + dec_digits(major as nat) + seq!['.'] + dec_digits(minor as nat)
}

/// Parses the `(major, minor)` of a version text.
pub fn major_minor(version: &str) -> (r: Option<(u32, u32)>)
    ensures
        r == major_minor_spec(version@),
{
    let trimmed = trim(version);
    if trimmed.len() == 0 {
        return None;
    }
    let mut t = String::new();
    crate::text::push_chars(&mut t, trimmed.as_slice());
    let parts = split(t.as_str(), '.');
    proof {
        lemma_split_nonempty(trimmed@, '.');
    }
    let p0 = trim_chars(chars_of(parts[0].as_str()).as_slice());
    let mut s0 = String::new();
    crate::text::push_chars(&mut s0, p0.as_slice());
    let major = match parse_u32(s0.as_str()) {
        Some(m) => m,
        None => return None,
    };
    if parts.len() >= 2 {
        let p1 = trim_chars(chars_of(parts[1].as_str()).as_slice());
        let mut s1 = String::new();
        crate::text::push_chars(&mut s1, p1.as_slice());
        match parse_u32(s1.as_str()) {
            Some(minor) => Some((major, minor)),
            None => None,
        }
    } else {
        Some((major, 0))
    }
}

/// Whether a peer's version is compatible with this core's.
pub fn is_compatible(remote: &str) -> (r: bool)
    ensures
        r == compatible_spec(CORE_VERSION@, remote@),
{
    match (major_minor(CORE_VERSION), major_minor(remote)) {
        (Some(local), Some(peer)) => local.0 == peer.0 && local.1 == peer.1,
        _ => false,
    }
}

/// Associated data of the DATA channel: `NotifyRelay-Data-v{major}.{minor}` as UTF-8 bytes.
pub fn data_aad() -> (r: Vec<u8>)
    ensures
        r@ == encode_utf8(match major_minor_spec(CORE_VERSION@) {
            Some(mm) => aad_text(mm.0, mm.1),
            None => aad_text(0, 0),
        }),
{
    let (major, minor) = match major_minor(CORE_VERSION) {
        Some(mm) => mm,
        None => (0, 0),
    };
    let mut s = String::new();
    push_str(&mut s, "NotifyRelay-Data-v");
    push_dec(&mut s, major as u64);
    let ghost before_dot = s@;
    crate::text::push_char(&mut s, '.');
    assert(before_dot.push('.') == before_dot + seq!['.']);
    push_dec(&mut s, minor as u64);
    assert(s@ == aad_text(major, minor));
    let bytes = s.as_str().as_bytes();
    vstd::slice::slice_to_vec(bytes)
}

/// Law: every version is compatible with itself exactly when it parses.
pub proof fn law_compatible_reflexive(v: Seq<char>)
    ensures
        compatible_spec(v, v) == (major_minor_spec(v) is Some),
{
}

/// Law: compatibility is symmetric.
pub proof fn law_compatible_symmetric(a: Seq<char>, b: Seq<char>)
    ensures
        compatible_spec(a, b) == compatible_spec(b, a),
{
}

} // verus!
