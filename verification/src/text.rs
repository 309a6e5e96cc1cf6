//! String decoding helpers.
//!
//! The OS answers string queries with raw, fixed-capacity buffers.  Two
//! encodings occur: narrow (UTF-8) bytes for device paths and registry
//! properties, and wide (UTF-16) code units for the per-device string
//! queries.  In both, only the prefix before the first null code unit is
//! meaningful.

use vstd::prelude::*;
use vstd::utf8::{decode_utf8, valid_utf8};

verus! {

/// Index of the first null in `s`, or `s.len()` when `s` holds none.
pub open spec fn nul_cut_u8(s: Seq<u8>) -> int {
    match s.index_of_first(0u8) {
        Some(i) => i,
        None => s.len() as int,
    }
}

/// The prefix of `s` before its first null byte.
pub open spec fn nul_prefix_u8(s: Seq<u8>) -> Seq<u8> {
    s.take(nul_cut_u8(s))
}

/// Index of the first null in `s`, or `s.len()` when `s` holds none.
pub open spec fn nul_cut_u16(s: Seq<u16>) -> int {
    match s.index_of_first(0u16) {
        Some(i) => i,
        None => s.len() as int,
    }
}

/// The prefix of `s` before its first null code unit.
pub open spec fn nul_prefix_u16(s: Seq<u16>) -> Seq<u16> {
    s.take(nul_cut_u16(s))
}

pub proof fn lemma_nul_cut_u8(s: Seq<u8>)
    ensures
        0 <= nul_cut_u8(s) <= s.len(),
        forall|j: int| 0 <= j < nul_cut_u8(s) ==> s[j] != 0,
        nul_cut_u8(s) < s.len() ==> s[nul_cut_u8(s)] == 0,
{
    s.index_of_first_ensures(0u8);
    if s.index_of_first(0u8) is None {
        assert forall|j: int| 0 <= j < nul_cut_u8(s) implies s[j] != 0 by {
            if s[j] == 0 {
                assert(s.contains(0u8));
            }
        }
    }
}

pub proof fn lemma_nul_cut_u16(s: Seq<u16>)
    ensures
        0 <= nul_cut_u16(s) <= s.len(),
        forall|j: int| 0 <= j < nul_cut_u16(s) ==> s[j] != 0,
        nul_cut_u16(s) < s.len() ==> s[nul_cut_u16(s)] == 0,
{
    s.index_of_first_ensures(0u16);
    if s.index_of_first(0u16) is None {
        assert forall|j: int| 0 <= j < nul_cut_u16(s) implies s[j] != 0 by {
            if s[j] == 0 {
                assert(s.contains(0u16));
            }
        }
    }
}

/// Length of the prefix of `buf` before its first null byte.
pub fn nul_prefix_len_u8(buf: &Vec<u8>) -> (n: usize)
    ensures
        n == nul_cut_u8(buf@),
{
    proof {
        lemma_nul_cut_u8(buf@);
    }
    let mut i: usize = 0;
    while i < buf.len() && buf[i] != 0
        invariant
            i <= buf@.len(),
            forall|j: int| 0 <= j < i ==> buf@[j] != 0,
        decreases buf@.len() - i,
    {
        i += 1;
    }
    proof {
        lemma_nul_cut_u8(buf@);
        if nul_cut_u8(buf@) < i {
            assert(buf@[nul_cut_u8(buf@)] == 0);
        }
        if i < nul_cut_u8(buf@) {
            assert(buf@[i as int] != 0);
        }
    }
    i
}

/// Length of the prefix of `buf` before its first null code unit.
pub fn nul_prefix_len_u16(buf: &Vec<u16>) -> (n: usize)
    ensures
        n == nul_cut_u16(buf@),
{
    proof {
        lemma_nul_cut_u16(buf@);
    }
    let mut i: usize = 0;
    while i < buf.len() && buf[i] != 0
        invariant
            i <= buf@.len(),
            forall|j: int| 0 <= j < i ==> buf@[j] != 0,
        decreases buf@.len() - i,
    {
        i += 1;
    }
    proof {
        lemma_nul_cut_u16(buf@);
        if nul_cut_u16(buf@) < i {
            assert(buf@[nul_cut_u16(buf@)] == 0);
        }
        if i < nul_cut_u16(buf@) {
            assert(buf@[i as int] != 0);
        }
    }
    i
}

/// A copy of the first `n` bytes of `buf`.
pub fn prefix_vec_u8(buf: &Vec<u8>, n: usize) -> (r: Vec<u8>)
    requires
        n <= buf@.len(),
    ensures
        r@ == buf@.take(n as int),
{
    let mut r: Vec<u8> = Vec::new();
    let mut i: usize = 0;
    while i < n
        invariant
            i <= n <= buf@.len(),
            r@ == buf@.take(i as int),
        decreases n - i,
    {
        r.push(buf[i]);
        proof {
            assert(r@ =~= buf@.take(i as int + 1));
        }
        i += 1;
    }
    r
}

/// Relies on `core::str::from_utf8`: it succeeds exactly on valid UTF-8 byte
/// sequences and returns the characters they encode.
#[verifier::external_body]
fn utf8_prefix_to_string(bytes: &Vec<u8>, n: usize) -> (r: Option<String>)
    requires
        n <= bytes@.len(),
    ensures
        r is Some <==> valid_utf8(bytes@.take(n as int)),
        r is Some ==> r.unwrap()@ == decode_utf8(bytes@.take(n as int)),
{
    match core::str::from_utf8(&bytes[..n]) {
        Ok(s) => Some(s.to_string()),
        Err(_) => None,
    }
}

/// The narrow string held in `bytes`: the prefix before the first null byte,
/// read as UTF-8; `None` when that prefix is not valid UTF-8.
pub open spec fn spec_decode_narrow(bytes: Seq<u8>) -> Option<Seq<char>> {
    if valid_utf8(nul_prefix_u8(bytes)) {
        Some(decode_utf8(nul_prefix_u8(bytes)))
    } else {
        None
    }
}

/// Decode the narrow (UTF-8) string before the first null byte of `buf`.
pub fn decode_narrow(buf: &Vec<u8>) -> (r: Option<String>)
    ensures
        match r {
            Some(s) => spec_decode_narrow(buf@) == Some(s@),
            None => spec_decode_narrow(buf@) is None,
        },
{
    proof {
        lemma_nul_cut_u8(buf@);
    }
    let n = nul_prefix_len_u8(buf);
    utf8_prefix_to_string(buf, n)
}

/// A UTF-16 code unit reserved for surrogate pairs.
pub open spec fn is_surrogate(u: u16) -> bool {
    0xD800 <= u <= 0xDFFF
}

/// The leading code unit of a surrogate pair.
pub open spec fn is_high_surrogate(u: u16) -> bool {
    0xD800 <= u <= 0xDBFF
}

/// The trailing code unit of a surrogate pair.
pub open spec fn is_low_surrogate(u: u16) -> bool {
    0xDC00 <= u <= 0xDFFF
}

/// The character encoded by a surrogate pair.
pub open spec fn surrogate_pair_char(hi: u16, lo: u16) -> char
    recommends
        is_high_surrogate(hi),
        is_low_surrogate(lo),
{
    (0x10000 + (hi - 0xD800) * 0x400 + (lo - 0xDC00)) as u32 as char
}

/// Well-formed UTF-16: every surrogate code unit belongs to a high-low pair.
pub open spec fn utf16_valid(s: Seq<u16>) -> bool
    decreases s.len(),
{
    if s.len() == 0 {
        true
    } else if !is_surrogate(s[0]) {
        utf16_valid(s.skip(1))
    } else {
        is_high_surrogate(s[0]) && s.len() >= 2 && is_low_surrogate(s[1]) && utf16_valid(s.skip(2))
    }
}

/// The characters encoded by a well-formed UTF-16 code-unit sequence: a
/// non-surrogate unit stands for the character of its own value, and a
/// high-low surrogate pair for one supplementary character.
pub open spec fn utf16_decode(s: Seq<u16>) -> Seq<char>
    recommends
        utf16_valid(s),
    decreases s.len(),
{
    if s.len() == 0 {
        Seq::empty()
    } else if !is_surrogate(s[0]) {
        seq![s[0] as u32 as char] + utf16_decode(s.skip(1))
    } else if s.len() >= 2 {
        seq![surrogate_pair_char(s[0], s[1])] + utf16_decode(s.skip(2))
    } else {
        Seq::empty()
    }
}

/// Relies on `String::from_utf16`: it succeeds exactly on well-formed UTF-16
/// code-unit sequences and returns the characters they encode.
#[verifier::external_body]
fn utf16_prefix_to_string(units: &Vec<u16>, n: usize) -> (r: Option<String>)
    requires
        n <= units@.len(),
    ensures
        r is Some <==> utf16_valid(units@.take(n as int)),
        r is Some ==> r.unwrap()@ == utf16_decode(units@.take(n as int)),
{
    String::from_utf16(&units[..n]).ok()
}

/// The wide string held in `units`: the prefix before the first null code
/// unit, read as UTF-16; empty when that prefix is not well formed.
pub open spec fn spec_decode_wide(units: Seq<u16>) -> Seq<char> {
    if utf16_valid(nul_prefix_u16(units)) {
        utf16_decode(nul_prefix_u16(units))
    } else {
        Seq::empty()
    }
}

/// Decode the wide (UTF-16) string before the first null code unit of `buf`.
pub fn decode_wide(buf: &Vec<u16>) -> (r: String)
    ensures
        r@ == spec_decode_wide(buf@),
{
    proof {
        lemma_nul_cut_u16(buf@);
    }
    let n = nul_prefix_len_u16(buf);
    match utf16_prefix_to_string(buf, n) {
        Some(s) => s,
        None => String::new(),
    }
}

} // verus!
