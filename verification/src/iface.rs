//! Interface-number derivation.
//!
//! A composite device exposes several HID interfaces over one connection;
//! the OS then embeds the sub-interface index in the device path, as two
//! hexadecimal digits right after the literal marker `"&mi_"`.  A path
//! without the marker, or with no two hex digits after it, carries the
//! sentinel -1 instead.

use vstd::prelude::*;

verus! {

/// The marker `"&mi_"` stands at byte offset `i` of `s`.
pub open spec fn is_marker_at(s: Seq<u8>, i: int) -> bool {
    &&& 0 <= i
    &&& i + 4 <= s.len()
    &&& s[i] == 0x26
    &&& s[i + 1] == 0x6d
    &&& s[i + 2] == 0x69
    &&& s[i + 3] == 0x5f
}

/// Offset of the first `"&mi_"` marker at or after `i`, if any.
pub open spec fn first_marker_from(s: Seq<u8>, i: int) -> Option<int>
    recommends
        0 <= i,
    decreases s.len() - i,
{
    if i + 4 > s.len() {
        None
    } else if is_marker_at(s, i) {
        Some(i)
    } else {
        first_marker_from(s, i + 1)
    }
}

/// Offset of the first `"&mi_"` marker in `s`, if any.
pub open spec fn first_marker(s: Seq<u8>) -> Option<int> {
    first_marker_from(s, 0)
}

pub proof fn lemma_first_marker_from(s: Seq<u8>, i: int)
    requires
        0 <= i,
    ensures
        match first_marker_from(s, i) {
            Some(m) => i <= m && is_marker_at(s, m) && (forall|j: int|
                i <= j < m ==> !is_marker_at(s, j)),
            None => forall|j: int| j >= i ==> !is_marker_at(s, j),
        },
    decreases s.len() - i,
{
    if i + 4 > s.len() {
    } else if is_marker_at(s, i) {
    } else {
        lemma_first_marker_from(s, i + 1);
    }
}

/// Value of an ASCII hexadecimal digit, `None` for any other byte.
pub open spec fn hex_digit(b: u8) -> Option<int> {
    if 0x30 <= b <= 0x39 {
        Some(b - 0x30)
    } else if 0x61 <= b <= 0x66 {
        Some(b - 0x61 + 10)
    } else if 0x41 <= b <= 0x46 {
        Some(b - 0x41 + 10)
    } else {
        None
    }
}

/// The interface number encoded in the path bytes `s`: the value of the two
/// hexadecimal digits right after the first `"&mi_"` marker, or -1 when the
/// marker is absent or not followed by two such digits.
pub open spec fn spec_interface_number(s: Seq<u8>) -> int {
    match first_marker(s) {
        Some(m) => if m + 6 <= s.len() && hex_digit(s[m + 4]) is Some && hex_digit(
            s[m + 5],
        ) is Some {
            16 * hex_digit(s[m + 4]).unwrap() + hex_digit(s[m + 5]).unwrap()
        } else {
            -1
        },
        None => -1,
    }
}

/// An interface number is a two-hex-digit index or the sentinel -1.
pub proof fn lemma_interface_number_range(s: Seq<u8>)
    ensures
        spec_interface_number(s) == -1 || 0 <= spec_interface_number(s) <= 255,
{
}

fn hex_digit_val(b: u8) -> (r: Option<u8>)
    ensures
        match r {
            Some(v) => hex_digit(b) == Some(v as int),
            None => hex_digit(b) is None,
        },
{
    if 0x30 <= b && b <= 0x39 {
        Some(b - 0x30)
    } else if 0x61 <= b && b <= 0x66 {
        Some(b - 0x61 + 10)
    } else if 0x41 <= b && b <= 0x46 {
        Some(b - 0x41 + 10)
    } else {
        None
    }
}

fn find_marker(path: &Vec<u8>) -> (r: Option<usize>)
    ensures
        match r {
            Some(m) => first_marker(path@) == Some(m as int),
            None => first_marker(path@) is None,
        },
{
    if path.len() < 4 {
        proof {
            lemma_first_marker_from(path@, 0);
        }
        return None;
    }
    let stop = path.len() - 4;
    let mut i: usize = 0;
    while i <= stop
        invariant
            path@.len() <= usize::MAX,
            stop == path@.len() - 4,
            i <= stop + 1,
            forall|j: int| 0 <= j < i ==> !is_marker_at(path@, j),
        decreases stop + 1 - i,
    {
        if path[i] == 0x26 && path[i + 1] == 0x6d && path[i + 2] == 0x69 && path[i + 3] == 0x5f {
            proof {
                lemma_first_marker_from(path@, 0);
                assert(is_marker_at(path@, i as int));
            }
            return Some(i);
        }
        i += 1;
    }
    proof {
        lemma_first_marker_from(path@, 0);
        assert forall|j: int| 0 <= j implies !is_marker_at(path@, j) by {
            if j < i {
            }
        }
    }
    None
}

/// Interface number parsed from the path bytes, as the record carries it:
/// the two-hex-digit value after the first `"&mi_"` marker, else -1.
pub fn interface_number_of_path(path: &Vec<u8>) -> (n: i32)
    ensures
        n == spec_interface_number(path@),
        n == -1 || 0 <= n <= 255,
{
    match find_marker(path) {
        Some(m) => {
            proof {
                lemma_first_marker_from(path@, 0);
            }
            if path.len() - m >= 6 {
                let h = hex_digit_val(path[m + 4]);
                let l = hex_digit_val(path[m + 5]);
                match (h, l) {
                    (Some(a), Some(b)) => 16 * (a as i32) + (b as i32),
                    _ => -1,
                }
            } else {
                -1
            }
        },
        None => -1,
    }
}

} // verus!
