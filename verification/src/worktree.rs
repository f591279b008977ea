//! Validation of worktree identifiers.
//!
//! Identifiers flow into paths, pin refs (`refs/grok/worktrees/{id}`) and
//! marker files, so anything outside `[A-Za-z0-9._-]` is rejected, as are
//! identifiers that are empty, start with `.` or contain `..`.

use vstd::prelude::*;

verus! {

/// A byte that may appear in a worktree identifier: an ASCII letter or
/// digit, `.`, `-` or `_`.
pub open spec fn worktree_id_byte_allowed(b: u8) -> bool {
    ||| 0x61 <= b <= 0x7a
    ||| 0x41 <= b <= 0x5a
    ||| 0x30 <= b <= 0x39
    ||| b == 0x2e
    ||| b == 0x2d
    ||| b == 0x5f
}

/// The UTF-8 bytes of an identifier are acceptable: non-empty, not
/// starting with `.`, without `..`, and every byte allowed.
pub open spec fn safe_worktree_id_bytes(b: Seq<u8>) -> bool {
    &&& b.len() > 0
    &&& b[0] != 0x2e
    &&& forall|i: int| 0 <= i < b.len() - 1 ==> !(#[trigger] b[i] == 0x2e && b[i + 1] == 0x2e)
    &&& forall|i: int| 0 <= i < b.len() ==> worktree_id_byte_allowed(#[trigger] b[i])
}

fn byte_allowed(b: u8) -> (r: bool)
    ensures
        r == worktree_id_byte_allowed(b),
{
    (b >= 0x61 && b <= 0x7a) || (b >= 0x41 && b <= 0x5a) || (b >= 0x30 && b <= 0x39) || b == 0x2e
        || b == 0x2d || b == 0x5f
}

/// Allowlist validation of a worktree identifier.
pub fn is_safe_worktree_id(id: &str) -> (r: bool)
    ensures
        r == safe_worktree_id_bytes(vstd::utf8::encode_utf8(id@)),
{
    let b = id.as_bytes();
    let n = b.len();
    if n == 0 {
        return false;
    }
    if b[0] == 0x2e {
        return false;
    }
    let mut i: usize = 0;
    while i < n
        invariant
            n == b@.len(),
            b@ == vstd::utf8::encode_utf8(id@),
            i <= n,
            forall|j: int| 0 <= j < i ==> worktree_id_byte_allowed(#[trigger] b@[j]),
            forall|j: int| 0 <= j < i && j + 1 < n ==> !(#[trigger] b@[j] == 0x2e && b@[j + 1] == 0x2e),
        decreases n - i,
    {
        if !byte_allowed(b[i]) {
            return false;
        }
        if i + 1 < n && b[i] == 0x2e && b[i + 1] == 0x2e {
            return false;
        }
        i = i + 1;
    }
    true
}

/// A character allowed anywhere in an identifier: an ASCII letter or digit,
/// `-` or `_`.
pub open spec fn plain_id_char(c: char) -> bool {
    ||| 'a' <= c <= 'z'
    ||| 'A' <= c <= 'Z'
    ||| '0' <= c <= '9'
    ||| c == '-'
    ||| c == '_'
}

/// Every non-empty identifier made only of ASCII letters, digits, `-` and
/// `_` is safe, whichever of them it starts with (a digit included).
pub proof fn law_plain_ids_are_safe(id: Seq<char>)
    requires
        id.len() > 0,
        forall|i: int| 0 <= i < id.len() ==> plain_id_char(#[trigger] id[i]),
    ensures
        safe_worktree_id_bytes(vstd::utf8::encode_utf8(id)),
{
    assert(vstd::utf8::is_ascii_chars(id));
    vstd::utf8::is_ascii_chars_encode_utf8(id);
    let b = vstd::utf8::encode_utf8(id);
    assert forall|i: int| 0 <= i < b.len() implies worktree_id_byte_allowed(#[trigger] b[i]) && b[i]
        != 0x2e by {
        let c = id[i];
        assert(b[i] == c as u8);
        let x = c as u32;
        assert(plain_id_char(c));
        assert((x as u8) as u32 == x) by (bit_vector)
            requires
                x < 128,
        ;
    }
}

} // verus!
