//! Text helpers shared by the library: string comparison, searching,
//! trimming, sorting and decimal rendering, each with its meaning over
//! the character sequence of the text.

use vstd::prelude::*;

verus! {

/// `needle` occurs as a contiguous run of characters inside `haystack`.
pub open spec fn seq_contains_seq(haystack: Seq<char>, needle: Seq<char>) -> bool {
    exists|i: int|
        0 <= i <= haystack.len() - needle.len() && #[trigger] haystack.subrange(i, i + needle.len())
            == needle
}

/// Index of the first occurrence of `c` in `s`, if any.
pub open spec fn first_index_of(s: Seq<char>, c: char) -> Option<int>
    decreases s.len(),
{
    if s.len() == 0 {
        None
    } else {
        match first_index_of(s.drop_last(), c) {
            Some(k) => Some(k),
            None => if s.last() == c {
                Some(s.len() - 1)
            } else {
                None
            },
        }
    }
}

/// `first_index_of` gives the least index holding `c`, or `None` when `c`
/// does not occur.
pub proof fn lemma_first_index_of(s: Seq<char>, c: char)
    ensures
        match first_index_of(s, c) {
            Some(k) => 0 <= k < s.len() && s[k] == c && forall|j: int| 0 <= j < k ==> s[j] != c,
            None => forall|j: int| 0 <= j < s.len() ==> s[j] != c,
        },
    decreases s.len(),
{
    if s.len() > 0 {
        lemma_first_index_of(s.drop_last(), c);
        assert forall|j: int| 0 <= j < s.len() - 1 implies s.drop_last()[j] == s[j] by {}
    }
}

/// Position of the first text in `names` equal to `t`.
pub open spec fn first_text_index(names: Seq<Seq<char>>, t: Seq<char>) -> Option<int>
    decreases names.len(),
{
    if names.len() == 0 {
        None
    } else {
        match first_text_index(names.drop_last(), t) {
            Some(k) => Some(k),
            None => if names.last() == t {
                Some(names.len() - 1)
            } else {
                None
            },
        }
    }
}

/// `first_text_index` gives the least position holding `t`.
pub proof fn lemma_first_text_index(names: Seq<Seq<char>>, t: Seq<char>)
    ensures
        match first_text_index(names, t) {
            Some(k) => 0 <= k < names.len() && names[k] == t && forall|j: int|
                0 <= j < k ==> names[j] != t,
            None => forall|j: int| 0 <= j < names.len() ==> names[j] != t,
        },
    decreases names.len(),
{
    if names.len() > 0 {
        lemma_first_text_index(names.drop_last(), t);
        assert forall|j: int| 0 <= j < names.len() - 1 implies names.drop_last()[j] == names[j] by {}
    }
}

/// `s` with every trailing `c` removed.
pub open spec fn drop_trailing(s: Seq<char>, c: char) -> Seq<char>
    decreases s.len(),
{
    if s.len() > 0 && s.last() == c {
        drop_trailing(s.drop_last(), c)
    } else {
        s
    }
}

/// `s` with every leading `c` removed.
pub open spec fn drop_leading(s: Seq<char>, c: char) -> Seq<char>
    decreases s.len(),
{
    if s.len() > 0 && s[0] == c {
        drop_leading(s.drop_first(), c)
    } else {
        s
    }
}

/// `s` with every leading and every trailing `c` removed.
pub open spec fn trim_both(s: Seq<char>, c: char) -> Seq<char> {
    drop_trailing(drop_leading(s, c), c)
}

/// Lexicographic order on byte sequences (a prefix sorts first).
pub open spec fn bytes_le(a: Seq<u8>, b: Seq<u8>) -> bool
    decreases a.len(),
{
    if a.len() == 0 {
        true
    } else if b.len() == 0 {
        false
    } else if a[0] < b[0] {
        true
    } else if a[0] > b[0] {
        false
    } else {
        bytes_le(a.drop_first(), b.drop_first())
    }
}

/// The order of `String`: lexicographic over the UTF-8 bytes of the text.
pub open spec fn text_le(a: Seq<char>, b: Seq<char>) -> bool {
    bytes_le(vstd::utf8::encode_utf8(a), vstd::utf8::encode_utf8(b))
}

/// The texts of `v` are in ascending order.
pub open spec fn texts_sorted(v: Seq<String>) -> bool {
    forall|i: int, j: int| 0 <= i < j < v.len() ==> text_le(#[trigger] v[i]@, #[trigger] v[j]@)
}

/// Decimal digit character of `d` (for `d < 10`).
pub open spec fn digit_char(d: nat) -> char {
    if d == 0 {
        '0'
    } else if d == 1 {
        '1'
    } else if d == 2 {
        '2'
    } else if d == 3 {
        '3'
    } else if d == 4 {
        '4'
    } else if d == 5 {
        '5'
    } else if d == 6 {
        '6'
    } else if d == 7 {
        '7'
    } else if d == 8 {
        '8'
    } else {
        '9'
    }
}

/// Decimal rendering of `n`, most significant digit first, without leading zeros.
pub open spec fn decimal(n: nat) -> Seq<char>
    decreases n,
{
    if n < 10 {
        seq![digit_char(n)]
    } else {
        decimal(n / 10) + seq![digit_char(n % 10)]
    }
}

/// Whether two texts are equal.
pub fn str_eq(a: &str, b: &str) -> (r: bool)
    ensures
        r == (a@ == b@),
{
    let n = a.unicode_len();
    if n != b.unicode_len() {
        return false;
    }
    let mut i: usize = 0;
    while i < n
        invariant
            n == a@.len(),
            n == b@.len(),
            i <= n,
            forall|j: int| 0 <= j < i ==> a@[j] == b@[j],
        decreases n - i,
    {
        if a.get_char(i) != b.get_char(i) {
            return false;
        }
        i = i + 1;
    }
    proof {
        assert(a@ =~= b@);
    }
    true
}

/// `str::contains` with a `&str` pattern: true when `needle` occurs as a
/// substring of `haystack`.
#[verifier::external_body]
pub(crate) fn str_contains(haystack: &str, needle: &str) -> (r: bool)
    ensures
        r == seq_contains_seq(haystack@, needle@),
{
    haystack.contains(needle)
}

/// Split `s` at the first occurrence of `delim` into the text before it
/// and the text after it, or `None` when `delim` does not occur.
pub fn split_once_char(s: &str, delim: char) -> (r: Option<(&str, &str)>)
    ensures
        match first_index_of(s@, delim) {
            Some(k) => r is Some && r.unwrap().0@ == s@.take(k) && r.unwrap().1@ == s@.skip(k + 1),
            None => r is None,
        },
{
    let n = s.unicode_len();
    let mut i: usize = 0;
    while i < n
        invariant
            n == s@.len(),
            i <= n,
            forall|j: int| 0 <= j < i ==> s@[j] != delim,
        decreases n - i,
    {
        if s.get_char(i) == delim {
            let before = s.substring_char(0, i);
            let after = s.substring_char(i + 1, n);
            proof {
                lemma_first_index_of(s@, delim);
                assert(s@[i as int] == delim);
                assert(before@ =~= s@.take(i as int));
                assert(after@ =~= s@.skip(i + 1));
            }
            return Some((before, after));
        }
        i = i + 1;
    }
    proof {
        lemma_first_index_of(s@, delim);
    }
    None
}

/// `<[String]>::sort`: reorders the strings into ascending order (the
/// lexicographic byte order of `str`), keeping the same elements.
#[verifier::external_body]
pub(crate) fn sort_texts(v: &mut Vec<String>)
    ensures
        final(v)@.to_multiset() == old(v)@.to_multiset(),
        texts_sorted(final(v)@),
{
    v.sort();
}

/// Whether `s` begins with the character `c`.
pub fn starts_with_char(s: &str, c: char) -> (r: bool)
    ensures
        r == (s@.len() > 0 && s@[0] == c),
{
    let n = s.unicode_len();
    if n == 0 {
        false
    } else {
        s.get_char(0) == c
    }
}

/// `s` without its trailing occurrences of `c`.
pub fn trim_end_char(s: &str, c: char) -> (r: &str)
    ensures
        r@ == drop_trailing(s@, c),
{
    let mut n = s.unicode_len();
    proof {
        assert(s@.take(n as int) =~= s@);
    }
    while n > 0 && s.get_char(n - 1) == c
        invariant
            n <= s@.len(),
            drop_trailing(s@.take(n as int), c) == drop_trailing(s@, c),
        decreases n,
    {
        proof {
            assert(s@.take(n as int).drop_last() =~= s@.take(n - 1));
        }
        n = n - 1;
    }
    proof {
        let t = s@.take(n as int);
        if n == 0 {
            assert(t.len() == 0);
        } else {
            assert(t.last() != c);
        }
        assert(drop_trailing(t, c) == t);
        assert(s@.subrange(0, n as int) =~= t);
    }
    s.substring_char(0, n)
}

/// `s` without its leading occurrences of `c`.
pub fn trim_start_char(s: &str, c: char) -> (r: &str)
    ensures
        r@ == drop_leading(s@, c),
{
    let len = s.unicode_len();
    let mut k: usize = 0;
    proof {
        assert(s@.skip(0) =~= s@);
    }
    while k < len && s.get_char(k) == c
        invariant
            k <= len,
            len == s@.len(),
            drop_leading(s@.skip(k as int), c) == drop_leading(s@, c),
        decreases len - k,
    {
        proof {
            assert(s@.skip(k as int).drop_first() =~= s@.skip(k + 1));
        }
        k = k + 1;
    }
    proof {
        let t = s@.skip(k as int);
        if k == len {
            assert(t.len() == 0);
        } else {
            assert(t[0] != c);
        }
        assert(drop_leading(t, c) == t);
        assert(s@.subrange(k as int, len as int) =~= t);
    }
    s.substring_char(k, len)
}

/// `s` without its leading and trailing occurrences of `c`.
pub fn trim_char(s: &str, c: char) -> (r: &str)
    ensures
        r@ == trim_both(s@, c),
{
    let t = trim_start_char(s, c);
    trim_end_char(t, c)
}

/// The one-character text of the digit `d`.
fn digit_text(d: u64) -> (r: &'static str)
    requires
        d < 10,
    ensures
        r@ == seq![digit_char(d as nat)],
{
    if d == 0 {
        proof { reveal_strlit("0"); }
        "0"
    } else if d == 1 {
        proof { reveal_strlit("1"); }
        "1"
    } else if d == 2 {
        proof { reveal_strlit("2"); }
        "2"
    } else if d == 3 {
        proof { reveal_strlit("3"); }
        "3"
    } else if d == 4 {
        proof { reveal_strlit("4"); }
        "4"
    } else if d == 5 {
        proof { reveal_strlit("5"); }
        "5"
    } else if d == 6 {
        proof { reveal_strlit("6"); }
        "6"
    } else if d == 7 {
        proof { reveal_strlit("7"); }
        "7"
    } else if d == 8 {
        proof { reveal_strlit("8"); }
        "8"
    } else {
        proof { reveal_strlit("9"); }
        "9"
    }
}

/// Decimal rendering of `n`, as `n.to_string()` gives it.
pub fn decimal_string(n: u64) -> (r: String)
    ensures
        r@ == decimal(n as nat),
    decreases n,
{
    if n < 10 {
        digit_text(n).to_string()
    } else {
        let mut head = decimal_string(n / 10);
        head.append(digit_text(n % 10));
        head
    }
}

} // verus!
