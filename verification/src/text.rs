//! Small text helpers shared by the parsing code: ASCII lowercasing,
//! string comparison, and locating separators.

use vstd::prelude::*;
use vstd::string::StrSliceExecFns;

verus! {

/// The ASCII-lowercase counterpart of one character: uppercase ASCII
/// letters map to their lowercase form, every other character is
/// unchanged.
pub open spec fn lower_char(c: char) -> char {
    match c {
        'A' => 'a',
        'B' => 'b',
        'C' => 'c',
        'D' => 'd',
        'E' => 'e',
        'F' => 'f',
        'G' => 'g',
        'H' => 'h',
        'I' => 'i',
        'J' => 'j',
        'K' => 'k',
        'L' => 'l',
        'M' => 'm',
        'N' => 'n',
        'O' => 'o',
        'P' => 'p',
        'Q' => 'q',
        'R' => 'r',
        'S' => 's',
        'T' => 't',
        'U' => 'u',
        'V' => 'v',
        'W' => 'w',
        'X' => 'x',
        'Y' => 'y',
        'Z' => 'z',
        _ => c,
    }
}

/// The ASCII-lowercase counterpart of a character sequence.
pub open spec fn lower(s: Seq<char>) -> Seq<char> {
    s.map_values(|c: char| lower_char(c))
}

/// Relies on str::to_ascii_lowercase: ASCII uppercase letters are mapped to
/// their lowercase counterparts and all other characters are unchanged.
#[verifier::external_body]
pub fn to_ascii_lower(s: &str) -> (r: String)
    ensures
        r@ == lower(s@),
{
    s.to_ascii_lowercase()
}

/// Compare two string slices for character-for-character equality.
pub fn str_eq(a: &str, b: &str) -> (r: bool)
    ensures
        r == (a@ == b@),
{
    let s1 = a.to_owned();
    let s2 = b.to_owned();
    s1 == s2
}

/// The index of the first occurrence of `c` in `s`, or `-1` if `s` does
/// not contain it.
pub open spec fn find_idx(s: Seq<char>, c: char) -> int
    decreases s.len(),
{
    if s.len() == 0 {
        -1
    } else if s.first() == c {
        0
    } else {
        let r = find_idx(s.drop_first(), c);
        if r < 0 {
            -1
        } else {
            1 + r
        }
    }
}

/// Basic consequences of `find_idx`: a found index is in bounds, holds the
/// character, and nothing before it does; `-1` means the character does
/// not occur at all.
pub proof fn lemma_find_idx(s: Seq<char>, c: char)
    ensures
        find_idx(s, c) >= 0 ==> {
            &&& find_idx(s, c) < s.len()
            &&& s[find_idx(s, c)] == c
            &&& forall|j: int| 0 <= j < find_idx(s, c) ==> s[j] != c
        },
        find_idx(s, c) < 0 ==> forall|j: int| 0 <= j < s.len() ==> s[j] != c,
    decreases s.len(),
{
    if s.len() > 0 && s.first() != c {
        lemma_find_idx(s.drop_first(), c);
        let r = find_idx(s.drop_first(), c);
        if r >= 0 {
            assert(s[1 + r] == s.drop_first()[r]);
            assert forall|j: int| 0 <= j < find_idx(s, c) implies s[j] != c by {
                if j > 0 {
                    assert(s[j] == s.drop_first()[j - 1]);
                }
            }
        } else {
            assert forall|j: int| 0 <= j < s.len() implies s[j] != c by {
                if j > 0 {
                    assert(s[j] == s.drop_first()[j - 1]);
                }
            }
        }
    }
}

/// Locate the first occurrence of `c` in `s`.
pub fn find_char(s: &str, c: char) -> (r: Option<usize>)
    ensures
        r is Some ==> r->0 == find_idx(s@, c),
        r is None ==> find_idx(s@, c) == -1,
{
    let n = s.unicode_len();
    let mut i: usize = 0;
    while i < n
        invariant
            n == s@.len(),
            i <= n,
            find_idx(s@, c) >= 0 ==> find_idx(s@, c) >= i,
            forall|j: int| 0 <= j < i ==> s@[j] != c,
        decreases n - i,
    {
        let ch = s.get_char(i);
        if ch == c {
            proof {
                lemma_find_idx(s@, c);
                assert(find_idx(s@, c) == i);
            }
            return Some(i);
        }
        proof {
            lemma_find_idx(s@, c);
        }
        i = i + 1;
    }
    proof {
        lemma_find_idx(s@, c);
    }
    None
}

/// Whether `s` contains the character `c`.
pub fn contains_char(s: &str, c: char) -> (r: bool)
    ensures
        r == s@.contains(c),
{
    match find_char(s, c) {
        Some(i) => {
            proof {
                lemma_find_idx(s@, c);
                assert(s@[i as int] == c);
            }
            true
        },
        None => {
            proof {
                lemma_find_idx(s@, c);
                if s@.contains(c) {
                    let w = choose|w: int| 0 <= w < s@.len() && s@[w] == c;
                }
            }
            false
        },
    }
}

/// Copy the characters of `s` from `from` (inclusive) to `to` (exclusive)
/// into an owned string.
pub fn substring(s: &str, from: usize, to: usize) -> (r: String)
    requires
        from <= to <= s@.len(),
    ensures
        r@ == s@.subrange(from as int, to as int),
{
    let piece = s.substring_char(from, to);
    piece.to_owned()
}

/// Whether `s` ends with `suffix`.
pub open spec fn ends_with(s: Seq<char>, suffix: Seq<char>) -> bool {
    s.len() >= suffix.len() && s.skip(s.len() - suffix.len()) == suffix
}

/// Whether `s` ends with `suffix`, decided character by character.
pub fn has_suffix(s: &str, suffix: &str) -> (r: bool)
    ensures
        r == ends_with(s@, suffix@),
{
    let n = s.unicode_len();
    let m = suffix.unicode_len();
    if n < m {
        return false;
    }
    let tail = s.substring_char(n - m, n);
    proof {
        assert(s@.subrange(n - m, n as int) =~= s@.skip(n - m));
    }
    str_eq(tail, suffix)
}

} // verus!
