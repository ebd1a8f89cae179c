//! Characters and character sequences.
//!
//! The judge works over words as sequences of characters.  This module gives
//! the ASCII case mapping used for dictionary lookups, together with small
//! executable helpers for moving between `&str`/`String` and `Vec<char>` and
//! for the character-level edits that wildcard and alias resolution perform.

use vstd::prelude::*;

verus! {

/// Whether `c` is one of the lowercase letters `'a'..='z'`.
pub open spec fn is_lowercase_letter(c: char) -> bool {
    'a' <= c && c <= 'z'
}

/// The uppercase form of a lowercase ASCII letter; any other character is
/// left unchanged.
pub open spec fn upper_char(c: char) -> char {
    match c {
        'a' => 'A',
        'b' => 'B',
        'c' => 'C',
        'd' => 'D',
        'e' => 'E',
        'f' => 'F',
        'g' => 'G',
        'h' => 'H',
        'i' => 'I',
        'j' => 'J',
        'k' => 'K',
        'l' => 'L',
        'm' => 'M',
        'n' => 'N',
        'o' => 'O',
        'p' => 'P',
        'q' => 'Q',
        'r' => 'R',
        's' => 'S',
        't' => 'T',
        'u' => 'U',
        'v' => 'V',
        'w' => 'W',
        'x' => 'X',
        'y' => 'Y',
        'z' => 'Z',
        _ => c,
    }
}

/// The lowercase form of an uppercase ASCII letter; any other character is
/// left unchanged.
pub open spec fn lower_char(c: char) -> char {
    match c {
        'A' => 'a',
        'B' => 'b',
        'C' => 'c',
        'D' => 'd',
        'E' => 'e',
        'F' => 'f',
        'G' => 'g',
        'H' => 'h',
        'I' => 'i',
        'J' => 'j',
        'K' => 'k',
        'L' => 'l',
        'M' => 'm',
        'N' => 'n',
        'O' => 'o',
        'P' => 'p',
        'Q' => 'q',
        'R' => 'r',
        'S' => 's',
        'T' => 't',
        'U' => 'u',
        'V' => 'v',
        'W' => 'w',
        'X' => 'x',
        'Y' => 'y',
        'Z' => 'z',
        _ => c,
    }
}

/// A word, uppercased letter by letter.
pub open spec fn upper_seq(s: Seq<char>) -> Seq<char> {
    s.map_values(|c: char| upper_char(c))
}

/// A word, lowercased letter by letter.
pub open spec fn lower_seq(s: Seq<char>) -> Seq<char> {
    s.map_values(|c: char| lower_char(c))
}

/// Uppercases one character.
pub fn to_upper(c: char) -> (r: char)
    ensures
        r == upper_char(c),
{
    if 'a' <= c && c <= 'z' {
        match c {
            'a' => 'A',
            'b' => 'B',
            'c' => 'C',
            'd' => 'D',
            'e' => 'E',
            'f' => 'F',
            'g' => 'G',
            'h' => 'H',
            'i' => 'I',
            'j' => 'J',
            'k' => 'K',
            'l' => 'L',
            'm' => 'M',
            'n' => 'N',
            'o' => 'O',
            'p' => 'P',
            'q' => 'Q',
            'r' => 'R',
            's' => 'S',
            't' => 'T',
            'u' => 'U',
            'v' => 'V',
            'w' => 'W',
            'x' => 'X',
            'y' => 'Y',
            _ => 'Z',
        }
    } else {
        c
    }
}

/// Lowercases one character.
pub fn to_lower(c: char) -> (r: char)
    ensures
        r == lower_char(c),
{
    if 'A' <= c && c <= 'Z' {
        match c {
            'A' => 'a',
            'B' => 'b',
            'C' => 'c',
            'D' => 'd',
            'E' => 'e',
            'F' => 'f',
            'G' => 'g',
            'H' => 'h',
            'I' => 'i',
            'J' => 'j',
            'K' => 'k',
            'L' => 'l',
            'M' => 'm',
            'N' => 'n',
            'O' => 'o',
            'P' => 'p',
            'Q' => 'q',
            'R' => 'r',
            'S' => 's',
            'T' => 't',
            'U' => 'u',
            'V' => 'v',
            'W' => 'w',
            'X' => 'x',
            'Y' => 'y',
            _ => 'z',
        }
    } else {
        c
    }
}

/// Uppercases a word letter by letter.
pub fn upper_word(w: &Vec<char>) -> (r: Vec<char>)
    ensures
        r@ == upper_seq(w@),
{
    let mut out: Vec<char> = Vec::new();
    let mut i: usize = 0;
    while i < w.len()
        invariant
            i <= w.len(),
            out@ == w@.take(i as int).map_values(|c: char| upper_char(c)),
        decreases w.len() - i,
    {
        out.push(to_upper(w[i]));
        proof {
            assert(w@.take(i + 1).drop_last() =~= w@.take(i as int));
            assert(w@.take(i + 1).map_values(|c: char| upper_char(c)) =~= w@.take(
                i as int,
            ).map_values(|c: char| upper_char(c)).push(upper_char(w@[i as int])));
        }
        i = i + 1;
    }
    proof {
        assert(w@.take(w@.len() as int) =~= w@);
    }
    out
}

/// Lowercases a word letter by letter.
pub fn lower_word(w: &Vec<char>) -> (r: Vec<char>)
    ensures
        r@ == lower_seq(w@),
{
    let mut out: Vec<char> = Vec::new();
    let mut i: usize = 0;
    while i < w.len()
        invariant
            i <= w.len(),
            out@ == w@.take(i as int).map_values(|c: char| lower_char(c)),
        decreases w.len() - i,
    {
        out.push(to_lower(w[i]));
        proof {
            assert(w@.take(i + 1).drop_last() =~= w@.take(i as int));
            assert(w@.take(i + 1).map_values(|c: char| lower_char(c)) =~= w@.take(
                i as int,
            ).map_values(|c: char| lower_char(c)).push(lower_char(w@[i as int])));
        }
        i = i + 1;
    }
    proof {
        assert(w@.take(w@.len() as int) =~= w@);
    }
    out
}

/// Whether a word contains the character `c`.
pub fn word_contains(w: &Vec<char>, c: char) -> (r: bool)
    ensures
        r == w@.contains(c),
{
    let mut i: usize = 0;
    while i < w.len()
        invariant
            i <= w.len(),
            forall|j: int| 0 <= j < i ==> w@[j] != c,
        decreases w.len() - i,
    {
        if w[i] == c {
            return true;
        }
        i = i + 1;
    }
    false
}

/// The index of the first occurrence of `c` in `s`, or `-1` when `c` does not
/// occur.
pub open spec fn first_occurrence(s: Seq<char>, c: char) -> int
    decreases s.len(),
{
    if s.len() == 0 {
        -1
    } else if s[0] == c {
        0
    } else {
        let rest = first_occurrence(s.drop_first(), c);
        if rest < 0 {
            -1
        } else {
            rest + 1
        }
    }
}

/// `first_occurrence` finds the earliest occurrence, and `-1` exactly when
/// there is none.
pub proof fn lemma_first_occurrence(s: Seq<char>, c: char)
    ensures
        first_occurrence(s, c) == -1 <==> !s.contains(c),
        first_occurrence(s, c) >= 0 ==> {
            &&& first_occurrence(s, c) < s.len()
            &&& s[first_occurrence(s, c)] == c
            &&& forall|j: int| 0 <= j < first_occurrence(s, c) ==> s[j] != c
        },
    decreases s.len(),
{
    if s.len() == 0 {
    } else if s[0] == c {
    } else {
        lemma_first_occurrence(s.drop_first(), c);
        let rest = first_occurrence(s.drop_first(), c);
        if rest >= 0 {
            assert(s[rest + 1] == s.drop_first()[rest]);
            assert(forall|j: int| 1 <= j < rest + 1 ==> s[j] == s.drop_first()[j - 1]);
        } else {
            assert(!s.contains(c)) by {
                if s.contains(c) {
                    let k = choose|k: int| 0 <= k < s.len() && s[k] == c;
                    assert(s.drop_first()[k - 1] == c);
                }
            }
        }
    }
}

/// The word with the first occurrence of `from` (if any) replaced by `to`.
pub open spec fn replace_first(s: Seq<char>, from: char, to: char) -> Seq<char> {
    if s.contains(from) {
        s.update(first_occurrence(s, from), to)
    } else {
        s
    }
}

/// Replaces the first occurrence of `from` in a word with `to`.
pub fn replace_first_char(w: &Vec<char>, from: char, to: char) -> (r: Vec<char>)
    ensures
        r@ == replace_first(w@, from, to),
{
    proof {
        lemma_first_occurrence(w@, from);
    }
    let mut out: Vec<char> = Vec::new();
    let mut i: usize = 0;
    let mut replaced = false;
    while i < w.len()
        invariant
            i <= w.len(),
            replaced ==> {
                &&& first_occurrence(w@, from) >= 0
                &&& first_occurrence(w@, from) < i
                &&& out@ == w@.take(i as int).update(first_occurrence(w@, from), to)
            },
            !replaced ==> {
                &&& out@ == w@.take(i as int)
                &&& forall|j: int| 0 <= j < i ==> w@[j] != from
            },
            first_occurrence(w@, from) == -1 <==> !w@.contains(from),
            first_occurrence(w@, from) >= 0 ==> {
                &&& first_occurrence(w@, from) < w@.len()
                &&& w@[first_occurrence(w@, from)] == from
                &&& forall|j: int| 0 <= j < first_occurrence(w@, from) ==> w@[j] != from
            },
        decreases w.len() - i,
    {
        if !replaced && w[i] == from {
            out.push(to);
            replaced = true;
            proof {
                assert(first_occurrence(w@, from) == i);
                assert(out@ =~= w@.take(i + 1).update(i as int, to));
            }
        } else {
            out.push(w[i]);
            proof {
                if replaced {
                    assert(out@ =~= w@.take(i + 1).update(first_occurrence(w@, from), to));
                } else {
                    assert(out@ =~= w@.take(i + 1));
                }
            }
        }
        i = i + 1;
    }
    proof {
        assert(w@.take(w@.len() as int) =~= w@);
        if replaced {
            assert(out@ =~= w@.update(first_occurrence(w@, from), to));
        } else {
            assert(!w@.contains(from)) by {
                if w@.contains(from) {
                    let k = choose|k: int| 0 <= k < w@.len() && w@[k] == from;
                }
            }
        }
    }
    out
}

/// The characters of a string, as a vector.
pub fn str_to_word(s: &str) -> (r: Vec<char>)
    ensures
        r@ == s@,
{
    let n = s.unicode_len();
    let mut out: Vec<char> = Vec::new();
    let mut i: usize = 0;
    while i < n
        invariant
            i <= n,
            n == s@.len(),
            out@ == s@.take(i as int),
        decreases n - i,
    {
        out.push(s.get_char(i));
        proof {
            assert(out@ =~= s@.take(i + 1));
        }
        i = i + 1;
    }
    proof {
        assert(s@.take(s@.len() as int) =~= s@);
    }
    out
}

/// Collects a vector of characters back into a `String`.
///
/// Relies on `String::from_iter` (through `Iterator::collect`): the returned
/// string holds exactly the characters of the iterator, in order.
#[verifier::external_body]
pub fn word_to_string(w: &Vec<char>) -> (r: String)
    ensures
        r@ == w@,
{
    w.iter().collect()
}

/// A one-character string.
pub fn char_to_string(c: char) -> (r: String)
    ensures
        r@ == seq![c],
{
    let mut v: Vec<char> = Vec::new();
    v.push(c);
    proof {
        assert(v@ =~= seq![c]);
    }
    word_to_string(&v)
}

/// The digit character for a value below ten.
pub open spec fn digit_char(d: int) -> char {
    if d == 0 {
        '0'
    } else if d == 1 {
        '1'
    } else if d == 2 {
        '2'
    } else if d == 3 {
        '3'
    } else if d == 4 {
        '4'
    } else if d == 5 {
        '5'
    } else if d == 6 {
        '6'
    } else if d == 7 {
        '7'
    } else if d == 8 {
        '8'
    } else {
        '9'
    }
}

/// The decimal representation of `n`, most significant digit first.
pub open spec fn decimal_rep(n: nat) -> Seq<char>
    decreases n,
{
    if n < 10 {
        seq![digit_char(n as int)]
    } else {
        decimal_rep(n / 10).push(digit_char((n % 10) as int))
    }
}

/// The digit character for one digit.
pub fn digit_of(d: usize) -> (r: char)
    requires
        d < 10,
    ensures
        r == digit_char(d as int),
{
    match d {
        0 => '0',
        1 => '1',
        2 => '2',
        3 => '3',
        4 => '4',
        5 => '5',
        6 => '6',
        7 => '7',
        8 => '8',
        _ => '9',
    }
}

/// The decimal digits of `n`, most significant first.
pub fn decimal_digits(n: usize) -> (r: Vec<char>)
    ensures
        r@ == decimal_rep(n as nat),
    decreases n,
{
    if n < 10 {
        let mut v: Vec<char> = Vec::new();
        v.push(digit_of(n));
        proof {
            assert(v@ =~= seq![digit_char(n as int)]);
        }
        v
    } else {
        let mut v = decimal_digits(n / 10);
        v.push(digit_of(n % 10));
        v
    }
}

/// Whether a string and a character vector hold the same characters.
pub fn str_eq_word(s: &str, w: &Vec<char>) -> (r: bool)
    ensures
        r == (s@ == w@),
{
    let n = s.unicode_len();
    if n != w.len() {
        proof {
            assert(s@ != w@);
        }
        return false;
    }
    let mut i: usize = 0;
    while i < n
        invariant
            i <= n,
            n == s@.len(),
            n == w@.len(),
            forall|j: int| 0 <= j < i ==> s@[j] == w@[j],
        decreases n - i,
    {
        if s.get_char(i) != w[i] {
            return false;
        }
        i = i + 1;
    }
    proof {
        assert(s@ =~= w@);
    }
    true
}

} // verus!
