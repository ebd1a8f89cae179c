//! The word judge: dictionary lookups, wildcard and alias resolution, battle
//! adjudication and win detection.
//!
//! A word is judged by resolving its special characters in priority order:
//! an instant-win marker (`'¤'`) anywhere makes the word unconditionally
//! valid; an alias character stands for a small closed set of candidate
//! letters tried in order, where one (letter, slot) assignment may not be
//! reused within a single resolution; a wildcard (`'*'`) stands for any of
//! the 26 lowercase letters tried alphabetically; a plain word is looked up
//! case-insensitively in the dictionary.  The specification functions
//! [`resolve`], [`resolve_candidates`] and [`resolve_wildcard`] state that
//! search order mathematically, and every executable entry point is proved
//! to return exactly what they describe.

use vstd::prelude::*;

use crate::letters::{
    first_occurrence, is_lowercase_letter, lemma_first_occurrence, lower_seq, lower_word,
    replace_first, replace_first_char, str_eq_word, upper_seq, upper_word, word_contains,
};

verus! {

/// Metadata the dictionary records for one word.
#[derive(Clone, Debug, PartialEq, Eq)]
pub struct WordData {
    /// How many longer words this word can be extended into.
    pub extensions: u32,
    /// Whether the word is objectionable and should be kept out of polite play.
    pub objectionable: bool,
}

/// One dictionary entry: a word and its metadata.
#[derive(Clone, Debug, PartialEq, Eq)]
pub struct DictEntry {
    pub word: String,
    pub data: WordData,
}

/// A dictionary: a collection of words with metadata, queried by exact
/// (lowercase) spelling.
#[derive(Clone, Debug, PartialEq, Eq)]
pub struct WordDict {
    entries: Vec<DictEntry>,
}

/// Whether `dict` holds the word `w`.
pub open spec fn dict_has(dict: Seq<Seq<char>>, w: Seq<char>) -> bool {
    exists|i: int| 0 <= i < dict.len() && dict[i] == w
}

impl WordDict {
    /// The words this dictionary holds, in insertion order.
    pub closed spec fn words(&self) -> Seq<Seq<char>> {
        self.entries@.map_values(|e: DictEntry| e.word@)
    }

    /// An empty dictionary.
    pub fn new() -> (r: WordDict)
        ensures
            r.words() == Seq::<Seq<char>>::empty(),
    {
        let r = WordDict { entries: Vec::new() };
        proof {
            assert(r.words() =~= Seq::<Seq<char>>::empty());
        }
        r
    }

    /// Adds a word with its metadata.
    pub fn insert(&mut self, word: String, data: WordData)
        ensures
            final(self).words() == old(self).words().push(word@),
    {
        let ghost before = self.entries@;
        let ghost w = word@;
        self.entries.push(DictEntry { word, data });
        proof {
            assert(self.words() =~= before.map_values(|e: DictEntry| e.word@).push(w));
        }
    }

    /// Whether the dictionary holds exactly the word `w`.
    pub fn contains_word(&self, w: &Vec<char>) -> (r: bool)
        ensures
            r == dict_has(self.words(), w@),
    {
        let mut i: usize = 0;
        while i < self.entries.len()
            invariant
                i <= self.entries.len(),
                forall|j: int| 0 <= j < i ==> self.words()[j] != w@,
            decreases self.entries.len() - i,
        {
            if str_eq_word(self.entries[i].word.as_str(), w) {
                proof {
                    assert(self.words()[i as int] == w@);
                }
                return true;
            }
            i = i + 1;
        }
        false
    }
}

/// One alias registered with the judge: a key character standing for a closed
/// list of candidate letters.
#[derive(Clone, Debug, PartialEq, Eq)]
pub struct AliasDef {
    key: char,
    candidates: Vec<char>,
}

/// A record of alias candidates already consumed during one resolution: the
/// candidate letter together with the candidate-list slots it was taken from.
#[derive(Clone, Debug, PartialEq, Eq)]
pub struct UsedAlias {
    pub letter: char,
    pub slots: Vec<usize>,
}

/// The aliases of a judge, abstractly: key and candidate letters.
pub closed spec fn aliases_view(aliases: Seq<AliasDef>) -> Seq<(char, Seq<char>)> {
    aliases.map_values(|d: AliasDef| (d.key, d.candidates@))
}

/// A used-candidate record, abstractly.
pub open spec fn used_view(used: Seq<UsedAlias>) -> Seq<(char, Seq<int>)> {
    used.map_values(|u: UsedAlias| (u.letter, u.slots@.map_values(|x: usize| x as int)))
}

/// Whether `c` is special for resolution: a wildcard or a registered alias key.
pub open spec fn is_special(aliases: Seq<(char, Seq<char>)>, c: char) -> bool {
    c == '*' || exists|k: int| 0 <= k < aliases.len() && aliases[k].0 == c
}

/// How many special characters `s` holds; resolution retires one per step.
pub open spec fn count_special(aliases: Seq<(char, Seq<char>)>, s: Seq<char>) -> nat
    decreases s.len(),
{
    if s.len() == 0 {
        0
    } else {
        (if is_special(aliases, s[0]) {
            1nat
        } else {
            0nat
        }) + count_special(aliases, s.drop_first())
    }
}

/// A well-formed alias: the key is not itself a letter or a wildcard, and
/// every candidate is a lowercase letter.
pub open spec fn wf_alias_def(d: (char, Seq<char>)) -> bool {
    &&& !is_lowercase_letter(d.0)
    &&& d.0 != '*'
    &&& forall|j: int| 0 <= j < d.1.len() ==> is_lowercase_letter(#[trigger] d.1[j])
}

/// Every registered alias is well-formed.
pub open spec fn wf_aliases(aliases: Seq<(char, Seq<char>)>) -> bool {
    forall|k: int| 0 <= k < aliases.len() ==> wf_alias_def(#[trigger] aliases[k])
}

/// Substituting a plain letter for a special character removes exactly one
/// special position.
pub proof fn lemma_count_special_update(
    aliases: Seq<(char, Seq<char>)>,
    s: Seq<char>,
    i: int,
    c: char,
)
    requires
        0 <= i < s.len(),
        is_special(aliases, s[i]),
        !is_special(aliases, c),
    ensures
        count_special(aliases, s.update(i, c)) + 1 == count_special(aliases, s),
    decreases s.len(),
{
    if i == 0 {
        assert(s.update(0, c).drop_first() =~= s.drop_first());
    } else {
        assert(s.update(i, c).drop_first() =~= s.drop_first().update(i - 1, c));
        lemma_count_special_update(aliases, s.drop_first(), i - 1, c);
    }
}

/// Replacing the first occurrence of a contained special character with a
/// plain letter strictly decreases the special count.
pub proof fn lemma_replace_decreases(
    aliases: Seq<(char, Seq<char>)>,
    s: Seq<char>,
    from: char,
    to: char,
)
    requires
        s.contains(from),
        is_special(aliases, from),
        !is_special(aliases, to),
    ensures
        count_special(aliases, replace_first(s, from, to)) < count_special(aliases, s),
{
    lemma_first_occurrence(s, from);
    lemma_count_special_update(aliases, s, first_occurrence(s, from), to);
}

/// A lowercase letter is never special when the aliases are well-formed.
pub proof fn lemma_letter_not_special(aliases: Seq<(char, Seq<char>)>, c: char)
    requires
        wf_aliases(aliases),
        is_lowercase_letter(c),
    ensures
        !is_special(aliases, c),
{
    if is_special(aliases, c) {
        let k = choose|k: int| 0 <= k < aliases.len() && aliases[k].0 == c;
        assert(wf_alias_def(aliases[k]));
    }
}

/// The index of the first registered alias whose key occurs in `w`, or `-1`
/// when no alias key occurs.
pub open spec fn first_matching_alias(aliases: Seq<(char, Seq<char>)>, w: Seq<char>) -> int
    decreases aliases.len(),
{
    if aliases.len() == 0 {
        -1
    } else if w.contains(aliases[0].0) {
        0
    } else {
        let rest = first_matching_alias(aliases.drop_first(), w);
        if rest < 0 {
            -1
        } else {
            rest + 1
        }
    }
}

/// `first_matching_alias` finds the earliest matching alias, and `-1` exactly
/// when none matches.
pub proof fn lemma_first_matching_alias(aliases: Seq<(char, Seq<char>)>, w: Seq<char>)
    ensures
        first_matching_alias(aliases, w) == -1 <==> (forall|k: int|
            0 <= k < aliases.len() ==> !w.contains(#[trigger] aliases[k].0)),
        first_matching_alias(aliases, w) >= 0 ==> {
            &&& first_matching_alias(aliases, w) < aliases.len()
            &&& w.contains(aliases[first_matching_alias(aliases, w)].0)
            &&& forall|k: int|
                0 <= k < first_matching_alias(aliases, w) ==> !w.contains(#[trigger] aliases[k].0)
        },
    decreases aliases.len(),
{
    if aliases.len() == 0 {
    } else if w.contains(aliases[0].0) {
    } else {
        lemma_first_matching_alias(aliases.drop_first(), w);
        let rest = first_matching_alias(aliases.drop_first(), w);
        if rest >= 0 {
            assert(aliases[rest + 1] == aliases.drop_first()[rest]);
            assert(forall|k: int| 1 <= k < rest + 1 ==> aliases[k] == aliases.drop_first()[k - 1]);
        } else {
            assert(forall|k: int|
                1 <= k < aliases.len() ==> aliases[k] == aliases.drop_first()[k - 1]);
        }
    }
}

/// The index of the first used-candidate record for letter `c`, or `-1`.
pub open spec fn first_used_index(used: Seq<(char, Seq<int>)>, c: char) -> int
    decreases used.len(),
{
    if used.len() == 0 {
        -1
    } else if used[0].0 == c {
        0
    } else {
        let rest = first_used_index(used.drop_first(), c);
        if rest < 0 {
            -1
        } else {
            rest + 1
        }
    }
}

/// `first_used_index` finds the earliest record for `c`, and `-1` exactly
/// when there is none.
pub proof fn lemma_first_used_index(used: Seq<(char, Seq<int>)>, c: char)
    ensures
        first_used_index(used, c) == -1 <==> (forall|k: int|
            0 <= k < used.len() ==> (#[trigger] used[k]).0 != c),
        first_used_index(used, c) >= 0 ==> {
            &&& first_used_index(used, c) < used.len()
            &&& used[first_used_index(used, c)].0 == c
            &&& forall|k: int| 0 <= k < first_used_index(used, c) ==> (#[trigger] used[k]).0 != c
        },
    decreases used.len(),
{
    if used.len() == 0 {
    } else if used[0].0 == c {
    } else {
        lemma_first_used_index(used.drop_first(), c);
        let rest = first_used_index(used.drop_first(), c);
        if rest >= 0 {
            assert(used[rest + 1] == used.drop_first()[rest]);
            assert(forall|k: int| 1 <= k < rest + 1 ==> used[k] == used.drop_first()[k - 1]);
        } else {
            assert(forall|k: int| 1 <= k < used.len() ==> used[k] == used.drop_first()[k - 1]);
        }
    }
}

/// The candidate-list slots already consumed for letter `c`.
pub open spec fn used_slots(used: Seq<(char, Seq<int>)>, c: char) -> Seq<int> {
    if first_used_index(used, c) >= 0 {
        used[first_used_index(used, c)].1
    } else {
        Seq::<int>::empty()
    }
}

/// Whether slot `i` of letter `c` has already been consumed.
pub open spec fn used_contains(used: Seq<(char, Seq<int>)>, c: char, i: int) -> bool {
    used_slots(used, c).contains(i)
}

/// The record after consuming slot `i` of letter `c`.
pub open spec fn used_add(used: Seq<(char, Seq<int>)>, c: char, i: int) -> Seq<(char, Seq<int>)> {
    if first_used_index(used, c) >= 0 {
        used.update(
            first_used_index(used, c),
            (c, used[first_used_index(used, c)].1.push(i)),
        )
    } else {
        used.push((c, seq![i]))
    }
}

/// What a word resolves to, if anything.
///
/// A word with the instant-win marker is valid as it stands; otherwise the
/// first registered alias whose key occurs is expanded candidate by
/// candidate; otherwise the first wildcard is expanded alphabetically;
/// otherwise the word stands or falls by a case-insensitive dictionary
/// lookup.  The result is the resolved word, uppercased.
pub open spec fn resolve(
    aliases: Seq<(char, Seq<char>)>,
    dict: Seq<Seq<char>>,
    w: Seq<char>,
    used: Seq<(char, Seq<int>)>,
) -> Option<Seq<char>>
    decreases count_special(aliases, w), 1int, 0int,
        when wf_aliases(aliases)
{
    if w.contains('¤') {
        Some(upper_seq(w))
    } else if first_matching_alias(aliases, w) >= 0 {
        proof {
            lemma_first_matching_alias(aliases, w);
        }
        resolve_candidates(aliases, dict, w, first_matching_alias(aliases, w), 0, used)
    } else if w.contains('*') {
        resolve_wildcard(aliases, dict, w, 97, used)
    } else if dict_has(dict, lower_seq(w)) {
        Some(upper_seq(w))
    } else {
        None
    }
}

/// Expansion of alias `aliases[k]` at its first occurrence in `w`, trying
/// candidates from slot `i` on.  A slot already consumed for its letter is
/// skipped; otherwise the substituted word is resolved with the slot recorded
/// as consumed, and the first success wins.
pub open spec fn resolve_candidates(
    aliases: Seq<(char, Seq<char>)>,
    dict: Seq<Seq<char>>,
    w: Seq<char>,
    k: int,
    i: int,
    used: Seq<(char, Seq<int>)>,
) -> Option<Seq<char>>
    decreases count_special(aliases, w), 0int, aliases[k].1.len() - i,
        when wf_aliases(aliases) && 0 <= k < aliases.len() && w.contains(aliases[k].0) && 0 <= i
{
    if i >= aliases[k].1.len() {
        None
    } else {
        let c = aliases[k].1[i];
        if used_contains(used, c, i) {
            resolve_candidates(aliases, dict, w, k, i + 1, used)
        } else {
            proof {
                assert(wf_alias_def(aliases[k]));
                lemma_letter_not_special(aliases, c);
                lemma_replace_decreases(aliases, w, aliases[k].0, c);
            }
            let sub = resolve(
                aliases,
                dict,
                replace_first(w, aliases[k].0, c),
                used_add(used, c, i),
            );
            if sub is Some {
                sub
            } else {
                resolve_candidates(aliases, dict, w, k, i + 1, used)
            }
        }
    }
}

/// Expansion of the first wildcard in `w`, trying the letters with codes
/// `c..=122` in alphabetical order; the first success wins.
pub open spec fn resolve_wildcard(
    aliases: Seq<(char, Seq<char>)>,
    dict: Seq<Seq<char>>,
    w: Seq<char>,
    c: int,
    used: Seq<(char, Seq<int>)>,
) -> Option<Seq<char>>
    decreases count_special(aliases, w), 0int, 123 - c,
        when wf_aliases(aliases) && w.contains('*') && 97 <= c
{
    if c > 122 {
        None
    } else {
        proof {
            lemma_letter_not_special(aliases, c as char);
            lemma_replace_decreases(aliases, w, '*', c as char);
        }
        let sub = resolve(aliases, dict, replace_first(w, '*', c as char), used);
        if sub is Some {
            sub
        } else {
            resolve_wildcard(aliases, dict, w, c + 1, used)
        }
    }
}

/// A copy of a slot list.
fn copy_slots(v: &Vec<usize>) -> (r: Vec<usize>)
    ensures
        r@ == v@,
{
    let mut out: Vec<usize> = Vec::new();
    let mut i: usize = 0;
    while i < v.len()
        invariant
            i <= v.len(),
            out@ == v@.take(i as int),
        decreases v.len() - i,
    {
        out.push(v[i]);
        proof {
            assert(out@ =~= v@.take(i + 1));
        }
        i = i + 1;
    }
    proof {
        assert(v@.take(v@.len() as int) =~= v@);
    }
    out
}

/// Whether slot `i` occurs in the list.
fn slots_contain(slots: &Vec<usize>, i: usize) -> (r: bool)
    ensures
        r == slots@.map_values(|x: usize| x as int).contains(i as int),
{
    let ghost mapped = slots@.map_values(|x: usize| x as int);
    let mut j: usize = 0;
    while j < slots.len()
        invariant
            j <= slots.len(),
            forall|j2: int| 0 <= j2 < j ==> slots@[j2] != i,
            mapped == slots@.map_values(|x: usize| x as int),
        decreases slots.len() - j,
    {
        if slots[j] == i {
            proof {
                assert(mapped[j as int] == i as int);
            }
            return true;
        }
        j = j + 1;
    }
    proof {
        if mapped.contains(i as int) {
            let j2 = choose|j2: int| 0 <= j2 < mapped.len() && mapped[j2] == i as int;
            assert(slots@[j2] == i);
        }
    }
    false
}

/// Whether slot `i` of candidate letter `c` has already been consumed.
#[verifier::loop_isolation(false)]
fn used_has(used: &Vec<UsedAlias>, c: char, i: usize) -> (r: bool)
    ensures
        r == used_contains(used_view(used@), c, i as int),
{
    let ghost uv = used_view(used@);
    proof {
        lemma_first_used_index(uv, c);
    }
    let mut k: usize = 0;
    while k < used.len()
        invariant
            k <= used.len(),
            forall|k2: int| 0 <= k2 < k ==> (#[trigger] uv[k2]).0 != c,
        decreases used.len() - k,
    {
        if used[k].letter == c {
            proof {
                assert(uv[k as int].0 == c);
                assert(first_used_index(uv, c) == k);
                assert(uv[k as int].1 == used@[k as int].slots@.map_values(|x: usize| x as int));
            }
            return slots_contain(&used[k].slots, i);
        }
        k = k + 1;
    }
    proof {
        assert(first_used_index(uv, c) == -1);
    }
    false
}

/// The used-candidate record extended with slot `i` of letter `c`.
#[verifier::loop_isolation(false)]
fn used_with(used: &Vec<UsedAlias>, c: char, i: usize) -> (r: Vec<UsedAlias>)
    ensures
        used_view(r@) == used_add(used_view(used@), c, i as int),
{
    let ghost uv = used_view(used@);
    proof {
        lemma_first_used_index(uv, c);
    }
    let ghost fidx = first_used_index(uv, c);
    let mut out: Vec<UsedAlias> = Vec::new();
    let mut k: usize = 0;
    let mut found = false;
    while k < used.len()
        invariant
            k <= used.len(),
            out@.len() == k,
            found ==> {
                &&& 0 <= fidx < k
                &&& used_view(out@) == used_view(used@).take(k as int).update(
                    fidx,
                    (c, uv[fidx].1.push(i as int)),
                )
            },
            !found ==> {
                &&& used_view(out@) == used_view(used@).take(k as int)
                &&& forall|k2: int| 0 <= k2 < k ==> (#[trigger] uv[k2]).0 != c
            },
        decreases used.len() - k,
    {
        if !found && used[k].letter == c {
            proof {
                assert(uv[k as int].0 == c);
                assert(fidx == k);
            }
            let mut slots = copy_slots(&used[k].slots);
            slots.push(i);
            let entry = UsedAlias { letter: c, slots };
            proof {
                assert(entry.slots@.map_values(|x: usize| x as int) =~= uv[k as int].1.push(
                    i as int,
                ));
            }
            out.push(entry);
            found = true;
            proof {
                assert(used_view(out@) =~~= used_view(used@).take(k + 1).update(
                    fidx,
                    (c, uv[fidx].1.push(i as int)),
                ));
            }
        } else {
            let ghost prev = out@;
            let u = &used[k];
            let entry = UsedAlias { letter: u.letter, slots: copy_slots(&u.slots) };
            proof {
                assert(entry.slots@.map_values(|x: usize| x as int) =~= uv[k as int].1);
                assert(entry.letter == uv[k as int].0);
            }
            out.push(entry);
            proof {
                assert(out@ == prev.push(entry));
                assert(used_view(out@)[k as int] == uv[k as int]);
                assert(forall|j: int|
                    0 <= j < k ==> used_view(out@)[j] == #[trigger] used_view(prev)[j]);
                if found {
                    let target = used_view(used@).take(k + 1).update(
                        fidx,
                        (c, uv[fidx].1.push(i as int)),
                    );
                    assert forall|j: int| 0 <= j < k + 1 implies used_view(out@)[j] == target[j] by {
                        if j < k {
                            assert(used_view(out@)[j] == used_view(prev)[j]);
                        } else {
                            assert(used_view(out@)[j] == uv[k as int]);
                            assert(target[j] == uv[k as int]);
                        }
                    }
                    assert(used_view(out@) =~= target);
                } else {
                    let target = used_view(used@).take(k + 1);
                    assert forall|j: int| 0 <= j < k + 1 implies used_view(out@)[j] == target[j] by {
                        if j < k {
                            assert(used_view(out@)[j] == used_view(prev)[j]);
                        } else {
                            assert(used_view(out@)[j] == uv[k as int]);
                        }
                    }
                    assert(used_view(out@) =~= target);
                }
            }
        }
        k = k + 1;
    }
    proof {
        assert(used_view(used@).take(used@.len() as int) =~~= used_view(used@));
    }
    if !found {
        proof {
            assert(fidx == -1);
        }
        let mut slots: Vec<usize> = Vec::new();
        slots.push(i);
        let entry = UsedAlias { letter: c, slots };
        proof {
            assert(entry.slots@.map_values(|x: usize| x as int) =~= seq![i as int]);
        }
        out.push(entry);
        proof {
            assert(used_view(out@) =~~= used_view(used@).push((c, seq![i as int])));
        }
    }
    out
}

/// Resolves a word exactly as [`resolve`] describes.
#[verifier::loop_isolation(false)]
fn resolve_exec(aliases: &Vec<AliasDef>, dict: &WordDict, w: &Vec<char>, used: &Vec<UsedAlias>) -> (r:
    Option<Vec<char>>)
    requires
        wf_aliases(aliases_view(aliases@)),
    ensures
        match r {
            Some(v) => resolve(aliases_view(aliases@), dict.words(), w@, used_view(used@))
                == Some(v@),
            None => resolve(aliases_view(aliases@), dict.words(), w@, used_view(used@)) is None,
        },
    decreases count_special(aliases_view(aliases@), w@),
{
    let ghost av = aliases_view(aliases@);
    let ghost dv = dict.words();
    let ghost uv = used_view(used@);
    if word_contains(w, '¤') {
        return Some(upper_word(w));
    }
    proof {
        lemma_first_matching_alias(av, w@);
    }
    let mut k: usize = 0;
    while k < aliases.len()
        invariant
            k <= aliases.len(),
            forall|k2: int| 0 <= k2 < k ==> !w@.contains((#[trigger] av[k2]).0),
        decreases aliases.len() - k,
    {
        if word_contains(w, aliases[k].key) {
            proof {
                assert(av[k as int].0 == aliases@[k as int].key);
                assert(first_matching_alias(av, w@) == k);
                assert(resolve(av, dv, w@, uv) == resolve_candidates(av, dv, w@, k as int, 0, uv));
            }
            let cands_len = aliases[k].candidates.len();
            let mut i: usize = 0;
            while i < cands_len
                invariant
                    i <= cands_len,
                    cands_len == av[k as int].1.len(),
                    k < aliases.len(),
                    w@.contains(av[k as int].0),
                    resolve_candidates(av, dv, w@, k as int, 0, uv) == resolve_candidates(
                        av,
                        dv,
                        w@,
                        k as int,
                        i as int,
                        uv,
                    ),
                decreases cands_len - i,
            {
                let c = aliases[k].candidates[i];
                proof {
                    assert(av[k as int].1[i as int] == c);
                }
                if used_has(used, c, i) {
                    i = i + 1;
                } else {
                    proof {
                        assert(wf_alias_def(av[k as int]));
                        lemma_letter_not_special(av, c);
                        lemma_replace_decreases(av, w@, av[k as int].0, c);
                    }
                    let w2 = replace_first_char(w, aliases[k].key, c);
                    let u2 = used_with(used, c, i);
                    let sub = resolve_exec(aliases, dict, &w2, &u2);
                    match sub {
                        Some(v) => {
                            return Some(v);
                        },
                        None => {
                            i = i + 1;
                        },
                    }
                }
            }
            return None;
        }
        k = k + 1;
    }
    proof {
        assert(first_matching_alias(av, w@) == -1);
    }
    if word_contains(w, '*') {
        let mut c: u8 = 97;
        while c <= 122
            invariant
                97 <= c <= 123,
                resolve_wildcard(av, dv, w@, 97, uv) == resolve_wildcard(av, dv, w@, c as int, uv),
            decreases 123 - c,
        {
            let letter = c as char;
            proof {
                assert(is_lowercase_letter(letter));
                lemma_letter_not_special(av, letter);
                lemma_replace_decreases(av, w@, '*', letter);
            }
            let w2 = replace_first_char(w, '*', letter);
            let sub = resolve_exec(aliases, dict, &w2, used);
            match sub {
                Some(v) => {
                    return Some(v);
                },
                None => {
                    c = c + 1;
                },
            }
        }
        return None;
    }
    let low = lower_word(w);
    if dict.contains_word(&low) {
        Some(upper_word(w))
    } else {
        None
    }
}

/// How a battle ended.
#[derive(Clone, Debug, PartialEq, Eq)]
pub enum Outcome {
    /// The attacker broke through; the listed defender indices are defeated.
    AttackerWins(Vec<usize>),
    /// The defenders held; all attackers lose.
    DefenderWins,
}

/// The defeated-defender indices rendered as a comma-separated list.
pub open spec fn index_list_rep(s: Seq<usize>) -> Seq<char>
    decreases s.len(),
{
    if s.len() == 0 {
        Seq::<char>::empty()
    } else if s.len() == 1 {
        crate::letters::decimal_rep(s[0] as nat)
    } else {
        index_list_rep(s.drop_last()) + seq![',', ' '] + crate::letters::decimal_rep(
            s.last() as nat,
        )
    }
}

impl Outcome {
    /// The outcome in words, with the defeated defenders listed by index.
    #[verifier::loop_isolation(false)]
    pub fn describe(&self) -> (r: String)
        ensures
            match self {
                Outcome::AttackerWins(losers) => r@ == "Attacker wins against ["@ + index_list_rep(
                    losers@,
                ) + seq![']'],
                Outcome::DefenderWins => r@ == "Defender wins"@,
            },
    {
        match self {
            Outcome::DefenderWins => "Defender wins".to_owned(),
            Outcome::AttackerWins(losers) => {
                let mut chars = crate::letters::str_to_word("Attacker wins against [");
                let ghost prefix = "Attacker wins against ["@;
                let mut i: usize = 0;
                while i < losers.len()
                    invariant
                        i <= losers@.len(),
                        chars@ == prefix + index_list_rep(losers@.take(i as int)),
                    decreases losers@.len() - i,
                {
                    let ghost before = chars@;
                    if i > 0 {
                        chars.push(',');
                        chars.push(' ');
                    }
                    let digits = crate::letters::decimal_digits(losers[i]);
                    let mut j: usize = 0;
                    while j < digits.len()
                        invariant
                            j <= digits@.len(),
                            chars@ == before + (if i > 0 {
                                seq![',', ' ']
                            } else {
                                Seq::<char>::empty()
                            }) + digits@.take(j as int),
                        decreases digits@.len() - j,
                    {
                        chars.push(digits[j]);
                        proof {
                            assert(digits@.take(j + 1) =~= digits@.take(j as int).push(
                                digits@[j as int],
                            ));
                            assert(chars@ =~= before + (if i > 0 {
                                seq![',', ' ']
                            } else {
                                Seq::<char>::empty()
                            }) + digits@.take(j + 1));
                        }
                        j = j + 1;
                    }
                    proof {
                        assert(digits@.take(digits@.len() as int) =~= digits@);
                        if i == 0 {
                            assert(losers@.take(1).len() == 1);
                            assert(losers@.take(1)[0] == losers@[0]);
                            assert(index_list_rep(losers@.take(0)) =~= Seq::<char>::empty());
                            assert(chars@ =~= prefix + index_list_rep(losers@.take(1)));
                        } else {
                            assert(losers@.take(i + 1).drop_last() =~= losers@.take(i as int));
                            assert(losers@.take(i + 1).last() == losers@[i as int]);
                            assert(index_list_rep(losers@.take(i + 1)) =~= index_list_rep(
                                losers@.take(i as int),
                            ) + seq![',', ' '] + crate::letters::decimal_rep(
                                losers@[i as int] as nat,
                            ));
                            assert(chars@ =~= prefix + index_list_rep(losers@.take(i + 1)));
                        }
                    }
                    i = i + 1;
                }
                proof {
                    assert(losers@.take(losers@.len() as int) =~= losers@);
                }
                chars.push(']');
                proof {
                    assert(chars@ =~= prefix + index_list_rep(losers@) + seq![']']);
                }
                crate::letters::word_to_string(&chars)
            },
        }
    }
}

/// The characters handed out as alias keys, in the order they are assigned.
pub open spec fn alias_chars() -> Seq<char> {
    seq!['①', '②', '③', '④', '⑤', '⑥', '⑦', '⑧', '⑨']
}

/// Whether some registered alias uses `c` as its key.
pub open spec fn key_in_use(aliases: Seq<(char, Seq<char>)>, c: char) -> bool {
    exists|k: int| 0 <= k < aliases.len() && aliases[k].0 == c
}

/// The dictionary-backed word judge.
///
/// Holds a built-in dictionary (used when a caller supplies none) and the
/// aliases registered for the current game.
#[derive(Clone)]
pub struct Judge {
    builtin_dictionary: WordDict,
    aliases: Vec<AliasDef>,
}

impl Judge {
    /// The registered aliases, abstractly: key and candidate letters, in
    /// registration order.
    pub closed spec fn alias_model(&self) -> Seq<(char, Seq<char>)> {
        aliases_view(self.aliases@)
    }

    /// The words of the built-in dictionary.
    pub closed spec fn builtin_words(&self) -> Seq<Seq<char>> {
        self.builtin_dictionary.words()
    }

    /// The words a lookup consults: the external dictionary when one is
    /// supplied, else the judge's own.
    pub open spec fn lookup_words(&self, external_dictionary: Option<&WordDict>) -> Seq<Seq<char>> {
        match external_dictionary {
            Some(d) => d.words(),
            None => self.builtin_words(),
        }
    }

    /// A well-formed judge: aliases are well-formed, and their keys are the
    /// alias characters in assignment order.
    pub open spec fn wf(&self) -> bool {
        &&& wf_aliases(self.alias_model())
        &&& self.alias_model().len() <= alias_chars().len()
        &&& forall|k: int|
            0 <= k < self.alias_model().len() ==> (#[trigger] self.alias_model()[k]).0
                == alias_chars()[k]
    }

    /// A judge over the given word list, lowercased into the built-in
    /// dictionary, with no aliases registered.
    pub fn new(words: Vec<String>) -> (r: Judge)
        ensures
            r.wf(),
            r.alias_model() == Seq::<(char, Seq<char>)>::empty(),
            r.builtin_words().len() == words@.len(),
            forall|i: int|
                0 <= i < words@.len() ==> r.builtin_words()[i] == lower_seq(words@[i]@),
    {
        let mut dictionary = WordDict::new();
        let mut i: usize = 0;
        while i < words.len()
            invariant
                i <= words.len(),
                dictionary.words().len() == i,
                forall|j: int| 0 <= j < i ==> dictionary.words()[j] == lower_seq(words@[j]@),
            decreases words.len() - i,
        {
            let chars = crate::letters::str_to_word(words[i].as_str());
            let lowered = lower_word(&chars);
            dictionary.insert(
                crate::letters::word_to_string(&lowered),
                WordData { extensions: 0, objectionable: false },
            );
            i = i + 1;
        }
        let r = Judge { builtin_dictionary: dictionary, aliases: Vec::new() };
        proof {
            assert(r.alias_model() =~= Seq::<(char, Seq<char>)>::empty());
        }
        r
    }

    /// Registers a new alias for the given candidate letters and returns the
    /// key character assigned to it: the first alias character not yet in
    /// use.
    #[verifier::loop_isolation(false)]
    pub fn set_alias(&mut self, alias_target: Vec<char>) -> (c: char)
        requires
            old(self).wf(),
            old(self).alias_model().len() < alias_chars().len(),
            forall|j: int|
                0 <= j < alias_target@.len() ==> is_lowercase_letter(#[trigger] alias_target@[j]),
        ensures
            final(self).wf(),
            c == alias_chars()[old(self).alias_model().len() as int],
            !key_in_use(old(self).alias_model(), c),
            final(self).alias_model() == old(self).alias_model().push((c, alias_target@)),
            final(self).builtin_words() == old(self).builtin_words(),
    {
        let ghost model = self.alias_model();
        let mut slot: usize = 0;
        while slot < 9
            invariant
                slot <= 9,
                self == old(self),
                forall|j: int| 0 <= j < slot ==> key_in_use(model, alias_chars()[j]),
            decreases 9 - slot,
        {
            let candidate_key = alias_key_for_slot(slot);
            if !self.key_used(candidate_key) {
                proof {
                    // Keys sit in assignment order, so the first free slot is
                    // the one right after the registered aliases.
                    if slot < model.len() {
                        assert(model[slot as int].0 == alias_chars()[slot as int]);
                        assert(key_in_use(model, alias_chars()[slot as int]));
                    }
                    assert(slot >= model.len());
                    if slot > model.len() {
                        assert(key_in_use(model, alias_chars()[model.len() as int]));
                        let ghost mlen = model.len() as int;
                        let k = choose|k: int| 0 <= k < model.len() && model[k].0 == alias_chars()[mlen];
                        assert(model[k].0 == alias_chars()[k]);
                    }
                    assert(slot == model.len());
                }
                self.aliases.push(AliasDef { key: candidate_key, candidates: alias_target });
                proof {
                    assert(self.alias_model() =~~= model.push(
                        (candidate_key, alias_target@),
                    ));
                }
                return candidate_key;
            }
            slot = slot + 1;
        }
        proof {
            assert(key_in_use(model, alias_chars()[model.len() as int]));
            let k = choose|k: int|
                0 <= k < model.len() && model[k].0 == alias_chars()[model.len() as int];
            assert(model[k].0 == alias_chars()[k]);
            assert(false);
        }
        vstd::pervasive::unreached()
    }

    /// Whether `c` is already the key of a registered alias.
    fn key_used(&self, c: char) -> (r: bool)
        ensures
            r == key_in_use(self.alias_model(), c),
    {
        let ghost model = self.alias_model();
        let mut k: usize = 0;
        while k < self.aliases.len()
            invariant
                k <= self.aliases.len(),
                model == self.alias_model(),
                forall|k2: int| 0 <= k2 < k ==> (#[trigger] model[k2]).0 != c,
            decreases self.aliases.len() - k,
        {
            if self.aliases[k].key == c {
                proof {
                    assert(model[k as int].0 == c);
                }
                return true;
            }
            k = k + 1;
        }
        false
    }

    /// Forgets every registered alias.
    pub fn remove_aliases(&mut self)
        ensures
            final(self).wf(),
            final(self).alias_model() == Seq::<(char, Seq<char>)>::empty(),
            final(self).builtin_words() == old(self).builtin_words(),
    {
        self.aliases.clear();
        proof {
            assert(self.alias_model() =~= Seq::<(char, Seq<char>)>::empty());
        }
    }

    /// Judges one word, resolving wildcards and aliases, and returns the
    /// resolved word when the word is valid.
    ///
    /// `used_aliases` carries the alias candidates already consumed by an
    /// enclosing resolution; plain callers pass `None`.
    pub fn valid(
        &self,
        word: &str,
        external_dictionary: Option<&WordDict>,
        used_aliases: Option<Vec<UsedAlias>>,
    ) -> (r: Option<String>)
        requires
            self.wf(),
        ensures
            ({
                let res = resolve(
                    self.alias_model(),
                    self.lookup_words(external_dictionary),
                    word@,
                    match used_aliases {
                        Some(u) => used_view(u@),
                        None => Seq::<(char, Seq<int>)>::empty(),
                    },
                );
                match r {
                    Some(s) => res == Some(s@),
                    None => res is None,
                }
            }),
    {
        let chars = crate::letters::str_to_word(word);
        let used = match used_aliases {
            Some(u) => u,
            None => Vec::new(),
        };
        proof {
            assert(used_view(Seq::<UsedAlias>::empty()) =~~= Seq::<(char, Seq<int>)>::empty());
        }
        let dict: &WordDict = match external_dictionary {
            Some(d) => d,
            None => &self.builtin_dictionary,
        };
        match resolve_exec(&self.aliases, dict, &chars, &used) {
            Some(v) => Some(crate::letters::word_to_string(&v)),
            None => None,
        }
    }
}

/// What one side's word resolves to when judged fresh (no alias candidates
/// consumed yet).
pub open spec fn judged(
    aliases: Seq<(char, Seq<char>)>,
    dict: Seq<Seq<char>>,
    w: Seq<char>,
) -> Option<Seq<char>> {
    resolve(aliases, dict, w, Seq::<(char, Seq<int>)>::empty())
}

/// Whether some word of the side fails to resolve.
pub open spec fn any_invalid(
    aliases: Seq<(char, Seq<char>)>,
    dict: Seq<Seq<char>>,
    side: Seq<Seq<char>>,
) -> bool {
    exists|i: int| 0 <= i < side.len() && judged(aliases, dict, #[trigger] side[i]) is None
}

/// Whether some word of the side carries the instant-win marker.
pub open spec fn any_win_marker(side: Seq<Seq<char>>) -> bool {
    exists|i: int| 0 <= i < side.len() && (#[trigger] side[i]).contains('¤')
}

/// The length of the longest word on a side.
pub open spec fn longest_len(side: Seq<Seq<char>>) -> nat
    decreases side.len(),
{
    if side.len() == 0 {
        0
    } else {
        let prev = longest_len(side.drop_last());
        if side.last().len() > prev {
            side.last().len()
        } else {
            prev
        }
    }
}

/// Whether the defender word `d` is too weak to stand: invalid, or not longer
/// than the longest attacker by more than the defender's margin.
pub open spec fn weak_defender(
    aliases: Seq<(char, Seq<char>)>,
    dict: Seq<Seq<char>>,
    d: Seq<char>,
    length_delta: int,
    longest_attacker: int,
) -> bool {
    judged(aliases, dict, d) is None || d.len() + length_delta <= longest_attacker
}

/// The indices of the weak defenders among the first `n`, in ascending order.
pub open spec fn weak_defender_indices(
    aliases: Seq<(char, Seq<char>)>,
    dict: Seq<Seq<char>>,
    defenders: Seq<Seq<char>>,
    length_delta: int,
    longest_attacker: int,
    n: int,
) -> Seq<usize>
    decreases n,
{
    if n <= 0 {
        Seq::<usize>::empty()
    } else {
        let prev = weak_defender_indices(
            aliases,
            dict,
            defenders,
            length_delta,
            longest_attacker,
            n - 1,
        );
        if weak_defender(aliases, dict, defenders[n - 1], length_delta, longest_attacker) {
            prev.push((n - 1) as usize)
        } else {
            prev
        }
    }
}

/// How a judged word must be reported: the resolved word marked valid, or
/// the original word marked invalid.
pub open spec fn judged_word_report(
    aliases: Seq<(char, Seq<char>)>,
    dict: Seq<Seq<char>>,
    w: Seq<char>,
    bw: crate::reporting::BattleWord,
) -> bool {
    match judged(aliases, dict, w) {
        Some(res) => bw.word@ == res && bw.valid == Some(true) && bw.meanings is None,
        None => bw.word@ == w && bw.valid == Some(false) && bw.meanings is None,
    }
}

/// How a word that was never judged must be reported: unchanged, with
/// unknown validity.
pub open spec fn unjudged_word_report(w: Seq<char>, bw: crate::reporting::BattleWord) -> bool {
    bw.word@ == w && bw.valid is None && bw.meanings is None
}

impl Judge {
    /// Adjudicates a battle between attacking and defending words.
    ///
    /// There is no battle when either side is empty.  The defenders win
    /// outright if any attacking word is invalid (the defenders are then
    /// reported unjudged).  Otherwise an attacker carrying the instant-win
    /// marker beats everyone with no defender defeated; failing that, the
    /// weak defenders — invalid, or outreached by the longest attacker
    /// despite the defender's margin — are defeated, and the defenders win
    /// only when none is weak.
    #[verifier::loop_isolation(false)]
    pub fn battle(
        &self,
        attackers: Vec<String>,
        defenders: Vec<String>,
        battle_rules: &crate::rules::BattleRules,
        external_dictionary: Option<&WordDict>,
    ) -> (r: Option<crate::reporting::BattleReport>)
        requires
            self.wf(),
        ensures
            r is None <==> (attackers@.len() == 0 || defenders@.len() == 0),
            ({
                let av = self.alias_model();
                let dv = self.lookup_words(external_dictionary);
                let atk = attackers.deep_view();
                let dfd = defenders.deep_view();
                match r {
                    None => true,
                    Some(rep) => {
                        &&& rep.attackers@.len() == atk.len()
                        &&& forall|i: int|
                            0 <= i < atk.len() ==> judged_word_report(
                                av,
                                dv,
                                atk[i],
                                #[trigger] rep.attackers@[i],
                            )
                        &&& rep.defenders@.len() == dfd.len()
                        &&& if any_invalid(av, dv, atk) {
                            &&& rep.outcome == Outcome::DefenderWins
                            &&& forall|i: int|
                                0 <= i < dfd.len() ==> unjudged_word_report(
                                    dfd[i],
                                    #[trigger] rep.defenders@[i],
                                )
                        } else {
                            &&& forall|i: int|
                                0 <= i < dfd.len() ==> judged_word_report(
                                    av,
                                    dv,
                                    dfd[i],
                                    #[trigger] rep.defenders@[i],
                                )
                            &&& if any_win_marker(atk) {
                                rep.outcome matches Outcome::AttackerWins(losers) && losers@
                                    =~= Seq::<usize>::empty()
                            } else {
                                ({
                                    let weak = weak_defender_indices(
                                        av,
                                        dv,
                                        dfd,
                                        battle_rules.length_delta as int,
                                        longest_len(atk) as int,
                                        dfd.len() as int,
                                    );
                                    if weak.len() == 0 {
                                        rep.outcome == Outcome::DefenderWins
                                    } else {
                                        rep.outcome matches Outcome::AttackerWins(losers)
                                            && losers@ == weak
                                    }
                                })
                            }
                        }
                    },
                }
            }),
    {
        if attackers.len() == 0 || defenders.len() == 0 {
            return None;
        }
        let ghost av = self.alias_model();
        let ghost dv = self.lookup_words(external_dictionary);
        let ghost atk = attackers.deep_view();
        let ghost dfd = defenders.deep_view();
        let dict: &WordDict = match external_dictionary {
            Some(d) => d,
            None => &self.builtin_dictionary,
        };
        let no_used: Vec<UsedAlias> = Vec::new();
        proof {
            assert(used_view(no_used@) =~~= Seq::<(char, Seq<int>)>::empty());
            assert(forall|i: int|
                0 <= i < attackers@.len() ==> attackers.deep_view()[i] == #[trigger] attackers@[i]@);
            assert(forall|i: int|
                0 <= i < defenders@.len() ==> defenders.deep_view()[i] == #[trigger] defenders@[i]@);
        }

        // Convert both sides to character vectors once.
        let mut atk_chars: Vec<Vec<char>> = Vec::new();
        let mut i: usize = 0;
        while i < attackers.len()
            invariant
                i <= attackers.len(),
                atk_chars@.len() == i,
                forall|j: int| 0 <= j < i ==> (#[trigger] atk_chars@[j])@ == atk[j],
            decreases attackers.len() - i,
        {
            atk_chars.push(crate::letters::str_to_word(attackers[i].as_str()));
            i = i + 1;
        }
        let mut dfd_chars: Vec<Vec<char>> = Vec::new();
        let mut i: usize = 0;
        while i < defenders.len()
            invariant
                i <= defenders.len(),
                dfd_chars@.len() == i,
                forall|j: int| 0 <= j < i ==> (#[trigger] dfd_chars@[j])@ == dfd[j],
            decreases defenders.len() - i,
        {
            dfd_chars.push(crate::letters::str_to_word(defenders[i].as_str()));
            i = i + 1;
        }

        // Judge every attacker.
        let mut attacker_reports: Vec<crate::reporting::BattleWord> = Vec::new();
        let mut saw_invalid = false;
        let mut i: usize = 0;
        while i < attackers.len()
            invariant
                i <= attackers.len(),
                attacker_reports@.len() == i,
                forall|j: int|
                    0 <= j < i ==> judged_word_report(av, dv, atk[j], #[trigger] attacker_reports@[j]),
                saw_invalid == exists|j: int| 0 <= j < i && judged(av, dv, #[trigger] atk[j]) is None,
            decreases attackers.len() - i,
        {
            match resolve_exec(&self.aliases, dict, &atk_chars[i], &no_used) {
                Some(v) => {
                    attacker_reports.push(
                        crate::reporting::BattleWord {
                            word: crate::letters::word_to_string(&v),
                            meanings: None,
                            valid: Some(true),
                        },
                    );
                },
                None => {
                    attacker_reports.push(
                        crate::reporting::BattleWord {
                            word: attackers[i].clone(),
                            meanings: None,
                            valid: Some(false),
                        },
                    );
                    saw_invalid = true;
                },
            }
            i = i + 1;
        }

        // The defenders win outright against any invalid attacker, and are
        // then reported unjudged.
        if saw_invalid {
            let mut defender_reports: Vec<crate::reporting::BattleWord> = Vec::new();
            let mut i: usize = 0;
            while i < defenders.len()
                invariant
                    i <= defenders.len(),
                    defender_reports@.len() == i,
                    forall|j: int|
                        0 <= j < i ==> unjudged_word_report(dfd[j], #[trigger] defender_reports@[j]),
                decreases defenders.len() - i,
            {
                defender_reports.push(
                    crate::reporting::BattleWord {
                        word: defenders[i].clone(),
                        meanings: None,
                        valid: None,
                    },
                );
                i = i + 1;
            }
            return Some(
                crate::reporting::BattleReport {
                    attackers: attacker_reports,
                    defenders: defender_reports,
                    outcome: Outcome::DefenderWins,
                },
            );
        }

        // Judge every defender.
        let mut defender_reports: Vec<crate::reporting::BattleWord> = Vec::new();
        let mut i: usize = 0;
        while i < defenders.len()
            invariant
                i <= defenders.len(),
                defender_reports@.len() == i,
                forall|j: int|
                    0 <= j < i ==> judged_word_report(av, dv, dfd[j], #[trigger] defender_reports@[j]),
            decreases defenders.len() - i,
        {
            match resolve_exec(&self.aliases, dict, &dfd_chars[i], &no_used) {
                Some(v) => {
                    defender_reports.push(
                        crate::reporting::BattleWord {
                            word: crate::letters::word_to_string(&v),
                            meanings: None,
                            valid: Some(true),
                        },
                    );
                },
                None => {
                    defender_reports.push(
                        crate::reporting::BattleWord {
                            word: defenders[i].clone(),
                            meanings: None,
                            valid: Some(false),
                        },
                    );
                },
            }
            i = i + 1;
        }

        // An attacker carrying the instant-win marker captures the objective
        // outright; no defender is defeated.
        let mut marker = false;
        let mut i: usize = 0;
        while i < atk_chars.len()
            invariant
                i <= atk_chars.len(),
                marker == exists|j: int| 0 <= j < i && (#[trigger] atk[j]).contains('¤'),
            decreases atk_chars.len() - i,
        {
            if crate::letters::word_contains(&atk_chars[i], '¤') {
                marker = true;
            }
            i = i + 1;
        }
        if marker {
            return Some(
                crate::reporting::BattleReport {
                    attackers: attacker_reports,
                    defenders: defender_reports,
                    outcome: Outcome::AttackerWins(Vec::new()),
                },
            );
        }

        // The defense holds exactly where every defender is valid and long
        // enough against the longest attacker.
        let mut longest: usize = 0;
        let mut i: usize = 0;
        while i < atk_chars.len()
            invariant
                i <= atk_chars.len(),
                longest == longest_len(atk.take(i as int)),
            decreases atk_chars.len() - i,
        {
            proof {
                assert(atk.take(i + 1).drop_last() =~= atk.take(i as int));
                assert(atk.take(i + 1).last() == atk[i as int]);
            }
            if atk_chars[i].len() > longest {
                longest = atk_chars[i].len();
            }
            i = i + 1;
        }
        proof {
            assert(atk.take(atk.len() as int) =~= atk);
        }

        let ghost delta = battle_rules.length_delta as int;
        let mut weak_defenders: Vec<usize> = Vec::new();
        let mut i: usize = 0;
        while i < defenders.len()
            invariant
                i <= defenders.len(),
                defender_reports@.len() == dfd.len(),
                forall|j: int|
                    0 <= j < dfd.len() ==> judged_word_report(
                        av,
                        dv,
                        dfd[j],
                        #[trigger] defender_reports@[j],
                    ),
                weak_defenders@ == weak_defender_indices(
                    av,
                    dv,
                    dfd,
                    delta,
                    longest as int,
                    i as int,
                ),
            decreases defenders.len() - i,
        {
            let valid_defense = match defender_reports[i].valid {
                Some(b) => b,
                None => false,
            };
            let long_enough = (dfd_chars[i].len() as i128) + (battle_rules.length_delta as i128)
                > (longest as i128);
            proof {
                assert(judged_word_report(av, dv, dfd[i as int], defender_reports@[i as int]));
                assert((valid_defense && long_enough) == !weak_defender(
                    av,
                    dv,
                    dfd[i as int],
                    delta,
                    longest as int,
                ));
            }
            if !(valid_defense && long_enough) {
                weak_defenders.push(i);
            }
            i = i + 1;
        }
        let outcome = if weak_defenders.len() == 0 {
            Outcome::DefenderWins
        } else {
            Outcome::AttackerWins(weak_defenders)
        };
        Some(
            crate::reporting::BattleReport {
                attackers: attacker_reports,
                defenders: defender_reports,
                outcome,
            },
        )
    }
}

/// Whether the tile at `n` breaches the town at `t`: a town square whose
/// orthogonal neighbor is occupied by a different player.
pub open spec fn breaches_town(
    board: &crate::board::Board,
    t: crate::board::Coordinate,
    n: crate::board::Coordinate,
) -> bool {
    &&& board.in_bounds(t)
    &&& board.in_bounds(n)
    &&& board.square_at(t) is Town
    &&& crate::board::is_orthogonal_neighbor(t, n)
    &&& board.square_at(n) is Occupied
    &&& board.square_at(n)->Occupied_player != board.square_at(t)->Town_player
}

impl Judge {
    /// The winner, if any: a player whose tile stands next to another
    /// player's town.  Exactly the boards with such a breach have a winner;
    /// when several towns are breached at once, only the first breach found
    /// is reported, without arbitration.
    #[verifier::loop_isolation(false)]
    pub fn winner(board: &crate::board::Board) -> (r: Option<usize>)
        requires
            board.wf(),
        ensures
            r is Some <==> exists|t: crate::board::Coordinate, n: crate::board::Coordinate|
                breaches_town(board, t, n),
            r matches Some(p) ==> exists|t: crate::board::Coordinate, n: crate::board::Coordinate|
                breaches_town(board, t, n) && board.square_at(n)->Occupied_player == p,
    {
        let mut ti: usize = 0;
        while ti < board.towns.len()
            invariant
                ti <= board.towns@.len(),
                forall|j: int, n: crate::board::Coordinate|
                    0 <= j < ti ==> !(#[trigger] breaches_town(board, board.towns@[j], n)),
            decreases board.towns@.len() - ti,
        {
            let town_coord = board.towns[ti];
            let owner = match board.get(town_coord) {
                Ok(crate::board::Square::Town { player, .. }) => player,
                _ => vstd::pervasive::unreached(),
            };
            let neighbors = board.neighbors_4(town_coord);
            let mut ni: usize = 0;
            while ni < neighbors.len()
                invariant
                    ni <= neighbors@.len(),
                    owner == board.square_at(town_coord)->Town_player,
                    forall|j: int|
                        0 <= j < ni ==> !((#[trigger] board.square_at(neighbors@[j])) is Occupied
                            && board.square_at(neighbors@[j])->Occupied_player != owner),
                decreases neighbors@.len() - ni,
            {
                let n_coord = neighbors[ni];
                proof {
                    assert(neighbors@.contains(n_coord));
                }
                match board.get(n_coord) {
                    Ok(crate::board::Square::Occupied { player: occupier, .. }) => {
                        if occupier != owner {
                            proof {
                                assert(breaches_town(board, town_coord, n_coord));
                            }
                            return Some(occupier);
                        }
                    },
                    _ => {},
                }
                ni = ni + 1;
            }
            proof {
                assert forall|n: crate::board::Coordinate|
                    !breaches_town(board, board.towns@[ti as int], n) by {
                    if breaches_town(board, board.towns@[ti as int], n) {
                        assert(neighbors@.contains(n));
                        let j = choose|j: int| 0 <= j < neighbors@.len() && neighbors@[j] == n;
                        assert(board.square_at(neighbors@[j]) is Occupied);
                    }
                }
            }
            ti = ti + 1;
        }
        proof {
            if exists|t: crate::board::Coordinate, n: crate::board::Coordinate|
                breaches_town(board, t, n) {
                let (t, n) = choose|t: crate::board::Coordinate, n: crate::board::Coordinate|
                    breaches_town(board, t, n);
                assert(board.towns@.contains(t));
                let j = choose|j: int| 0 <= j < board.towns@.len() && board.towns@[j] == t;
                assert(!breaches_town(board, board.towns@[j], n));
            }
        }
        None
    }
}

impl Default for Judge {
    /// A judge with an empty built-in dictionary and no aliases.
    fn default() -> (d: Judge)
        ensures
            d.wf(),
            d.alias_model() == Seq::<(char, Seq<char>)>::empty(),
            d.builtin_words() == Seq::<Seq<char>>::empty(),
    {
        let d = Judge { builtin_dictionary: WordDict::new(), aliases: Vec::new() };
        proof {
            assert(d.alias_model() =~= Seq::<(char, Seq<char>)>::empty());
        }
        d
    }
}

/// Wildcard resolution from letter code `c` on either fails every remaining
/// letter, or succeeds on the alphabetically first remaining letter whose
/// substitution resolves.
proof fn lemma_wildcard_from(
    aliases: Seq<(char, Seq<char>)>,
    dict: Seq<Seq<char>>,
    w: Seq<char>,
    c: int,
    used: Seq<(char, Seq<int>)>,
)
    requires
        wf_aliases(aliases),
        w.contains('*'),
        97 <= c <= 123,
    ensures
        match resolve_wildcard(aliases, dict, w, c, used) {
            Some(r) => exists|cc: int|
                {
                    &&& c <= cc <= 122
                    &&& resolve(aliases, dict, replace_first(w, '*', #[trigger] (cc as char)), used)
                        == Some(r)
                    &&& forall|c2: int|
                        c <= c2 < cc ==> resolve(
                            aliases,
                            dict,
                            replace_first(w, '*', #[trigger] (c2 as char)),
                            used,
                        ) is None
                },
            None => forall|c2: int|
                c <= c2 <= 122 ==> resolve(
                    aliases,
                    dict,
                    replace_first(w, '*', #[trigger] (c2 as char)),
                    used,
                ) is None,
        },
    decreases 123 - c,
{
    if c > 122 {
    } else {
        lemma_wildcard_from(aliases, dict, w, c + 1, used);
        let sub = resolve(aliases, dict, replace_first(w, '*', c as char), used);
        if sub is Some {
            assert(resolve_wildcard(aliases, dict, w, c, used) == sub);
            assert(c <= c <= 122 && resolve(aliases, dict, replace_first(w, '*', c as char), used)
                == sub);
        }
    }
}

/// Wildcard resolution is deterministic and alphabetical: when a word (with
/// no instant-win marker and no registered alias key in it) holds a
/// wildcard, its resolution succeeds exactly through the first letter, in
/// alphabetical order, whose substitution resolves — every earlier letter
/// fails.
pub proof fn lemma_wildcard_alphabetical(
    aliases: Seq<(char, Seq<char>)>,
    dict: Seq<Seq<char>>,
    w: Seq<char>,
    used: Seq<(char, Seq<int>)>,
)
    requires
        wf_aliases(aliases),
        w.contains('*'),
        !w.contains('¤'),
        forall|k: int| 0 <= k < aliases.len() ==> !w.contains((#[trigger] aliases[k]).0),
    ensures
        match resolve(aliases, dict, w, used) {
            Some(r) => exists|cc: int|
                {
                    &&& 97 <= cc <= 122
                    &&& resolve(aliases, dict, replace_first(w, '*', #[trigger] (cc as char)), used)
                        == Some(r)
                    &&& forall|c2: int|
                        97 <= c2 < cc ==> resolve(
                            aliases,
                            dict,
                            replace_first(w, '*', #[trigger] (c2 as char)),
                            used,
                        ) is None
                },
            None => forall|c2: int|
                97 <= c2 <= 122 ==> resolve(
                    aliases,
                    dict,
                    replace_first(w, '*', #[trigger] (c2 as char)),
                    used,
                ) is None,
        },
{
    lemma_first_matching_alias(aliases, w);
    assert(resolve(aliases, dict, w, used) == resolve_wildcard(aliases, dict, w, 97, used));
    lemma_wildcard_from(aliases, dict, w, 97, used);
}

/// Candidate-by-candidate alias expansion preserves word length.
proof fn lemma_resolve_candidates_len(
    aliases: Seq<(char, Seq<char>)>,
    dict: Seq<Seq<char>>,
    w: Seq<char>,
    k: int,
    i: int,
    used: Seq<(char, Seq<int>)>,
)
    requires
        wf_aliases(aliases),
        0 <= k < aliases.len(),
        w.contains(aliases[k].0),
        0 <= i,
    ensures
        resolve_candidates(aliases, dict, w, k, i, used) matches Some(r) ==> r.len() == w.len(),
    decreases count_special(aliases, w), 0int, aliases[k].1.len() - i,
{
    if i >= aliases[k].1.len() {
    } else {
        let c = aliases[k].1[i];
        if used_contains(used, c, i) {
            lemma_resolve_candidates_len(aliases, dict, w, k, i + 1, used);
        } else {
            assert(wf_alias_def(aliases[k]));
            lemma_letter_not_special(aliases, c);
            lemma_replace_decreases(aliases, w, aliases[k].0, c);
            lemma_first_occurrence(w, aliases[k].0);
            assert(replace_first(w, aliases[k].0, c).len() == w.len());
            lemma_resolve_len(aliases, dict, replace_first(w, aliases[k].0, c), used_add(used, c, i));
            lemma_resolve_candidates_len(aliases, dict, w, k, i + 1, used);
            let sub = resolve(aliases, dict, replace_first(w, aliases[k].0, c), used_add(used, c, i));
            if sub is Some {
                assert(resolve_candidates(aliases, dict, w, k, i, used) == sub);
            } else {
                assert(resolve_candidates(aliases, dict, w, k, i, used) == resolve_candidates(
                    aliases,
                    dict,
                    w,
                    k,
                    i + 1,
                    used,
                ));
            }
        }
    }
}

/// Letter-by-letter wildcard expansion preserves word length.
proof fn lemma_resolve_wildcard_len(
    aliases: Seq<(char, Seq<char>)>,
    dict: Seq<Seq<char>>,
    w: Seq<char>,
    c: int,
    used: Seq<(char, Seq<int>)>,
)
    requires
        wf_aliases(aliases),
        w.contains('*'),
        97 <= c,
    ensures
        resolve_wildcard(aliases, dict, w, c, used) matches Some(r) ==> r.len() == w.len(),
    decreases count_special(aliases, w), 0int, 123 - c,
{
    if c > 122 {
    } else {
        lemma_letter_not_special(aliases, c as char);
        lemma_replace_decreases(aliases, w, '*', c as char);
        lemma_first_occurrence(w, '*');
        assert(replace_first(w, '*', c as char).len() == w.len());
        lemma_resolve_len(aliases, dict, replace_first(w, '*', c as char), used);
        lemma_resolve_wildcard_len(aliases, dict, w, c + 1, used);
        let sub = resolve(aliases, dict, replace_first(w, '*', c as char), used);
        if sub is Some {
            assert(resolve_wildcard(aliases, dict, w, c, used) == sub);
        } else {
            assert(resolve_wildcard(aliases, dict, w, c, used) == resolve_wildcard(
                aliases,
                dict,
                w,
                c + 1,
                used,
            ));
        }
    }
}

/// Resolution preserves word length: every special character is replaced by
/// exactly one letter, and re-casing replaces letters one for one, so a
/// resolved word is always exactly as long as the word it came from.
pub proof fn lemma_resolve_len(
    aliases: Seq<(char, Seq<char>)>,
    dict: Seq<Seq<char>>,
    w: Seq<char>,
    used: Seq<(char, Seq<int>)>,
)
    requires
        wf_aliases(aliases),
    ensures
        resolve(aliases, dict, w, used) matches Some(r) ==> r.len() == w.len(),
    decreases count_special(aliases, w), 1int, 0int,
{
    if w.contains('¤') {
    } else if first_matching_alias(aliases, w) >= 0 {
        lemma_first_matching_alias(aliases, w);
        lemma_resolve_candidates_len(aliases, dict, w, first_matching_alias(aliases, w), 0, used);
    } else if w.contains('*') {
        lemma_resolve_wildcard_len(aliases, dict, w, 97, used);
    }
}

/// One physical alias assignment cannot be used twice in one resolution: a
/// candidate whose (letter, slot) pair is already recorded as consumed is
/// skipped outright — candidate trial `i` gives exactly what trial `i + 1`
/// gives.
pub proof fn lemma_alias_slot_not_reused(
    aliases: Seq<(char, Seq<char>)>,
    dict: Seq<Seq<char>>,
    w: Seq<char>,
    k: int,
    i: int,
    used: Seq<(char, Seq<int>)>,
)
    requires
        wf_aliases(aliases),
        0 <= k < aliases.len(),
        w.contains(aliases[k].0),
        0 <= i < aliases[k].1.len(),
        used_contains(used, aliases[k].1[i], i),
    ensures
        resolve_candidates(aliases, dict, w, k, i, used) == resolve_candidates(
            aliases,
            dict,
            w,
            k,
            i + 1,
            used,
        ),
{
}

/// The alias key handed out for assignment slot `slot`.
fn alias_key_for_slot(slot: usize) -> (c: char)
    requires
        slot < 9,
    ensures
        c == alias_chars()[slot as int],
{
    match slot {
        0 => '①',
        1 => '②',
        2 => '③',
        3 => '④',
        4 => '⑤',
        5 => '⑥',
        6 => '⑦',
        7 => '⑧',
        _ => '⑨',
    }
}

} // verus!
