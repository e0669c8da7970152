//! Character-level text utilities shared by the line codec, the command
//! extractor and the dispatcher: pattern scanning, whitespace splitting and
//! joining, carriage-return trimming, and ASCII case-insensitive comparison.

use vstd::prelude::*;

verus! {

/// The sequence `s` holds the pattern `pat` starting at index `i`.
pub open spec fn contains_at(s: Seq<char>, pat: Seq<char>, i: int) -> bool {
    0 <= i && i + pat.len() <= s.len() && s.subrange(i, i + pat.len() as int) == pat
}

/// `pat` is a prefix of `s`.
pub open spec fn has_prefix(s: Seq<char>, pat: Seq<char>) -> bool {
    contains_at(s, pat, 0)
}

/// Index of the first occurrence of `pat` in `s` at or after `i`, if any.
pub open spec fn first_at_or_after(s: Seq<char>, pat: Seq<char>, i: int) -> Option<int>
    decreases s.len() - i
        when 0 <= i <= s.len() && pat.len() > 0
{
    if i + pat.len() > s.len() {
        None
    } else if contains_at(s, pat, i) {
        Some(i)
    } else {
        first_at_or_after(s, pat, i + 1)
    }
}

/// Index of the last occurrence of `pat` in `s` at or before `i`, if any.
pub open spec fn last_at_or_before(s: Seq<char>, pat: Seq<char>, i: int) -> Option<int>
    decreases i + 1
        when -1 <= i
{
    if i < 0 {
        None
    } else if contains_at(s, pat, i) {
        Some(i)
    } else {
        last_at_or_before(s, pat, i - 1)
    }
}

/// Index of the first occurrence of the character `c` in `s` at or after `i`.
pub open spec fn first_char_at_or_after(s: Seq<char>, c: char, i: int) -> Option<int>
    decreases s.len() - i
        when 0 <= i <= s.len()
{
    if i >= s.len() {
        None
    } else if s[i] == c {
        Some(i)
    } else {
        first_char_at_or_after(s, c, i + 1)
    }
}

/// `s` with every trailing carriage-return character removed.
pub open spec fn strip_trailing_crs(s: Seq<char>) -> Seq<char>
    decreases s.len(),
{
    if s.len() > 0 && s[s.len() - 1] == '\r' {
        strip_trailing_crs(s.subrange(0, s.len() - 1))
    } else {
        s
    }
}

/// `s` split on every single space character; empty pieces are kept, and
/// splitting the empty sequence yields one empty piece.
pub open spec fn split_spaces(s: Seq<char>) -> Seq<Seq<char>>
    decreases s.len(),
{
    match first_char_at_or_after(s, ' ', 0) {
        None => seq![s],
        Some(i) => if 0 <= i < s.len() {
            seq![s.subrange(0, i)] + split_spaces(s.subrange(i + 1, s.len() as int))
        } else {
            seq![s]
        },
    }
}

/// A found first occurrence of a character lies in bounds, holds the
/// character, and nothing before it does.
pub proof fn lemma_first_char_at_or_after(s: Seq<char>, c: char, i: int)
    requires
        0 <= i <= s.len(),
    ensures
        match first_char_at_or_after(s, c, i) {
            Some(j) => i <= j < s.len() && s[j] == c && forall|k: int|
                i <= k < j ==> s[k] != c,
            None => forall|k: int| i <= k < s.len() ==> s[k] != c,
        },
    decreases s.len() - i,
{
    if i < s.len() && s[i] != c {
        lemma_first_char_at_or_after(s, c, i + 1);
    }
}

/// The pieces joined back with a single space between neighbours.
pub open spec fn join_spaces(parts: Seq<Seq<char>>) -> Seq<char>
    decreases parts.len(),
{
    if parts.len() == 0 {
        Seq::empty()
    } else if parts.len() == 1 {
        parts[0]
    } else {
        parts[0] + seq![' '] + join_spaces(parts.drop_first())
    }
}

/// ASCII lower-casing on code points: the upper-case letters fold, everything
/// else is unchanged.
pub open spec fn fold_code(c: char) -> int {
    if 65 <= c as int && c as int <= 90 {
        c as int + 32
    } else {
        c as int
    }
}

/// The two sequences are equal up to ASCII case.
pub open spec fn seq_eq_ignore_ascii_case(a: Seq<char>, b: Seq<char>) -> bool {
    a.len() == b.len() && forall|i: int| 0 <= i < a.len() ==> fold_code(a[i]) == fold_code(b[i])
}

} // verus!

verus! {

/// ASCII case folding of one character's code point, executable form.
pub fn fold_char(c: char) -> (r: u32)
    ensures
        r as int == fold_code(c),
{
    let u = c as u32;
    if 65 <= u && u <= 90 {
        u + 32
    } else {
        u
    }
}

/// The two strings are equal up to ASCII case.
pub fn eq_ignore_case(a: &str, b: &str) -> (r: bool)
    ensures
        r == seq_eq_ignore_ascii_case(a@, b@),
{
    let alen = a.unicode_len();
    let blen = b.unicode_len();
    if alen != blen {
        return false;
    }
    let mut k: usize = 0;
    while k < alen
        invariant
            alen == a@.len(),
            blen == b@.len(),
            alen == blen,
            k <= alen,
            forall|i: int| 0 <= i < k ==> fold_code(a@[i]) == fold_code(b@[i]),
        decreases alen - k,
    {
        if fold_char(a.get_char(k)) != fold_char(b.get_char(k)) {
            return false;
        }
        k = k + 1;
    }
    true
}

/// Copy of `s` with every trailing carriage-return removed.
pub fn strip_cr(s: &str) -> (r: String)
    ensures
        r@ == strip_trailing_crs(s@),
    decreases s@.len(),
{
    let n = s.unicode_len();
    if n > 0 && s.get_char(n - 1) == '\r' {
        strip_cr(s.substring_char(0, n - 1))
    } else {
        s.to_owned()
    }
}

/// First index at or after `from` where `s` holds the character `c`.
pub fn find_char_from(s: &str, c: char, from: usize) -> (r: Option<usize>)
    requires
        from <= s@.len(),
    ensures
        match r {
            Some(u) => first_char_at_or_after(s@, c, from as int) == Some(u as int),
            None => first_char_at_or_after(s@, c, from as int) is None,
        },
{
    let n = s.unicode_len();
    let mut i: usize = from;
    while i < n
        invariant
            from <= i <= n,
            n == s@.len(),
            first_char_at_or_after(s@, c, from as int) == first_char_at_or_after(
                s@,
                c,
                i as int,
            ),
        decreases n - i,
    {
        if s.get_char(i) == c {
            return Some(i);
        }
        i = i + 1;
    }
    None
}

/// Whether `s` holds the pattern `pat` starting at index `i`.
pub fn match_at(s: &str, pat: &str, i: usize) -> (r: bool)
    ensures
        r == contains_at(s@, pat@, i as int),
{
    let n = s.unicode_len();
    let m = pat.unicode_len();
    if i > n || m > n - i {
        return false;
    }
    let mut k: usize = 0;
    while k < m
        invariant
            k <= m,
            n == s@.len(),
            m == pat@.len(),
            i + m <= n,
            forall|j: int| 0 <= j < k ==> s@[i + j] == pat@[j],
        decreases m - k,
    {
        if s.get_char(i + k) != pat.get_char(k) {
            assert(s@.subrange(i as int, i + m) != pat@) by {
                assert(s@.subrange(i as int, i + m)[k as int] == s@[i + k]);
            }
            return false;
        }
        k = k + 1;
    }
    assert(s@.subrange(i as int, i + m) =~= pat@);
    true
}

/// First index where `s` holds the pattern `pat`.
pub fn find_first(s: &str, pat: &str) -> (r: Option<usize>)
    requires
        pat@.len() > 0,
    ensures
        match r {
            Some(u) => first_at_or_after(s@, pat@, 0) == Some(u as int),
            None => first_at_or_after(s@, pat@, 0) is None,
        },
{
    let n = s.unicode_len();
    let m = pat.unicode_len();
    if m > n {
        return None;
    }
    let mut i: usize = 0;
    while i <= n - m
        invariant
            i <= n,
            m <= n,
            n == s@.len(),
            m == pat@.len(),
            m > 0,
            first_at_or_after(s@, pat@, 0) == first_at_or_after(s@, pat@, i as int),
        decreases n - i,
    {
        if match_at(s, pat, i) {
            return Some(i);
        }
        i = i + 1;
    }
    None
}

/// Last index at or before `s.len() - pat.len()` where `s` holds `pat`;
/// `None` whenever the pattern is longer than the text.
pub fn find_last(s: &str, pat: &str) -> (r: Option<usize>)
    ensures
        pat@.len() <= s@.len() ==> match r {
            Some(u) => last_at_or_before(s@, pat@, s@.len() - pat@.len()) == Some(u as int),
            None => last_at_or_before(s@, pat@, s@.len() - pat@.len()) is None,
        },
        pat@.len() > s@.len() ==> r is None,
{
    let n = s.unicode_len();
    let m = pat.unicode_len();
    if m > n {
        return None;
    }
    let mut i: usize = n - m;
    loop
        invariant
            i <= n - m,
            n == s@.len(),
            m == pat@.len(),
            m <= n,
            last_at_or_before(s@, pat@, (n - m) as int) == last_at_or_before(s@, pat@, i as int),
        decreases i + 1,
    {
        if match_at(s, pat, i) {
            return Some(i);
        }
        if i == 0 {
            assert(last_at_or_before(s@, pat@, -1) is None);
            return None;
        }
        i = i - 1;
    }
}

} // verus!

verus! {

/// Pieces of `s` split on every single space, empty pieces kept.
pub fn split_spaces_exec(s: &str) -> (r: Vec<String>)
    ensures
        r.deep_view() == split_spaces(s@),
    decreases s@.len(),
{
    let n = s.unicode_len();
    match find_char_from(s, ' ', 0) {
        None => {
            let mut one: Vec<String> = Vec::new();
            one.push(s.to_owned());
            proof {
                lemma_first_char_at_or_after(s@, ' ', 0);
                assert(one.deep_view() =~= split_spaces(s@));
            }
            one
        },
        Some(i) => {
            proof {
                lemma_first_char_at_or_after(s@, ' ', 0);
            }
            let head = s.substring_char(0, i).to_owned();
            let tail = s.substring_char(i + 1, n);
            let mut rest = split_spaces_exec(tail);
            rest.insert(0, head);
            proof {
                assert(rest.deep_view() =~= split_spaces(s@));
            }
            rest
        },
    }
}

/// The elements of `parts` from index `from` on, joined with single spaces.
pub fn join_from(parts: &Vec<String>, from: usize) -> (r: String)
    requires
        from <= parts@.len(),
    ensures
        r@ == join_spaces(parts.deep_view().skip(from as int)),
    decreases parts@.len() - from,
{
    if from == parts.len() {
        String::new()
    } else if from + 1 == parts.len() {
        let r = parts[from].clone();
        proof {
            assert(parts.deep_view().skip(from as int) =~= seq![parts.deep_view()[from as int]]);
        }
        r
    } else {
        let mut r = parts[from].clone();
        r.append(" ");
        let rest = join_from(parts, from + 1);
        r.append(rest.as_str());
        proof {
            let dv = parts.deep_view().skip(from as int);
            assert(dv[0] == parts.deep_view()[from as int]);
            assert(dv.drop_first() =~= parts.deep_view().skip(from as int + 1));
            reveal_strlit(" ");
            assert(" "@ =~= seq![' ']);
            assert(r@ == join_spaces(dv));
        }
        r
    }
}

} // verus!

verus! {

/// If `pat` stands at `j` and nowhere in `[i, j)`, then `j` is the first
/// occurrence at or after `i`.
pub proof fn lemma_first_found(s: Seq<char>, pat: Seq<char>, i: int, j: int)
    requires
        pat.len() > 0,
        0 <= i <= j,
        contains_at(s, pat, j),
        forall|k: int| i <= k < j ==> !contains_at(s, pat, k),
    ensures
        first_at_or_after(s, pat, i) == Some(j),
    decreases j - i,
{
    if i < j {
        lemma_first_found(s, pat, i + 1, j);
    }
}

/// If `pat` stands at `j` and nowhere in `(j, hi]`, then `j` is the last
/// occurrence at or before `hi`.
pub proof fn lemma_last_found(s: Seq<char>, pat: Seq<char>, hi: int, j: int)
    requires
        0 <= j <= hi,
        contains_at(s, pat, j),
        forall|k: int| j < k <= hi ==> !contains_at(s, pat, k),
    ensures
        last_at_or_before(s, pat, hi) == Some(j),
    decreases hi - j,
{
    if hi > j {
        lemma_last_found(s, pat, hi - 1, j);
    }
}

/// A found first occurrence of a pattern lies in bounds and nothing before
/// it matches.
pub proof fn lemma_first_at_or_after(s: Seq<char>, pat: Seq<char>, i: int)
    requires
        pat.len() > 0,
        0 <= i <= s.len(),
    ensures
        match first_at_or_after(s, pat, i) {
            Some(j) => i <= j && contains_at(s, pat, j) && forall|k: int|
                i <= k < j ==> !contains_at(s, pat, k),
            None => forall|k: int| i <= k ==> !contains_at(s, pat, k),
        },
    decreases s.len() - i,
{
    if i + pat.len() > s.len() {
    } else if !contains_at(s, pat, i) {
        lemma_first_at_or_after(s, pat, i + 1);
    }
}

/// A found last occurrence of a pattern is a match and nothing later up to
/// the bound matches.
pub proof fn lemma_last_at_or_before(s: Seq<char>, pat: Seq<char>, i: int)
    requires
        -1 <= i,
    ensures
        match last_at_or_before(s, pat, i) {
            Some(j) => j <= i && contains_at(s, pat, j) && forall|k: int|
                j < k <= i ==> !contains_at(s, pat, k),
            None => forall|k: int| k <= i ==> !contains_at(s, pat, k),
        },
    decreases i + 1,
{
    if i >= 0 && !contains_at(s, pat, i) {
        lemma_last_at_or_before(s, pat, i - 1);
    }
}

} // verus!
