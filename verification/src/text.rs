//! Character-level text utilities for the scanner: classification predicates,
//! trimming, searching and splitting over character vectors, and the two
//! conversions between `String` and `Vec<char>`.

use vstd::prelude::*;

verus! {

/// Whitespace, as the scanner understands it.
pub open spec fn is_ws_c(c: char) -> bool {
    c == ' ' || c == '\t' || c == '\n' || c == '\r' || c == '\u{b}' || c == '\u{c}'
}

/// The characters that split an expression into an operator application.
pub open spec fn is_join_c(c: char) -> bool {
    c == '+' || c == '-' || c == '*' || c == '/' || c == '>' || c == '<' || c == '=' || c == '!'
}

/// An ASCII letter.
pub open spec fn is_alpha_c(c: char) -> bool {
    ('a' <= c && c <= 'z') || ('A' <= c && c <= 'Z')
}

/// An ASCII digit.
pub open spec fn is_digit_c(c: char) -> bool {
    '0' <= c && c <= '9'
}

/// A character allowed in a definition name: letter, digit or underscore.
pub open spec fn is_word_c(c: char) -> bool {
    is_alpha_c(c) || is_digit_c(c) || c == '_'
}

/// Numeric value of an ASCII digit.
pub open spec fn digit_val(c: char) -> i64 {
    (((c as int) - ('0' as int)) as i64)
}

pub fn is_ws(c: char) -> (r: bool)
    ensures
        r == is_ws_c(c),
{
    c == ' ' || c == '\t' || c == '\n' || c == '\r' || c == '\u{b}' || c == '\u{c}'
}

pub fn is_join(c: char) -> (r: bool)
    ensures
        r == is_join_c(c),
{
    c == '+' || c == '-' || c == '*' || c == '/' || c == '>' || c == '<' || c == '=' || c == '!'
}

pub fn is_alpha(c: char) -> (r: bool)
    ensures
        r == is_alpha_c(c),
{
    ('a' <= c && c <= 'z') || ('A' <= c && c <= 'Z')
}

pub fn is_digit(c: char) -> (r: bool)
    ensures
        r == is_digit_c(c),
{
    '0' <= c && c <= '9'
}

pub fn is_word(c: char) -> (r: bool)
    ensures
        r == is_word_c(c),
{
    is_alpha(c) || is_digit(c) || c == '_'
}

/// Index of the first occurrence of `c` at or after `i`, or the length.
pub open spec fn find_char_from(s: Seq<char>, c: char, i: int) -> int
    decreases s.len() - i,
{
    if i < 0 || i >= s.len() {
        s.len() as int
    } else if s[i] == c {
        i
    } else {
        find_char_from(s, c, i + 1)
    }
}

/// Index of the first whitespace at or after `i`, or the length.
pub open spec fn find_ws_from(s: Seq<char>, i: int) -> int
    decreases s.len() - i,
{
    if i < 0 || i >= s.len() {
        s.len() as int
    } else if is_ws_c(s[i]) {
        i
    } else {
        find_ws_from(s, i + 1)
    }
}

/// Whether a letter occurs at or after `i`.
pub open spec fn has_alpha_from(s: Seq<char>, i: int) -> bool
    decreases s.len() - i,
{
    if i < 0 || i >= s.len() {
        false
    } else {
        is_alpha_c(s[i]) || has_alpha_from(s, i + 1)
    }
}

/// Whether a whitespace character occurs at or after `i`.
pub open spec fn has_ws_from(s: Seq<char>, i: int) -> bool
    decreases s.len() - i,
{
    if i < 0 || i >= s.len() {
        false
    } else {
        is_ws_c(s[i]) || has_ws_from(s, i + 1)
    }
}

/// Whether every character at or after `i` is a digit.
pub open spec fn all_digits_from(s: Seq<char>, i: int) -> bool
    decreases s.len() - i,
{
    if i < 0 || i >= s.len() {
        true
    } else {
        is_digit_c(s[i]) && all_digits_from(s, i + 1)
    }
}

/// Whether every character at or after `i` is a word character.
pub open spec fn all_word_from(s: Seq<char>, i: int) -> bool
    decreases s.len() - i,
{
    if i < 0 || i >= s.len() {
        true
    } else {
        is_word_c(s[i]) && all_word_from(s, i + 1)
    }
}

/// Index of the first occurrence of the two-character arrow `->` at or after
/// `i`, or the length.
pub open spec fn find_arrow_from(s: Seq<char>, i: int) -> int
    decreases s.len() - i,
{
    if i < 0 || i + 1 >= s.len() {
        s.len() as int
    } else if s[i] == '-' && s[i + 1] == '>' {
        i
    } else {
        find_arrow_from(s, i + 1)
    }
}

/// First index at or after `i` holding a non-whitespace character, or the
/// length.
pub open spec fn skip_ws_from(s: Seq<char>, i: int) -> int
    decreases s.len() - i,
{
    if i < 0 || i >= s.len() {
        s.len() as int
    } else if is_ws_c(s[i]) {
        skip_ws_from(s, i + 1)
    } else {
        i
    }
}

/// One past the last index below `j` holding a non-whitespace character, or 0.
pub open spec fn rskip_ws_to(s: Seq<char>, j: int) -> int
    decreases j,
{
    if j <= 0 || j > s.len() {
        0
    } else if is_ws_c(s[j - 1]) {
        rskip_ws_to(s, j - 1)
    } else {
        j
    }
}

/// First index at or after `i` holding a character other than `"`.
pub open spec fn skip_q_from(s: Seq<char>, i: int) -> int
    decreases s.len() - i,
{
    if i < 0 || i >= s.len() {
        s.len() as int
    } else if s[i] == '"' {
        skip_q_from(s, i + 1)
    } else {
        i
    }
}

/// One past the last index below `j` holding a character other than `"`.
pub open spec fn rskip_q_to(s: Seq<char>, j: int) -> int
    decreases j,
{
    if j <= 0 || j > s.len() {
        0
    } else if s[j - 1] == '"' {
        rskip_q_to(s, j - 1)
    } else {
        j
    }
}

/// The text with every leading and trailing quote character removed.
pub open spec fn sp_trim_quotes(s: Seq<char>) -> Seq<char> {
    let lo = skip_q_from(s, 0);
    let hi = rskip_q_to(s, s.len() as int);
    if lo >= hi {
        Seq::empty()
    } else {
        s.subrange(lo, hi)
    }
}

/// The text with leading and trailing whitespace removed.
pub open spec fn sp_trim(s: Seq<char>) -> Seq<char> {
    let lo = skip_ws_from(s, 0);
    let hi = rskip_ws_to(s, s.len() as int);
    if lo >= hi {
        Seq::empty()
    } else {
        s.subrange(lo, hi)
    }
}

/// The digits of `s` from `i` on, folded onto `acc` with checked arithmetic;
/// `None` on a non-digit or on overflow.
pub open spec fn sp_parse_digits(s: Seq<char>, i: int, acc: i64) -> Option<i64>
    decreases s.len() - i,
{
    if i < 0 || i >= s.len() {
        Option::Some(acc)
    } else if !is_digit_c(s[i]) {
        Option::None
    } else {
        match acc.checked_mul(10) {
            Option::None => Option::None,
            Option::Some(a) => match a.checked_add(digit_val(s[i])) {
                Option::None => Option::None,
                Option::Some(b) => sp_parse_digits(s, i + 1, b),
            },
        }
    }
}

/// The whitespace-separated words of `s` from `i` on.
pub open spec fn sp_split_ws_from(s: Seq<char>, i: int) -> Seq<Seq<char>>
    decreases s.len() - i,
    when i >= 0
    via sp_split_ws_from_dec
{
    if i >= s.len() {
        Seq::empty()
    } else if is_ws_c(s[i]) {
        sp_split_ws_from(s, i + 1)
    } else {
        let j = find_ws_from(s, i + 1);
        seq![s.subrange(i, j)] + sp_split_ws_from(s, j)
    }
}

#[via_fn]
proof fn sp_split_ws_from_dec(s: Seq<char>, i: int) {
    if 0 <= i < s.len() && !is_ws_c(s[i]) {
        lemma_find_ws_from(s, i + 1);
    }
}

/// The segments of `s` from `i` on, split at every newline; empty segments
/// are kept, and a trailing newline yields a final empty segment.
pub open spec fn sp_split_lines_from(s: Seq<char>, i: int) -> Seq<Seq<char>>
    decreases s.len() - i,
    when i >= 0
    via sp_split_lines_from_dec
{
    let j = find_char_from(s, '\n', i);
    if j >= s.len() {
        seq![s.subrange(i, s.len() as int)]
    } else {
        seq![s.subrange(i, j)] + sp_split_lines_from(s, j + 1)
    }
}

#[via_fn]
proof fn sp_split_lines_from_dec(s: Seq<char>, i: int) {
    if 0 <= i <= s.len() {
        lemma_find_char_from(s, '\n', i);
    }
}

/// View of a vector of character vectors.
pub open spec fn view_lines(v: Seq<Vec<char>>) -> Seq<Seq<char>> {
    v.map_values(|x: Vec<char>| x@)
}

/// `find_char_from` stays within bounds and past indexes do not hold `c`.
pub proof fn lemma_find_char_from(s: Seq<char>, c: char, i: int)
    requires
        0 <= i <= s.len(),
    ensures
        i <= find_char_from(s, c, i) <= s.len(),
        find_char_from(s, c, i) < s.len() ==> s[find_char_from(s, c, i)] == c,
    decreases s.len() - i,
{
    if i < s.len() && s[i] != c {
        lemma_find_char_from(s, c, i + 1);
    }
}

/// `find_ws_from` stays within bounds and lands on whitespace if anywhere.
pub proof fn lemma_find_ws_from(s: Seq<char>, i: int)
    requires
        0 <= i <= s.len(),
    ensures
        i <= find_ws_from(s, i) <= s.len(),
        find_ws_from(s, i) < s.len() ==> is_ws_c(s[find_ws_from(s, i)]),
    decreases s.len() - i,
{
    if i < s.len() && !is_ws_c(s[i]) {
        lemma_find_ws_from(s, i + 1);
    }
}

/// Copy of `v[lo..hi]`.
pub fn sub_chars(v: &Vec<char>, lo: usize, hi: usize) -> (r: Vec<char>)
    requires
        lo <= hi <= v@.len(),
    ensures
        r@ == v@.subrange(lo as int, hi as int),
    decreases hi - lo,
{
    if lo >= hi {
        let r: Vec<char> = Vec::new();
        assert(r@ =~= v@.subrange(lo as int, hi as int));
        r
    } else {
        let mut r = sub_chars(v, lo, hi - 1);
        r.push(v[hi - 1]);
        assert(r@ =~= v@.subrange(lo as int, hi as int));
        r
    }
}

/// Append the whole of `src` to `dst`.
pub fn append_chars(dst: &mut Vec<char>, src: &Vec<char>)
    ensures
        final(dst)@ == old(dst)@ + src@,
{
    let mut i: usize = 0;
    while i < src.len()
        invariant
            i <= src@.len(),
            dst@ == old(dst)@ + src@.subrange(0, i as int),
        decreases src@.len() - i,
    {
        dst.push(src[i]);
        i = i + 1;
        assert(old(dst)@ + src@.subrange(0, i as int) =~= (old(dst)@ + src@.subrange(
            0,
            i as int - 1,
        )).push(src@[i - 1]));
    }
    assert(src@.subrange(0, src@.len() as int) =~= src@);
}

/// Index of the first occurrence of `c` at or after `i`, or the length.
pub fn find_char(v: &Vec<char>, c: char, i: usize) -> (r: usize)
    requires
        i <= v@.len(),
    ensures
        r == find_char_from(v@, c, i as int),
        i <= r <= v@.len(),
    decreases v@.len() - i,
{
    if i >= v.len() {
        v.len()
    } else if v[i] == c {
        i
    } else {
        find_char(v, c, i + 1)
    }
}

/// Index of the first whitespace at or after `i`, or the length.
pub fn find_ws(v: &Vec<char>, i: usize) -> (r: usize)
    requires
        i <= v@.len(),
    ensures
        r == find_ws_from(v@, i as int),
        i <= r <= v@.len(),
    decreases v@.len() - i,
{
    if i >= v.len() {
        v.len()
    } else if is_ws(v[i]) {
        i
    } else {
        find_ws(v, i + 1)
    }
}

/// Whether a letter occurs at or after `i`.
pub fn has_alpha(v: &Vec<char>, i: usize) -> (r: bool)
    requires
        i <= v@.len(),
    ensures
        r == has_alpha_from(v@, i as int),
    decreases v@.len() - i,
{
    if i >= v.len() {
        false
    } else if is_alpha(v[i]) {
        true
    } else {
        has_alpha(v, i + 1)
    }
}

/// Whether a whitespace character occurs at or after `i`.
pub fn has_ws(v: &Vec<char>, i: usize) -> (r: bool)
    requires
        i <= v@.len(),
    ensures
        r == has_ws_from(v@, i as int),
    decreases v@.len() - i,
{
    if i >= v.len() {
        false
    } else if is_ws(v[i]) {
        true
    } else {
        has_ws(v, i + 1)
    }
}

/// Whether every character at or after `i` is a word character.
pub fn all_word(v: &Vec<char>, i: usize) -> (r: bool)
    requires
        i <= v@.len(),
    ensures
        r == all_word_from(v@, i as int),
    decreases v@.len() - i,
{
    if i >= v.len() {
        true
    } else if is_word(v[i]) {
        all_word(v, i + 1)
    } else {
        false
    }
}

/// Whether every character at or after `i` is a digit.
pub fn all_digits(v: &Vec<char>, i: usize) -> (r: bool)
    requires
        i <= v@.len(),
    ensures
        r == all_digits_from(v@, i as int),
    decreases v@.len() - i,
{
    if i >= v.len() {
        true
    } else if is_digit(v[i]) {
        all_digits(v, i + 1)
    } else {
        false
    }
}

/// Index of the first `->` at or after `i`, or the length.
pub fn find_arrow(v: &Vec<char>, i: usize) -> (r: usize)
    requires
        i <= v@.len(),
    ensures
        r == find_arrow_from(v@, i as int),
        i <= r <= v@.len(),
    decreases v@.len() - i,
{
    if i >= v.len() {
        v.len()
    } else if i + 1 >= v.len() {
        v.len()
    } else if v[i] == '-' && v[i + 1] == '>' {
        i
    } else {
        find_arrow(v, i + 1)
    }
}

/// The text with leading and trailing whitespace removed.
pub fn trim(v: &Vec<char>) -> (r: Vec<char>)
    ensures
        r@ == sp_trim(v@),
{
    let lo = skip_ws(v, 0);
    let hi = rskip_ws(v, v.len());
    if lo >= hi {
        let r: Vec<char> = Vec::new();
        assert(r@ =~= sp_trim(v@));
        r
    } else {
        sub_chars(v, lo, hi)
    }
}

/// First index at or after `i` holding a non-whitespace character.
pub fn skip_ws(v: &Vec<char>, i: usize) -> (r: usize)
    requires
        i <= v@.len(),
    ensures
        r == skip_ws_from(v@, i as int),
        i <= r <= v@.len(),
    decreases v@.len() - i,
{
    if i >= v.len() {
        v.len()
    } else if is_ws(v[i]) {
        skip_ws(v, i + 1)
    } else {
        i
    }
}

/// One past the last index below `j` holding a non-whitespace character.
pub fn rskip_ws(v: &Vec<char>, j: usize) -> (r: usize)
    requires
        j <= v@.len(),
    ensures
        r == rskip_ws_to(v@, j as int),
        r <= j,
    decreases j,
{
    if j == 0 {
        0
    } else if is_ws(v[j - 1]) {
        rskip_ws(v, j - 1)
    } else {
        j
    }
}

/// First index at or after `i` holding a character other than `"`.
pub fn skip_q(v: &Vec<char>, i: usize) -> (r: usize)
    requires
        i <= v@.len(),
    ensures
        r == skip_q_from(v@, i as int),
        i <= r <= v@.len(),
    decreases v@.len() - i,
{
    if i >= v.len() {
        v.len()
    } else if v[i] == '"' {
        skip_q(v, i + 1)
    } else {
        i
    }
}

/// One past the last index below `j` holding a character other than `"`.
pub fn rskip_q(v: &Vec<char>, j: usize) -> (r: usize)
    requires
        j <= v@.len(),
    ensures
        r == rskip_q_to(v@, j as int),
        r <= j,
    decreases j,
{
    if j == 0 {
        0
    } else if v[j - 1] == '"' {
        rskip_q(v, j - 1)
    } else {
        j
    }
}

/// The text with every leading and trailing quote character removed.
pub fn trim_quotes(v: &Vec<char>) -> (r: Vec<char>)
    ensures
        r@ == sp_trim_quotes(v@),
{
    let lo = skip_q(v, 0);
    let hi = rskip_q(v, v.len());
    if lo >= hi {
        let r: Vec<char> = Vec::new();
        assert(r@ =~= sp_trim_quotes(v@));
        r
    } else {
        sub_chars(v, lo, hi)
    }
}

/// Parse the digits of `v` from `i` on, folding onto `acc`.
pub fn parse_digits(v: &Vec<char>, i: usize, acc: i64) -> (r: Option<i64>)
    requires
        i <= v@.len(),
    ensures
        r == sp_parse_digits(v@, i as int, acc),
    decreases v@.len() - i,
{
    if i >= v.len() {
        Some(acc)
    } else if !is_digit(v[i]) {
        None
    } else {
        let d: i64 = (v[i] as i64) - ('0' as i64);
        assert(d == digit_val(v@[i as int]));
        match acc.checked_mul(10) {
            None => None,
            Some(a) => match a.checked_add(d) {
                None => None,
                Some(b) => parse_digits(v, i + 1, b),
            },
        }
    }
}

/// The whitespace-separated words of `v` from `i` on, appended to `acc`.
pub fn split_ws_acc(v: &Vec<char>, i: usize, acc: Vec<Vec<char>>) -> (r: Vec<Vec<char>>)
    requires
        i <= v@.len(),
    ensures
        view_lines(r@) == view_lines(acc@) + sp_split_ws_from(v@, i as int),
    decreases v@.len() - i,
{
    if i >= v.len() {
        assert(view_lines(acc@) =~= view_lines(acc@) + sp_split_ws_from(v@, i as int));
        acc
    } else if is_ws(v[i]) {
        split_ws_acc(v, i + 1, acc)
    } else {
        let j = find_ws(v, i + 1);
        let w = sub_chars(v, i, j);
        let mut acc2 = acc;
        acc2.push(w);
        let r = split_ws_acc(v, j, acc2);
        proof {
            assert(view_lines(acc2@) =~= view_lines(acc@).push(w@));
            assert(view_lines(acc@) + sp_split_ws_from(v@, i as int) =~= view_lines(acc2@)
                + sp_split_ws_from(v@, j as int));
        }
        r
    }
}

/// The whitespace-separated words of `v`.
pub fn split_ws(v: &Vec<char>) -> (r: Vec<Vec<char>>)
    ensures
        view_lines(r@) == sp_split_ws_from(v@, 0),
{
    let acc: Vec<Vec<char>> = Vec::new();
    let r = split_ws_acc(v, 0, acc);
    proof {
        assert(view_lines(r@) =~= sp_split_ws_from(v@, 0));
    }
    r
}

/// The newline-separated segments of `v` from `i` on, appended to `acc`.
pub fn split_lines_acc(v: &Vec<char>, i: usize, acc: Vec<Vec<char>>) -> (r: Vec<Vec<char>>)
    requires
        i <= v@.len(),
    ensures
        view_lines(r@) == view_lines(acc@) + sp_split_lines_from(v@, i as int),
    decreases v@.len() - i,
{
    let j = find_char(v, '\n', i);
    if j >= v.len() {
        let w = sub_chars(v, i, v.len());
        let mut acc2 = acc;
        acc2.push(w);
        proof {
            assert(view_lines(acc2@) =~= view_lines(acc@).push(w@));
            assert(view_lines(acc2@) =~= view_lines(acc@) + sp_split_lines_from(v@, i as int));
        }
        acc2
    } else {
        let w = sub_chars(v, i, j);
        let mut acc2 = acc;
        acc2.push(w);
        let r = split_lines_acc(v, j + 1, acc2);
        proof {
            assert(view_lines(acc2@) =~= view_lines(acc@).push(w@));
            assert(view_lines(acc@) + sp_split_lines_from(v@, i as int) =~= view_lines(acc2@)
                + sp_split_lines_from(v@, j + 1));
        }
        r
    }
}

/// The newline-separated segments of `v`.
pub fn split_lines(v: &Vec<char>) -> (r: Vec<Vec<char>>)
    ensures
        view_lines(r@) == sp_split_lines_from(v@, 0),
        r@.len() >= 1,
{
    let acc: Vec<Vec<char>> = Vec::new();
    let r = split_lines_acc(v, 0, acc);
    proof {
        assert(view_lines(r@) =~= sp_split_lines_from(v@, 0));
        lemma_split_lines_len(v@, 0);
        assert(r@.len() == view_lines(r@).len());
    }
    r
}

/// Splitting yields at least one segment.
pub proof fn lemma_split_lines_len(s: Seq<char>, i: int)
    requires
        0 <= i <= s.len(),
    ensures
        sp_split_lines_from(s, i).len() >= 1,
{
}

/// Compare a character vector with a string slice.
pub fn chars_eq_str(v: &Vec<char>, s: &str) -> (r: bool)
    ensures
        r == (v@ == s@),
{
    let n = s.unicode_len();
    if v.len() != n {
        proof {
            assert(v@.len() != s@.len());
        }
        return false;
    }
    let mut i: usize = 0;
    while i < n
        invariant
            i <= n,
            n == s@.len(),
            n == v@.len(),
            forall|j: int| 0 <= j < i ==> v@[j] == s@[j],
        decreases n - i,
    {
        if v[i] != s.get_char(i) {
            return false;
        }
        i = i + 1;
    }
    proof {
        assert(v@ =~= s@);
    }
    true
}

/// The characters of a string.
///
/// Relies on `str::chars`: the iterator yields exactly the characters of the
/// string, in order.
#[verifier::external_body]
pub fn chars_of(s: &str) -> (r: Vec<char>)
    ensures
        r@ == s@,
{
    s.chars().collect()
}

/// A string holding exactly the given characters.
///
/// Relies on `String as FromIterator<char>`: collecting characters builds the
/// string of those characters, in order.
#[verifier::external_body]
pub fn string_from_chars(v: &Vec<char>) -> (r: String)
    ensures
        r@ == v@,
{
    v.iter().collect()
}

} // verus!
