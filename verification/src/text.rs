//! Character-level helpers: ASCII case folding and Unicode whitespace trimming.

use vstd::prelude::*;

verus! {

/// The code of `c` after ASCII case folding: `A`..=`Z` become `a`..=`z`,
/// every other character keeps its code.
pub open spec fn folded_code(c: char) -> int {
    let x = c as int;
    if 65 <= x <= 90 {
        x + 32
    } else {
        x
    }
}

/// A character sequence after ASCII case folding, as character codes.
pub open spec fn folded(s: Seq<char>) -> Seq<int> {
    s.map_values(|c: char| folded_code(c))
}

/// The text of an optional string.
pub open spec fn optional_text(o: Option<&str>) -> Option<Seq<char>> {
    match o {
        Some(s) => Some(s@),
        None => None,
    }
}

/// Whether `c` has the Unicode `White_Space` property.
pub open spec fn is_white_space(c: char) -> bool {
    let x = c as int;
    ||| 0x9 <= x <= 0xD
    ||| x == 0x20
    ||| x == 0x85
    ||| x == 0xA0
    ||| x == 0x1680
    ||| 0x2000 <= x <= 0x200A
    ||| x == 0x2028
    ||| x == 0x2029
    ||| x == 0x202F
    ||| x == 0x205F
    ||| x == 0x3000
}

/// `s` without its leading whitespace.
pub open spec fn trim_start(s: Seq<char>) -> Seq<char>
    decreases s.len(),
{
    if s.len() > 0 && is_white_space(s[0]) {
        trim_start(s.drop_first())
    } else {
        s
    }
}

/// `s` without its trailing whitespace.
pub open spec fn trim_end(s: Seq<char>) -> Seq<char>
    decreases s.len(),
{
    if s.len() > 0 && is_white_space(s.last()) {
        trim_end(s.drop_last())
    } else {
        s
    }
}

/// `s` without its leading and trailing whitespace.
pub open spec fn trim(s: Seq<char>) -> Seq<char> {
    trim_end(trim_start(s))
}


/// `c` with an ASCII upper-case letter replaced by its lower-case letter.
pub open spec fn ascii_lower_char(c: char) -> char {
    if 'A' <= c && c <= 'Z' {
        ((c as int) + ('a' as int - 'A' as int)) as char
    } else {
        c
    }
}

/// `s` with each ASCII upper-case letter replaced by its lower-case letter.
pub open spec fn ascii_lowercase(s: Seq<char>) -> Seq<char> {
    s.map_values(|c: char| ascii_lower_char(c))
}

/// Case folding sends each upper-case ASCII letter to the code of its
/// lower-case letter and leaves every other character as it is.
pub proof fn lemma_folding_lowers_ascii_letters(c: char)
    ensures
        'A' <= c && c <= 'Z' ==> folded_code(c) == c as int + ('a' as int - 'A' as int),
        !('A' <= c && c <= 'Z') ==> folded_code(c) == c as int,
        folded_code(c) == ascii_lower_char(c) as int,
{
}

proof fn lemma_lower_char_codes(a: char, b: char)
    ensures
        (folded_code(a) == folded_code(b)) <==> (ascii_lower_char(a) == ascii_lower_char(b)),
{
    lemma_folding_lowers_ascii_letters(a);
    lemma_folding_lowers_ascii_letters(b);
    let la = ascii_lower_char(a);
    let lb = ascii_lower_char(b);
    if la as int == lb as int {
        vstd::utf8::char_u32_cast(la, la as u32);
        vstd::utf8::char_u32_cast(lb, lb as u32);
    }
}

/// Two texts fold alike exactly when their ASCII lowercase forms are equal.
pub proof fn lemma_folded_is_ascii_lowercase(s: Seq<char>, t: Seq<char>)
    ensures
        (folded(s) == folded(t)) <==> (ascii_lowercase(s) == ascii_lowercase(t)),
{
    if folded(s) == folded(t) {
        assert(folded(s).len() == folded(t).len());
        assert forall|i: int| 0 <= i < s.len() implies ascii_lowercase(s)[i] == ascii_lowercase(
            t,
        )[i] by {
            assert(folded(s)[i] == folded(t)[i]);
            lemma_lower_char_codes(s[i], t[i]);
        }
        assert(ascii_lowercase(s) =~= ascii_lowercase(t));
    }
    if ascii_lowercase(s) == ascii_lowercase(t) {
        assert(ascii_lowercase(s).len() == ascii_lowercase(t).len());
        assert forall|i: int| 0 <= i < s.len() implies folded(s)[i] == folded(t)[i] by {
            assert(ascii_lowercase(s)[i] == ascii_lowercase(t)[i]);
            lemma_lower_char_codes(s[i], t[i]);
        }
        assert(folded(s) =~= folded(t));
    }
}

/// Among ASCII characters only tab, line feed, vertical tab, form feed,
/// carriage return and space are white space.
pub proof fn lemma_ascii_white_space(c: char)
    requires
        (c as int) < 128,
    ensures
        is_white_space(c) <==> (c == '\t' || c == '\n' || c == '\u{b}' || c == '\u{c}' || c
            == '\r' || c == ' '),
{
}

/// Trimming keeps a text whose first and last characters are not white
/// space as it is, and removes only white space otherwise: what it gives is
/// a piece of the text with white space alone before and after it.
pub proof fn lemma_trim_removes_only_white_space(s: Seq<char>)
    ensures
        (s.len() == 0 || (!is_white_space(s[0]) && !is_white_space(s.last()))) ==> trim(s) == s,
        exists|i: int, j: int|
            #![trigger s.subrange(i, j)]
            0 <= i <= j <= s.len() && trim(s) == s.subrange(i, j) && (forall|k: int|
                0 <= k < i ==> is_white_space(#[trigger] s[k])) && (forall|k: int|
                j <= k < s.len() ==> is_white_space(#[trigger] s[k])),
{
    if s.len() > 0 && !is_white_space(s[0]) && !is_white_space(s.last()) {
        assert(trim_start(s) == s);
        assert(trim_end(s) == s);
    }
    let i = trim_start_index(s);
    let rest = s.subrange(i, s.len() as int);
    let j = trim_end_index(rest);
    assert(rest.subrange(0, j) =~= s.subrange(i, i + j));
    assert forall|k: int| i + j <= k < s.len() implies is_white_space(#[trigger] s[k]) by {
        assert(s[k] == rest[k - i]);
    }
    assert(trim(s) == s.subrange(i, i + j));
}

proof fn trim_start_index(s: Seq<char>) -> (i: int)
    ensures
        0 <= i <= s.len(),
        trim_start(s) == s.subrange(i, s.len() as int),
        forall|k: int| 0 <= k < i ==> is_white_space(#[trigger] s[k]),
    decreases s.len(),
{
    if s.len() > 0 && is_white_space(s[0]) {
        let i1 = trim_start_index(s.drop_first());
        assert(s.drop_first().subrange(i1, s.len() - 1) =~= s.subrange(i1 + 1, s.len() as int));
        assert forall|k: int| 0 <= k < i1 + 1 implies is_white_space(#[trigger] s[k]) by {
            if k > 0 {
                assert(s[k] == s.drop_first()[k - 1]);
            }
        }
        i1 + 1
    } else {
        assert(s.subrange(0, s.len() as int) =~= s);
        0
    }
}

proof fn trim_end_index(s: Seq<char>) -> (j: int)
    ensures
        0 <= j <= s.len(),
        trim_end(s) == s.subrange(0, j),
        forall|k: int| j <= k < s.len() ==> is_white_space(#[trigger] s[k]),
    decreases s.len(),
{
    if s.len() > 0 && is_white_space(s.last()) {
        let j1 = trim_end_index(s.drop_last());
        assert(s.drop_last().subrange(0, j1) =~= s.subrange(0, j1));
        assert forall|k: int| j1 <= k < s.len() implies is_white_space(#[trigger] s[k]) by {
            if k < s.len() - 1 {
                assert(s[k] == s.drop_last()[k]);
            }
        }
        j1
    } else {
        assert(s.subrange(0, s.len() as int) =~= s);
        s.len() as int
    }
}

fn fold_char(c: char) -> (r: u32)
    ensures
        r as int == folded_code(c),
{
    let x = c as u32;
    if 65 <= x && x <= 90 {
        x + 32
    } else {
        x
    }
}

fn white_space(c: char) -> (r: bool)
    ensures
        r == is_white_space(c),
{
    let x = c as u32;
    (0x9 <= x && x <= 0xD) || x == 0x20 || x == 0x85 || x == 0xA0 || x == 0x1680 || (0x2000 <= x
        && x <= 0x200A) || x == 0x2028 || x == 0x2029 || x == 0x202F || x == 0x205F || x == 0x3000
}

/// Compares two strings, ignoring the case of ASCII letters.
pub fn eq_ignore_ascii_case(a: &str, b: &str) -> (r: bool)
    ensures
        r == (folded(a@) == folded(b@)),
{
    let n = a.unicode_len();
    let m = b.unicode_len();
    if n != m {
        assert(folded(a@).len() != folded(b@).len());
        return false;
    }
    let mut i: usize = 0;
    while i < n
        invariant
            n == a@.len(),
            m == b@.len(),
            n == m,
            i <= n,
            forall|j: int| 0 <= j < i ==> folded_code(#[trigger] a@[j]) == folded_code(b@[j]),
        decreases n - i,
    {
        let x = fold_char(a.get_char(i));
        let y = fold_char(b.get_char(i));
        if x != y {
            assert(folded(a@)[i as int] != folded(b@)[i as int]);
            return false;
        }
        i = i + 1;
    }
    assert(folded(a@) =~= folded(b@));
    true
}

proof fn lemma_trim_start_skip(s: Seq<char>, i: int)
    requires
        0 <= i < s.len(),
        is_white_space(s[i]),
    ensures
        trim_start(s.subrange(i, s.len() as int)) == trim_start(s.subrange(i + 1, s.len() as int)),
{
    assert(s.subrange(i, s.len() as int).drop_first() =~= s.subrange(i + 1, s.len() as int));
}

proof fn lemma_trim_end_skip(s: Seq<char>, i: int, j: int)
    requires
        0 <= i < j <= s.len(),
        is_white_space(s[j - 1]),
    ensures
        trim_end(s.subrange(i, j)) == trim_end(s.subrange(i, j - 1)),
{
    assert(s.subrange(i, j).drop_last() =~= s.subrange(i, j - 1));
}

/// `s` without its leading and trailing Unicode whitespace.
pub fn trim_whitespace(s: &str) -> (r: &str)
    ensures
        r@ == trim(s@),
{
    let n = s.unicode_len();
    let mut i: usize = 0;
    assert(s@.subrange(0, n as int) =~= s@);
    while i < n && white_space(s.get_char(i))
        invariant
            n == s@.len(),
            i <= n,
            trim_start(s@) == trim_start(s@.subrange(i as int, n as int)),
        decreases n - i,
    {
        proof {
            lemma_trim_start_skip(s@, i as int);
        }
        i = i + 1;
    }
    assert(trim_start(s@) == s@.subrange(i as int, n as int));
    let mut j: usize = n;
    while j > i && white_space(s.get_char(j - 1))
        invariant
            n == s@.len(),
            i <= j <= n,
            trim_start(s@) == s@.subrange(i as int, n as int),
            trim(s@) == trim_end(s@.subrange(i as int, j as int)),
        decreases j - i,
    {
        proof {
            lemma_trim_end_skip(s@, i as int, j as int);
        }
        j = j - 1;
    }
    assert(trim_end(s@.subrange(i as int, j as int)) == s@.subrange(i as int, j as int));
    s.substring_char(i, j)
}

/// Whether `s` holds nothing but whitespace.
pub fn is_blank(s: &str) -> (r: bool)
    ensures
        r == (trim(s@).len() == 0),
{
    trim_whitespace(s).unicode_len() == 0
}

} // verus!
