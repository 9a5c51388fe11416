//! Character-level text helpers used by every derivation in the library.
//!
//! Strings are handled as sequences of Unicode scalar values (`String@`).
//! Whitespace and control characters are classified here; alphanumeric
//! classification and case mapping come from `std` through small trusted
//! wrappers. Everything built on them is verified here.

use vstd::prelude::*;
use vstd::string::*;

verus! {

/// What `str::to_lowercase` returns for a string.
pub uninterp spec fn lowercase_of(s: Seq<char>) -> Seq<char>;

/// Whether `char::is_alphanumeric` holds of a character.
pub uninterp spec fn alphanumeric(c: char) -> bool;

/// Whether a character has the Unicode `White_Space` property, as
/// `char::is_whitespace` decides: the 25 code points U+0009–U+000D, U+0020,
/// U+0085, U+00A0, U+1680, U+2000–U+200A, U+2028, U+2029, U+202F, U+205F and
/// U+3000.
pub open spec fn whitespace(c: char) -> bool {
    let v = c as u32;
    ||| 0x9 <= v <= 0xD
    ||| v == 0x20
    ||| v == 0x85
    ||| v == 0xA0
    ||| v == 0x1680
    ||| 0x2000 <= v <= 0x200A
    ||| v == 0x2028
    ||| v == 0x2029
    ||| v == 0x202F
    ||| v == 0x205F
    ||| v == 0x3000
}

/// Whether a character is in the general category `Cc`, as
/// `char::is_control` decides: U+0000–U+001F and U+007F–U+009F.
pub open spec fn control(c: char) -> bool {
    let v = c as u32;
    v <= 0x1F || (0x7F <= v <= 0x9F)
}

/// Wraps `str::to_lowercase`: the result is the name `lowercase_of` applied
/// to the argument. Nothing else of Unicode case mapping is claimed.
#[verifier::external_body]
pub fn to_lowercase(s: &str) -> (r: String)
    ensures
        r@ == lowercase_of(s@),
{
    s.to_lowercase()
}

/// Wraps `char::is_alphanumeric`; the result is named `alphanumeric`.
#[verifier::external_body]
pub fn is_alphanumeric(c: char) -> (b: bool)
    ensures
        b == alphanumeric(c),
{
    c.is_alphanumeric()
}

/// `char::is_whitespace`.
pub fn is_whitespace(c: char) -> (b: bool)
    ensures
        b == whitespace(c),
{
    let v = c as u32;
    (0x9 <= v && v <= 0xD) || v == 0x20 || v == 0x85 || v == 0xA0 || v == 0x1680 || (0x2000 <= v && v <= 0x200A)
        || v == 0x2028 || v == 0x2029 || v == 0x202F || v == 0x205F || v == 0x3000
}

/// `char::is_control`.
pub fn is_control(c: char) -> (b: bool)
    ensures
        b == control(c),
{
    let v = c as u32;
    v <= 0x1F || (0x7F <= v && v <= 0x9F)
}

/// What `str`'s `Debug` formatting (`format!("{:?}", s)`) gives for a
/// text: the text quoted, with escapes.
pub uninterp spec fn debug_of(s: Seq<char>) -> Seq<char>;

/// Wraps `<str as Debug>::fmt` through `format!("{:?}")`; the result is
/// named `debug_of`. Its escaping rules are not restated here.
#[verifier::external_body]
pub fn debug_text(s: &str) -> (r: String)
    ensures
        r@ == debug_of(s@),
{
    format!("{:?}", s)
}

/// Wraps `FromIterator<char> for String`: collects characters into a string
/// holding exactly those characters, in order.
#[verifier::external_body]
pub fn string_from_chars(v: &Vec<char>) -> (s: String)
    ensures
        s@ == v@,
{
    v.iter().collect()
}

/// Number of bytes `c` takes in UTF-8, as `char::len_utf8` documents it.
pub open spec fn utf8_len(c: char) -> nat {
    if (c as u32) < 0x80 {
        1
    } else if (c as u32) < 0x800 {
        2
    } else if (c as u32) < 0x10000 {
        3
    } else {
        4
    }
}

/// Number of bytes of a character sequence in UTF-8 (what `str::len` reports).
pub open spec fn utf8_len_seq(s: Seq<char>) -> nat
    decreases s.len(),
{
    if s.len() == 0 {
        0
    } else {
        utf8_len_seq(s.drop_last()) + utf8_len(s.last())
    }
}

/// ASCII hexadecimal digit, as `char::is_ascii_hexdigit` documents it.
pub open spec fn hexdigit(c: char) -> bool {
    ('0' <= c && c <= '9') || ('a' <= c && c <= 'f') || ('A' <= c && c <= 'F')
}

/// ASCII-only lowercase mapping, as `char::to_ascii_lowercase` documents it.
pub open spec fn ascii_lower(c: char) -> char {
    if 'A' <= c && c <= 'Z' {
        ((c as u32) + 32) as char
    } else {
        c
    }
}

/// `needle` occurs in `hay` starting at index `i`.
pub open spec fn occurs_at(hay: Seq<char>, needle: Seq<char>, i: int) -> bool {
    0 <= i && i + needle.len() <= hay.len() && hay.subrange(i, i + needle.len()) == needle
}

/// `needle` occurs somewhere in `hay` (what `str::contains` answers).
pub open spec fn contains_seq(hay: Seq<char>, needle: Seq<char>) -> bool {
    exists|i: int| occurs_at(hay, needle, i)
}

/// The index of the first occurrence of `needle` in `hay`, if any (`str::find`,
/// counted in characters).
pub open spec fn first_occurrence(hay: Seq<char>, needle: Seq<char>) -> Option<int> {
    if contains_seq(hay, needle) {
        Some(choose|i: int| occurs_at(hay, needle, i) && forall|j: int| 0 <= j < i ==> !occurs_at(hay, needle, j))
    } else {
        None
    }
}

/// Index of the first non-whitespace character (or the length).
pub open spec fn trim_start_index(s: Seq<char>) -> int
    decreases s.len(),
{
    if s.len() == 0 {
        0
    } else if whitespace(s[0]) {
        1 + trim_start_index(s.drop_first())
    } else {
        0
    }
}

/// One past the last non-whitespace character (or zero).
pub open spec fn trim_end_index(s: Seq<char>) -> int
    decreases s.len(),
{
    if s.len() == 0 {
        0
    } else if whitespace(s.last()) {
        trim_end_index(s.drop_last())
    } else {
        s.len() as int
    }
}

/// `str::trim`: leading and trailing whitespace removed.
pub open spec fn trimmed(s: Seq<char>) -> Seq<char> {
    if trim_start_index(s) < trim_end_index(s) {
        s.subrange(trim_start_index(s), trim_end_index(s))
    } else {
        Seq::empty()
    }
}


/// The trimmed end lies past every non-whitespace character.
pub proof fn lemma_trim_end_past(s: Seq<char>, i: int)
    requires
        0 <= i < s.len(),
        !whitespace(s[i]),
    ensures
        i < trim_end_index(s) <= s.len(),
    decreases s.len(),
{
    if i < s.len() - 1 && whitespace(s.last()) {
        lemma_trim_end_past(s.drop_last(), i);
    }
}

/// A text that starts with a non-whitespace character trims to a text that
/// starts with it.
pub proof fn lemma_trimmed_keeps_head(s: Seq<char>)
    requires
        s.len() > 0,
        !whitespace(s[0]),
    ensures
        trimmed(s).len() > 0,
        trimmed(s)[0] == s[0],
{
    lemma_trim_end_past(s, 0);
}

/// The first occurrence is unique: any minimal occurrence is the chosen one.
pub proof fn lemma_first_occurrence_unique(hay: Seq<char>, needle: Seq<char>, i: int)
    requires
        occurs_at(hay, needle, i),
        forall|j: int| 0 <= j < i ==> !occurs_at(hay, needle, j),
    ensures
        first_occurrence(hay, needle) == Some(i),
{
    assert(contains_seq(hay, needle));
    let k = choose|k: int| occurs_at(hay, needle, k) && forall|j: int| 0 <= j < k ==> !occurs_at(hay, needle, j);
    assert(occurs_at(hay, needle, k) && forall|j: int| 0 <= j < k ==> !occurs_at(hay, needle, j));
    if k < i {
        assert(!occurs_at(hay, needle, k));
    }
    if i < k {
        assert(!occurs_at(hay, needle, i));
    }
}

/// The characters of a string slice.
pub fn chars_of(s: &str) -> (v: Vec<char>)
    ensures
        v@ == s@,
{
    let n = s.unicode_len();
    let mut v: Vec<char> = Vec::new();
    let mut i: usize = 0;
    while i < n
        invariant
            n == s@.len(),
            i <= n,
            v@ == s@.subrange(0, i as int),
        decreases n - i,
    {
        let c = s.get_char(i);
        v.push(c);
        i = i + 1;
        assert(v@ =~= s@.subrange(0, i as int));
    }
    assert(v@ =~= s@);
    v
}

/// The characters of `str::to_lowercase(s)`.
pub fn lower_chars(s: &str) -> (v: Vec<char>)
    ensures
        v@ == lowercase_of(s@),
{
    let l = to_lowercase(s);
    chars_of(l.as_str())
}

/// Whether `needle` occurs in `hay` at index `i`.
pub fn matches_at(hay: &Vec<char>, needle: &Vec<char>, i: usize) -> (b: bool)
    requires
        i <= hay.len(),
    ensures
        b == occurs_at(hay@, needle@, i as int),
{
    if needle.len() > hay.len() - i {
        return false;
    }
    let mut j: usize = 0;
    while j < needle.len()
        invariant
            j <= needle.len(),
            i + needle.len() <= hay.len(),
            forall|k: int| 0 <= k < j ==> hay@[i + k] == needle@[k],
        decreases needle.len() - j,
    {
        if hay[i + j] != needle[j] {
            assert(hay@.subrange(i as int, i + needle.len())[j as int] != needle@[j as int]);
            return false;
        }
        j = j + 1;
    }
    assert(hay@.subrange(i as int, i + needle.len()) =~= needle@);
    true
}

/// Index of the first occurrence of `needle` in `hay` (`str::find`, in characters).
pub fn find_chars(hay: &Vec<char>, needle: &Vec<char>) -> (r: Option<usize>)
    ensures
        r matches Some(i) ==> occurs_at(hay@, needle@, i as int) && (forall|j: int|
            0 <= j < i ==> !occurs_at(hay@, needle@, j)),
        r matches Some(i) ==> first_occurrence(hay@, needle@) == Some(i as int),
        r is None ==> first_occurrence(hay@, needle@) is None,
        r is None <==> !contains_seq(hay@, needle@),
{
    let mut i: usize = 0;
    loop
        invariant
            i <= hay.len(),
            forall|j: int| 0 <= j < i ==> !occurs_at(hay@, needle@, j),
        decreases hay.len() - i,
    {
        if matches_at(hay, needle, i) {
            proof {
                lemma_first_occurrence_unique(hay@, needle@, i as int);
            }
            return Some(i);
        }
        if i == hay.len() {
            assert forall|j: int| !occurs_at(hay@, needle@, j) by {
                if 0 <= j && j < i {
                }
            }
            return None;
        }
        i = i + 1;
    }
}

/// Whether `needle` occurs in `hay` (`str::contains`).
pub fn contains_chars(hay: &Vec<char>, needle: &Vec<char>) -> (b: bool)
    ensures
        b == contains_seq(hay@, needle@),
{
    match find_chars(hay, needle) {
        Some(i) => {
            assert(occurs_at(hay@, needle@, i as int));
            true
        },
        None => false,
    }
}

/// Whether `needle` (a string slice) occurs in `hay`.
pub fn contains_str(hay: &Vec<char>, needle: &str) -> (b: bool)
    ensures
        b == contains_seq(hay@, needle@),
{
    let n = chars_of(needle);
    contains_chars(hay, &n)
}

/// `hay` begins with `prefix`.
pub fn starts_with_str(hay: &Vec<char>, prefix: &str) -> (b: bool)
    ensures
        b == occurs_at(hay@, prefix@, 0),
{
    let p = chars_of(prefix);
    matches_at(hay, &p, 0)
}

proof fn lemma_trim_start_bound(s: Seq<char>)
    ensures
        0 <= trim_start_index(s) <= s.len(),
        forall|k: int| 0 <= k < trim_start_index(s) ==> whitespace(s[k]),
        trim_start_index(s) < s.len() ==> !whitespace(s[trim_start_index(s)]),
    decreases s.len(),
{
    if s.len() > 0 && whitespace(s[0]) {
        lemma_trim_start_bound(s.drop_first());
        assert forall|k: int| 0 <= k < trim_start_index(s) implies whitespace(s[k]) by {
            if k > 0 {
                assert(s[k] == s.drop_first()[k - 1]);
            }
        }
    }
}

proof fn lemma_trim_end_bound(s: Seq<char>)
    ensures
        0 <= trim_end_index(s) <= s.len(),
        forall|k: int| trim_end_index(s) <= k < s.len() ==> whitespace(s[k]),
        trim_end_index(s) > 0 ==> !whitespace(s[trim_end_index(s) - 1]),
    decreases s.len(),
{
    if s.len() > 0 && whitespace(s.last()) {
        lemma_trim_end_bound(s.drop_last());
        assert forall|k: int| trim_end_index(s) <= k < s.len() implies whitespace(s[k]) by {
            if k < s.len() - 1 {
                assert(s[k] == s.drop_last()[k]);
            }
        }
    }
}

proof fn lemma_trim_start_char(s: Seq<char>, i: int)
    requires
        0 <= i <= s.len(),
        forall|k: int| 0 <= k < i ==> whitespace(s[k]),
        i == s.len() || !whitespace(s[i]),
    ensures
        trim_start_index(s) == i,
    decreases s.len(),
{
    if s.len() > 0 && whitespace(s[0]) {
        lemma_trim_start_char(s.drop_first(), i - 1);
    }
}

proof fn lemma_trim_end_char(s: Seq<char>, e: int)
    requires
        0 <= e <= s.len(),
        forall|k: int| e <= k < s.len() ==> whitespace(s[k]),
        e == 0 || !whitespace(s[e - 1]),
    ensures
        trim_end_index(s) == e,
    decreases s.len(),
{
    if s.len() > 0 && whitespace(s.last()) {
        assert(e < s.len());
        lemma_trim_end_char(s.drop_last(), e);
    }
}

/// `str::trim` on characters.
pub fn trim_chars(s: &Vec<char>) -> (t: Vec<char>)
    ensures
        t@ == trimmed(s@),
{
    let n = s.len();
    let mut start: usize = 0;
    while start < n && is_whitespace(s[start])
        invariant
            start <= n,
            n == s.len(),
            forall|k: int| 0 <= k < start ==> whitespace(s@[k]),
        decreases n - start,
    {
        start = start + 1;
    }
    proof {
        lemma_trim_start_char(s@, start as int);
    }
    let mut end: usize = n;
    while end > start && is_whitespace(s[end - 1])
        invariant
            start <= end <= n,
            n == s.len(),
            forall|k: int| end <= k < n ==> whitespace(s@[k]),
        decreases end,
    {
        end = end - 1;
    }
    proof {
        if end > start {
            lemma_trim_end_char(s@, end as int);
        } else {
            lemma_trim_end_bound(s@);
            lemma_trim_start_bound(s@);
            if trim_end_index(s@) > trim_start_index(s@) {
                let e = trim_end_index(s@);
                assert(!whitespace(s@[e - 1]));
                assert(e - 1 >= start);
                assert(e - 1 < n);
                if e - 1 >= end {
                } else {
                }
            }
        }
    }
    let mut t: Vec<char> = Vec::new();
    let mut i: usize = start;
    while i < end
        invariant
            start <= i <= end <= n,
            n == s.len(),
            t@ == s@.subrange(start as int, i as int),
        decreases end - i,
    {
        t.push(s[i]);
        i = i + 1;
        assert(t@ =~= s@.subrange(start as int, i as int));
    }
    t
}

/// Strict lexicographic order on character sequences (code point order; the
/// order `str`'s `Ord` gives, since UTF-8 preserves code point order).
pub open spec fn lex_lt(a: Seq<char>, b: Seq<char>) -> bool
    decreases a.len(),
{
    if a.len() == 0 {
        b.len() > 0
    } else if b.len() == 0 {
        false
    } else if a[0] != b[0] {
        a[0] < b[0]
    } else {
        lex_lt(a.drop_first(), b.drop_first())
    }
}

/// `lex_lt` is irreflexive.
pub proof fn lemma_lex_irreflexive(a: Seq<char>)
    ensures
        !lex_lt(a, a),
    decreases a.len(),
{
    if a.len() > 0 {
        lemma_lex_irreflexive(a.drop_first());
    }
}

/// `lex_lt` is transitive.
pub proof fn lemma_lex_transitive(a: Seq<char>, b: Seq<char>, c: Seq<char>)
    requires
        lex_lt(a, b),
        lex_lt(b, c),
    ensures
        lex_lt(a, c),
    decreases a.len(),
{
    if a.len() > 0 && b.len() > 0 && c.len() > 0 {
        if a[0] == b[0] && b[0] == c[0] {
            lemma_lex_transitive(a.drop_first(), b.drop_first(), c.drop_first());
        }
    }
}

/// `lex_lt` is total: distinct sequences are ordered one way.
pub proof fn lemma_lex_total(a: Seq<char>, b: Seq<char>)
    ensures
        a == b || lex_lt(a, b) || lex_lt(b, a),
    decreases a.len(),
{
    if a.len() > 0 && b.len() > 0 {
        if a[0] == b[0] {
            lemma_lex_total(a.drop_first(), b.drop_first());
            if a.drop_first() == b.drop_first() {
                assert(a =~= seq![a[0]] + a.drop_first());
                assert(b =~= seq![b[0]] + b.drop_first());
            }
        } else {
        }
    } else if a.len() == 0 && b.len() == 0 {
        assert(a =~= b);
    }
}

/// `lex_lt` is asymmetric.
pub proof fn lemma_lex_asymmetric(a: Seq<char>, b: Seq<char>)
    requires
        lex_lt(a, b),
    ensures
        !lex_lt(b, a),
{
    if lex_lt(b, a) {
        lemma_lex_transitive(a, b, a);
        lemma_lex_irreflexive(a);
    }
}

/// Exec form of `lex_lt`.
pub fn text_less(a: &Vec<char>, b: &Vec<char>) -> (r: bool)
    ensures
        r == lex_lt(a@, b@),
{
    let mut i: usize = 0;
    assert(a@.subrange(0, a@.len() as int) =~= a@);
    assert(b@.subrange(0, b@.len() as int) =~= b@);
    while i < a.len() && i < b.len() && a[i] == b[i]
        invariant
            i <= a.len(),
            i <= b.len(),
            forall|k: int| 0 <= k < i ==> a@[k] == b@[k],
            lex_lt(a@, b@) == lex_lt(a@.subrange(i as int, a@.len() as int), b@.subrange(i as int, b@.len() as int)),
        decreases a.len() - i,
    {
        proof {
            let sa = a@.subrange(i as int, a@.len() as int);
            let sb = b@.subrange(i as int, b@.len() as int);
            assert(sa.drop_first() =~= a@.subrange(i + 1, a@.len() as int));
            assert(sb.drop_first() =~= b@.subrange(i + 1, b@.len() as int));
        }
        i = i + 1;
    }
    proof {
        let sa = a@.subrange(i as int, a@.len() as int);
        let sb = b@.subrange(i as int, b@.len() as int);
        if i < a.len() && i < b.len() {
            assert(sa[0] == a@[i as int]);
            assert(sb[0] == b@[i as int]);
        }
    }
    if i == a.len() {
        i < b.len()
    } else if i == b.len() {
        false
    } else {
        a[i] < b[i]
    }
}

/// Exec equality of character vectors.
pub fn text_eq(a: &Vec<char>, b: &Vec<char>) -> (r: bool)
    ensures
        r == (a@ == b@),
{
    if a.len() != b.len() {
        return false;
    }
    let mut i: usize = 0;
    while i < a.len()
        invariant
            i <= a.len(),
            a.len() == b.len(),
            forall|k: int| 0 <= k < i ==> a@[k] == b@[k],
        decreases a.len() - i,
    {
        if a[i] != b[i] {
            return false;
        }
        i = i + 1;
    }
    assert(a@ =~= b@);
    true
}

/// Which characters separate pieces when splitting.
pub enum Separator {
    /// `str::split(|c| !c.is_alphanumeric())`.
    NonAlphanumeric,
    /// `char::is_whitespace` (used by `str::split_whitespace`).
    Whitespace,
}

/// Whether `c` separates pieces under `sep`.
pub open spec fn separates(sep: Separator, c: char) -> bool {
    match sep {
        Separator::NonAlphanumeric => !alphanumeric(c),
        Separator::Whitespace => whitespace(c),
    }
}

/// The pieces of `str::split` with a character predicate: `n` separators give
/// `n + 1` pieces, empty ones included.
pub open spec fn split_pieces(s: Seq<char>, sep: Separator) -> Seq<Seq<char>>
    decreases s.len(),
{
    if s.len() == 0 {
        seq![Seq::<char>::empty()]
    } else {
        let p = split_pieces(s.drop_last(), sep);
        if separates(sep, s.last()) {
            p.push(Seq::<char>::empty())
        } else {
            p.update(p.len() - 1, p.last().push(s.last()))
        }
    }
}

/// `split_pieces` always has at least one piece.
pub proof fn lemma_split_nonempty(s: Seq<char>, sep: Separator)
    ensures
        split_pieces(s, sep).len() >= 1,
    decreases s.len(),
{
    if s.len() > 0 {
        lemma_split_nonempty(s.drop_last(), sep);
    }
}

/// Whether `c` separates under `sep` (exec).
pub fn is_separator(sep: &Separator, c: char) -> (b: bool)
    ensures
        b == separates(*sep, c),
{
    match sep {
        Separator::NonAlphanumeric => !is_alphanumeric(c),
        Separator::Whitespace => is_whitespace(c),
    }
}

/// The pieces of `s` split at separator characters.
pub fn split_chars(s: &Vec<char>, sep: &Separator) -> (pieces: Vec<Vec<char>>)
    ensures
        pieces@.len() == split_pieces(s@, *sep).len(),
        forall|k: int| 0 <= k < pieces@.len() ==> #[trigger] pieces@[k]@ == split_pieces(s@, *sep)[k],
{
    let mut pieces: Vec<Vec<char>> = Vec::new();
    pieces.push(Vec::new());
    let mut i: usize = 0;
    proof {
        assert(s@.subrange(0, 0) =~= Seq::<char>::empty());
    }
    while i < s.len()
        invariant
            i <= s.len(),
            pieces@.len() >= 1,
            pieces@.len() == split_pieces(s@.subrange(0, i as int), *sep).len(),
            forall|k: int| 0 <= k < pieces@.len() ==> #[trigger] pieces@[k]@ == split_pieces(s@.subrange(0, i as int), *sep)[k],
        decreases s.len() - i,
    {
        let c = s[i];
        let ghost prev = s@.subrange(0, i as int);
        let ghost next = s@.subrange(0, i + 1);
        assert(next.drop_last() =~= prev);
        assert(next.last() == c);
        if is_separator(sep, c) {
            pieces.push(Vec::new());
        } else {
            let last = pieces.len() - 1;
            let mut piece = pieces.remove(last);
            piece.push(c);
            pieces.push(piece);
        }
        i = i + 1;
        proof {
            assert forall|k: int| 0 <= k < pieces@.len() implies #[trigger] pieces@[k]@ == split_pieces(next, *sep)[k] by {
            }
        }
    }
    assert(s@.subrange(0, s.len() as int) =~= s@);
    pieces
}

/// The sixteen lowercase hexadecimal digit characters.
pub open spec fn digit_chars() -> Seq<char> {
    seq!['0', '1', '2', '3', '4', '5', '6', '7', '8', '9', 'a', 'b', 'c', 'd', 'e', 'f']
}

/// Decimal rendering of a natural number (what `{}` prints for an integer).
pub open spec fn decimal(n: nat) -> Seq<char>
    decreases n,
{
    if n < 10 {
        seq![digit_chars()[n as int]]
    } else {
        decimal(n / 10).push(digit_chars()[(n % 10) as int])
    }
}

/// Fixed-width lowercase hexadecimal rendering of the low `count` digits.
pub open spec fn hex_fixed(v: nat, count: nat) -> Seq<char>
    decreases count,
{
    if count == 0 {
        Seq::empty()
    } else {
        hex_fixed(v / 16, (count - 1) as nat).push(digit_chars()[(v % 16) as int])
    }
}

/// Exec digit character.
pub fn digit_char_pub(d: u64) -> (c: char)
    requires
        d < 16,
    ensures
        c == digit_chars()[d as int],
{
    digit_char(d)
}

/// Exec digit character.
fn digit_char(d: u64) -> (c: char)
    requires
        d < 16,
    ensures
        c == digit_chars()[d as int],
{
    let table: [char; 16] = ['0', '1', '2', '3', '4', '5', '6', '7', '8', '9', 'a', 'b', 'c', 'd', 'e', 'f'];
    proof {
        assert(table@ == digit_chars());
    }
    table[d as usize]
}

/// Appends the decimal rendering of `n`.
pub fn push_decimal(out: &mut Vec<char>, n: u128)
    ensures
        final(out)@ == old(out)@ + decimal(n as nat),
    decreases n,
{
    if n >= 10 {
        push_decimal(out, n / 10);
    }
    out.push(digit_char((n % 10) as u64));
    proof {
        if n >= 10 {
            assert(decimal(n as nat) == decimal((n / 10) as nat).push(digit_chars()[(n % 10) as int]));
        }
    }
    assert(final(out)@ =~= old(out)@ + decimal(n as nat)) by {
        if n < 10 {
            assert(decimal(n as nat) =~= seq![digit_chars()[n as int]]);
        }
    }
}

/// Appends the `count` low hexadecimal digits of `v`, most significant first.
pub fn push_hex_fixed(out: &mut Vec<char>, v: u128, count: u32)
    ensures
        final(out)@ == old(out)@ + hex_fixed(v as nat, count as nat),
    decreases count,
{
    if count == 0 {
        assert(old(out)@ + hex_fixed(v as nat, 0) =~= old(out)@);
        return;
    }
    push_hex_fixed(out, v / 16, count - 1);
    out.push(digit_char((v % 16) as u64));
    assert(final(out)@ =~= old(out)@ + hex_fixed(v as nat, count as nat));
}

/// Appends the characters of a string slice.
pub fn push_str(out: &mut Vec<char>, s: &str)
    ensures
        final(out)@ == old(out)@ + s@,
{
    let v = chars_of(s);
    push_chars(out, &v);
}

/// Appends characters.
pub fn push_chars(out: &mut Vec<char>, v: &Vec<char>)
    ensures
        final(out)@ == old(out)@ + v@,
{
    let mut i: usize = 0;
    while i < v.len()
        invariant
            i <= v.len(),
            out@ == old(out)@ + v@.subrange(0, i as int),
        decreases v.len() - i,
    {
        out.push(v[i]);
        i = i + 1;
        assert(out@ =~= old(out)@ + v@.subrange(0, i as int));
    }
    assert(v@.subrange(0, v.len() as int) =~= v@);
}

/// Joins pieces with a separator (`slice::join`).
pub open spec fn join_seqs(pieces: Seq<Seq<char>>, sep: Seq<char>) -> Seq<char>
    decreases pieces.len(),
{
    if pieces.len() == 0 {
        Seq::empty()
    } else if pieces.len() == 1 {
        pieces[0]
    } else {
        join_seqs(pieces.drop_last(), sep) + sep + pieces.last()
    }
}

/// Exec `join` over character vectors.
pub fn join_chars(pieces: &Vec<Vec<char>>, sep: &str) -> (r: Vec<char>)
    ensures
        r@ == join_seqs(pieces@.map_values(|p: Vec<char>| p@), sep@),
{
    let ghost views = pieces@.map_values(|p: Vec<char>| p@);
    let mut r: Vec<char> = Vec::new();
    let mut i: usize = 0;
    while i < pieces.len()
        invariant
            i <= pieces.len(),
            views == pieces@.map_values(|p: Vec<char>| p@),
            r@ == join_seqs(views.subrange(0, i as int), sep@),
        decreases pieces.len() - i,
    {
        let ghost before = r@;
        if i > 0 {
            push_str(&mut r, sep);
        }
        push_chars(&mut r, &pieces[i]);
        proof {
            let sub = views.subrange(0, i + 1);
            assert(sub.drop_last() =~= views.subrange(0, i as int));
            if i == 0 {
                assert(r@ =~= sub[0]);
            }
        }
        i = i + 1;
    }
    assert(views.subrange(0, pieces.len() as int) =~= views);
    r
}

/// Exec `join` over strings.
pub fn join_strings(pieces: &Vec<String>, sep: &str) -> (r: Vec<char>)
    ensures
        r@ == join_seqs(pieces@.map_values(|p: String| p@), sep@),
{
    let ghost views = pieces@.map_values(|p: String| p@);
    let mut r: Vec<char> = Vec::new();
    let mut i: usize = 0;
    while i < pieces.len()
        invariant
            i <= pieces.len(),
            views == pieces@.map_values(|p: String| p@),
            r@ == join_seqs(views.subrange(0, i as int), sep@),
        decreases pieces.len() - i,
    {
        if i > 0 {
            push_str(&mut r, sep);
        }
        push_str(&mut r, pieces[i].as_str());
        proof {
            let sub = views.subrange(0, i + 1);
            assert(sub.drop_last() =~= views.subrange(0, i as int));
            if i == 0 {
                assert(r@ =~= sub[0]);
            }
        }
        i = i + 1;
    }
    assert(views.subrange(0, pieces.len() as int) =~= views);
    r
}

/// A string from characters (owned).
pub fn to_string(v: &Vec<char>) -> (s: String)
    ensures
        s@ == v@,
{
    string_from_chars(v)
}

/// `to_lowercase` of a character sequence.
pub fn lower_of(v: &Vec<char>) -> (r: Vec<char>)
    ensures
        r@ == lowercase_of(v@),
{
    let s = string_from_chars(v);
    lower_chars(s.as_str())
}

/// The longest prefix of ASCII hexadecimal digits.
pub open spec fn hex_prefix(s: Seq<char>) -> Seq<char>
    decreases s.len(),
{
    if s.len() > 0 && hexdigit(s[0]) {
        seq![s[0]] + hex_prefix(s.drop_first())
    } else {
        Seq::empty()
    }
}

/// Exec `hex_prefix` of `s[from..]`.
pub fn hex_prefix_from(s: &Vec<char>, from: usize) -> (r: Vec<char>)
    requires
        from <= s.len(),
    ensures
        r@ == hex_prefix(s@.subrange(from as int, s@.len() as int)),
    decreases s.len() - from,
{
    if from < s.len() && is_ascii_hexdigit(s[from]) {
        let rest = hex_prefix_from(s, from + 1);
        let mut r: Vec<char> = Vec::new();
        r.push(s[from]);
        push_chars(&mut r, &rest);
        proof {
            let t = s@.subrange(from as int, s@.len() as int);
            assert(t.drop_first() =~= s@.subrange(from + 1, s@.len() as int));
            assert(t[0] == s@[from as int]);
        }
        r
    } else {
        Vec::new()
    }
}

/// `char::is_ascii_hexdigit`.
pub fn is_ascii_hexdigit(c: char) -> (b: bool)
    ensures
        b == hexdigit(c),
{
    ('0' <= c && c <= '9') || ('a' <= c && c <= 'f') || ('A' <= c && c <= 'F')
}

/// The characters of `s[from..to]`.
pub fn slice_chars(s: &Vec<char>, from: usize, to: usize) -> (r: Vec<char>)
    requires
        from <= to <= s.len(),
    ensures
        r@ == s@.subrange(from as int, to as int),
{
    let mut r: Vec<char> = Vec::new();
    let mut i: usize = from;
    while i < to
        invariant
            from <= i <= to <= s.len(),
            r@ == s@.subrange(from as int, i as int),
        decreases to - i,
    {
        r.push(s[i]);
        i = i + 1;
        assert(r@ =~= s@.subrange(from as int, i as int));
    }
    r
}

} // verus!
