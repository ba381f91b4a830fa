//! Character-sequence utilities shared by the report codecs: substring
//! search, splitting and joining, trimming, and decimal numerals.

use vstd::prelude::*;

verus! {

// ---------------------------------------------------------------------------
// Substring search
// ---------------------------------------------------------------------------

/// True when `needle` occurs in `hay` starting at index `i`.
pub open spec fn is_match_at(hay: Seq<char>, needle: Seq<char>, i: int) -> bool {
    0 <= i && i + needle.len() <= hay.len() && hay.subrange(i, i + needle.len()) == needle
}

/// Index of the first occurrence of `needle` in `hay`, if any.
pub open spec fn find_sub(hay: Seq<char>, needle: Seq<char>) -> Option<int>
    decreases hay.len(),
{
    if needle.len() == 0 {
        Some(0)
    } else if hay.len() < needle.len() {
        None
    } else if hay.subrange(0, needle.len() as int) == needle {
        Some(0)
    } else {
        match find_sub(hay.drop_first(), needle) {
            Some(j) => Some(j + 1),
            None => None,
        }
    }
}

/// True when `needle` occurs somewhere in `hay`.
pub open spec fn contains_sub(hay: Seq<char>, needle: Seq<char>) -> bool {
    find_sub(hay, needle) is Some
}

/// True when the character `c` occurs in `s`.
pub open spec fn has_char(s: Seq<char>, c: char) -> bool {
    exists|i: int| 0 <= i < s.len() && s[i] == c
}

/// `find_sub` returns the first match: a match at the returned index and no
/// match before it, or no match at all when it returns `None`.
pub proof fn lemma_find_sub_spec(hay: Seq<char>, needle: Seq<char>)
    ensures
        match find_sub(hay, needle) {
            Some(i) => 0 <= i && is_match_at(hay, needle, i) && (forall|j: int|
                0 <= j < i ==> !is_match_at(hay, needle, j)),
            None => forall|j: int| !is_match_at(hay, needle, j),
        },
    decreases hay.len(),
{
    if needle.len() == 0 {
        assert(hay.subrange(0, 0) =~= needle);
    } else if hay.len() < needle.len() {
    } else if hay.subrange(0, needle.len() as int) == needle {
    } else {
        lemma_find_sub_spec(hay.drop_first(), needle);
        assert forall|j: int| 0 <= j implies (is_match_at(hay.drop_first(), needle, j)
            <==> is_match_at(hay, needle, j + 1)) by {
            if 0 <= j && j + needle.len() <= hay.drop_first().len() {
                assert(hay.drop_first().subrange(j, j + needle.len() as int) =~= hay.subrange(
                    j + 1,
                    j + 1 + needle.len(),
                ));
            }
        }
        match find_sub(hay.drop_first(), needle) {
            Some(i) => {
                assert(is_match_at(hay, needle, i + 1));
                assert forall|j: int| 0 <= j < i + 1 implies !is_match_at(hay, needle, j) by {
                    if j == 0 {
                        assert(hay.subrange(0, needle.len() as int) != needle);
                    } else {
                        assert(!is_match_at(hay.drop_first(), needle, j - 1));
                    }
                }
            },
            None => {
                assert forall|j: int| !is_match_at(hay, needle, j) by {
                    if j == 0 {
                        assert(hay.subrange(0, needle.len() as int) != needle);
                    } else if j > 0 {
                        assert(!is_match_at(hay.drop_first(), needle, j - 1));
                    }
                }
            },
        }
    }
}

/// A single-character needle matches exactly where that character occurs.
pub proof fn lemma_find_char_occurrence(hay: Seq<char>, c: char)
    ensures
        contains_sub(hay, seq![c]) <==> has_char(hay, c),
{
    lemma_find_sub_spec(hay, seq![c]);
    if has_char(hay, c) {
        let i = choose|i: int| 0 <= i < hay.len() && hay[i] == c;
        assert(hay.subrange(i, i + 1) =~= seq![c]);
        assert(is_match_at(hay, seq![c], i));
    }
    if contains_sub(hay, seq![c]) {
        let i = find_sub(hay, seq![c]).unwrap();
        assert(hay.subrange(i, i + 1)[0] == hay[i]);
    }
}

// ---------------------------------------------------------------------------
// Splitting and joining
// ---------------------------------------------------------------------------

/// Pieces of `hay` between occurrences of the separator `sep`, leftmost
/// occurrence first.  With no occurrence (or an empty separator) the result
/// is the single piece `hay`.
pub open spec fn split_sub(hay: Seq<char>, sep: Seq<char>) -> Seq<Seq<char>>
    decreases hay.len(),
{
    if sep.len() == 0 {
        seq![hay]
    } else {
        match find_sub(hay, sep) {
            None => seq![hay],
            Some(i) => if 0 <= i && i + sep.len() <= hay.len() {
                seq![hay.subrange(0, i)] + split_sub(
                    hay.subrange(i + sep.len(), hay.len() as int),
                    sep,
                )
            } else {
                seq![hay]
            },
        }
    }
}

/// The pieces interleaved with the separator.
pub open spec fn join_sub(pieces: Seq<Seq<char>>, sep: Seq<char>) -> Seq<char>
    decreases pieces.len(),
{
    if pieces.len() == 0 {
        Seq::empty()
    } else if pieces.len() == 1 {
        pieces[0]
    } else {
        pieces[0] + sep + join_sub(pieces.drop_first(), sep)
    }
}

/// The first occurrence of `sep` in `p + sep` is the one appended at the end:
/// `p` neither contains `sep` nor ends in a prefix of it that the appended
/// copy would complete.
pub open spec fn sep_at_boundary(p: Seq<char>, sep: Seq<char>) -> bool {
    find_sub(p + sep, sep) == Some(p.len() as int)
}

/// Splitting always yields at least one piece.
pub proof fn lemma_split_sub_len(hay: Seq<char>, sep: Seq<char>)
    ensures
        split_sub(hay, sep).len() >= 1,
    decreases hay.len(),
{
    if sep.len() > 0 {
        match find_sub(hay, sep) {
            None => {},
            Some(i) => {
                if 0 <= i && i + sep.len() <= hay.len() {
                    lemma_split_sub_len(hay.subrange(i + sep.len(), hay.len() as int), sep);
                }
            },
        }
    }
}

/// A sequence without any occurrence of the separator splits into itself.
pub proof fn lemma_split_sub_whole(p: Seq<char>, sep: Seq<char>)
    requires
        sep.len() >= 1,
        find_sub(p, sep) is None,
    ensures
        split_sub(p, sep) == seq![p],
{
}

/// `sep_at_boundary(p, sep)` rules out any occurrence of `sep` inside `p`.
pub proof fn lemma_sep_at_boundary_no_inner(p: Seq<char>, sep: Seq<char>)
    requires
        sep.len() >= 1,
        sep_at_boundary(p, sep),
    ensures
        find_sub(p, sep) is None,
{
    lemma_find_sub_spec(p + sep, sep);
    lemma_find_sub_spec(p, sep);
    if find_sub(p, sep) is Some {
        let i = find_sub(p, sep).unwrap();
        assert((p + sep).subrange(i, i + sep.len()) =~= p.subrange(i, i + sep.len()));
        assert(is_match_at(p + sep, sep, i));
    }
}

/// Splitting a concatenation `p + sep + tail` peels off the piece `p`.
pub proof fn lemma_split_of_concat(p: Seq<char>, sep: Seq<char>, tail: Seq<char>)
    requires
        sep.len() >= 1,
        sep_at_boundary(p, sep),
    ensures
        split_sub(p + sep + tail, sep) == seq![p] + split_sub(tail, sep),
{
    let s = p + sep + tail;
    lemma_find_sub_spec(p + sep, sep);
    assert(is_match_at(p + sep, sep, p.len() as int));
    assert(s.subrange(p.len() as int, p.len() as int + sep.len()) =~= (p + sep).subrange(
        p.len() as int,
        p.len() as int + sep.len(),
    ));
    assert(is_match_at(s, sep, p.len() as int));
    assert forall|j: int| 0 <= j < p.len() implies !is_match_at(s, sep, j) by {
        if is_match_at(s, sep, j) {
            assert(s.subrange(j, j + sep.len()) =~= (p + sep).subrange(j, j + sep.len()));
            assert(is_match_at(p + sep, sep, j));
        }
    }
    lemma_find_sub_spec(s, sep);
    assert(find_sub(s, sep) == Some(p.len() as int));
    assert(s.subrange(0, p.len() as int) =~= p);
    assert(s.subrange(p.len() as int + sep.len(), s.len() as int) =~= tail);
}

/// Splitting inverts joining when every piece keeps the separator whole only
/// at the seams.
pub proof fn lemma_split_join(pieces: Seq<Seq<char>>, sep: Seq<char>)
    requires
        pieces.len() >= 1,
        sep.len() >= 1,
        forall|k: int| 0 <= k < pieces.len() ==> sep_at_boundary(#[trigger] pieces[k], sep),
    ensures
        split_sub(join_sub(pieces, sep), sep) == pieces,
    decreases pieces.len(),
{
    if pieces.len() == 1 {
        lemma_sep_at_boundary_no_inner(pieces[0], sep);
        lemma_split_sub_whole(pieces[0], sep);
        assert(split_sub(join_sub(pieces, sep), sep) =~= pieces);
    } else {
        let rest = pieces.drop_first();
        lemma_split_join(rest, sep);
        lemma_split_of_concat(pieces[0], sep, join_sub(rest, sep));
        assert(join_sub(pieces, sep) == pieces[0] + sep + join_sub(rest, sep));
        assert(split_sub(join_sub(pieces, sep), sep) =~= pieces);
    }
}

/// `sep_at_boundary` follows once no occurrence of the separator begins
/// before the appended copy.
proof fn lemma_sep_at_boundary_from_no_match(p: Seq<char>, sep: Seq<char>)
    requires
        sep.len() >= 1,
        forall|j: int| 0 <= j < p.len() ==> !is_match_at(p + sep, sep, j),
    ensures
        sep_at_boundary(p, sep),
{
    let s = p + sep;
    assert(s.subrange(p.len() as int, p.len() as int + sep.len()) =~= sep);
    assert(is_match_at(s, sep, p.len() as int));
    lemma_find_sub_spec(s, sep);
    match find_sub(s, sep) {
        None => {
            assert(!is_match_at(s, sep, p.len() as int));
        },
        Some(i) => {
            if i < p.len() {
                assert(is_match_at(s, sep, i));
            }
            if i > p.len() {
                assert(!is_match_at(s, sep, p.len() as int));
            }
        },
    }
}

/// Establishes `sep_at_boundary` for a one-character separator.
pub proof fn lemma_sep_at_boundary_char(p: Seq<char>, c: char)
    requires
        !has_char(p, c),
    ensures
        sep_at_boundary(p, seq![c]),
{
    let sep = seq![c];
    let s = p + sep;
    assert forall|j: int| 0 <= j < p.len() implies !is_match_at(s, sep, j) by {
        if is_match_at(s, sep, j) {
            assert(s.subrange(j, j + 1)[0] == s[j]);
            assert(p[j] == c);
        }
    }
    lemma_sep_at_boundary_from_no_match(p, sep);
}

/// Establishes `sep_at_boundary` for a two-character separator whose two
/// characters differ.
pub proof fn lemma_sep_at_boundary_two(p: Seq<char>, a: char, b: char)
    requires
        a != b,
        forall|j: int| !is_match_at(p, seq![a, b], j),
    ensures
        sep_at_boundary(p, seq![a, b]),
{
    let sep = seq![a, b];
    let s = p + sep;
    assert forall|j: int| 0 <= j < p.len() implies !is_match_at(s, sep, j) by {
        if is_match_at(s, sep, j) {
            lemma_two_boundary_point(p, a, b, j);
        }
    }
    lemma_sep_at_boundary_from_no_match(p, sep);
}

/// An occurrence of the separator `[a, b]` that begins inside `p` lies
/// wholly inside `p` whenever the two characters differ.
proof fn lemma_two_boundary_point(p: Seq<char>, a: char, b: char, j: int)
    requires
        a != b,
        0 <= j < p.len(),
        is_match_at(p + seq![a, b], seq![a, b], j),
    ensures
        is_match_at(p, seq![a, b], j),
{
    let sep = seq![a, b];
    let s = p + sep;
    assert(s.subrange(j, j + 2)[0] == s[j]);
    assert(s.subrange(j, j + 2)[1] == s[j + 1]);
    assert(s[j] == a && s[j + 1] == b);
    if j + 1 < p.len() {
        assert(p[j] == a && p[j + 1] == b);
        assert(p.subrange(j, j + 2) =~= sep);
    } else {
        assert(s[j + 1] == a);
    }
}

/// Any occurrence of a two-character sequence inside `p` puts both of its
/// characters in `p`; absence of either character rules every occurrence out.
pub proof fn lemma_two_absent(p: Seq<char>, a: char, b: char)
    requires
        !has_char(p, a) || !has_char(p, b),
    ensures
        forall|j: int| !is_match_at(p, seq![a, b], j),
{
    assert forall|j: int| !is_match_at(p, seq![a, b], j) by {
        if is_match_at(p, seq![a, b], j) {
            assert(p.subrange(j, j + 2)[0] == p[j]);
            assert(p.subrange(j, j + 2)[1] == p[j + 1]);
            assert(p[j] == a && p[j + 1] == b);
        }
    }
}

// ---------------------------------------------------------------------------
// Trimming
// ---------------------------------------------------------------------------

/// `s` with leading characters from `pat` removed.
pub open spec fn trim_start_set(s: Seq<char>, pat: Seq<char>) -> Seq<char>
    decreases s.len(),
{
    if s.len() > 0 && has_char(pat, s[0]) {
        trim_start_set(s.drop_first(), pat)
    } else {
        s
    }
}

/// `s` with trailing characters from `pat` removed.
pub open spec fn trim_end_set(s: Seq<char>, pat: Seq<char>) -> Seq<char>
    decreases s.len(),
{
    if s.len() > 0 && has_char(pat, s.last()) {
        trim_end_set(s.drop_last(), pat)
    } else {
        s
    }
}

/// `s` with characters from `pat` removed at both ends.
pub open spec fn trim_set(s: Seq<char>, pat: Seq<char>) -> Seq<char> {
    trim_end_set(trim_start_set(s, pat), pat)
}

/// The ASCII whitespace characters trimmed by this library.
pub open spec fn ws_pat() -> Seq<char> {
    seq![' ', '\t', '\n', '\r']
}

/// `s` with ASCII whitespace removed at both ends.
pub open spec fn trim_ws(s: Seq<char>) -> Seq<char> {
    trim_set(s, ws_pat())
}

// ---------------------------------------------------------------------------
// Prefix / suffix
// ---------------------------------------------------------------------------

/// True when `p` is a prefix of `s`.
pub open spec fn starts_with(s: Seq<char>, p: Seq<char>) -> bool {
    s.len() >= p.len() && s.subrange(0, p.len() as int) == p
}

/// True when `p` is a suffix of `s`.
pub open spec fn ends_with(s: Seq<char>, p: Seq<char>) -> bool {
    s.len() >= p.len() && s.subrange(s.len() - p.len(), s.len() as int) == p
}

/// `s` with every leading copy of `p` removed.
pub open spec fn trim_start_sub(s: Seq<char>, p: Seq<char>) -> Seq<char>
    decreases s.len(),
{
    if p.len() >= 1 && starts_with(s, p) {
        trim_start_sub(s.subrange(p.len() as int, s.len() as int), p)
    } else {
        s
    }
}

/// `s` with every trailing copy of `p` removed.
pub open spec fn trim_end_sub(s: Seq<char>, p: Seq<char>) -> Seq<char>
    decreases s.len(),
{
    if p.len() >= 1 && ends_with(s, p) {
        trim_end_sub(s.subrange(0, s.len() - p.len()), p)
    } else {
        s
    }
}

// ---------------------------------------------------------------------------
// Character replacement and removal
// ---------------------------------------------------------------------------

/// `s` with every occurrence of the character `c` removed.
pub open spec fn remove_char(s: Seq<char>, c: char) -> Seq<char>
    decreases s.len(),
{
    if s.len() == 0 {
        Seq::empty()
    } else if s.last() == c {
        remove_char(s.drop_last(), c)
    } else {
        remove_char(s.drop_last(), c).push(s.last())
    }
}

/// `s` with every occurrence of the character `c` replaced by `d`.
pub open spec fn replace_char(s: Seq<char>, c: char, d: char) -> Seq<char> {
    s.map_values(|x: char| if x == c { d } else { x })
}

// ---------------------------------------------------------------------------
// Case folding (ASCII)
// ---------------------------------------------------------------------------

/// ASCII lower-casing of one character; other characters are unchanged.
pub open spec fn lower_char(c: char) -> char {
    if 65 <= c as int && c as int <= 90 {
        ((c as u8) + 32) as char
    } else {
        c
    }
}

/// ASCII lower-casing of a sequence.
pub open spec fn lower_seq(s: Seq<char>) -> Seq<char> {
    s.map_values(|c: char| lower_char(c))
}

// ---------------------------------------------------------------------------
// Lexicographic order
// ---------------------------------------------------------------------------

/// Lexicographic order on character sequences, by code point; matches the
/// order of Rust's `str` comparison.
pub open spec fn lex_le(a: Seq<char>, b: Seq<char>) -> bool
    decreases a.len(),
{
    if a.len() == 0 {
        true
    } else if b.len() == 0 {
        false
    } else if (a[0] as u32) < (b[0] as u32) {
        true
    } else if (a[0] as u32) > (b[0] as u32) {
        false
    } else {
        lex_le(a.drop_first(), b.drop_first())
    }
}

// ---------------------------------------------------------------------------
// Decimal numerals
// ---------------------------------------------------------------------------

/// True for the characters '0' through '9'.
pub open spec fn is_digit_char(c: char) -> bool {
    48 <= c as int && c as int <= 57
}

/// Numeric value of a digit character.
pub open spec fn digit_val(c: char) -> int {
    c as int - 48
}

/// True when every character of `s` is a decimal digit.
pub open spec fn all_digits(s: Seq<char>) -> bool {
    forall|i: int| 0 <= i < s.len() ==> is_digit_char(#[trigger] s[i])
}

/// The digit character for a value below ten.
pub open spec fn digit_char(d: int) -> char {
    if d == 0 { '0' } else if d == 1 { '1' } else if d == 2 { '2' } else if d == 3 { '3' }
    else if d == 4 { '4' } else if d == 5 { '5' } else if d == 6 { '6' } else if d == 7 { '7' }
    else if d == 8 { '8' } else { '9' }
}

/// `digit_char` produces exactly the digit of its argument.
pub proof fn lemma_digit_char_val(d: int)
    requires
        0 <= d < 10,
    ensures
        is_digit_char(digit_char(d)),
        digit_val(digit_char(d)) == d,
{
}

/// Value of a digit string read in base ten.
pub open spec fn digits_val(s: Seq<char>) -> int
    decreases s.len(),
{
    if s.len() == 0 {
        0
    } else {
        digits_val(s.drop_last()) * 10 + digit_val(s.last())
    }
}

/// The decimal numeral of `n`, most significant digit first.
pub open spec fn dec_str(n: nat) -> Seq<char>
    decreases n,
{
    if n < 10 {
        seq![digit_char(n as int)]
    } else {
        dec_str(n / 10).push(digit_char((n % 10) as int))
    }
}

/// The numeral of `n` consists of digits and reads back as `n`.
pub proof fn lemma_dec_str_val(n: nat)
    ensures
        dec_str(n).len() >= 1,
        all_digits(dec_str(n)),
        digits_val(dec_str(n)) == n,
    decreases n,
{
    if n < 10 {
        let s = dec_str(n);
        lemma_digit_char_val(n as int);
        assert(s.drop_last() =~= Seq::<char>::empty());
        assert(digits_val(Seq::<char>::empty()) == 0);
        assert(digits_val(s) == digits_val(s.drop_last()) * 10 + digit_val(s.last()));
    } else {
        lemma_dec_str_val(n / 10);
        let s = dec_str(n);
        let d = digit_char((n % 10) as int);
        lemma_digit_char_val((n % 10) as int);
        assert(s == dec_str(n / 10).push(d));
        assert(s.drop_last() =~= dec_str(n / 10));
        assert(s.last() == d);
        assert(forall|i: int|
            0 <= i < s.len() - 1 ==> #[trigger] s[i] == dec_str(n / 10)[i]);
        assert(all_digits(s));
        assert(digits_val(s) == digits_val(s.drop_last()) * 10 + digit_val(s.last()));
        assert(digits_val(s) == digits_val(dec_str(n / 10)) * 10 + digit_val(d));
        assert(digits_val(s) == (n / 10) * 10 + n % 10);
        assert((n / 10) * 10 + n % 10 == n) by (nonlinear_arith);
    }
}

/// The value of a digit string dominates the value of any of its prefixes.
pub proof fn lemma_digits_val_bounds(s: Seq<char>, i: int)
    requires
        all_digits(s),
        0 <= i <= s.len(),
    ensures
        digits_val(s) >= digits_val(s.subrange(0, i)),
        digits_val(s) >= 0,
    decreases s.len(),
{
    if s.len() == 0 {
        assert(s.subrange(0, i) =~= s);
    } else {
        lemma_digits_val_bounds(s.drop_last(), if i <= s.len() - 1 { i } else { s.len() - 1 });
        assert(digit_val(s.last()) >= 0);
        if i <= s.len() - 1 {
            assert(s.drop_last().subrange(0, i) =~= s.subrange(0, i));
        } else {
            assert(s.subrange(0, i) =~= s);
        }
    }
}


// ---------------------------------------------------------------------------
// Views of vectors of vectors
// ---------------------------------------------------------------------------

/// The character sequences held by a vector of character vectors.
pub open spec fn views(s: Seq<Vec<char>>) -> Seq<Seq<char>> {
    s.map_values(|v: Vec<char>| v@)
}

// ---------------------------------------------------------------------------
// Executable helpers
// ---------------------------------------------------------------------------

/// Copy of `v[a..b]`.
pub fn subvec(v: &Vec<char>, a: usize, b: usize) -> (r: Vec<char>)
    requires
        a <= b <= v@.len(),
    ensures
        r@ == v@.subrange(a as int, b as int),
{
    let mut r: Vec<char> = Vec::new();
    let mut i: usize = a;
    while i < b
        invariant
            a <= i <= b <= v@.len(),
            r@ == v@.subrange(a as int, i as int),
        decreases b - i,
    {
        r.push(v[i]);
        assert(v@.subrange(a as int, i + 1 as int) =~= v@.subrange(a as int, i as int).push(
            v@[i as int],
        ));
        i = i + 1;
    }
    r
}

/// Appends all of `piece` to `out`.
pub fn push_all(out: &mut Vec<char>, piece: &Vec<char>)
    ensures
        final(out)@ == old(out)@ + piece@,
{
    let mut i: usize = 0;
    while i < piece.len()
        invariant
            i <= piece@.len(),
            out@ == old(out)@ + piece@.subrange(0, i as int),
        decreases piece@.len() - i,
    {
        out.push(piece[i]);
        assert(old(out)@ + piece@.subrange(0, i + 1 as int) =~= (old(out)@ + piece@.subrange(
            0,
            i as int,
        )).push(piece@[i as int]));
        i = i + 1;
    }
    assert(piece@.subrange(0, piece@.len() as int) =~= piece@);
}

/// True when `hay` matches `needle` at position `i`.
fn match_at(hay: &Vec<char>, needle: &Vec<char>, i: usize) -> (r: bool)
    requires
        i + needle@.len() <= hay@.len(),
    ensures
        r == is_match_at(hay@, needle@, i as int),
{
    let hn = hay.len();
    let mut k: usize = 0;
    while k < needle.len()
        invariant
            k <= needle@.len(),
            hn == hay@.len(),
            i + needle@.len() <= hn,
            forall|t: int| 0 <= t < k ==> hay@[i + t] == needle@[t],
        decreases needle@.len() - k,
    {
        if hay[i + k] != needle[k] {
            assert(!is_match_at(hay@, needle@, i as int)) by {
                if is_match_at(hay@, needle@, i as int) {
                    assert(hay@.subrange(i as int, i + needle@.len())[k as int] == hay@[i + k]);
                }
            }
            return false;
        }
        k = k + 1;
    }
    assert(hay@.subrange(i as int, i + needle@.len()) =~= needle@);
    true
}

/// First occurrence of `needle` in `hay`.
pub fn find_sub_exec(hay: &Vec<char>, needle: &Vec<char>) -> (r: Option<usize>)
    ensures
        match r {
            Some(i) => find_sub(hay@, needle@) == Some(i as int),
            None => find_sub(hay@, needle@) is None,
        },
{
    proof {
        lemma_find_sub_spec(hay@, needle@);
    }
    if needle.len() == 0 {
        return Some(0);
    }
    if hay.len() < needle.len() {
        return None;
    }
    let hn = hay.len();
    let bound = hn - needle.len();
    let mut i: usize = 0;
    while i <= bound
        invariant
            needle@.len() >= 1,
            needle@.len() <= hay@.len(),
            hn == hay@.len(),
            bound == hay@.len() - needle@.len(),
            i <= bound + 1,
            forall|j: int| 0 <= j < i ==> !is_match_at(hay@, needle@, j),
        decreases bound + 1 - i,
    {
        if match_at(hay, needle, i) {
            proof {
                lemma_find_sub_spec(hay@, needle@);
                if find_sub(hay@, needle@) is None {
                    assert(!is_match_at(hay@, needle@, i as int));
                }
                let f = find_sub(hay@, needle@).unwrap();
                if f < i {
                    assert(!is_match_at(hay@, needle@, f));
                }
                if f > i {
                    assert(!is_match_at(hay@, needle@, i as int));
                }
            }
            return Some(i);
        }
        i = i + 1;
    }
    proof {
        lemma_find_sub_spec(hay@, needle@);
        if find_sub(hay@, needle@) is Some {
            let f = find_sub(hay@, needle@).unwrap();
            assert(is_match_at(hay@, needle@, f));
            assert(f + needle@.len() <= hay@.len());
        }
    }
    None
}

/// True when `needle` occurs in `hay`.
pub fn contains_sub_exec(hay: &Vec<char>, needle: &Vec<char>) -> (r: bool)
    ensures
        r == contains_sub(hay@, needle@),
{
    find_sub_exec(hay, needle).is_some()
}

/// True when the character `c` occurs in `s`.
pub fn has_char_exec(s: &Vec<char>, c: char) -> (r: bool)
    ensures
        r == has_char(s@, c),
{
    let mut i: usize = 0;
    while i < s.len()
        invariant
            i <= s@.len(),
            forall|j: int| 0 <= j < i ==> s@[j] != c,
        decreases s@.len() - i,
    {
        if s[i] == c {
            return true;
        }
        i = i + 1;
    }
    false
}

/// True when the two vectors hold the same characters.
pub fn eq_chars(a: &Vec<char>, b: &Vec<char>) -> (r: bool)
    ensures
        r == (a@ == b@),
{
    if a.len() != b.len() {
        return false;
    }
    let mut i: usize = 0;
    while i < a.len()
        invariant
            a@.len() == b@.len(),
            i <= a@.len(),
            forall|j: int| 0 <= j < i ==> a@[j] == b@[j],
        decreases a@.len() - i,
    {
        if a[i] != b[i] {
            return false;
        }
        i = i + 1;
    }
    assert(a@ =~= b@);
    true
}

/// Splits `hay` at each occurrence of `sep`.
pub fn split_sub_exec(hay: &Vec<char>, sep: &Vec<char>) -> (r: Vec<Vec<char>>)
    requires
        sep@.len() >= 1,
    ensures
        views(r@) == split_sub(hay@, sep@),
{
    let mut acc: Vec<Vec<char>> = Vec::new();
    let mut rest: Vec<char> = subvec(hay, 0, hay.len());
    assert(rest@ =~= hay@);
    loop
        invariant
            sep@.len() >= 1,
            split_sub(hay@, sep@) == views(acc@) + split_sub(rest@, sep@),
        decreases rest@.len(),
    {
        let found = find_sub_exec(&rest, sep);
        match found {
            None => {
                let ghost old_acc = acc@;
                let ghost old_rest = rest@;
                acc.push(rest);
                proof {
                    assert(views(acc@) =~= views(old_acc).push(old_rest));
                    assert(split_sub(old_rest, sep@) =~= seq![old_rest]);
                    assert(views(old_acc) + split_sub(old_rest, sep@) =~= views(acc@));
                }
                return acc;
            },
            Some(i) => {
                proof {
                    lemma_find_sub_spec(rest@, sep@);
                    assert(is_match_at(rest@, sep@, i as int));
                }
                let ghost old_acc = acc@;
                let ghost old_rest = rest@;
                let rl = rest.len();
                assert(i + sep@.len() <= rl);
                let piece = subvec(&rest, 0, i);
                let new_rest = subvec(&rest, i + sep.len(), rl);
                acc.push(piece);
                rest = new_rest;
                proof {
                    assert(views(acc@) =~= views(old_acc).push(old_rest.subrange(0, i as int)));
                    assert(split_sub(old_rest, sep@) == seq![
                        old_rest.subrange(0, i as int),
                    ] + split_sub(rest@, sep@));
                    assert(views(old_acc) + split_sub(old_rest, sep@) =~= views(acc@) + split_sub(
                        rest@,
                        sep@,
                    ));
                }
            },
        }
    }
}

/// True when the character `c` occurs in the pattern `pat`.
fn in_pat(pat: &Vec<char>, c: char) -> (r: bool)
    ensures
        r == has_char(pat@, c),
{
    has_char_exec(pat, c)
}

/// `trim_start_set` holds of the suffix that starts at the first index whose
/// character is outside the pattern.
pub proof fn lemma_trim_start_set_index(s: Seq<char>, pat: Seq<char>, k: int)
    requires
        0 <= k <= s.len(),
        forall|i: int| 0 <= i < k ==> has_char(pat, #[trigger] s[i]),
        k < s.len() ==> !has_char(pat, s[k]),
    ensures
        trim_start_set(s, pat) == s.subrange(k, s.len() as int),
    decreases k,
{
    if k == 0 {
        assert(s.subrange(0, s.len() as int) =~= s);
    } else {
        lemma_trim_start_set_index(s.drop_first(), pat, k - 1);
        assert(forall|i: int|
            0 <= i < k - 1 ==> #[trigger] s.drop_first()[i] == s[i + 1]);
        assert(s.drop_first().subrange(k - 1, s.drop_first().len() as int) =~= s.subrange(
            k,
            s.len() as int,
        ));
    }
}

/// `trim_end_set` holds of the prefix that ends before the trailing run of
/// pattern characters.
proof fn lemma_trim_end_set_index(s: Seq<char>, pat: Seq<char>, k: int)
    requires
        0 <= k <= s.len(),
        forall|i: int| k <= i < s.len() ==> has_char(pat, #[trigger] s[i]),
        k > 0 ==> !has_char(pat, s[k - 1]),
    ensures
        trim_end_set(s, pat) == s.subrange(0, k),
    decreases s.len(),
{
    if k == s.len() {
        if s.len() > 0 {
            assert(!has_char(pat, s.last()));
        }
        assert(s.subrange(0, k) =~= s);
    } else {
        assert(has_char(pat, s.last()));
        lemma_trim_end_set_index(s.drop_last(), pat, k);
        assert(s.drop_last().subrange(0, k) =~= s.subrange(0, k));
    }
}

/// Removes characters of `pat` from both ends of `s`.
pub fn trim_set_exec(s: &Vec<char>, pat: &Vec<char>) -> (r: Vec<char>)
    ensures
        r@ == trim_set(s@, pat@),
{
    let mut lo: usize = 0;
    while lo < s.len() && in_pat(pat, s[lo])
        invariant
            lo <= s@.len(),
            forall|i: int| 0 <= i < lo ==> has_char(pat@, #[trigger] s@[i]),
        decreases s@.len() - lo,
    {
        lo = lo + 1;
    }
    proof {
        lemma_trim_start_set_index(s@, pat@, lo as int);
    }
    let ghost t = trim_start_set(s@, pat@);
    let mut hi: usize = s.len();
    while hi > lo && in_pat(pat, s[hi - 1])
        invariant
            lo <= hi <= s@.len(),
            forall|i: int| hi <= i < s@.len() ==> has_char(pat@, #[trigger] s@[i]),
        decreases hi,
    {
        hi = hi - 1;
    }
    proof {
        assert(t == s@.subrange(lo as int, s@.len() as int));
        assert(forall|i: int|
            hi - lo <= i < t.len() ==> #[trigger] t[i] == s@[i + lo]);
        lemma_trim_end_set_index(t, pat@, hi - lo);
        assert(t.subrange(0, hi - lo) =~= s@.subrange(lo as int, hi as int));
    }
    subvec(s, lo, hi)
}

/// The whitespace pattern as a vector.
pub fn ws_pat_exec() -> (r: Vec<char>)
    ensures
        r@ == ws_pat(),
{
    let mut r: Vec<char> = Vec::new();
    r.push(' ');
    r.push('\t');
    r.push('\n');
    r.push('\r');
    assert(r@ =~= ws_pat());
    r
}

/// Removes ASCII whitespace from both ends of `s`.
pub fn trim_ws_exec(s: &Vec<char>) -> (r: Vec<char>)
    ensures
        r@ == trim_ws(s@),
{
    let pat = ws_pat_exec();
    trim_set_exec(s, &pat)
}

/// True when `p` is a prefix of `s`.
pub fn starts_with_exec(s: &Vec<char>, p: &Vec<char>) -> (r: bool)
    ensures
        r == starts_with(s@, p@),
{
    if s.len() < p.len() {
        return false;
    }
    let head = subvec(s, 0, p.len());
    eq_chars(&head, p)
}

/// True when `p` is a suffix of `s`.
pub fn ends_with_exec(s: &Vec<char>, p: &Vec<char>) -> (r: bool)
    ensures
        r == ends_with(s@, p@),
{
    if s.len() < p.len() {
        return false;
    }
    let tail = subvec(s, s.len() - p.len(), s.len());
    eq_chars(&tail, p)
}

/// Removes every leading copy of `p` from `s`.
pub fn trim_start_sub_exec(s: &Vec<char>, p: &Vec<char>) -> (r: Vec<char>)
    requires
        p@.len() >= 1,
    ensures
        r@ == trim_start_sub(s@, p@),
    decreases s@.len(),
{
    if starts_with_exec(s, p) {
        let rest = subvec(s, p.len(), s.len());
        trim_start_sub_exec(&rest, p)
    } else {
        subvec(s, 0, s.len())
    }
}

/// Removes every trailing copy of `p` from `s`.
pub fn trim_end_sub_exec(s: &Vec<char>, p: &Vec<char>) -> (r: Vec<char>)
    requires
        p@.len() >= 1,
    ensures
        r@ == trim_end_sub(s@, p@),
    decreases s@.len(),
{
    if ends_with_exec(s, p) {
        let rest = subvec(s, 0, s.len() - p.len());
        trim_end_sub_exec(&rest, p)
    } else {
        subvec(s, 0, s.len())
    }
}

/// Removes every occurrence of the character `c`.
pub fn remove_char_exec(s: &Vec<char>, c: char) -> (r: Vec<char>)
    ensures
        r@ == remove_char(s@, c),
{
    let mut r: Vec<char> = Vec::new();
    let mut i: usize = 0;
    while i < s.len()
        invariant
            i <= s@.len(),
            r@ == remove_char(s@.subrange(0, i as int), c),
        decreases s@.len() - i,
    {
        proof {
            assert(s@.subrange(0, i + 1 as int).drop_last() =~= s@.subrange(0, i as int));
            assert(s@.subrange(0, i + 1 as int).last() == s@[i as int]);
        }
        if s[i] != c {
            r.push(s[i]);
        }
        i = i + 1;
    }
    assert(s@.subrange(0, s@.len() as int) =~= s@);
    r
}

/// Replaces every occurrence of the character `c` by `d`.
pub fn replace_char_exec(s: &Vec<char>, c: char, d: char) -> (r: Vec<char>)
    ensures
        r@ == replace_char(s@, c, d),
{
    let mut r: Vec<char> = Vec::new();
    let mut i: usize = 0;
    while i < s.len()
        invariant
            i <= s@.len(),
            r@ == replace_char(s@.subrange(0, i as int), c, d),
        decreases s@.len() - i,
    {
        if s[i] == c {
            r.push(d);
        } else {
            r.push(s[i]);
        }
        proof {
            assert(replace_char(s@.subrange(0, i + 1 as int), c, d) =~= replace_char(
                s@.subrange(0, i as int),
                c,
                d,
            ).push(if s@[i as int] == c { d } else { s@[i as int] }));
        }
        i = i + 1;
    }
    assert(s@.subrange(0, s@.len() as int) =~= s@);
    r
}

/// ASCII lower-casing of a character.
pub fn lower_char_exec(c: char) -> (r: char)
    ensures
        r == lower_char(c),
{
    let u = c as u32;
    if 65 <= u && u <= 90 {
        ((u + 32) as u8) as char
    } else {
        c
    }
}

/// ASCII lower-casing of a vector.
pub fn lower_exec(s: &Vec<char>) -> (r: Vec<char>)
    ensures
        r@ == lower_seq(s@),
{
    let mut r: Vec<char> = Vec::new();
    let mut i: usize = 0;
    while i < s.len()
        invariant
            i <= s@.len(),
            r@ == lower_seq(s@.subrange(0, i as int)),
        decreases s@.len() - i,
    {
        r.push(lower_char_exec(s[i]));
        proof {
            assert(lower_seq(s@.subrange(0, i + 1 as int)) =~= lower_seq(
                s@.subrange(0, i as int),
            ).push(lower_char(s@[i as int])));
        }
        i = i + 1;
    }
    assert(s@.subrange(0, s@.len() as int) =~= s@);
    r
}

/// The digit character of a value below ten.
pub fn digit_char_exec(d: u32) -> (r: char)
    requires
        d < 10,
    ensures
        r == digit_char(d as int),
{
    if d == 0 { '0' } else if d == 1 { '1' } else if d == 2 { '2' } else if d == 3 { '3' }
    else if d == 4 { '4' } else if d == 5 { '5' } else if d == 6 { '6' } else if d == 7 { '7' }
    else if d == 8 { '8' } else { '9' }
}

/// Parses a non-empty string of decimal digits whose value fits in `u32`;
/// anything else yields `None`.
pub fn parse_u32(s: &Vec<char>) -> (r: Option<u32>)
    ensures
        match r {
            Some(v) => all_digits(s@) && s@.len() >= 1 && digits_val(s@) == v as int,
            None => !(all_digits(s@) && s@.len() >= 1 && digits_val(s@) <= u32::MAX),
        },
{
    if s.len() == 0 {
        return None;
    }
    let mut n: u64 = 0;
    let mut i: usize = 0;
    while i < s.len()
        invariant
            i <= s@.len(),
            s@.len() >= 1,
            forall|t: int| 0 <= t < i ==> is_digit_char(#[trigger] s@[t]),
            n as int == digits_val(s@.subrange(0, i as int)),
            n <= u32::MAX as u64,
        decreases s@.len() - i,
    {
        let u = s[i] as u32;
        proof {
            vstd::utf8::char_u32_cast(s@[i as int], u);
        }
        if u < 48 || u > 57 {
            assert(!is_digit_char(s@[i as int]));
            return None;
        }
        assert(is_digit_char(s@[i as int]));
        let d = (u - 48) as u64;
        proof {
            assert(s@.subrange(0, i + 1 as int).drop_last() =~= s@.subrange(0, i as int));
            assert(s@.subrange(0, i + 1 as int).last() == s@[i as int]);
        }
        n = n * 10 + d;
        i = i + 1;
        if n > u32::MAX as u64 {
            proof {
                if all_digits(s@) {
                    lemma_digits_val_bounds(s@, i as int);
                    assert(digits_val(s@) >= digits_val(s@.subrange(0, i as int)));
                }
            }
            return None;
        }
    }
    assert(s@.subrange(0, s@.len() as int) =~= s@);
    Some(n as u32)
}

/// Appends the decimal numeral of `n` to `out`.
fn push_dec(out: &mut Vec<char>, n: u32)
    ensures
        final(out)@ == old(out)@ + dec_str(n as nat),
    decreases n,
{
    if n < 10 {
        out.push(digit_char_exec(n));
        assert(out@ =~= old(out)@ + dec_str(n as nat));
    } else {
        push_dec(out, n / 10);
        out.push(digit_char_exec(n % 10));
        assert(out@ =~= old(out)@ + dec_str(n as nat));
    }
}

/// The decimal numeral of `n`.
pub fn u32_chars(n: u32) -> (r: Vec<char>)
    ensures
        r@ == dec_str(n as nat),
{
    let mut r: Vec<char> = Vec::new();
    push_dec(&mut r, n);
    assert(r@ =~= dec_str(n as nat));
    r
}

/// `lex_le` is unchanged by dropping a common prefix.
proof fn lemma_lex_le_skip(a: Seq<char>, b: Seq<char>, i: int)
    requires
        0 <= i <= a.len(),
        i <= b.len(),
        forall|t: int| 0 <= t < i ==> a[t] == b[t],
    ensures
        lex_le(a, b) == lex_le(a.subrange(i, a.len() as int), b.subrange(i, b.len() as int)),
    decreases i,
{
    if i == 0 {
        assert(a.subrange(0, a.len() as int) =~= a);
        assert(b.subrange(0, b.len() as int) =~= b);
    } else {
        assert(a.len() > 0 && b.len() > 0 && a[0] == b[0]);
        lemma_lex_le_skip(a.drop_first(), b.drop_first(), i - 1);
        assert(a.drop_first().subrange(i - 1, a.drop_first().len() as int) =~= a.subrange(
            i,
            a.len() as int,
        ));
        assert(b.drop_first().subrange(i - 1, b.drop_first().len() as int) =~= b.subrange(
            i,
            b.len() as int,
        ));
    }
}

/// Lexicographic comparison of two character vectors.
pub fn lex_le_exec(a: &Vec<char>, b: &Vec<char>) -> (r: bool)
    ensures
        r == lex_le(a@, b@),
{
    let mut i: usize = 0;
    while i < a.len() && i < b.len()
        invariant
            i <= a@.len(),
            i <= b@.len(),
            forall|t: int| 0 <= t < i ==> a@[t] == b@[t],
        decreases a@.len() - i,
    {
        let x = a[i] as u32;
        let y = b[i] as u32;
        if x < y {
            proof {
                lemma_lex_le_skip(a@, b@, i as int);
            }
            return true;
        }
        if x > y {
            proof {
                lemma_lex_le_skip(a@, b@, i as int);
            }
            return false;
        }
        proof {
            vstd::utf8::char_u32_cast(a@[i as int], x);
            vstd::utf8::char_u32_cast(b@[i as int], y);
        }
        i = i + 1;
    }
    proof {
        lemma_lex_le_skip(a@, b@, i as int);
    }
    i >= a.len()
}

/// The characters of a string slice.
pub fn str_to_chars(s: &str) -> (r: Vec<char>)
    ensures
        r@ == s@,
{
    let n = s.unicode_len();
    let mut r: Vec<char> = Vec::new();
    let mut i: usize = 0;
    while i < n
        invariant
            n == s@.len(),
            i <= n,
            r@ == s@.subrange(0, i as int),
        decreases n - i,
    {
        r.push(s.get_char(i));
        assert(r@ =~= s@.subrange(0, i + 1 as int));
        i = i + 1;
    }
    assert(s@.subrange(0, s@.len() as int) =~= s@);
    r
}

/// Relies on std's `String::push`: appends the given character to the end of
/// the string.
#[verifier::external_body]
fn push_char(s: &mut String, c: char)
    ensures
        final(s)@ == old(s)@.push(c),
{
    s.push(c);
}

/// A string holding exactly the given characters.
pub fn chars_to_string(v: &Vec<char>) -> (r: String)
    ensures
        r@ == v@,
{
    let mut r = String::new();
    let mut i: usize = 0;
    while i < v.len()
        invariant
            i <= v@.len(),
            r@ == v@.subrange(0, i as int),
        decreases v@.len() - i,
    {
        push_char(&mut r, v[i]);
        assert(r@ =~= v@.subrange(0, i + 1 as int));
        i = i + 1;
    }
    assert(v@.subrange(0, v@.len() as int) =~= v@);
    r
}


/// Joining after appending one more piece appends a separator and the piece.
pub proof fn lemma_join_push(pieces: Seq<Seq<char>>, p: Seq<char>, sep: Seq<char>)
    ensures
        join_sub(pieces.push(p), sep) == if pieces.len() == 0 {
            p
        } else {
            join_sub(pieces, sep) + sep + p
        },
    decreases pieces.len(),
{
    let w = pieces.push(p);
    if pieces.len() == 0 {
        assert(w.len() == 1);
        assert(w[0] == p);
    } else {
        assert(w[0] == pieces[0]);
        assert(w.drop_first() =~= pieces.drop_first().push(p));
        lemma_join_push(pieces.drop_first(), p, sep);
        if pieces.len() == 1 {
            assert(pieces.drop_first().len() == 0);
            assert(join_sub(w, sep) == w[0] + sep + join_sub(w.drop_first(), sep));
            assert(join_sub(pieces, sep) == pieces[0]);
        } else {
            assert(join_sub(w, sep) == w[0] + sep + join_sub(w.drop_first(), sep));
            assert(join_sub(pieces, sep) == pieces[0] + sep + join_sub(pieces.drop_first(), sep));
            assert(pieces[0] + sep + (join_sub(pieces.drop_first(), sep) + sep + p) =~= (pieces[0]
                + sep + join_sub(pieces.drop_first(), sep)) + sep + p);
        }
    }
}

/// Joins the pieces with the separator between them.
pub fn join_exec(pieces: &Vec<Vec<char>>, sep: &Vec<char>) -> (r: Vec<char>)
    ensures
        r@ == join_sub(views(pieces@), sep@),
{
    let mut out: Vec<char> = Vec::new();
    if pieces.len() == 0 {
        assert(views(pieces@).len() == 0);
        return out;
    }
    push_all(&mut out, &pieces[0]);
    assert(views(pieces@).subrange(0, 1) =~= seq![pieces@[0]@]);
    assert(join_sub(views(pieces@).subrange(0, 1), sep@) == pieces@[0]@);
    let mut i: usize = 1;
    while i < pieces.len()
        invariant
            1 <= i <= pieces@.len(),
            out@ == join_sub(views(pieces@).subrange(0, i as int), sep@),
        decreases pieces@.len() - i,
    {
        push_all(&mut out, sep);
        push_all(&mut out, &pieces[i]);
        proof {
            let prefix = views(pieces@).subrange(0, i as int);
            lemma_join_push(prefix, pieces@[i as int]@, sep@);
            assert(prefix.push(pieces@[i as int]@) =~= views(pieces@).subrange(0, i + 1 as int));
        }
        i = i + 1;
    }
    assert(views(pieces@).subrange(0, pieces@.len() as int) =~= views(pieces@));
    out
}

/// The predicate that keeps lines holding more than whitespace.
pub open spec fn nonblank_pred() -> spec_fn(Seq<char>) -> bool {
    |x: Seq<char>| trim_ws(x).len() > 0
}

/// The function that trims one cell.
pub open spec fn trim_each() -> spec_fn(Seq<char>) -> Seq<char> {
    |x: Seq<char>| trim_ws(x)
}

/// Keeps the lines that hold more than whitespace.
pub fn filter_nonblank(lines: &Vec<Vec<char>>) -> (r: Vec<Vec<char>>)
    ensures
        views(r@) == views(lines@).filter(nonblank_pred()),
{
    let ghost pred = nonblank_pred();
    let mut acc: Vec<Vec<char>> = Vec::new();
    let mut i: usize = 0;
    proof {
        reveal(Seq::filter);
        assert(views(lines@).subrange(0, 0) =~= Seq::<Seq<char>>::empty());
        assert(views(acc@) =~= Seq::<Seq<char>>::empty());
    }
    while i < lines.len()
        invariant
            i <= lines@.len(),
            pred == nonblank_pred(),
            views(acc@) == views(lines@).subrange(0, i as int).filter(pred),
        decreases lines@.len() - i,
    {
        let ghost prefix = views(lines@).subrange(0, i as int);
        let ghost next = views(lines@).subrange(0, i + 1 as int);
        proof {
            reveal(Seq::filter);
            assert(next.drop_last() =~= prefix);
            assert(next.last() == views(lines@)[i as int]);
        }
        let t = trim_ws_exec(&lines[i]);
        if t.len() > 0 {
            let ghost old_acc = views(acc@);
            let copy = subvec(&lines[i], 0, lines[i].len());
            assert(copy@ =~= lines@[i as int]@);
            acc.push(copy);
            assert(views(acc@) =~= old_acc.push(views(lines@)[i as int]));
        }
        i = i + 1;
    }
    assert(views(lines@).subrange(0, lines@.len() as int) =~= views(lines@));
    acc
}

/// Splits into lines at each line feed.
pub open spec fn split_lines(s: Seq<char>) -> Seq<Seq<char>> {
    split_sub(s, seq!['\n'])
}

/// Splits into lines at each line feed.
pub fn split_lines_exec(s: &Vec<char>) -> (r: Vec<Vec<char>>)
    ensures
        views(r@) == split_lines(s@),
{
    let mut nl: Vec<char> = Vec::new();
    nl.push('\n');
    assert(nl@ =~= seq!['\n']);
    split_sub_exec(s, &nl)
}

} // verus!
