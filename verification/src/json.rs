//! The object-array codec: the record list as a pretty-printed array of
//! objects, one field per structural field.  The reader accepts the layout
//! the writer produces — one field per line, fields in declared order —
//! with whitespace and trailing commas tolerated per line.

use vstd::prelude::*;

use crate::chars::{
    all_digits, dec_str, digits_val, starts_with, trim_ws, views, chars_to_string, parse_u32,
    push_all, split_lines_exec, starts_with_exec, str_to_chars, subvec, trim_ws_exec, u32_chars,
    eq_chars, filter_nonblank,
};
use crate::csv::nonblank_lines;
use crate::errors::{AppError, ErrView};
use crate::record::{opt_view, DependencyInfo, DependencyKind, DependencyStats, RecordView};

verus! {

// ---------------------------------------------------------------------------
// The scalar sub-grammar shared by the structural forms
// ---------------------------------------------------------------------------

/// A scalar value of the structural forms.
pub enum Scalar {
    Null,
    Flag(bool),
    Num(u32),
    Text(Vec<char>),
}

/// The mathematical image of a scalar.
pub enum ScalarView {
    Null,
    Flag(bool),
    Num(u32),
    Text(Seq<char>),
}

impl View for Scalar {
    type V = ScalarView;

    open spec fn view(&self) -> ScalarView {
        match self {
            Scalar::Null => ScalarView::Null,
            Scalar::Flag(b) => ScalarView::Flag(*b),
            Scalar::Num(n) => ScalarView::Num(*n),
            Scalar::Text(v) => ScalarView::Text(v@),
        }
    }
}

/// The escape of one character inside a quoted string: the named escapes
/// for quote, backslash and the common control characters, a four-digit
/// escape for other control characters, the character itself otherwise.
pub open spec fn escape_char(c: char) -> Seq<char> {
    if c == '"' {
        seq!['\\', '"']
    } else if c == '\\' {
        seq!['\\', '\\']
    } else if c == '\n' {
        seq!['\\', 'n']
    } else if c == '\r' {
        seq!['\\', 'r']
    } else if c == '\t' {
        seq!['\\', 't']
    } else if c == '\u{8}' {
        seq!['\\', 'b']
    } else if c == '\u{c}' {
        seq!['\\', 'f']
    } else if (c as u32) < 32 {
        seq![
            '\\',
            'u',
            '0',
            '0',
            hex_char(((c as u32) / 16) as int),
            hex_char(((c as u32) % 16) as int),
        ]
    } else {
        seq![c]
    }
}

/// The lower-case hex digit of a value below sixteen.
pub open spec fn hex_char(d: int) -> char {
    if d < 10 {
        crate::chars::digit_char(d)
    } else if d == 10 {
        'a'
    } else if d == 11 {
        'b'
    } else if d == 12 {
        'c'
    } else if d == 13 {
        'd'
    } else if d == 14 {
        'e'
    } else {
        'f'
    }
}

/// The numeric value of a hex digit character, or 16 for any other.
pub open spec fn hex_val(c: char) -> int {
    if 48 <= c as int && c as int <= 57 {
        c as int - 48
    } else if 97 <= c as int && c as int <= 102 {
        c as int - 87
    } else if 65 <= c as int && c as int <= 70 {
        c as int - 55
    } else {
        16
    }
}

/// A whole string escaped.
pub open spec fn escape_text(s: Seq<char>) -> Seq<char>
    decreases s.len(),
{
    if s.len() == 0 {
        Seq::empty()
    } else {
        escape_text(s.drop_last()) + escape_char(s.last())
    }
}

/// A quoted, escaped string.
pub open spec fn quoted(s: Seq<char>) -> Seq<char> {
    seq!['"'] + escape_text(s) + seq!['"']
}

/// True for the character after a backslash in a two-character escape.
pub open spec fn is_simple_escape(c: char) -> bool {
    c == '"' || c == '\\' || c == '/' || c == 'n' || c == 'r' || c == 't' || c == 'b' || c == 'f'
}

/// The character a two-character escape stands for.
pub open spec fn simple_escape_char(c: char) -> char {
    if c == 'n' {
        '\n'
    } else if c == 'r' {
        '\r'
    } else if c == 't' {
        '\t'
    } else if c == 'b' {
        '\u{8}'
    } else if c == 'f' {
        '\u{c}'
    } else {
        c
    }
}

/// Undoes the escaping of a quoted string's inside: the two-character
/// escapes, and four-digit escapes of basic-plane characters outside the
/// surrogate range; anything else malformed yields nothing.
pub open spec fn unescape_text(s: Seq<char>) -> Option<Seq<char>>
    decreases s.len(),
{
    if s.len() == 0 {
        Some(Seq::empty())
    } else if s[0] != '\\' {
        match unescape_text(s.drop_first()) {
            Some(r) => Some(seq![s[0]] + r),
            None => None,
        }
    } else if s.len() >= 2 && is_simple_escape(s[1]) {
        match unescape_text(s.subrange(2, s.len() as int)) {
            Some(r) => Some(seq![simple_escape_char(s[1])] + r),
            None => None,
        }
    } else if s.len() >= 6 && s[1] == 'u' && hex_val(s[2]) < 16 && hex_val(s[3]) < 16 && hex_val(
        s[4],
    ) < 16 && hex_val(s[5]) < 16 && !(0xD800 <= hex_quad(s) && hex_quad(s) <= 0xDFFF) {
        match unescape_text(s.subrange(6, s.len() as int)) {
            Some(r) => Some(seq![(hex_quad(s) as u32) as char] + r),
            None => None,
        }
    } else {
        None
    }
}

/// The value of the four hex digits of a `\u` escape.
pub open spec fn hex_quad(s: Seq<char>) -> int {
    hex_val(s[2]) * 4096 + hex_val(s[3]) * 256 + hex_val(s[4]) * 16 + hex_val(s[5])
}

/// The text of a scalar.
pub open spec fn scalar_text(v: ScalarView) -> Seq<char> {
    match v {
        ScalarView::Null => seq!['n', 'u', 'l', 'l'],
        ScalarView::Flag(b) => if b {
            seq!['t', 'r', 'u', 'e']
        } else {
            seq!['f', 'a', 'l', 's', 'e']
        },
        ScalarView::Num(n) => dec_str(n as nat),
        ScalarView::Text(s) => quoted(s),
    }
}

/// Reading a scalar back: the null, true and false words, a quoted string,
/// or a numeral that fits in a `u32`.
pub open spec fn scalar_of(v: Seq<char>) -> Option<ScalarView> {
    if v == seq!['n', 'u', 'l', 'l'] {
        Some(ScalarView::Null)
    } else if v == seq!['t', 'r', 'u', 'e'] {
        Some(ScalarView::Flag(true))
    } else if v == seq!['f', 'a', 'l', 's', 'e'] {
        Some(ScalarView::Flag(false))
    } else if v.len() >= 2 && v[0] == '"' && v.last() == '"' {
        match unescape_text(v.subrange(1, v.len() - 1)) {
            Some(s) => Some(ScalarView::Text(s)),
            None => None,
        }
    } else if all_digits(v) && v.len() >= 1 && digits_val(v) <= u32::MAX {
        Some(ScalarView::Num(digits_val(v) as u32))
    } else {
        None
    }
}

// ---------------------------------------------------------------------------
// Executable scalar codec
// ---------------------------------------------------------------------------

/// Relies on std's `char::from_u32`: the character with the given code
/// point, defined exactly for values outside the surrogate range and at
/// most the largest code point.
#[verifier::external_body]
fn char_from_u32(u: u32) -> (r: Option<char>)
    ensures
        match r {
            Some(c) => c as u32 == u,
            None => 0xD800 <= u <= 0xDFFF || u > 0x10FFFF,
        },
{
    char::from_u32(u)
}

/// The lower-case hex digit of a value below sixteen.
fn hex_char_exec(d: u32) -> (r: char)
    requires
        d < 16,
    ensures
        r == hex_char(d as int),
{
    if d < 10 {
        crate::chars::digit_char_exec(d)
    } else if d == 10 {
        'a'
    } else if d == 11 {
        'b'
    } else if d == 12 {
        'c'
    } else if d == 13 {
        'd'
    } else if d == 14 {
        'e'
    } else {
        'f'
    }
}

/// The numeric value of a hex digit character, or 16 for any other.
fn hex_val_exec(c: char) -> (r: u32)
    ensures
        r as int == hex_val(c),
{
    let u = c as u32;
    proof {
        vstd::utf8::char_u32_cast(c, u);
    }
    if 48 <= u && u <= 57 {
        u - 48
    } else if 97 <= u && u <= 102 {
        u - 87
    } else if 65 <= u && u <= 70 {
        u - 55
    } else {
        16
    }
}

/// Appends the escape of one character.
fn push_escape_char(out: &mut Vec<char>, c: char)
    ensures
        final(out)@ == old(out)@ + escape_char(c),
{
    let u = c as u32;
    proof {
        vstd::utf8::char_u32_cast(c, u);
    }
    if c == '"' {
        out.push('\\');
        out.push('"');
    } else if c == '\\' {
        out.push('\\');
        out.push('\\');
    } else if c == '\n' {
        out.push('\\');
        out.push('n');
    } else if c == '\r' {
        out.push('\\');
        out.push('r');
    } else if c == '\t' {
        out.push('\\');
        out.push('t');
    } else if u == 8 {
        out.push('\\');
        out.push('b');
    } else if u == 12 {
        out.push('\\');
        out.push('f');
    } else if u < 32 {
        out.push('\\');
        out.push('u');
        out.push('0');
        out.push('0');
        out.push(hex_char_exec(u / 16));
        out.push(hex_char_exec(u % 16));
    } else {
        out.push(c);
    }
    assert(out@ =~= old(out)@ + escape_char(c));
}

/// Appends a quoted, escaped string.
fn push_quoted(out: &mut Vec<char>, s: &Vec<char>)
    ensures
        final(out)@ == old(out)@ + quoted(s@),
{
    out.push('"');
    let mut i: usize = 0;
    while i < s.len()
        invariant
            i <= s@.len(),
            out@ == old(out)@ + seq!['"'] + escape_text(s@.subrange(0, i as int)),
        decreases s@.len() - i,
    {
        proof {
            assert(s@.subrange(0, i + 1 as int).drop_last() =~= s@.subrange(0, i as int));
            assert(s@.subrange(0, i + 1 as int).last() == s@[i as int]);
        }
        push_escape_char(out, s[i]);
        i = i + 1;
    }
    out.push('"');
    proof {
        assert(s@.subrange(0, s@.len() as int) =~= s@);
        assert(out@ =~= old(out)@ + quoted(s@));
    }
}

/// Appends a scalar's text.
pub(crate) fn push_scalar(out: &mut Vec<char>, v: &Scalar)
    ensures
        final(out)@ == old(out)@ + scalar_text(v@),
{
    match v {
        Scalar::Null => {
            out.push('n');
            out.push('u');
            out.push('l');
            out.push('l');
            assert(out@ =~= old(out)@ + scalar_text(v@));
        },
        Scalar::Flag(b) => {
            if *b {
                out.push('t');
                out.push('r');
                out.push('u');
                out.push('e');
            } else {
                out.push('f');
                out.push('a');
                out.push('l');
                out.push('s');
                out.push('e');
            }
            assert(out@ =~= old(out)@ + scalar_text(v@));
        },
        Scalar::Num(n) => {
            let digits = u32_chars(*n);
            push_all(out, &digits);
            assert(out@ =~= old(out)@ + scalar_text(v@));
        },
        Scalar::Text(s) => {
            push_quoted(out, s);
            assert(out@ =~= old(out)@ + scalar_text(v@));
        },
    }
}

/// Undoes the escaping of a quoted string's inside.
fn unescape_exec(s: &Vec<char>) -> (r: Option<Vec<char>>)
    ensures
        match r {
            Some(v) => unescape_text(s@) == Some(v@),
            None => unescape_text(s@) is None,
        },
{
    let n = s.len();
    let mut acc: Vec<char> = Vec::new();
    let mut i: usize = 0;
    proof {
        assert(s@.skip(0) =~= s@);
    }
    while i < n
        invariant
            i <= n,
            n == s@.len(),
            ({
                let tail = unescape_text(s@.skip(i as int));
                match tail {
                    Some(r2) => unescape_text(s@) == Some(acc@ + r2),
                    None => unescape_text(s@) is None,
                }
            }),
        decreases n - i,
    {
        let ghost suffix = s@.skip(i as int);
        proof {
            assert(suffix.len() == n - i);
            assert(suffix[0] == s@[i as int]);
        }
        let c = s[i];
        if c != '\\' {
            proof {
                assert(suffix.drop_first() =~= s@.skip(i + 1 as int));
            }
            let ghost before = acc@;
            acc.push(c);
            proof {
                match unescape_text(s@.skip(i + 1 as int)) {
                    Some(r2) => {
                        assert(before + (seq![c] + r2) =~= acc@ + r2);
                    },
                    None => {},
                }
            }
            i = i + 1;
        } else {
            if i + 1 >= n {
                proof {
                    assert(unescape_text(suffix) is None);
                }
                return None;
            }
            let e = s[i + 1];
            proof {
                assert(suffix[1] == s@[i + 1]);
            }
            if e == '"' || e == '\\' || e == '/' || e == 'n' || e == 'r' || e == 't' || e == 'b'
                || e == 'f' {
                proof {
                    assert(suffix.subrange(2, suffix.len() as int) =~= s@.skip(i + 2 as int));
                }
                let ghost before = acc@;
                let d = if e == 'n' {
                    '\n'
                } else if e == 'r' {
                    '\r'
                } else if e == 't' {
                    '\t'
                } else if e == 'b' {
                    '\u{8}'
                } else if e == 'f' {
                    '\u{c}'
                } else {
                    e
                };
                acc.push(d);
                proof {
                    assert(d == simple_escape_char(e));
                    match unescape_text(s@.skip(i + 2 as int)) {
                        Some(r2) => {
                            assert(before + (seq![d] + r2) =~= acc@ + r2);
                        },
                        None => {},
                    }
                }
                i = i + 2;
            } else if e == 'u' && n - i > 5 {
                proof {
                    assert(suffix.len() >= 6);
                    assert(suffix[2] == s@[i + 2]);
                    assert(suffix[3] == s@[i + 3]);
                    assert(suffix[4] == s@[i + 4]);
                    assert(suffix[5] == s@[i + 5]);
                }
                let h1 = hex_val_exec(s[i + 2]);
                let h2 = hex_val_exec(s[i + 3]);
                let h3 = hex_val_exec(s[i + 4]);
                let h4 = hex_val_exec(s[i + 5]);
                if h1 >= 16 || h2 >= 16 || h3 >= 16 || h4 >= 16 {
                    proof {
                        assert(unescape_text(suffix) is None);
                    }
                    return None;
                }
                let code = h1 * 4096 + h2 * 256 + h3 * 16 + h4;
                proof {
                    assert(code as int == hex_quad(suffix));
                }
                if 0xD800 <= code && code <= 0xDFFF {
                    proof {
                        assert(unescape_text(suffix) is None);
                    }
                    return None;
                }
                match char_from_u32(code) {
                    Some(d) => {
                        proof {
                            assert(suffix.subrange(6, suffix.len() as int) =~= s@.skip(
                                i + 6 as int,
                            ));
                            vstd::utf8::char_u32_cast(d, code);
                            assert(d == (hex_quad(suffix) as u32) as char);
                        }
                        let ghost before = acc@;
                        acc.push(d);
                        proof {
                            match unescape_text(s@.skip(i + 6 as int)) {
                                Some(r2) => {
                                    assert(before + (seq![d] + r2) =~= acc@ + r2);
                                },
                                None => {},
                            }
                        }
                        i = i + 6;
                    },
                    None => {
                        proof {
                            assert(false);
                        }
                        return None;
                    },
                }
            } else {
                proof {
                    assert(!is_simple_escape(e));
                    assert(unescape_text(suffix) is None);
                }
                return None;
            }
        }
    }
    proof {
        assert(s@.skip(n as int) =~= Seq::<char>::empty());
        assert(unescape_text(Seq::<char>::empty()) == Some(Seq::<char>::empty()));
        assert(acc@ + Seq::<char>::empty() =~= acc@);
    }
    Some(acc)
}

/// Reads a scalar's text.
fn scalar_of_exec(v: &Vec<char>) -> (r: Option<Scalar>)
    ensures
        match r {
            Some(sc) => scalar_of(v@) == Some(sc@),
            None => scalar_of(v@) is None,
        },
{
    let mut w_null: Vec<char> = Vec::new();
    w_null.push('n');
    w_null.push('u');
    w_null.push('l');
    w_null.push('l');
    assert(w_null@ =~= seq!['n', 'u', 'l', 'l']);
    if eq_chars(v, &w_null) {
        return Some(Scalar::Null);
    }
    let mut w_true: Vec<char> = Vec::new();
    w_true.push('t');
    w_true.push('r');
    w_true.push('u');
    w_true.push('e');
    assert(w_true@ =~= seq!['t', 'r', 'u', 'e']);
    if eq_chars(v, &w_true) {
        return Some(Scalar::Flag(true));
    }
    let mut w_false: Vec<char> = Vec::new();
    w_false.push('f');
    w_false.push('a');
    w_false.push('l');
    w_false.push('s');
    w_false.push('e');
    assert(w_false@ =~= seq!['f', 'a', 'l', 's', 'e']);
    if eq_chars(v, &w_false) {
        return Some(Scalar::Flag(false));
    }
    let n = v.len();
    if n >= 2 && v[0] == '"' && v[n - 1] == '"' {
        let inner = subvec(v, 1, n - 1);
        match unescape_exec(&inner) {
            Some(t) => {
                return Some(Scalar::Text(t));
            },
            None => {
                return None;
            },
        }
    }
    match parse_u32(v) {
        Some(num) => Some(Scalar::Num(num)),
        None => None,
    }
}


// ---------------------------------------------------------------------------
// The document layout
// ---------------------------------------------------------------------------

/// The fixed token of a kind in the structural forms (not localized).
pub open spec fn kind_token(kind: DependencyKind) -> Seq<char> {
    match kind {
        DependencyKind::Normal => "Normal"@,
        DependencyKind::Development => "Development"@,
        DependencyKind::Build => "Build"@,
        DependencyKind::Unknown => "Unknown"@,
    }
}

/// The kind a token names.
pub open spec fn kind_of_token(t: Seq<char>) -> Option<DependencyKind> {
    if t == "Normal"@ {
        Some(DependencyKind::Normal)
    } else if t == "Development"@ {
        Some(DependencyKind::Development)
    } else if t == "Build"@ {
        Some(DependencyKind::Build)
    } else if t == "Unknown"@ {
        Some(DependencyKind::Unknown)
    } else {
        None
    }
}

/// Optional text as a scalar.
pub open spec fn opt_text_scalar(o: Option<Seq<char>>) -> ScalarView {
    match o {
        Some(s) => ScalarView::Text(s),
        None => ScalarView::Null,
    }
}

/// An optional count as a scalar.
pub open spec fn opt_num_scalar(o: Option<u32>) -> ScalarView {
    match o {
        Some(n) => ScalarView::Num(n),
        None => ScalarView::Null,
    }
}

/// One record as a pretty-printed object, fields in declared order.
pub open spec fn json_item(r: RecordView) -> Seq<char> {
    "  {\n    \"name\": "@ + scalar_text(ScalarView::Text(r.name))
        + ",\n    \"description\": "@ + scalar_text(opt_text_scalar(r.description))
        + ",\n    \"dependency_kind\": "@ + scalar_text(
        ScalarView::Text(kind_token(r.dependency_kind)),
    ) + ",\n    \"crate_url\": "@ + scalar_text(opt_text_scalar(r.crate_url))
        + ",\n    \"source_type\": "@ + scalar_text(ScalarView::Text(r.source_type))
        + ",\n    \"source_url\": "@ + scalar_text(opt_text_scalar(r.source_url))
        + ",\n    \"stats\": {\n      \"stars\": "@ + scalar_text(opt_num_scalar(r.stars))
        + ",\n      \"downloads\": "@ + scalar_text(opt_num_scalar(r.downloads))
        + "\n    },\n    \"failed\": "@ + scalar_text(ScalarView::Flag(r.failed))
        + ",\n    \"error_message\": "@ + scalar_text(opt_text_scalar(r.error_message))
        + "\n  }"@
}

/// The objects joined by commas.
pub open spec fn json_items_body(records: Seq<RecordView>) -> Seq<char>
    decreases records.len(),
{
    if records.len() == 0 {
        Seq::empty()
    } else if records.len() == 1 {
        json_item(records.last())
    } else {
        json_items_body(records.drop_last()) + ",\n"@ + json_item(records.last())
    }
}

/// The whole object-array document.
pub open spec fn json_render(records: Seq<RecordView>) -> Seq<char> {
    if records.len() == 0 {
        "[]"@
    } else {
        "[\n"@ + json_items_body(records) + "\n]"@
    }
}

// ---------------------------------------------------------------------------
// Document parsing
// ---------------------------------------------------------------------------

/// A line's value text with one trailing comma removed.
pub open spec fn strip_comma(t: Seq<char>) -> Seq<char> {
    if t.len() > 0 && t.last() == ',' {
        t.drop_last()
    } else {
        t
    }
}

/// The scalar of a `"key": value` line, matched after trimming and with a
/// trailing comma tolerated.
pub open spec fn field_scalar(line: Seq<char>, key: Seq<char>) -> Option<ScalarView> {
    let t = strip_comma(trim_ws(line));
    if starts_with(t, key) {
        scalar_of(t.subrange(key.len() as int, t.len() as int))
    } else {
        None
    }
}

/// True when the trimmed line, its trailing comma removed, is exactly the
/// given text.
pub open spec fn line_is(line: Seq<char>, t: Seq<char>) -> bool {
    strip_comma(trim_ws(line)) == t
}

/// The record written at lines `b` to `b + 13`, when they have the expected
/// shape.
pub open spec fn json_record_at(ls: Seq<Seq<char>>, b: int) -> Option<RecordView> {
    if !line_is(ls[b], seq!['{']) {
        None
    } else {
        match (field_scalar(ls[b + 1], "\"name\": "@), field_scalar(
            ls[b + 2],
            "\"description\": "@,
        ), field_scalar(ls[b + 3], "\"dependency_kind\": "@), field_scalar(
            ls[b + 4],
            "\"crate_url\": "@,
        ), field_scalar(ls[b + 5], "\"source_type\": "@), field_scalar(
            ls[b + 6],
            "\"source_url\": "@,
        )) {
            (
                Some(ScalarView::Text(name)),
                Some(desc),
                Some(ScalarView::Text(tok)),
                Some(curl),
                Some(ScalarView::Text(source_type)),
                Some(surl),
            ) => {
                if !line_is(ls[b + 7], "\"stats\": {"@) {
                    None
                } else {
                    match (kind_of_token(tok), field_scalar(ls[b + 8], "\"stars\": "@),
                    field_scalar(ls[b + 9], "\"downloads\": "@)) {
                        (Some(kind), Some(stars_s), Some(downs_s)) => {
                            if !line_is(ls[b + 10], seq!['}']) {
                                None
                            } else {
                                match (field_scalar(ls[b + 11], "\"failed\": "@), field_scalar(
                                    ls[b + 12],
                                    "\"error_message\": "@,
                                )) {
                                    (Some(ScalarView::Flag(failed)), Some(msg)) => {
                                        if !line_is(ls[b + 13], seq!['}']) {
                                            None
                                        } else {
                                            match (desc, curl, surl, stars_s, downs_s, msg) {
                                                (
                                                    ScalarView::Num(_),
                                                    _,
                                                    _,
                                                    _,
                                                    _,
                                                    _,
                                                ) => None,
                                                (ScalarView::Flag(_), _, _, _, _, _) => None,
                                                (_, ScalarView::Num(_), _, _, _, _) => None,
                                                (_, ScalarView::Flag(_), _, _, _, _) => None,
                                                (_, _, ScalarView::Num(_), _, _, _) => None,
                                                (_, _, ScalarView::Flag(_), _, _, _) => None,
                                                (_, _, _, ScalarView::Text(_), _, _) => None,
                                                (_, _, _, ScalarView::Flag(_), _, _) => None,
                                                (_, _, _, _, ScalarView::Text(_), _) => None,
                                                (_, _, _, _, ScalarView::Flag(_), _) => None,
                                                (_, _, _, _, _, ScalarView::Num(_)) => None,
                                                (_, _, _, _, _, ScalarView::Flag(_)) => None,
                                                (d, cu, su, st, dw, ms) => Some(
                                                    RecordView {
                                                        name,
                                                        description: match d {
                                                            ScalarView::Text(x) => Some(x),
                                                            _ => None,
                                                        },
                                                        dependency_kind: kind,
                                                        crate_url: match cu {
                                                            ScalarView::Text(x) => Some(x),
                                                            _ => None,
                                                        },
                                                        source_type,
                                                        source_url: match su {
                                                            ScalarView::Text(x) => Some(x),
                                                            _ => None,
                                                        },
                                                        stars: match st {
                                                            ScalarView::Num(x) => Some(x),
                                                            _ => None,
                                                        },
                                                        downloads: match dw {
                                                            ScalarView::Num(x) => Some(x),
                                                            _ => None,
                                                        },
                                                        failed,
                                                        error_message: match ms {
                                                            ScalarView::Text(x) => Some(x),
                                                            _ => None,
                                                        },
                                                    },
                                                ),
                                            }
                                        }
                                    },
                                    _ => None,
                                }
                            }
                        },
                        _ => None,
                    }
                }
            },
            _ => None,
        }
    }
}

/// The records written at successive 14-line chunks; a malformed chunk
/// fails the whole parse, carrying the document.
pub open spec fn json_records(ls: Seq<Seq<char>>, k: int, n: int, s: Seq<char>) -> Result<
    Seq<RecordView>,
    ErrView,
>
    decreases n - k,
{
    if k < 0 || k >= n {
        Ok(Seq::empty())
    } else {
        match json_record_at(ls, 1 + 14 * k) {
            None => Err(ErrView::InvalidDocument(s)),
            Some(r) => match json_records(ls, k + 1, n, s) {
                Err(e) => Err(e),
                Ok(rest) => Ok(seq![r] + rest),
            },
        }
    }
}

/// Decoding of an object-array document in the layout this codec writes:
/// the empty array, or a bracket line, records of fourteen lines each, and
/// a closing bracket line.
pub open spec fn json_parse(s: Seq<char>) -> Result<Seq<RecordView>, ErrView> {
    if trim_ws(s) == "[]"@ {
        Ok(Seq::empty())
    } else {
        let ls = nonblank_lines(s);
        if ls.len() < 2 {
            Err(ErrView::InvalidDocument(s))
        } else if trim_ws(ls[0]) != seq!['['] {
            Err(ErrView::InvalidDocument(s))
        } else if trim_ws(ls.last()) != seq![']'] {
            Err(ErrView::InvalidDocument(s))
        } else if (ls.len() - 2) % 14 != 0 {
            Err(ErrView::InvalidDocument(s))
        } else {
            json_records(ls, 0, ((ls.len() - 2) / 14) as int, s)
        }
    }
}

// ---------------------------------------------------------------------------
// Executable document codec
// ---------------------------------------------------------------------------

/// The object-array codec.
pub struct JsonFormatter;

/// The fixed token of a kind.
pub(crate) fn kind_token_exec(kind: &DependencyKind) -> (r: Vec<char>)
    ensures
        r@ == kind_token(*kind),
{
    match kind {
        DependencyKind::Normal => str_to_chars("Normal"),
        DependencyKind::Development => str_to_chars("Development"),
        DependencyKind::Build => str_to_chars("Build"),
        DependencyKind::Unknown => str_to_chars("Unknown"),
    }
}

/// An optional string as a scalar.
pub(crate) fn opt_scalar(o: &Option<String>) -> (r: Scalar)
    ensures
        r@ == opt_text_scalar(opt_view(*o)),
{
    match o {
        Some(t) => Scalar::Text(str_to_chars(t.as_str())),
        None => Scalar::Null,
    }
}

/// An optional count as a scalar.
pub(crate) fn opt_num(o: Option<u32>) -> (r: Scalar)
    ensures
        r@ == opt_num_scalar(o),
{
    match o {
        Some(n) => Scalar::Num(n),
        None => Scalar::Null,
    }
}

/// Appends one record's object.
#[verifier::rlimit(100)]
fn push_json_item(out: &mut Vec<char>, dep: &DependencyInfo)
    ensures
        final(out)@ == old(out)@ + json_item(dep@),
{
    push_all(out, &str_to_chars("  {\n    \"name\": "));
    push_scalar(out, &Scalar::Text(str_to_chars(dep.name.as_str())));
    push_all(out, &str_to_chars(",\n    \"description\": "));
    push_scalar(out, &opt_scalar(&dep.description));
    push_all(out, &str_to_chars(",\n    \"dependency_kind\": "));
    push_scalar(out, &Scalar::Text(kind_token_exec(&dep.dependency_kind)));
    push_all(out, &str_to_chars(",\n    \"crate_url\": "));
    push_scalar(out, &opt_scalar(&dep.crate_url));
    push_all(out, &str_to_chars(",\n    \"source_type\": "));
    push_scalar(out, &Scalar::Text(str_to_chars(dep.source_type.as_str())));
    push_all(out, &str_to_chars(",\n    \"source_url\": "));
    push_scalar(out, &opt_scalar(&dep.source_url));
    push_all(out, &str_to_chars(",\n    \"stats\": {\n      \"stars\": "));
    push_scalar(out, &opt_num(dep.stats.stars));
    push_all(out, &str_to_chars(",\n      \"downloads\": "));
    push_scalar(out, &opt_num(dep.stats.downloads));
    push_all(out, &str_to_chars("\n    },\n    \"failed\": "));
    push_scalar(out, &Scalar::Flag(dep.failed));
    push_all(out, &str_to_chars(",\n    \"error_message\": "));
    push_scalar(out, &opt_scalar(&dep.error_message));
    push_all(out, &str_to_chars("\n  }"));
    assert(out@ =~= old(out)@ + json_item(dep@));
}

/// The scalar of a `"key": value` line.
pub(crate) fn field_scalar_exec(line: &Vec<char>, key: &Vec<char>) -> (r: Option<Scalar>)
    ensures
        match r {
            Some(sc) => field_scalar(line@, key@) == Some(sc@),
            None => field_scalar(line@, key@) is None,
        },
{
    let t0 = trim_ws_exec(line);
    let n = t0.len();
    let t = if n > 0 && t0[n - 1] == ',' {
        subvec(&t0, 0, n - 1)
    } else {
        subvec(&t0, 0, n)
    };
    proof {
        assert(trim_ws(line@).subrange(0, trim_ws(line@).len() as int) =~= trim_ws(line@));
        if trim_ws(line@).len() > 0 && trim_ws(line@).last() == ',' {
            assert(trim_ws(line@).subrange(0, trim_ws(line@).len() - 1) =~= trim_ws(
                line@,
            ).drop_last());
        }
        assert(t@ == strip_comma(trim_ws(line@)));
    }
    if !crate::chars::starts_with_exec(&t, key) {
        return None;
    }
    let value = subvec(&t, key.len(), t.len());
    scalar_of_exec(&value)
}

/// True when the trimmed line, its trailing comma removed, is the given
/// text.
pub(crate) fn line_is_exec(line: &Vec<char>, t: &Vec<char>) -> (r: bool)
    ensures
        r == line_is(line@, t@),
{
    let t0 = trim_ws_exec(line);
    let n = t0.len();
    let u = if n > 0 && t0[n - 1] == ',' {
        subvec(&t0, 0, n - 1)
    } else {
        subvec(&t0, 0, n)
    };
    proof {
        assert(trim_ws(line@).subrange(0, trim_ws(line@).len() as int) =~= trim_ws(line@));
        if trim_ws(line@).len() > 0 && trim_ws(line@).last() == ',' {
            assert(trim_ws(line@).subrange(0, trim_ws(line@).len() - 1) =~= trim_ws(
                line@,
            ).drop_last());
        }
        assert(u@ == strip_comma(trim_ws(line@)));
    }
    eq_chars(&u, t)
}

/// Reads the record written at fourteen consecutive lines.
fn json_record_at_exec(ls: &Vec<Vec<char>>, b: usize) -> (r: Option<DependencyInfo>)
    requires
        b + 14 <= ls@.len(),
    ensures
        match r {
            Some(d) => json_record_at(views(ls@), b as int) == Some(d@),
            None => json_record_at(views(ls@), b as int) is None,
        },
{
    let n_lines = ls.len();
    assert(b + 14 <= n_lines);
    proof {
        assert(views(ls@)[b as int] == ls@[b as int]@);
        assert(views(ls@)[b + 1] == ls@[b + 1]@);
        assert(views(ls@)[b + 2] == ls@[b + 2]@);
        assert(views(ls@)[b + 3] == ls@[b + 3]@);
        assert(views(ls@)[b + 4] == ls@[b + 4]@);
        assert(views(ls@)[b + 5] == ls@[b + 5]@);
        assert(views(ls@)[b + 6] == ls@[b + 6]@);
        assert(views(ls@)[b + 7] == ls@[b + 7]@);
        assert(views(ls@)[b + 8] == ls@[b + 8]@);
        assert(views(ls@)[b + 9] == ls@[b + 9]@);
        assert(views(ls@)[b + 10] == ls@[b + 10]@);
        assert(views(ls@)[b + 11] == ls@[b + 11]@);
        assert(views(ls@)[b + 12] == ls@[b + 12]@);
        assert(views(ls@)[b + 13] == ls@[b + 13]@);
    }
    let mut open_brace: Vec<char> = Vec::new();
    open_brace.push('{');
    assert(open_brace@ =~= seq!['{']);
    let mut close_brace: Vec<char> = Vec::new();
    close_brace.push('}');
    assert(close_brace@ =~= seq!['}']);
    if !line_is_exec(&ls[b], &open_brace) {
        return None;
    }
    let name_sc = match field_scalar_exec(&ls[b + 1], &str_to_chars("\"name\": ")) {
        Some(Scalar::Text(v)) => v,
        Some(_) => {
            return None;
        },
        None => {
            return None;
        },
    };
    let desc_sc = match field_scalar_exec(&ls[b + 2], &str_to_chars("\"description\": ")) {
        Some(sc) => sc,
        None => {
            return None;
        },
    };
    let tok = match field_scalar_exec(&ls[b + 3], &str_to_chars("\"dependency_kind\": ")) {
        Some(Scalar::Text(v)) => v,
        Some(_) => {
            return None;
        },
        None => {
            return None;
        },
    };
    let curl_sc = match field_scalar_exec(&ls[b + 4], &str_to_chars("\"crate_url\": ")) {
        Some(sc) => sc,
        None => {
            return None;
        },
    };
    let stype = match field_scalar_exec(&ls[b + 5], &str_to_chars("\"source_type\": ")) {
        Some(Scalar::Text(v)) => v,
        Some(_) => {
            return None;
        },
        None => {
            return None;
        },
    };
    let surl_sc = match field_scalar_exec(&ls[b + 6], &str_to_chars("\"source_url\": ")) {
        Some(sc) => sc,
        None => {
            return None;
        },
    };
    if !line_is_exec(&ls[b + 7], &str_to_chars("\"stats\": {")) {
        return None;
    }
    let kind = if eq_chars(&tok, &str_to_chars("Normal")) {
        DependencyKind::Normal
    } else if eq_chars(&tok, &str_to_chars("Development")) {
        DependencyKind::Development
    } else if eq_chars(&tok, &str_to_chars("Build")) {
        DependencyKind::Build
    } else if eq_chars(&tok, &str_to_chars("Unknown")) {
        DependencyKind::Unknown
    } else {
        return None;
    };
    let stars_sc = match field_scalar_exec(&ls[b + 8], &str_to_chars("\"stars\": ")) {
        Some(sc) => sc,
        None => {
            return None;
        },
    };
    let downs_sc = match field_scalar_exec(&ls[b + 9], &str_to_chars("\"downloads\": ")) {
        Some(sc) => sc,
        None => {
            return None;
        },
    };
    if !line_is_exec(&ls[b + 10], &close_brace) {
        return None;
    }
    let failed = match field_scalar_exec(&ls[b + 11], &str_to_chars("\"failed\": ")) {
        Some(Scalar::Flag(x)) => x,
        Some(_) => {
            return None;
        },
        None => {
            return None;
        },
    };
    let msg_sc = match field_scalar_exec(&ls[b + 12], &str_to_chars("\"error_message\": ")) {
        Some(sc) => sc,
        None => {
            return None;
        },
    };
    if !line_is_exec(&ls[b + 13], &close_brace) {
        return None;
    }
    let description = match desc_sc {
        Scalar::Text(v) => Some(chars_to_string(&v)),
        Scalar::Null => None,
        _ => {
            return None;
        },
    };
    let crate_url = match curl_sc {
        Scalar::Text(v) => Some(chars_to_string(&v)),
        Scalar::Null => None,
        _ => {
            return None;
        },
    };
    let source_url = match surl_sc {
        Scalar::Text(v) => Some(chars_to_string(&v)),
        Scalar::Null => None,
        _ => {
            return None;
        },
    };
    let stars = match stars_sc {
        Scalar::Num(x) => Some(x),
        Scalar::Null => None,
        _ => {
            return None;
        },
    };
    let downloads = match downs_sc {
        Scalar::Num(x) => Some(x),
        Scalar::Null => None,
        _ => {
            return None;
        },
    };
    let error_message = match msg_sc {
        Scalar::Text(v) => Some(chars_to_string(&v)),
        Scalar::Null => None,
        _ => {
            return None;
        },
    };
    Some(
        DependencyInfo {
            name: chars_to_string(&name_sc),
            description,
            dependency_kind: kind,
            crate_url,
            source_type: chars_to_string(&stype),
            source_url,
            stats: DependencyStats { stars, downloads },
            failed,
            error_message,
        },
    )
}

impl JsonFormatter {
    /// Renders records as a pretty-printed object array, in input order.
    pub fn format(&self, deps: &Vec<DependencyInfo>) -> (r: Result<String, AppError>)
        ensures
            r matches Ok(out) && out@ == json_render(deps.deep_view()),
    {
        if deps.len() == 0 {
            let out = str_to_chars("[]");
            return Ok(chars_to_string(&out));
        }
        let mut out: Vec<char> = Vec::new();
        push_all(&mut out, &str_to_chars("[\n"));
        let mut i: usize = 0;
        while i < deps.len()
            invariant
                i <= deps@.len(),
                deps@.len() > 0,
                deps.deep_view().len() == deps@.len(),
                i == 0 ==> out@ == "[\n"@,
                i > 0 ==> out@ == "[\n"@ + json_items_body(deps.deep_view().subrange(0, i as int)),
            decreases deps@.len() - i,
        {
            if i > 0 {
                push_all(&mut out, &str_to_chars(",\n"));
            }
            push_json_item(&mut out, &deps[i]);
            proof {
                let prefix = deps.deep_view().subrange(0, i as int);
                let next = deps.deep_view().subrange(0, i + 1 as int);
                assert(next.drop_last() =~= prefix);
                assert(next.last() == deps.deep_view()[i as int]);
                assert(deps@[i as int]@ == deps.deep_view()[i as int]);
                if i == 0 {
                    assert(out@ =~= "[\n"@ + json_items_body(next));
                } else {
                    assert(out@ =~= "[\n"@ + json_items_body(next));
                }
            }
            i = i + 1;
        }
        push_all(&mut out, &str_to_chars("\n]"));
        proof {
            assert(deps.deep_view().subrange(0, deps@.len() as int) =~= deps.deep_view());
            assert(out@ =~= json_render(deps.deep_view()));
        }
        Ok(chars_to_string(&out))
    }

    /// Reads an object-array document in the layout this codec writes; a
    /// document of any other shape is refused whole.
    #[verifier::rlimit(100)]
    pub fn parse(&self, content: &str) -> (r: Result<Vec<DependencyInfo>, AppError>)
        ensures
            match r {
                Ok(deps) => json_parse(content@) == Ok::<Seq<RecordView>, ErrView>(
                    deps.deep_view(),
                ),
                Err(e) => json_parse(content@) matches Err(v) && e@ == v,
            },
    {
        let cs = str_to_chars(content);
        let trimmed = trim_ws_exec(&cs);
        if eq_chars(&trimmed, &str_to_chars("[]")) {
            let deps: Vec<DependencyInfo> = Vec::new();
            proof {
                assert(deps.deep_view() =~= Seq::<RecordView>::empty());
            }
            return Ok(deps);
        }
        let all_lines = split_lines_exec(&cs);
        let ls = filter_nonblank(&all_lines);
        proof {
            assert(views(ls@) == nonblank_lines(content@));
        }
        if ls.len() < 2 {
            return Err(AppError::InvalidDocument(chars_to_string(&cs)));
        }
        let mut open_b: Vec<char> = Vec::new();
        open_b.push('[');
        assert(open_b@ =~= seq!['[']);
        let mut close_b: Vec<char> = Vec::new();
        close_b.push(']');
        assert(close_b@ =~= seq![']']);
        proof {
            assert(ls@[0 as int]@ == views(ls@)[0]);
            assert(ls@[ls@.len() - 1]@ == views(ls@)[views(ls@).len() - 1]);
        }
        if !eq_chars(&trim_ws_exec(&ls[0]), &open_b) {
            return Err(AppError::InvalidDocument(chars_to_string(&cs)));
        }
        if !eq_chars(&trim_ws_exec(&ls[ls.len() - 1]), &close_b) {
            return Err(AppError::InvalidDocument(chars_to_string(&cs)));
        }
        if (ls.len() - 2) % 14 != 0 {
            return Err(AppError::InvalidDocument(chars_to_string(&cs)));
        }
        let n = (ls.len() - 2) / 14;
        let ln = ls.len();
        let ghost whole = json_records(views(ls@), 0, n as int, content@);
        let mut deps: Vec<DependencyInfo> = Vec::new();
        let mut k: usize = 0;
        proof {
            assert(deps.deep_view() =~= Seq::<RecordView>::empty());
            match json_records(views(ls@), 0, n as int, content@) {
                Ok(rs) => {
                    assert(deps.deep_view() + rs =~= rs);
                },
                Err(_) => {},
            }
        }
        while k < n
            invariant
                k <= n,
                ln == ls@.len(),
                ln == views(ls@).len(),
                ln == 2 + 14 * n,
                n as int == (views(ls@).len() - 2) / 14,
                (views(ls@).len() - 2) % 14 == 0,
                views(ls@).len() >= 2,
                views(ls@) == nonblank_lines(content@),
                trim_ws(content@) != "[]"@,
                trim_ws(views(ls@)[0]) == seq!['['],
                trim_ws(views(ls@)[views(ls@).len() - 1]) == seq![']'],
                cs@ == content@,
                whole == json_records(views(ls@), 0, n as int, content@),
                ({
                    let tail = json_records(views(ls@), k as int, n as int, content@);
                    match tail {
                        Ok(rs) => whole matches Ok(all) && all == deps.deep_view() + rs,
                        Err(e) => whole == Err::<Seq<RecordView>, ErrView>(e),
                    }
                }),
            decreases n - k,
        {
            proof {
                assert(1 + 14 * (k as int) + 14 <= views(ls@).len());
            }
            match json_record_at_exec(&ls, 1 + 14 * k) {
                Some(dep) => {
                    let ghost before = deps.deep_view();
                    deps.push(dep);
                    proof {
                        assert(deps.deep_view() =~= before.push(dep@));
                        let tail2 = json_records(views(ls@), k + 1 as int, n as int, content@);
                        match tail2 {
                            Ok(rs2) => {
                                assert(before + (seq![dep@] + rs2) =~= deps.deep_view() + rs2);
                            },
                            Err(_) => {},
                        }
                    }
                },
                None => {
                    proof {
                        assert(json_record_at(views(ls@), 1 + 14 * (k as int)) is None);
                        assert(json_records(views(ls@), k as int, n as int, content@) == Err::<
                            Seq<RecordView>,
                            ErrView,
                        >(ErrView::InvalidDocument(content@)));
                    }
                    return Err(AppError::InvalidDocument(chars_to_string(&cs)));
                },
            }
            k = k + 1;
        }
        proof {
            assert(json_records(views(ls@), n as int, n as int, content@) == Ok::<
                Seq<RecordView>,
                ErrView,
            >(Seq::empty()));
            assert(whole matches Ok(all) && all == deps.deep_view() + Seq::<RecordView>::empty());
            assert(deps.deep_view() + Seq::<RecordView>::empty() =~= deps.deep_view());
        }
        Ok(deps)
    }
}

} // verus!
