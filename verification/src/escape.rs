//! Escaping of untrusted text for the places where it is interpolated:
//! JavaScript string literals, HTML, and URL query values.

use crate::text::{flat_map, lemma_flat_map_add, lemma_flat_map_all, lemma_flat_map_step};
use vstd::utf8::encode_utf8;
use vstd::prelude::*;

verus! {

/// The hexadecimal digit `d` in lower case.
pub open spec fn hex_lower(d: nat) -> char {
    if d < 10 {
        ((48 + d) as u8) as char
    } else {
        ((87 + d) as u8) as char
    }
}

/// The hexadecimal digit `d` in upper case.
pub open spec fn hex_upper(d: nat) -> char {
    if d < 10 {
        ((48 + d) as u8) as char
    } else {
        ((55 + d) as u8) as char
    }
}

fn hex_digit_lower(d: u32) -> (r: char)
    requires
        d < 16,
    ensures
        r == hex_lower(d as nat),
{
    if d < 10 {
        ((48 + d) as u8) as char
    } else {
        ((87 + d) as u8) as char
    }
}

fn hex_digit_upper(d: u8) -> (r: char)
    requires
        d < 16,
    ensures
        r == hex_upper(d as nat),
{
    if d < 10 {
        (48 + d) as char
    } else {
        (55 + d) as char
    }
}

/// `c` inside a double-quoted JavaScript string literal.
pub open spec fn js_char(c: char) -> Seq<char> {
    if c == '"' {
        seq!['\\', '"']
    } else if c == '\\' {
        seq!['\\', '\\']
    } else if c == '\n' {
        seq!['\\', 'n']
    } else if c == '\r' {
        seq!['\\', 'r']
    } else if c == '\t' {
        seq!['\\', 't']
    } else if c == '\u{2028}' {
        seq!['\\', 'u', '2', '0', '2', '8']
    } else if c == '\u{2029}' {
        seq!['\\', 'u', '2', '0', '2', '9']
    } else if c == '<' {
        seq!['\\', 'u', '0', '0', '3', 'c']
    } else if (c as u32) < 0x20 {
        seq!['\\', 'u', '0', '0', hex_lower(c as u32 as nat / 16), hex_lower(c as u32 as nat % 16)]
    } else {
        seq![c]
    }
}

/// The text between the quotes of the literal for `s`.
pub open spec fn js_body(s: Seq<char>) -> Seq<char> {
    flat_map(s, |c: char| js_char(c))
}

/// The double-quoted JavaScript string literal whose value is `s`.
pub open spec fn js_literal(s: Seq<char>) -> Seq<char> {
    seq!['"'] + js_body(s) + seq!['"']
}

/// Quotes and escapes `s` as a double-quoted JavaScript string literal: the
/// one way by which untrusted data enters a script.
pub fn js_string(s: &str) -> (r: String)
    ensures
        r@ == js_literal(s@),
{
    let mut out = String::new();
    out.push('"');
    for c in it: s.chars()
        invariant
            it.seq() == s@,
            out@ == seq!['"'] + js_body(s@.subrange(0, it.index() as int)),
    {
        let ghost before = out@;
        proof {
            lemma_flat_map_step(s@, it.index() as int, |c: char| js_char(c));
        }
        let v: u32 = c as u32;
        if c == '"' {
            out.push('\\');
            out.push('"');
        } else if c == '\\' {
            out.push('\\');
            out.push('\\');
        } else if c == '\n' {
            out.push('\\');
            out.push('n');
        } else if c == '\r' {
            out.push('\\');
            out.push('r');
        } else if c == '\t' {
            out.push('\\');
            out.push('t');
        } else if c == '\u{2028}' || c == '\u{2029}' {
            out.push('\\');
            out.push('u');
            out.push('2');
            out.push('0');
            out.push('2');
            out.push(if c == '\u{2028}' { '8' } else { '9' });
        } else if c == '<' {
            out.push('\\');
            out.push('u');
            out.push('0');
            out.push('0');
            out.push('3');
            out.push('c');
        } else if v < 0x20 {
            out.push('\\');
            out.push('u');
            out.push('0');
            out.push('0');
            out.push(hex_digit_lower(v / 16));
            out.push(hex_digit_lower(v % 16));
        } else {
            out.push(c);
        }
        assert(out@ =~= before + js_char(c));
        assert(before + js_char(c) =~= seq!['"'] + js_body(s@.subrange(0, it.index() + 1)));
    }
    assert(s@.subrange(0, s@.len() as int) =~= s@);
    out.push('"');
    assert(out@ =~= js_literal(s@));
    out
}

/// The value of a hexadecimal digit of either case.
pub open spec fn hex_value(c: char) -> Option<nat> {
    if '0' <= c <= '9' {
        Some((c as u32 - 48) as nat)
    } else if 'a' <= c <= 'f' {
        Some((c as u32 - 87) as nat)
    } else if 'A' <= c <= 'F' {
        Some((c as u32 - 55) as nat)
    } else {
        None
    }
}

/// A character that may stand unescaped between the quotes of a JavaScript
/// string literal, and that no surrounding script context can act on.
pub open spec fn js_plain(c: char) -> bool {
    c as u32 >= 0x20 && c != '\u{2028}' && c != '\u{2029}' && c != '<'
}

/// How a JavaScript engine reads a string literal behind its opening quote:
/// the value, and the text behind the closing quote. `None` where the text is
/// no literal in the forms known here.
pub open spec fn js_scan(t: Seq<char>) -> Option<(Seq<char>, Seq<char>)>
    decreases t.len(),
{
    if t.len() == 0 {
        None
    } else if t[0] == '"' {
        Some((Seq::empty(), t.drop_first()))
    } else if t[0] == '\\' {
        if t.len() < 2 {
            None
        } else if t[1] == '"' || t[1] == '\\' {
            js_cons(t[1], js_scan(t.skip(2)))
        } else if t[1] == 'n' {
            js_cons('\n', js_scan(t.skip(2)))
        } else if t[1] == 'r' {
            js_cons('\r', js_scan(t.skip(2)))
        } else if t[1] == 't' {
            js_cons('\t', js_scan(t.skip(2)))
        } else if t[1] == 'u' && t.len() >= 6 {
            match (hex_value(t[2]), hex_value(t[3]), hex_value(t[4]), hex_value(t[5])) {
                (Some(a), Some(b), Some(c), Some(d)) => js_cons(
                    ((4096 * a + 256 * b + 16 * c + d) as u32) as char,
                    js_scan(t.skip(6)),
                ),
                _ => None,
            }
        } else {
            None
        }
    } else if t[0] as u32 >= 0x20 && t[0] != '\u{2028}' && t[0] != '\u{2029}' {
        js_cons(t[0], js_scan(t.drop_first()))
    } else {
        None
    }
}

/// A scanned literal with one more character in front of its value.
pub open spec fn js_cons(c: char, r: Option<(Seq<char>, Seq<char>)>) -> Option<
    (Seq<char>, Seq<char>),
> {
    match r {
        Some((value, rest)) => Some((seq![c] + value, rest)),
        None => None,
    }
}

/// A literal closes exactly where it ends, whatever stands behind it, and its
/// value is the text that was quoted: no text can break out of its literal.
pub proof fn js_string_reads_back(s: Seq<char>, rest: Seq<char>)
    ensures
        js_scan(js_body(s) + seq!['"'] + rest) == Some((s, rest)),
    decreases s.len(),
{
    let t = js_body(s) + seq!['"'] + rest;
    if s.len() == 0 {
        assert(t.drop_first() =~= rest);
        assert(s =~= Seq::<char>::empty());
    } else {
        let tail = s.drop_first();
        let u = js_body(tail) + seq!['"'] + rest;
        js_string_reads_back(tail, rest);
        let e = js_char(s[0]);
        assert(js_body(s) == e + js_body(tail));
        assert(t =~= e + u);
        assert(t.skip(e.len() as int) =~= u);
        assert(s =~= seq![s[0]] + tail);
        assert forall|i: int| 0 <= i < e.len() implies t[i] == e[i] by {}
        vstd::utf8::char_is_scalar(s[0]);
        if e.len() == 1 {
            assert(t.drop_first() =~= u);
        } else if e.len() == 6 && (s[0] as u32) >= 0x20 {
            vstd::utf8::char_u32_cast(s[0], s[0] as u32);
            assert(hex_value('0') == Some(0nat) && hex_value('2') == Some(2nat));
            assert(hex_value('3') == Some(3nat) && hex_value('8') == Some(8nat));
            assert(hex_value('9') == Some(9nat) && hex_value('c') == Some(12nat));
            assert(js_scan(t) == js_cons(s[0], js_scan(u)));
        } else if e.len() == 6 {
            vstd::utf8::char_u32_cast(s[0], s[0] as u32);
            let v = s[0] as u32 as nat;
            assert(v / 16 < 2 && v % 16 < 16);
            assert(hex_value(hex_lower(v / 16)) == Some(v / 16));
            assert(hex_value(hex_lower(v % 16)) == Some(v % 16));
            assert(16 * (v / 16) + v % 16 == v);
            assert(hex_value('0') == Some(0nat));
            assert(js_scan(t) == js_cons(s[0], js_scan(u)));
        } else {
            assert(js_scan(t) == js_cons(s[0], js_scan(u)));
        }
    }
}

/// A literal holds no control character, no line terminator and no `<`: no
/// `</script` can stand in one.
pub proof fn js_string_is_plain(s: Seq<char>)
    ensures
        forall|i: int| 0 <= i < js_literal(s).len() ==> js_plain(#[trigger] js_literal(s)[i]),
{
    let f = |c: char| js_char(c);
    let p = |c: char| js_plain(c);
    assert forall|k: int, j: int| 0 <= k < s.len() && 0 <= j < f(s[k]).len() implies p(
        #[trigger] f(s[k])[j],
    ) by {
        let v = s[k] as u32 as nat;
        assert(v < 0x20 ==> v / 16 < 2 && v % 16 < 16);
    }
    lemma_flat_map_all(s, f, p);
    assert forall|i: int| 0 <= i < js_literal(s).len() implies js_plain(
        #[trigger] js_literal(s)[i],
    ) by {
        if 0 < i < js_literal(s).len() - 1 {
            assert(js_literal(s)[i] == js_body(s)[i - 1]);
            assert(p(flat_map(s, f)[i - 1]));
        }
    }
}

/// `c` as HTML text or inside an attribute value.
pub open spec fn html_char(c: char) -> Seq<char> {
    if c == '&' {
        seq!['&', 'a', 'm', 'p', ';']
    } else if c == '<' {
        seq!['&', 'l', 't', ';']
    } else if c == '>' {
        seq!['&', 'g', 't', ';']
    } else if c == '"' {
        seq!['&', 'q', 'u', 'o', 't', ';']
    } else if c == '\'' {
        seq!['&', '#', '3', '9', ';']
    } else {
        seq![c]
    }
}

/// `s` as HTML text or inside an attribute value.
pub open spec fn html_text(s: Seq<char>) -> Seq<char> {
    flat_map(s, |c: char| html_char(c))
}

/// Escapes `s` for insertion as HTML text or attribute content, so that no
/// plugin-derived string can bring markup into a privileged page.
pub fn esc(s: &str) -> (r: String)
    ensures
        r@ == html_text(s@),
{
    let mut out = String::new();
    for c in it: s.chars()
        invariant
            it.seq() == s@,
            out@ == html_text(s@.subrange(0, it.index() as int)),
    {
        let ghost before = out@;
        proof {
            lemma_flat_map_step(s@, it.index() as int, |c: char| html_char(c));
            reveal_strlit("&amp;");
            reveal_strlit("&lt;");
            reveal_strlit("&gt;");
            reveal_strlit("&quot;");
            reveal_strlit("&#39;");
        }
        if c == '&' {
            out.push_str("&amp;");
        } else if c == '<' {
            out.push_str("&lt;");
        } else if c == '>' {
            out.push_str("&gt;");
        } else if c == '"' {
            out.push_str("&quot;");
        } else if c == '\'' {
            out.push_str("&#39;");
        } else {
            out.push(c);
        }
        assert(out@ =~= before + html_char(c));
    }
    assert(s@.subrange(0, s@.len() as int) =~= s@);
    out
}

/// The character that the HTML text `t` begins with, and how many characters
/// spell it; the five character references of [`html_char`] are known.
pub open spec fn html_first(t: Seq<char>) -> (char, int) {
    if seq!['&', 'a', 'm', 'p', ';'].is_prefix_of(t) {
        ('&', 5)
    } else if seq!['&', 'l', 't', ';'].is_prefix_of(t) {
        ('<', 4)
    } else if seq!['&', 'g', 't', ';'].is_prefix_of(t) {
        ('>', 4)
    } else if seq!['&', 'q', 'u', 'o', 't', ';'].is_prefix_of(t) {
        ('"', 6)
    } else if seq!['&', '#', '3', '9', ';'].is_prefix_of(t) {
        ('\'', 5)
    } else {
        (t[0], 1)
    }
}

/// The text that the HTML text `t` shows.
pub open spec fn html_shown(t: Seq<char>) -> Seq<char>
    decreases t.len(),
{
    if t.len() == 0 {
        Seq::empty()
    } else {
        let (c, n) = html_first(t);
        seq![c] + html_shown(t.skip(n))
    }
}

/// Escaped text holds no character that opens or closes a tag or an attribute
/// value.
pub proof fn esc_has_no_markup(s: Seq<char>)
    ensures
        forall|i: int|
            0 <= i < html_text(s).len() ==> {
                let c = #[trigger] html_text(s)[i];
                c != '<' && c != '>' && c != '"' && c != '\''
            },
{
    let f = |c: char| html_char(c);
    let p = |c: char| c != '<' && c != '>' && c != '"' && c != '\'';
    assert forall|k: int, j: int| 0 <= k < s.len() && 0 <= j < f(s[k]).len() implies p(
        #[trigger] f(s[k])[j],
    ) by {}
    lemma_flat_map_all(s, f, p);
    assert forall|i: int| 0 <= i < html_text(s).len() implies {
        let c = #[trigger] html_text(s)[i];
        c != '<' && c != '>' && c != '"' && c != '\''
    } by {
        assert(p(flat_map(s, f)[i]));
    }
}

/// Escaped text is shown as the text that was escaped.
pub proof fn esc_shows_the_text(s: Seq<char>)
    ensures
        html_shown(html_text(s)) == s,
    decreases s.len(),
{
    let t = html_text(s);
    if s.len() == 0 {
        assert(s =~= Seq::<char>::empty());
    } else {
        let tail = s.drop_first();
        esc_shows_the_text(tail);
        let e = html_char(s[0]);
        let u = html_text(tail);
        assert(t == e + u);
        assert(t.skip(e.len() as int) =~= u);
        assert(s =~= seq![s[0]] + tail);
        assert forall|i: int| 0 <= i < e.len() implies t[i] == e[i] by {}
        if e.len() > 1 {
            assert(e.is_prefix_of(t));
        }
        lemma_html_first(s[0], u);
    }
}

/// The reference for `c`, whatever follows it, is read as `c`.
proof fn lemma_html_first(c: char, u: Seq<char>)
    ensures
        html_first(html_char(c) + u) == (c, html_char(c).len() as int),
{
    let t = html_char(c) + u;
    assert forall|p: Seq<char>| #[trigger] p.is_prefix_of(t) && p.len() >= 2 implies p[0] == t[0]
        && p[1] == t[1] by {
        assert(p =~= t.subrange(0, p.len() as int));
    }
    assert(html_char(c).is_prefix_of(t)) by {
        assert(t.subrange(0, html_char(c).len() as int) =~= html_char(c));
    }
}

/// The characters that stand unencoded in a URL query value.
pub open spec fn unreserved(b: u8) -> bool {
    ||| 'A' as u8 <= b <= 'Z' as u8
    ||| 'a' as u8 <= b <= 'z' as u8
    ||| '0' as u8 <= b <= '9' as u8
    ||| b == '-' as u8 || b == '_' as u8 || b == '.' as u8 || b == '~' as u8
}

/// The byte `b` in a URL query value.
pub open spec fn percent_byte(b: u8) -> Seq<char> {
    if unreserved(b) {
        seq![b as char]
    } else {
        seq!['%', hex_upper(b as nat / 16), hex_upper(b as nat % 16)]
    }
}

/// The bytes of a text in a URL query value.
pub open spec fn percent_bytes(b: Seq<u8>) -> Seq<char> {
    flat_map(b, |x: u8| percent_byte(x))
}

/// `s` as a URL query value: its UTF-8 bytes, all but the unreserved ones
/// percent-encoded.
pub open spec fn percent_encoded(s: Seq<char>) -> Seq<char> {
    percent_bytes(encode_utf8(s))
}

/// Percent-encodes `s` for use as a URL query value; a space becomes `%20`.
pub fn url_percent_encode(s: &str) -> (r: String)
    ensures
        r@ == percent_encoded(s@),
{
    let bytes = s.as_bytes();
    let mut out = String::new();
    let mut i: usize = 0;
    while i < bytes.len()
        invariant
            i <= bytes@.len(),
            out@ == percent_bytes(bytes@.subrange(0, i as int)),
        decreases bytes@.len() - i,
    {
        let ghost before = out@;
        let b: u8 = bytes[i];
        proof {
            lemma_flat_map_step(bytes@, i as int, |x: u8| percent_byte(x));
        }
        if (65 <= b && b <= 90) || (97 <= b && b <= 122) || (48 <= b && b <= 57) || b == 45 || b
            == 95 || b == 46 || b == 126 {
            out.push(b as char);
        } else {
            out.push('%');
            out.push(hex_digit_upper(b / 16));
            out.push(hex_digit_upper(b % 16));
        }
        assert(out@ =~= before + percent_byte(b));
        i = i + 1;
    }
    assert(bytes@.subrange(0, bytes@.len() as int) =~= bytes@);
    out
}

/// The bytes that the percent-encoded text `t` stands for.
pub open spec fn percent_decoded(t: Seq<char>) -> Seq<u8>
    decreases t.len(),
{
    if t.len() == 0 {
        Seq::empty()
    } else if t[0] == '%' && t.len() >= 3 {
        match (hex_value(t[1]), hex_value(t[2])) {
            (Some(h), Some(l)) => seq![(16 * h + l) as u8] + percent_decoded(t.skip(3)),
            _ => seq!['%' as u8] + percent_decoded(t.drop_first()),
        }
    } else {
        seq![t[0] as u8] + percent_decoded(t.drop_first())
    }
}

/// A percent-encoded text holds unreserved characters and `%` alone.
pub proof fn percent_encoding_is_safe(s: Seq<char>)
    ensures
        forall|i: int|
            0 <= i < percent_encoded(s).len() ==> {
                let c = #[trigger] percent_encoded(s)[i];
                c == '%' || ((c as u32) < 128 && unreserved(c as u8))
            },
{
    let b = encode_utf8(s);
    let f = |x: u8| percent_byte(x);
    let p = |c: char| c == '%' || ((c as u32) < 128 && unreserved(c as u8));
    assert forall|k: int, j: int| 0 <= k < b.len() && 0 <= j < f(b[k]).len() implies p(
        #[trigger] f(b[k])[j],
    ) by {
        let v = b[k] as nat;
        assert(v / 16 < 16 && v % 16 < 16);
    }
    lemma_flat_map_all(b, f, p);
    assert forall|i: int| 0 <= i < percent_encoded(s).len() implies {
        let c = #[trigger] percent_encoded(s)[i];
        c == '%' || ((c as u32) < 128 && unreserved(c as u8))
    } by {
        assert(p(flat_map(b, f)[i]));
    }
}

/// Decoding a percent-encoded text gives back its UTF-8 bytes.
pub proof fn percent_encoding_decodes(s: Seq<char>)
    ensures
        percent_decoded(percent_encoded(s)) == encode_utf8(s),
{
    lemma_percent_bytes_decode(encode_utf8(s));
}

proof fn lemma_percent_bytes_decode(b: Seq<u8>)
    ensures
        percent_decoded(percent_bytes(b)) == b,
    decreases b.len(),
{
    let t = percent_bytes(b);
    if b.len() == 0 {
        assert(b =~= Seq::<u8>::empty());
    } else {
        let tail = b.drop_first();
        lemma_percent_bytes_decode(tail);
        let e = percent_byte(b[0]);
        let u = percent_bytes(tail);
        assert(t == e + u);
        assert(t.skip(e.len() as int) =~= u);
        assert(b =~= seq![b[0]] + tail);
        if unreserved(b[0]) {
            assert(t.drop_first() =~= u);
            assert(t[0] == e[0]);
        } else {
            let v = b[0] as nat;
            assert(v / 16 < 16 && v % 16 < 16);
            assert(t[0] == '%' && t[1] == e[1] && t[2] == e[2]);
            assert(hex_value(hex_upper(v / 16)) == Some(v / 16));
            assert(hex_value(hex_upper(v % 16)) == Some(v % 16));
            assert(16 * (v / 16) + v % 16 == v);
        }
    }
}

proof fn lemma_encode_utf8_add(a: Seq<char>, b: Seq<char>)
    ensures
        encode_utf8(a + b) == encode_utf8(a) + encode_utf8(b),
    decreases a.len(),
{
    if a.len() == 0 {
        assert(a + b =~= b);
        assert(encode_utf8(a + b) =~= encode_utf8(a) + encode_utf8(b));
    } else {
        lemma_encode_utf8_add(a.drop_first(), b);
        assert((a + b).drop_first() =~= a.drop_first() + b);
        assert(encode_utf8(a + b) =~= encode_utf8(a) + encode_utf8(b));
    }
}

/// A text may be escaped or encoded piece by piece: the pieces one after the
/// other are the whole.
pub proof fn escaping_goes_piece_by_piece(a: Seq<char>, b: Seq<char>)
    ensures
        js_body(a + b) == js_body(a) + js_body(b),
        html_text(a + b) == html_text(a) + html_text(b),
        percent_encoded(a + b) == percent_encoded(a) + percent_encoded(b),
{
    lemma_flat_map_add(a, b, |c: char| js_char(c));
    lemma_flat_map_add(a, b, |c: char| html_char(c));
    lemma_encode_utf8_add(a, b);
    lemma_flat_map_add(encode_utf8(a), encode_utf8(b), |x: u8| percent_byte(x));
}

} // verus!
