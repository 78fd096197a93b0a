//! Reading string-valued properties out of the metadata object literal.

use vstd::prelude::*;
use vstd::string::StringSliceAdditionalSpecFns;

use crate::json::{json_string_decode, json_string_value};
use crate::scan::{
    block_close_from, is_quote, lemma_block_close_from,
    lemma_line_end, lemma_string_close_from, line_end, msg_unterminated_comment,
    msg_unterminated_string, skip_block_comment_chars, skip_line_comment_chars, skip_string_chars,
    string_close_from,
};
use crate::text::{ascii_alpha, ascii_ws, ident_continue, is_ascii_alpha, is_ascii_ws, is_ident_continue, string_of_range, chars_of};

verus! {

pub open spec fn msg_empty_string() -> Seq<char> {
    "empty workflow metadata string"@
}

pub open spec fn msg_invalid_string_prefix() -> Seq<char> {
    "invalid workflow metadata string: "@
}

pub open spec fn msg_trailing_escape() -> Seq<char> {
    "invalid trailing escape in workflow metadata"@
}

/// An executable result viewed as a mathematical one.
pub open spec fn text_result(r: Result<String, String>) -> Result<Seq<char>, Seq<char>> {
    match r {
        Ok(v) => Ok(v@),
        Err(e) => Err(e@),
    }
}

/// An executable result viewed as a mathematical one.
pub open spec fn optional_text_result(r: Result<Option<String>, String>) -> Result<
    Option<Seq<char>>,
    Seq<char>,
> {
    match r {
        Ok(Some(v)) => Ok(Some(v@)),
        Ok(None) => Ok(None),
        Err(e) => Err(e@),
    }
}

/// The character that a backslash escape in a single-quoted string stands for.
pub open spec fn unescaped(c: char) -> char {
    if c == 'n' {
        '\n'
    } else if c == 'r' {
        '\r'
    } else if c == 't' {
        '\t'
    } else {
        c
    }
}

/// `prefix` put in front of a successful decoding.
pub open spec fn prepend(prefix: Seq<char>, r: Result<Seq<char>, Seq<char>>) -> Result<
    Seq<char>,
    Seq<char>,
> {
    match r {
        Ok(t) => Ok(prefix + t),
        Err(e) => Err(e),
    }
}

pub proof fn lemma_prepend_assoc(a: Seq<char>, b: Seq<char>, r: Result<Seq<char>, Seq<char>>)
    ensures
        prepend(a, prepend(b, r)) == prepend(a + b, r),
{
    if let Ok(t) = r {
        assert(a + (b + t) =~= (a + b) + t);
    }
}

/// The contents of a quoted string with its backslash escapes resolved: `\n`,
/// `\r` and `\t` stand for control characters, any other escaped character
/// stands for itself, and a lone trailing backslash is an error.
pub open spec fn unescape_contents(content: Seq<char>) -> Result<Seq<char>, Seq<char>>
    decreases content.len(),
{
    if content.len() == 0 {
        Ok(Seq::empty())
    } else if content[0] != '\\' {
        prepend(seq![content[0]], unescape_contents(content.drop_first()))
    } else if content.len() == 1 {
        Err(msg_trailing_escape())
    } else {
        prepend(seq![unescaped(content[1])], unescape_contents(content.subrange(2, content.len() as int)))
    }
}

/// The value of a quoted metadata string, quotes included: a double-quoted
/// string is read as JSON, any other one has its escapes resolved.
pub open spec fn decoded_string(source: Seq<char>) -> Result<Seq<char>, Seq<char>> {
    if source.len() == 0 {
        Err(msg_empty_string())
    } else if source[0] == '"' {
        match json_string_value(source) {
            Ok(v) => Ok(v),
            Err(e) => Err(msg_invalid_string_prefix() + e),
        }
    } else {
        unescape_contents(source.subrange(1, source.len() - 1))
    }
}

/// The slicing that the decoder performs stays on character boundaries of the
/// UTF-8 text: the text is empty, or it has two characters or more and the
/// first and last are single-byte characters.
pub open spec fn sliceable_quoted(source: Seq<char>) -> bool {
    source.len() == 0 || (source.len() >= 2 && (source[0] as u32) < 0x80 && (source.last() as u32)
        < 0x80)
}

/// Decodes the quoted string `source` (quotes included).
pub fn decode_js_string_chars(source: &[char]) -> (r: Result<String, String>)
    requires
        sliceable_quoted(source@),
    ensures
        text_result(r) == decoded_string(source@),
{
    if source.len() == 0 {
        return Err(String::from_str("empty workflow metadata string"));
    }
    let quote = source[0];
    if quote == '"' {
        let text = string_of_range(source, 0, source.len());
        assert(source@.subrange(0, source@.len() as int) == source@);
        return match json_string_decode(text.as_str()) {
            Ok(v) => Ok(v),
            Err(e) => {
                let mut message = String::from_str("invalid workflow metadata string: ");
                message.append(e.as_str());
                Err(message)
            },
        };
    }
    let end = source.len() - 1;
    let ghost content = source@.subrange(1, end as int);
    let mut decoded = String::new();
    let mut index: usize = 1;
    while index < end
        invariant
            1 <= index <= end,
            end == source@.len() - 1,
            source@[0] != '"',
            content == source@.subrange(1, end as int),
            unescape_contents(content) == prepend(
                decoded@,
                unescape_contents(source@.subrange(index as int, end as int)),
            ),
        decreases end + 1 - index,
    {
        let character = source[index];
        let ghost rest = source@.subrange(index as int, end as int);
        let ghost before = decoded@;
        if character != '\\' {
            assert(rest.drop_first() == source@.subrange(index + 1, end as int));
            assert(rest[0] == character);
            assert(unescape_contents(rest) == prepend(
                seq![character],
                unescape_contents(rest.drop_first()),
            ));
            decoded.push(character);
            index = index + 1;
            proof {
                lemma_prepend_assoc(before, seq![character], unescape_contents(rest.drop_first()));
                assert(decoded@ =~= before + seq![character]);
            }
            continue;
        }
        if index + 1 >= end {
            assert(rest.len() == 1 && rest[0] == '\\');
            assert(unescape_contents(rest) == Err::<Seq<char>, Seq<char>>(msg_trailing_escape()));
            return Err(String::from_str("invalid trailing escape in workflow metadata"));
        }
        let escaped = source[index + 1];
        let replacement = if escaped == 'n' {
            '\n'
        } else if escaped == 'r' {
            '\r'
        } else if escaped == 't' {
            '\t'
        } else {
            escaped
        };
        assert(rest.subrange(2, rest.len() as int) == source@.subrange(index + 2, end as int));
        assert(rest[0] == '\\' && rest[1] == escaped && rest.len() >= 2);
        assert(unescaped(escaped) == replacement);
        assert(unescape_contents(rest) == prepend(
            seq![replacement],
            unescape_contents(rest.subrange(2, rest.len() as int)),
        ));
        decoded.push(replacement);
        index = index + 2;
        proof {
            lemma_prepend_assoc(
                before,
                seq![replacement],
                unescape_contents(rest.subrange(2, rest.len() as int)),
            );
            assert(decoded@ =~= before + seq![replacement]);
        }
    }
    assert(source@.subrange(index as int, end as int) =~= Seq::<char>::empty());
    Ok(decoded)
}


/// The first position at or after `i` that does not hold ASCII whitespace.
pub open spec fn ascii_ws_end(s: Seq<char>, i: int) -> int
    decreases s.len() - i,
{
    if 0 <= i < s.len() && is_ascii_ws(s[i]) {
        ascii_ws_end(s, i + 1)
    } else {
        i
    }
}

pub proof fn lemma_ascii_ws_end(s: Seq<char>, i: int)
    requires
        0 <= i,
    ensures
        i <= ascii_ws_end(s, i),
        i <= s.len() ==> ascii_ws_end(s, i) <= s.len(),
    decreases s.len() - i,
{
    if 0 <= i < s.len() && is_ascii_ws(s[i]) {
        lemma_ascii_ws_end(s, i + 1);
    }
}

/// The string value that follows a property key ending before `i`: optional
/// ASCII whitespace, a colon, optional ASCII whitespace, then a single- or
/// double-quoted string. Anything else means the key has no string value.
pub open spec fn property_value(s: Seq<char>, i: int) -> Result<Option<Seq<char>>, Seq<char>> {
    let j = ascii_ws_end(s, i);
    if !(0 <= j < s.len() && s[j] == ':') {
        Ok(None)
    } else {
        let k = ascii_ws_end(s, j + 1);
        if !(0 <= k < s.len() && (s[k] == '\'' || s[k] == '"')) {
            Ok(None)
        } else {
            match string_close_from(s, s[k], k + 1) {
                None => Err(msg_unterminated_string()),
                Some(end) => match decoded_string(s.subrange(k, end + 1)) {
                    Ok(v) => Ok(Some(v)),
                    Err(e) => Err(e),
                },
            }
        }
    }
}

pub proof fn lemma_quoted_sliceable(s: Seq<char>, k: int)
    requires
        0 <= k < s.len(),
        s[k] == '\'' || s[k] == '"' || s[k] == '`',
    ensures
        string_close_from(s, s[k], k + 1) matches Some(end) ==> sliceable_quoted(
            s.subrange(k, end + 1),
        ),
{
    lemma_string_close_from(s, s[k], k + 1);
}

/// The string value of the property whose key ends just before `index`, if it has one.
pub fn string_property_value_chars(source: &[char], index: usize) -> (r: Result<Option<String>, String>)
    ensures
        optional_text_result(r) == property_value(source@, index as int),
{
    let bytes = source;
    let n = bytes.len();
    let mut index = index;
    let ghost start = index;
    while index < n && ascii_ws(bytes[index])
        invariant
            n == bytes@.len(),
            start <= index,
            ascii_ws_end(bytes@, index as int) == ascii_ws_end(bytes@, start as int),
        decreases n - index,
    {
        index = index + 1;
    }
    if !(index < n && bytes[index] == ':') {
        return Ok(None);
    }
    let ghost colon = index;
    index = index + 1;
    while index < n && ascii_ws(bytes[index])
        invariant
            n == bytes@.len(),
            colon < index,
            ascii_ws_end(bytes@, index as int) == ascii_ws_end(bytes@, colon + 1),
        decreases n - index,
    {
        index = index + 1;
    }
    if !(index < n && (bytes[index] == '\'' || bytes[index] == '"')) {
        return Ok(None);
    }
    proof {
        lemma_quoted_sliceable(bytes@, index as int);
        lemma_string_close_from(bytes@, bytes@[index as int], index + 1);
    }
    let end = match skip_string_chars(bytes, index) {
        Ok(end) => end,
        Err(e) => return Err(e),
    };
    let quoted = vstd::slice::slice_subrange(bytes, index, end + 1);
    match decode_js_string_chars(quoted) {
        Ok(v) => Ok(Some(v)),
        Err(e) => Err(e),
    }
}

/// The last position of the identifier that starts at `i`.
pub open spec fn ident_end(s: Seq<char>, i: int) -> int
    decreases s.len() - i,
{
    if 0 <= i && i + 1 < s.len() && is_ident_continue(s[i + 1]) {
        ident_end(s, i + 1)
    } else {
        i
    }
}

pub proof fn lemma_ident_end(s: Seq<char>, i: int)
    requires
        0 <= i < s.len(),
    ensures
        i <= ident_end(s, i) < s.len(),
        forall|m: int| i < m <= ident_end(s, i) ==> is_ident_continue(#[trigger] s[m]),
    decreases s.len() - i,
{
    if i + 1 < s.len() && is_ident_continue(s[i + 1]) {
        lemma_ident_end(s, i + 1);
    }
}

/// The value that a key found at a string or identifier gives: its string
/// value when the key is the property and a string value follows, or the
/// result of scanning on from `next`.
pub open spec fn found_key_value(
    s: Seq<char>,
    key: Seq<char>,
    property: Seq<char>,
    value_start: int,
    rest: Result<Option<Seq<char>>, Seq<char>>,
) -> Result<Option<Seq<char>>, Seq<char>> {
    if key == property {
        match property_value(s, value_start) {
            Err(e) => Err(e),
            Ok(Some(v)) => Ok(Some(v)),
            Ok(None) => rest,
        }
    } else {
        rest
    }
}

/// Searching for `property` among the top-level keys of the object literal,
/// from `i` at nesting `depth`. Keys are identifiers or quoted strings at
/// nesting one; strings and comments elsewhere are skipped.
pub open spec fn property_from(s: Seq<char>, property: Seq<char>, i: int, depth: nat) -> Result<
    Option<Seq<char>>,
    Seq<char>,
>
    decreases s.len() - i,
{
    if i < 0 || i >= s.len() {
        Ok(None)
    } else {
        let c = s[i];
        if c == '{' {
            property_from(s, property, i + 1, depth + 1)
        } else if c == '}' {
            property_from(s, property, i + 1, if depth == 0 { 0 } else { (depth - 1) as nat })
        } else if c == '/' && i + 1 < s.len() && s[i + 1] == '/' {
            let e = line_end(s, i + 2);
            proof {
                lemma_line_end(s, i + 2);
            }
            if e >= s.len() {
                Ok(None)
            } else {
                property_from(s, property, e + 1, depth)
            }
        } else if c == '/' && i + 1 < s.len() && s[i + 1] == '*' {
            match block_close_from(s, i + 2) {
                None => Err(msg_unterminated_comment()),
                Some(j) => {
                    proof {
                        lemma_block_close_from(s, i + 2);
                    }
                    property_from(s, property, j + 1, depth)
                },
            }
        } else if (c == '\'' || c == '"') && depth == 1 {
            match string_close_from(s, c, i + 1) {
                None => Err(msg_unterminated_string()),
                Some(end) => {
                    proof {
                        lemma_string_close_from(s, c, i + 1);
                    }
                    match decoded_string(s.subrange(i, end + 1)) {
                        Err(e) => Err(e),
                        Ok(key) => found_key_value(
                            s,
                            key,
                            property,
                            end + 1,
                            property_from(s, property, end + 1, depth),
                        ),
                    }
                },
            }
        } else if depth == 1 && (is_ascii_alpha(c) || c == '_') {
            let end = ident_end(s, i);
            proof {
                lemma_ident_end(s, i);
            }
            found_key_value(
                s,
                s.subrange(i, end + 1),
                property,
                end + 1,
                property_from(s, property, end + 1, depth),
            )
        } else if is_quote(c) {
            match string_close_from(s, c, i + 1) {
                None => Err(msg_unterminated_string()),
                Some(j) => {
                    proof {
                        lemma_string_close_from(s, c, i + 1);
                    }
                    property_from(s, property, j + 1, depth)
                },
            }
        } else {
            property_from(s, property, i + 1, depth)
        }
    }
}

/// The string value of the top-level `property` of the object literal `s`.
pub open spec fn property_in(s: Seq<char>, property: Seq<char>) -> Result<
    Option<Seq<char>>,
    Seq<char>,
> {
    property_from(s, property, 0, 0)
}

/// Whether `chars[from..to]` is `target`.
pub fn range_equals(chars: &[char], from: usize, to: usize, target: &[char]) -> (r: bool)
    requires
        from <= to <= chars@.len(),
    ensures
        r == (chars@.subrange(from as int, to as int) == target@),
{
    if to - from != target.len() {
        assert(chars@.subrange(from as int, to as int).len() != target@.len());
        return false;
    }
    let mut k: usize = 0;
    while k < target.len()
        invariant
            from <= to <= chars@.len(),
            to - from == target@.len(),
            0 <= k <= target@.len(),
            forall|m: int| 0 <= m < k ==> chars@[from + m] == target@[m],
        decreases target@.len() - k,
    {
        if chars[from + k] != target[k] {
            assert(chars@.subrange(from as int, to as int)[k as int] != target@[k as int]);
            return false;
        }
        k = k + 1;
    }
    assert(chars@.subrange(from as int, to as int) =~= target@);
    true
}

/// The string value of the top-level `property` of the object literal
/// `source`, if it has one.
pub fn find_string_property_chars(source: &[char], property: &str) -> (r: Result<Option<String>, String>)
    ensures
        optional_text_result(r) == property_in(source@, property@),
{
    let bytes = source;
    let wanted = chars_of(property);
    let wanted_string = String::from_str(property);
    let n = bytes.len();
    let mut depth: usize = 0;
    let mut index: usize = 0;
    while index < n
        invariant
            n == bytes@.len(),
            wanted@ == property@,
            wanted_string@ == property@,
            0 <= index <= n,
            depth <= index,
            property_in(source@, property@) == property_from(
                bytes@,
                property@,
                index as int,
                depth as nat,
            ),
        decreases n - index,
    {
        let c = bytes[index];
        if c == '{' {
            depth = depth + 1;
        } else if c == '}' {
            depth = depth.saturating_sub(1);
        } else if c == '/' && index + 1 < n && bytes[index + 1] == '/' {
            let end = skip_line_comment_chars(bytes, index);
            proof {
                lemma_line_end(bytes@, index + 2);
            }
            if end >= n {
                return Ok(None);
            }
            index = end;
        } else if c == '/' && index + 1 < n && bytes[index + 1] == '*' {
            proof {
                lemma_block_close_from(bytes@, index + 2);
            }
            match skip_block_comment_chars(bytes, index) {
                Ok(end) => index = end,
                Err(e) => return Err(e),
            }
        } else if (c == '\'' || c == '"') && depth == 1 {
            proof {
                lemma_quoted_sliceable(bytes@, index as int);
                lemma_string_close_from(bytes@, c, index + 1);
            }
            let end = match skip_string_chars(bytes, index) {
                Ok(end) => end,
                Err(e) => return Err(e),
            };
            let quoted = vstd::slice::slice_subrange(bytes, index, end + 1);
            let key = match decode_js_string_chars(quoted) {
                Ok(key) => key,
                Err(e) => return Err(e),
            };
            if key == wanted_string {
                match string_property_value_chars(bytes, end + 1) {
                    Ok(Some(value)) => return Ok(Some(value)),
                    Ok(None) => {},
                    Err(e) => return Err(e),
                }
            }
            index = end;
        } else if depth == 1 && (ascii_alpha(c) || c == '_') {
            let start = index;
            proof {
                lemma_ident_end(bytes@, index as int);
            }
            while index + 1 < n && ident_continue(bytes[index + 1])
                invariant
                    n == bytes@.len(),
                    start <= index < n,
                    ident_end(bytes@, index as int) == ident_end(bytes@, start as int),
                decreases n - index,
            {
                index = index + 1;
            }
            if range_equals(bytes, start, index + 1, wanted.as_slice()) {
                match string_property_value_chars(bytes, index + 1) {
                    Ok(Some(value)) => return Ok(Some(value)),
                    Ok(None) => {},
                    Err(e) => return Err(e),
                }
            }
        } else if c == '\'' || c == '"' || c == '`' {
            proof {
                lemma_string_close_from(bytes@, c, index + 1);
            }
            match skip_string_chars(bytes, index) {
                Ok(end) => index = end,
                Err(e) => return Err(e),
            }
        }
        index = index + 1;
    }
    Ok(None)
}


/// The number of UTF-8 bytes that the first `k` characters of `s` take.
pub open spec fn prefix_bytes(s: Seq<char>, k: int) -> int {
    vstd::utf8::encode_utf8(s.take(k)).len() as int
}

/// The character position that starts at byte `index` of the UTF-8 text
/// `s`, if `index` is at a character boundary.
pub open spec fn char_at_byte(s: Seq<char>, index: int) -> Option<int> {
    if exists|k: int| 0 <= k <= s.len() && prefix_bytes(s, k) == index {
        Some(choose|k: int| 0 <= k <= s.len() && prefix_bytes(s, k) == index)
    } else {
        None
    }
}

proof fn lemma_encode_concat(a: Seq<char>, b: Seq<char>)
    ensures
        vstd::utf8::encode_utf8(a + b) == vstd::utf8::encode_utf8(a) + vstd::utf8::encode_utf8(b),
    decreases a.len(),
{
    if a.len() == 0 {
        assert(a + b =~= b);
        assert(vstd::utf8::encode_utf8(a) =~= Seq::<u8>::empty());
        assert(Seq::<u8>::empty() + vstd::utf8::encode_utf8(b) =~= vstd::utf8::encode_utf8(b));
    } else {
        lemma_encode_concat(a.drop_first(), b);
        assert((a + b).drop_first() =~= a.drop_first() + b);
        assert((a + b)[0] == a[0]);
        let h = vstd::utf8::encode_scalar(a[0] as u32);
        assert(h + (vstd::utf8::encode_utf8(a.drop_first()) + vstd::utf8::encode_utf8(b)) =~= (h
            + vstd::utf8::encode_utf8(a.drop_first())) + vstd::utf8::encode_utf8(b));
    }
}

/// The UTF-8 length of a character.
fn utf8_width(c: char) -> (r: usize)
    ensures
        r == vstd::utf8::encode_scalar(c as u32).len(),
        1 <= r <= 4,
{
    let v = c as u32;
    proof {
        vstd::utf8::char_is_scalar(c);
    }
    if v <= 0x7F {
        1
    } else if v <= 0x7FF {
        2
    } else if v <= 0xFFFF {
        3
    } else {
        4
    }
}

proof fn lemma_prefix_bytes_step(s: Seq<char>, k: int)
    requires
        0 <= k < s.len(),
    ensures
        prefix_bytes(s, k + 1) == prefix_bytes(s, k) + vstd::utf8::encode_scalar(s[k] as u32).len(),
        vstd::utf8::encode_scalar(s[k] as u32).len() >= 1,
{
    assert(s.take(k + 1) =~= s.take(k) + seq![s[k]]);
    lemma_encode_concat(s.take(k), seq![s[k]]);
    let one = seq![s[k]];
    assert(one[0] == s[k]);
    assert(one.drop_first() =~= Seq::<char>::empty());
    assert(vstd::utf8::encode_utf8(Seq::<char>::empty()) =~= Seq::<u8>::empty());
    assert(vstd::utf8::encode_utf8(one) =~= vstd::utf8::encode_scalar(s[k] as u32));
    vstd::utf8::char_is_scalar(s[k]);
}

proof fn lemma_prefix_bytes_increase(s: Seq<char>, j: int, k: int)
    requires
        0 <= j < k <= s.len(),
    ensures
        prefix_bytes(s, j) < prefix_bytes(s, k),
    decreases k - j,
{
    lemma_prefix_bytes_step(s, k - 1);
    if j < k - 1 {
        lemma_prefix_bytes_increase(s, j, k - 1);
    }
}

/// The character position at byte `index` of `chars`, the characters of a
/// text, if `index` is at a character boundary.
fn char_index_at_byte(chars: &[char], index: usize) -> (r: Option<usize>)
    requires
        prefix_bytes(chars@, chars@.len() as int) <= usize::MAX,
    ensures
        match char_at_byte(chars@, index as int) {
            Some(k) => r == Some(k as usize),
            None => r is None,
        },
{
    let ghost s = chars@;
    let mut k: usize = 0;
    let mut offset: usize = 0;
    proof {
        assert(s.take(0) =~= Seq::<char>::empty());
    }
    while k < chars.len() && offset < index
        invariant
            s == chars@,
            0 <= k <= s.len(),
            offset == prefix_bytes(s, k as int),
            forall|j: int| 0 <= j < k ==> prefix_bytes(s, j) < index,
            prefix_bytes(s, s.len() as int) <= usize::MAX,
        decreases s.len() - k,
    {
        proof {
            lemma_prefix_bytes_step(s, k as int);
            if k + 1 < s.len() {
                lemma_prefix_bytes_increase(s, k + 1, s.len() as int);
            }
        }
        offset = offset + utf8_width(chars[k]);
        k = k + 1;
    }
    if offset == index {
        assert(prefix_bytes(s, k as int) == index);
        proof {
            assert forall|j: int| 0 <= j <= s.len() && prefix_bytes(s, j) == index implies j
                == k by {
                if j > k {
                    lemma_prefix_bytes_increase(s, k as int, j);
                }
            }
        }
        Some(k)
    } else {
        proof {
            assert forall|j: int| 0 <= j <= s.len() implies prefix_bytes(s, j) != index by {
                if j > k {
                    lemma_prefix_bytes_increase(s, k as int, j);
                }
            }
        }
        None
    }
}

/// Decodes the quoted string `source` (quotes included).
pub fn decode_js_string(source: &str) -> (r: Result<String, String>)
    requires
        sliceable_quoted(source@),
    ensures
        text_result(r) == decoded_string(source@),
{
    let chars = chars_of(source);
    decode_js_string_chars(chars.as_slice())
}

/// The string value of the property whose key ends just before byte `index`
/// of `source`, if it has one. A byte inside a multi-byte character is
/// neither whitespace nor a colon, so no value starts there.
pub fn string_property_value(source: &str, index: usize) -> (r: Result<Option<String>, String>)
    ensures
        optional_text_result(r) == match char_at_byte(source@, index as int) {
            Some(k) => property_value(source@, k),
            None => Ok(None),
        },
{
    let chars = chars_of(source);
    let byte_count = source.as_bytes().len();
    proof {
        assert(chars@.take(chars@.len() as int) =~= chars@);
        assert(prefix_bytes(chars@, chars@.len() as int) == byte_count);
    }
    match char_index_at_byte(chars.as_slice(), index) {
        Some(k) => string_property_value_chars(chars.as_slice(), k),
        None => Ok(None),
    }
}

/// The string value of the top-level `property` of the object literal
/// `source`.
pub fn find_string_property(source: &str, property: &str) -> (r: Result<Option<String>, String>)
    ensures
        optional_text_result(r) == property_in(source@, property@),
{
    let chars = chars_of(source);
    find_string_property_chars(chars.as_slice(), property)
}

} // verus!
