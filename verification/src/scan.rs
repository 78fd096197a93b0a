//! Lexical scanning of the metadata object literal: strings, comments and the
//! matching closing brace. Positions are character positions in the text.

use vstd::prelude::*;
use vstd::string::StringSliceAdditionalSpecFns;

verus! {

pub open spec fn msg_unterminated_string() -> Seq<char> {
    "unterminated string in workflow metadata"@
}

pub open spec fn msg_unterminated_comment() -> Seq<char> {
    "unterminated comment in workflow metadata"@
}

pub open spec fn msg_object_literal() -> Seq<char> {
    "workflow metadata must be an object literal"@
}

pub open spec fn msg_unbalanced() -> Seq<char> {
    "unbalanced workflow metadata"@
}

pub open spec fn msg_unterminated_object() -> Seq<char> {
    "unterminated workflow metadata object"@
}

pub fn err_unterminated_string() -> (r: String)
    ensures
        r@ == msg_unterminated_string(),
{
    String::from_str("unterminated string in workflow metadata")
}

pub fn err_unterminated_comment() -> (r: String)
    ensures
        r@ == msg_unterminated_comment(),
{
    String::from_str("unterminated comment in workflow metadata")
}

pub fn err_object_literal() -> (r: String)
    ensures
        r@ == msg_object_literal(),
{
    String::from_str("workflow metadata must be an object literal")
}

pub fn err_unbalanced() -> (r: String)
    ensures
        r@ == msg_unbalanced(),
{
    String::from_str("unbalanced workflow metadata")
}

pub fn err_unterminated_object() -> (r: String)
    ensures
        r@ == msg_unterminated_object(),
{
    String::from_str("unterminated workflow metadata object")
}

/// An executable result viewed as a mathematical one.
pub open spec fn index_result(r: Result<usize, String>) -> Result<int, Seq<char>> {
    match r {
        Ok(i) => Ok(i as int),
        Err(e) => Err(e@),
    }
}

pub open spec fn is_quote(c: char) -> bool {
    c == '\'' || c == '"' || c == '`'
}

/// Where the string whose opening quote is `quote` closes, scanning from `i`:
/// a backslash hides the character after it, and the first unhidden `quote`
/// closes the string.
pub open spec fn string_close_from(s: Seq<char>, quote: char, i: int) -> Option<int>
    decreases s.len() + 1 - i,
{
    if i < 0 || i >= s.len() {
        None
    } else if s[i] == '\\' {
        string_close_from(s, quote, i + 2)
    } else if s[i] == quote {
        Some(i)
    } else {
        string_close_from(s, quote, i + 1)
    }
}

/// The closing quote of the string that opens at `start`.
pub open spec fn string_end(s: Seq<char>, start: int) -> Result<int, Seq<char>> {
    match string_close_from(s, s[start], start + 1) {
        Some(j) => Ok(j),
        None => Err(msg_unterminated_string()),
    }
}

/// The first line feed at or after `k`, or the length of the text.
pub open spec fn line_end(s: Seq<char>, k: int) -> int
    decreases s.len() - k,
{
    if k >= s.len() {
        s.len() as int
    } else if s[k] == '\n' {
        k
    } else {
        line_end(s, k + 1)
    }
}

/// The `/` of the first `*/` that starts at or after `k`.
pub open spec fn block_close_from(s: Seq<char>, k: int) -> Option<int>
    decreases s.len() - k,
{
    if k + 1 >= s.len() {
        None
    } else if s[k] == '*' && s[k + 1] == '/' {
        Some(k + 1)
    } else {
        block_close_from(s, k + 1)
    }
}

pub proof fn lemma_string_close_from(s: Seq<char>, quote: char, i: int)
    requires
        0 <= i,
    ensures
        string_close_from(s, quote, i) matches Some(j) ==> i <= j < s.len() && s[j] == quote,
    decreases s.len() + 1 - i,
{
    if i < s.len() {
        if s[i] == '\\' {
            lemma_string_close_from(s, quote, i + 2);
        } else if s[i] != quote {
            lemma_string_close_from(s, quote, i + 1);
        }
    }
}

pub proof fn lemma_line_end(s: Seq<char>, k: int)
    requires
        0 <= k <= s.len(),
    ensures
        k <= line_end(s, k) <= s.len(),
        line_end(s, k) < s.len() ==> s[line_end(s, k)] == '\n',
        forall|m: int| k <= m < line_end(s, k) ==> s[m] != '\n',
    decreases s.len() - k,
{
    if k < s.len() && s[k] != '\n' {
        lemma_line_end(s, k + 1);
    }
}

pub proof fn lemma_block_close_from(s: Seq<char>, k: int)
    requires
        0 <= k,
    ensures
        block_close_from(s, k) matches Some(j) ==> k + 1 <= j < s.len() && s[j - 1] == '*' && s[j]
            == '/',
        block_close_from(s, k) matches Some(j) ==> forall|m: int|
            k <= m < j - 1 ==> !(#[trigger] s[m] == '*' && s[m + 1] == '/'),
        block_close_from(s, k) is None ==> forall|m: int|
            k <= m < s.len() - 1 ==> !(#[trigger] s[m] == '*' && s[m + 1] == '/'),
    decreases s.len() - k,
{
    if k + 1 < s.len() && !(s[k] == '*' && s[k + 1] == '/') {
        lemma_block_close_from(s, k + 1);
    }
}

/// The position of the quote that closes the string opening at `start`.
pub fn skip_string_chars(bytes: &[char], start: usize) -> (r: Result<usize, String>)
    requires
        start < bytes@.len(),
    ensures
        index_result(r) == string_end(bytes@, start as int),
{
    let quote = bytes[start];
    let mut index = start + 1;
    while index < bytes.len()
        invariant
            start < index <= bytes@.len(),
            quote == bytes@[start as int],
            string_close_from(bytes@, quote, index as int) == string_close_from(
                bytes@,
                quote,
                start + 1,
            ),
        decreases bytes@.len() - index,
    {
        if bytes[index] == '\\' {
            if bytes.len() - index <= 2 {
                assert(string_close_from(bytes@, quote, index + 2) is None);
                return Err(err_unterminated_string());
            }
            index = index + 2;
            continue;
        }
        if bytes[index] == quote {
            return Ok(index);
        }
        index = index + 1;
    }
    Err(err_unterminated_string())
}

/// The position of the line feed that ends the comment opening at `start`,
/// or the length of the text when no line feed follows.
pub fn skip_line_comment_chars(bytes: &[char], start: usize) -> (r: usize)
    requires
        start + 2 <= bytes@.len(),
    ensures
        r == line_end(bytes@, start + 2),
{
    let n = bytes.len();
    let mut index = start + 2;
    while index < n
        invariant
            n == bytes@.len(),
            start + 2 <= index <= bytes@.len(),
            line_end(bytes@, index as int) == line_end(bytes@, start + 2),
        decreases bytes@.len() - index,
    {
        if bytes[index] == '\n' {
            return index;
        }
        index = index + 1;
    }
    bytes.len()
}

/// The position of the `/` that closes the block comment opening at `start`.
pub fn skip_block_comment_chars(bytes: &[char], start: usize) -> (r: Result<usize, String>)
    requires
        start + 2 <= bytes@.len(),
    ensures
        index_result(r) == match block_close_from(bytes@, start + 2) {
            Some(j) => Ok::<int, Seq<char>>(j),
            None => Err::<int, Seq<char>>(msg_unterminated_comment()),
        },
{
    let n = bytes.len();
    let mut index = start + 2;
    while index < n && n - index >= 2
        invariant
            n == bytes@.len(),
            start + 2 <= index <= bytes@.len(),
            block_close_from(bytes@, index as int) == block_close_from(bytes@, start + 2),
        decreases bytes@.len() - index,
    {
        if bytes[index] == '*' && bytes[index + 1] == '/' {
            return Ok(index + 1);
        }
        index = index + 1;
    }
    Err(err_unterminated_comment())
}

/// Scanning for the brace that closes the object, from `i` at nesting `depth`.
pub open spec fn object_end_from(s: Seq<char>, i: int, depth: nat) -> Result<int, Seq<char>>
    decreases s.len() - i,
{
    if i < 0 || i >= s.len() {
        Err(msg_unterminated_object())
    } else {
        let c = s[i];
        if is_quote(c) {
            match string_close_from(s, c, i + 1) {
                None => Err(msg_unterminated_string()),
                Some(j) => {
                    proof {
                        lemma_string_close_from(s, c, i + 1);
                    }
                    object_end_from(s, j + 1, depth)
                },
            }
        } else if c == '/' && i + 1 < s.len() && s[i + 1] == '/' {
            let e = line_end(s, i + 2);
            proof {
                lemma_line_end(s, i + 2);
            }
            if e >= s.len() {
                Err(msg_unterminated_object())
            } else {
                object_end_from(s, e + 1, depth)
            }
        } else if c == '/' && i + 1 < s.len() && s[i + 1] == '*' {
            match block_close_from(s, i + 2) {
                None => Err(msg_unterminated_comment()),
                Some(j) => {
                    proof {
                        lemma_block_close_from(s, i + 2);
                    }
                    object_end_from(s, j + 1, depth)
                },
            }
        } else if c == '{' {
            object_end_from(s, i + 1, depth + 1)
        } else if c == '}' {
            if depth == 0 {
                Err(msg_unbalanced())
            } else if depth == 1 {
                Ok(i)
            } else {
                object_end_from(s, i + 1, (depth - 1) as nat)
            }
        } else {
            object_end_from(s, i + 1, depth)
        }
    }
}

/// Where the object literal that `s` starts with ends: the position of its
/// closing brace, skipping strings and comments.
pub open spec fn object_end(s: Seq<char>) -> Result<int, Seq<char>> {
    if s.len() == 0 || s[0] != '{' {
        Err(msg_object_literal())
    } else {
        object_end_from(s, 0, 0)
    }
}

pub proof fn lemma_object_end_from(s: Seq<char>, i: int, depth: nat)
    ensures
        object_end_from(s, i, depth) matches Ok(j) ==> 0 <= i <= j < s.len() && s[j] == '}',
    decreases s.len() - i,
{
    if 0 <= i < s.len() {
        let c = s[i];
        if is_quote(c) {
            lemma_string_close_from(s, c, i + 1);
            if let Some(j) = string_close_from(s, c, i + 1) {
                lemma_object_end_from(s, j + 1, depth);
            }
        } else if c == '/' && i + 1 < s.len() && s[i + 1] == '/' {
            lemma_line_end(s, i + 2);
            let e = line_end(s, i + 2);
            if e < s.len() {
                lemma_object_end_from(s, e + 1, depth);
            }
        } else if c == '/' && i + 1 < s.len() && s[i + 1] == '*' {
            lemma_block_close_from(s, i + 2);
            if let Some(j) = block_close_from(s, i + 2) {
                lemma_object_end_from(s, j + 1, depth);
            }
        } else if c == '{' {
            lemma_object_end_from(s, i + 1, depth + 1);
        } else if c == '}' {
            if depth > 1 {
                lemma_object_end_from(s, i + 1, (depth - 1) as nat);
            }
        } else {
            lemma_object_end_from(s, i + 1, depth);
        }
    }
}

/// A found object end is a closing brace inside the text.
pub proof fn lemma_object_end(s: Seq<char>)
    ensures
        object_end(s) matches Ok(j) ==> 0 <= j < s.len() && s[j] == '}',
{
    if s.len() > 0 && s[0] == '{' {
        lemma_object_end_from(s, 0, 0);
    }
}

/// The position of the brace that closes the object literal `source` starts with.
pub fn find_object_end_chars(source: &[char]) -> (r: Result<usize, String>)
    ensures
        index_result(r) == object_end(source@),
{
    let bytes = source;
    if bytes.len() == 0 || bytes[0] != '{' {
        return Err(err_object_literal());
    }
    let mut depth: usize = 0;
    let mut index: usize = 0;
    while index < bytes.len()
        invariant
            bytes@ == source@,
            0 <= index <= bytes@.len(),
            depth <= index,
            bytes@.len() > 0 && bytes@[0] == '{',
            object_end(source@) == object_end_from(bytes@, index as int, depth as nat),
        decreases bytes@.len() - index,
    {
        let c = bytes[index];
        if c == '\'' || c == '"' || c == '`' {
            proof {
                lemma_string_close_from(bytes@, c, index + 1);
            }
            match skip_string_chars(bytes, index) {
                Ok(end) => index = end,
                Err(e) => return Err(e),
            }
        } else if c == '/' && index + 1 < bytes.len() && bytes[index + 1] == '/' {
            let end = skip_line_comment_chars(bytes, index);
            proof {
                lemma_line_end(bytes@, index + 2);
            }
            if end >= bytes.len() {
                return Err(err_unterminated_object());
            }
            index = end;
        } else if c == '/' && index + 1 < bytes.len() && bytes[index + 1] == '*' {
            proof {
                lemma_block_close_from(bytes@, index + 2);
            }
            match skip_block_comment_chars(bytes, index) {
                Ok(end) => index = end,
                Err(e) => return Err(e),
            }
        } else if c == '{' {
            depth = depth + 1;
        } else if c == '}' {
            if depth == 0 {
                return Err(err_unbalanced());
            }
            depth = depth - 1;
            if depth == 0 {
                return Ok(index);
            }
        }
        index = index + 1;
    }
    Err(err_unterminated_object())
}


/// The bytes of a text, each read as the character of the same number. The
/// scanners compare only with ASCII quotes, backslashes, slashes, stars,
/// braces and line feeds; the bytes of a multi-byte UTF-8 character are all
/// at or above 0x80, so on these bytes they find the byte positions of the
/// same marks.
pub open spec fn byte_chars(bytes: Seq<u8>) -> Seq<char> {
    bytes.map_values(|b: u8| b as char)
}

fn chars_of_bytes(bytes: &[u8]) -> (v: Vec<char>)
    ensures
        v@ == byte_chars(bytes@),
{
    let mut v: Vec<char> = Vec::new();
    let mut i: usize = 0;
    while i < bytes.len()
        invariant
            0 <= i <= bytes@.len(),
            v@ == byte_chars(bytes@.take(i as int)),
        decreases bytes@.len() - i,
    {
        v.push(bytes[i] as char);
        proof {
            assert(byte_chars(bytes@.take(i + 1)) =~= byte_chars(bytes@.take(i as int)).push(
                bytes@[i as int] as char,
            ));
        }
        i = i + 1;
    }
    assert(bytes@.take(bytes@.len() as int) =~= bytes@);
    v
}

/// The byte position of the quote that closes the string opening at byte
/// `start`.
pub fn skip_string(bytes: &[u8], start: usize) -> (r: Result<usize, String>)
    requires
        start < bytes@.len(),
    ensures
        index_result(r) == string_end(byte_chars(bytes@), start as int),
{
    let chars = chars_of_bytes(bytes);
    skip_string_chars(chars.as_slice(), start)
}

/// The byte position of the line feed that ends the comment opening at byte
/// `start`, or the length of the text when no line feed follows.
pub fn skip_line_comment(bytes: &[u8], start: usize) -> (r: usize)
    requires
        start + 2 <= bytes@.len(),
    ensures
        r == line_end(byte_chars(bytes@), start + 2),
{
    let chars = chars_of_bytes(bytes);
    skip_line_comment_chars(chars.as_slice(), start)
}

/// The byte position of the `/` that closes the block comment opening at
/// byte `start`.
pub fn skip_block_comment(bytes: &[u8], start: usize) -> (r: Result<usize, String>)
    requires
        start + 2 <= bytes@.len(),
    ensures
        index_result(r) == match block_close_from(byte_chars(bytes@), start + 2) {
            Some(j) => Ok::<int, Seq<char>>(j),
            None => Err::<int, Seq<char>>(msg_unterminated_comment()),
        },
{
    let chars = chars_of_bytes(bytes);
    skip_block_comment_chars(chars.as_slice(), start)
}

/// The byte position of the brace that closes the object literal that
/// `source` starts with.
pub fn find_object_end(source: &str) -> (r: Result<usize, String>)
    ensures
        index_result(r) == object_end(byte_chars(source.spec_bytes())),
{
    let chars = chars_of_bytes(source.as_bytes());
    find_object_end_chars(chars.as_slice())
}

} // verus!
