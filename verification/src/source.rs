//! Splitting a workflow file into its validated metadata and its body.

use vstd::prelude::*;

use crate::properties::{find_string_property_chars, property_in};
use crate::scan::{err_object_literal, find_object_end_chars, msg_object_literal, object_end};
use crate::text::{chars_of, is_unicode_ws, unicode_ws};

verus! {

/// What every workflow file must start with, after an optional byte-order
/// mark and whitespace.
pub const META_PREFIX: &'static str = "export const meta";

/// The validated `meta` export of a workflow file.
#[derive(Debug, PartialEq, Eq)]
pub struct WorkflowMeta {
    pub name: String,
    pub description: String,
}

pub open spec fn msg_start() -> Seq<char> {
    "workflow must start with `export const meta = { name, description }`"@
}

pub open spec fn msg_assign() -> Seq<char> {
    "workflow metadata must use `export const meta = { ... }`"@
}

pub open spec fn msg_name() -> Seq<char> {
    "workflow metadata requires a string `name`"@
}

pub open spec fn msg_description() -> Seq<char> {
    "workflow metadata requires a string `description`"@
}

pub open spec fn msg_empty_meta() -> Seq<char> {
    "workflow metadata name and description must be non-empty"@
}

/// The first position at or after `i` that does not hold Unicode whitespace.
pub open spec fn ws_end(s: Seq<char>, i: int) -> int
    decreases s.len() - i,
{
    if 0 <= i < s.len() && is_unicode_ws(s[i]) {
        ws_end(s, i + 1)
    } else {
        i
    }
}

pub proof fn lemma_ws_end(s: Seq<char>, i: int)
    requires
        0 <= i <= s.len(),
    ensures
        i <= ws_end(s, i) <= s.len(),
        forall|m: int| i <= m < ws_end(s, i) ==> is_unicode_ws(#[trigger] s[m]),
        ws_end(s, i) < s.len() ==> !is_unicode_ws(s[ws_end(s, i)]),
    decreases s.len() - i,
{
    if i < s.len() && is_unicode_ws(s[i]) {
        lemma_ws_end(s, i + 1);
    }
}

/// Whether `s` is empty once trimmed: every character is whitespace.
pub open spec fn all_ws(s: Seq<char>) -> bool {
    forall|i: int| 0 <= i < s.len() ==> is_unicode_ws(#[trigger] s[i])
}

/// The first position at or after `i` that holds `c`.
pub open spec fn first_at_or_after(s: Seq<char>, c: char, i: int) -> Option<int>
    decreases s.len() - i,
{
    if i < 0 || i >= s.len() {
        None
    } else if s[i] == c {
        Some(i)
    } else {
        first_at_or_after(s, c, i + 1)
    }
}

pub proof fn lemma_first_at_or_after(s: Seq<char>, c: char, i: int)
    requires
        0 <= i,
    ensures
        first_at_or_after(s, c, i) matches Some(j) ==> i <= j < s.len() && s[j] == c,
    decreases s.len() - i,
{
    if i < s.len() && s[i] != c {
        lemma_first_at_or_after(s, c, i + 1);
    }
}

/// Where the text proper starts: after a leading byte-order mark, if any, and
/// whitespace.
pub open spec fn text_start(s: Seq<char>) -> int {
    ws_end(s, if s.len() > 0 && s[0] == '\u{feff}' { 1int } else { 0int })
}

/// Where the body starts, given the position of the metadata's closing brace:
/// after whitespace and one optional semicolon.
pub open spec fn body_start(s: Seq<char>, close: int) -> int {
    let b = ws_end(s, close + 1);
    if b < s.len() && s[b] == ';' {
        b + 1
    } else {
        b
    }
}

/// A workflow file split into its body, its metadata name and its metadata
/// description. The file must read `export const meta`, `=`, then an object
/// literal (whitespace allowed between them, nothing else); the object's
/// top-level `name` and `description` must be non-blank strings; the body is
/// what follows the object once the whitespace after it, and then one
/// semicolon if there is one, are dropped.
#[verifier::opaque]
pub open spec fn parsed_source(s: Seq<char>) -> Result<(Seq<char>, Seq<char>, Seq<char>), Seq<char>> {
    let i1 = text_start(s);
    let p = META_PREFIX@;
    if !(i1 + p.len() <= s.len() && s.subrange(i1, i1 + p.len()) == p) {
        Err(msg_start())
    } else {
        let i2 = ws_end(s, i1 + p.len());
        if !(i2 < s.len() && s[i2] == '=') {
            Err(msg_assign())
        } else {
            match first_at_or_after(s, '{', i2 + 1) {
                None => Err(msg_object_literal()),
                Some(open) => if !all_ws(s.subrange(i2 + 1, open)) {
                    Err(msg_object_literal())
                } else {
                    match object_end(s.skip(open)) {
                        Err(e) => Err(e),
                        Ok(end) => {
                            let meta = s.subrange(open, open + end + 1);
                            let body = s.skip(body_start(s, open + end));
                            match property_in(meta, "name"@) {
                                Err(e) => Err(e),
                                Ok(None) => Err(msg_name()),
                                Ok(Some(name)) => match property_in(meta, "description"@) {
                                    Err(e) => Err(e),
                                    Ok(None) => Err(msg_description()),
                                    Ok(Some(description)) => if all_ws(name) || all_ws(
                                        description,
                                    ) {
                                        Err(msg_empty_meta())
                                    } else {
                                        Ok((body, name, description))
                                    },
                                },
                            }
                        },
                    }
                },
            }
        }
    }
}

/// An executable parse result viewed as a mathematical one.
pub open spec fn parse_view(r: Result<(&str, WorkflowMeta), String>) -> Result<
    (Seq<char>, Seq<char>, Seq<char>),
    Seq<char>,
> {
    match r {
        Ok((body, meta)) => Ok((body@, meta.name@, meta.description@)),
        Err(e) => Err(e@),
    }
}

/// The first position at or after `from` that holds no Unicode whitespace.
fn skip_ws(chars: &[char], from: usize) -> (r: usize)
    requires
        from <= chars@.len(),
    ensures
        r == ws_end(chars@, from as int),
        from <= r <= chars@.len(),
{
    let mut i = from;
    while i < chars.len() && unicode_ws(chars[i])
        invariant
            from <= i <= chars@.len(),
            ws_end(chars@, i as int) == ws_end(chars@, from as int),
        decreases chars@.len() - i,
    {
        i = i + 1;
    }
    i
}

/// Whether `chars[from..to]` is all whitespace.
fn range_all_ws(chars: &[char], from: usize, to: usize) -> (r: bool)
    requires
        from <= to <= chars@.len(),
    ensures
        r == all_ws(chars@.subrange(from as int, to as int)),
{
    let mut i = from;
    while i < to
        invariant
            from <= i <= to <= chars@.len(),
            forall|m: int| from <= m < i ==> is_unicode_ws(#[trigger] chars@[m]),
        decreases to - i,
    {
        if !unicode_ws(chars[i]) {
            assert(!is_unicode_ws(chars@.subrange(from as int, to as int)[i - from]));
            return false;
        }
        i = i + 1;
    }
    assert forall|m: int| 0 <= m < to - from implies is_unicode_ws(
        #[trigger] chars@.subrange(from as int, to as int)[m],
    ) by {
        assert(chars@.subrange(from as int, to as int)[m] == chars@[from + m]);
    }
    true
}

/// Whether `s` is all whitespace.
pub fn is_blank(s: &str) -> (r: bool)
    ensures
        r == all_ws(s@),
{
    let chars = chars_of(s);
    assert(chars@.subrange(0, chars@.len() as int) == chars@);
    range_all_ws(chars.as_slice(), 0, chars.len())
}

/// Splits a workflow file into its body and its validated metadata.
pub fn parse_workflow_source(source: &str) -> (r: Result<(&str, WorkflowMeta), String>)
    ensures
        parse_view(r) == parsed_source(source@),
{
    reveal(parsed_source);
    let chars = chars_of(source);
    let text = chars.as_slice();
    let n = text.len();
    let start = if n > 0 && text[0] == '\u{feff}' {
        1
    } else {
        0
    };
    let i1 = skip_ws(text, start);
    let prefix = chars_of(META_PREFIX);
    let plen = prefix.len();
    if !(plen <= n - i1 && crate::properties::range_equals(text, i1, i1 + plen, prefix.as_slice())) {
        return Err(String::from_str("workflow must start with `export const meta = { name, description }`"));
    }
    let i2 = skip_ws(text, i1 + plen);
    if !(i2 < n && text[i2] == '=') {
        return Err(String::from_str("workflow metadata must use `export const meta = { ... }`"));
    }
    let mut open = i2 + 1;
    while open < n && text[open] != '{'
        invariant
            n == text@.len(),
            i2 < open <= n,
            first_at_or_after(text@, '{', open as int) == first_at_or_after(
                text@,
                '{',
                i2 + 1,
            ),
        decreases n - open,
    {
        open = open + 1;
    }
    if open >= n {
        return Err(err_object_literal());
    }
    if !range_all_ws(text, i2 + 1, open) {
        return Err(err_object_literal());
    }
    let object = vstd::slice::slice_subrange(text, open, n);
    assert(object@ == text@.skip(open as int));
    let end = match find_object_end_chars(object) {
        Ok(end) => end,
        Err(e) => return Err(e),
    };
    proof {
        crate::scan::lemma_object_end(object@);
    }
    let close = open + end;
    let meta = vstd::slice::slice_subrange(text, open, close + 1);
    let b = skip_ws(text, close + 1);
    let body_from = if b < n && text[b] == ';' {
        b + 1
    } else {
        b
    };
    proof {
        lemma_ws_end(text@, close + 1);
    }
    let body = source.substring_char(body_from, n);
    let name = match find_string_property_chars(meta, "name") {
        Ok(Some(name)) => name,
        Ok(None) => return Err(String::from_str("workflow metadata requires a string `name`")),
        Err(e) => return Err(e),
    };
    let description = match find_string_property_chars(meta, "description") {
        Ok(Some(description)) => description,
        Ok(None) => return Err(String::from_str("workflow metadata requires a string `description`")),
        Err(e) => return Err(e),
    };
    if is_blank(name.as_str()) || is_blank(description.as_str()) {
        return Err(String::from_str("workflow metadata name and description must be non-empty"));
    }
    assert(body@ == text@.skip(body_start(text@, close as int)));
    Ok((body, WorkflowMeta { name, description }))
}

} // verus!
