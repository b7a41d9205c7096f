//! The upstream response format.
//!
//! The upstream API answers `{"result": [entry, ...]}` where each entry is a
//! JSON object with string members `id`, `author` and `contentMd` and
//! integer members `createdAt` and `lastUpdatedAt` (milliseconds since the
//! Unix epoch). The grammar below states exactly which response texts are
//! accepted and which entries they denote; `decode_response` is proved to
//! return precisely that.
//!
//! The grammar follows JSON: members may come in any order, unknown members
//! are ignored (their values may nest at most [`SKIP_DEPTH`] deep), strings
//! know the usual escapes, `\uXXXX` with surrogate pairs among them, and a
//! duplicate member, a missing member, a non-integer timestamp or a
//! timestamp outside the renderable year span is a decoding failure.

use vstd::prelude::*;
use crate::entries::{Entry, EntryModel, models_of};
use crate::strutil::{chars_of, string_from_chars, chars_eq_str};
use crate::time::{RFC2822_MIN_MS, RFC2822_MAX_MS};

verus! {

/// Nesting allowed inside the values of ignored members.
pub const SKIP_DEPTH: u32 = 128;

// ---------------------------------------------------------------------------
// Characters
// ---------------------------------------------------------------------------

pub open spec fn is_ws(c: char) -> bool {
    c == ' ' || c == '\t' || c == '\n' || c == '\r'
}

pub open spec fn is_digit(c: char) -> bool {
    0x30 <= c as u32 <= 0x39
}

pub open spec fn digit_val(c: char) -> int {
    c as u32 - 0x30
}

pub open spec fn is_hex(c: char) -> bool {
    is_digit(c) || (0x61 <= c as u32 <= 0x66) || (0x41 <= c as u32 <= 0x46)
}

pub open spec fn hex_val(c: char) -> int {
    if is_digit(c) {
        digit_val(c)
    } else if 0x61 <= c as u32 <= 0x66 {
        c as u32 - 0x61 + 10
    } else {
        c as u32 - 0x41 + 10
    }
}

/// Index of the first character at or after `i` that is not JSON whitespace.
pub open spec fn skip_ws(s: Seq<char>, i: int) -> int
    decreases s.len() - i,
{
    if 0 <= i && i < s.len() && is_ws(s[i]) {
        skip_ws(s, i + 1)
    } else {
        i
    }
}

// ---------------------------------------------------------------------------
// Strings
// ---------------------------------------------------------------------------

/// Value of the four hex digits at `i`, if they are there.
pub open spec fn hex4(s: Seq<char>, i: int) -> Option<u32> {
    if 0 <= i && i + 4 <= s.len() && is_hex(s[i]) && is_hex(s[i + 1]) && is_hex(s[i + 2])
        && is_hex(s[i + 3]) {
        Some(
            ((hex_val(s[i]) * 0x1000 + hex_val(s[i + 1]) * 0x100 + hex_val(s[i + 2]) * 0x10
                + hex_val(s[i + 3])) as u32),
        )
    } else {
        None
    }
}

/// A `\uXXXX` escape at `i` (where `s[i] == '\\'` and `s[i+1] == 'u'`):
/// the denoted character and the index after the escape. A high surrogate
/// must be followed by a low one; a lone surrogate is malformed.
pub open spec fn parse_unicode_escape(s: Seq<char>, i: int) -> Option<(char, int)> {
    match hex4(s, i + 2) {
        None => None,
        Some(h) => {
            if h < 0xD800 || h >= 0xE000 {
                Some((h as char, i + 6))
            } else if h < 0xDC00 {
                if i + 8 <= s.len() && s[i + 6] == '\\' && s[i + 7] == 'u' {
                    match hex4(s, i + 8) {
                        None => None,
                        Some(l) => {
                            if 0xDC00 <= l && l < 0xE000 {
                                Some(
                                    (
                                        (((0x10000 + (h - 0xD800) * 0x400 + (l
                                            - 0xDC00)) as u32) as char),
                                        i + 12,
                                    ),
                                )
                            } else {
                                None
                            }
                        },
                    }
                } else {
                    None
                }
            } else {
                None
            }
        },
    }
}

/// An escape sequence at `i` (where `s[i] == '\\'`): the denoted character
/// and the index after the escape.
pub open spec fn parse_escape(s: Seq<char>, i: int) -> Option<(char, int)> {
    if !(0 <= i && i + 1 < s.len()) {
        None
    } else {
        let e = s[i + 1];
        if e == '"' {
            Some(('"', i + 2))
        } else if e == '\\' {
            Some(('\\', i + 2))
        } else if e == '/' {
            Some(('/', i + 2))
        } else if e == 'b' {
            Some(('\u{8}', i + 2))
        } else if e == 'f' {
            Some(('\u{c}', i + 2))
        } else if e == 'n' {
            Some(('\n', i + 2))
        } else if e == 'r' {
            Some(('\r', i + 2))
        } else if e == 't' {
            Some(('\t', i + 2))
        } else if e == 'u' {
            parse_unicode_escape(s, i)
        } else {
            None
        }
    }
}

/// The body of a string, starting inside the quotes at `i` with the
/// characters `acc` already read: the full content and the index after the
/// closing quote. Unescaped control characters are malformed.
pub open spec fn parse_string_body(s: Seq<char>, i: int, acc: Seq<char>) -> Option<
    (Seq<char>, int),
>
    decreases s.len() - i,
{
    if !(0 <= i && i < s.len()) {
        None
    } else if s[i] == '"' {
        Some((acc, i + 1))
    } else if s[i] == '\\' {
        match parse_escape(s, i) {
            None => None,
            Some((c, j)) => {
                if i < j && j <= s.len() {
                    parse_string_body(s, j, acc.push(c))
                } else {
                    None
                }
            },
        }
    } else if (s[i] as u32) < 0x20 {
        None
    } else {
        parse_string_body(s, i + 1, acc.push(s[i]))
    }
}

/// A string at `i` (expecting the opening quote): its content and the index
/// after the closing quote.
pub open spec fn parse_string(s: Seq<char>, i: int) -> Option<(Seq<char>, int)> {
    if 0 <= i && i < s.len() && s[i] == '"' {
        parse_string_body(s, i + 1, Seq::empty())
    } else {
        None
    }
}

// ---------------------------------------------------------------------------
// Numbers
// ---------------------------------------------------------------------------

/// Reads digits from `i` into the accumulator: the value and the index of
/// the first non-digit.
pub open spec fn parse_digits(s: Seq<char>, i: int, acc: int) -> (int, int)
    decreases s.len() - i,
{
    if 0 <= i && i < s.len() && is_digit(s[i]) {
        parse_digits(s, i + 1, acc * 10 + digit_val(s[i]))
    } else {
        (acc, i)
    }
}

/// An unsigned JSON integer at `i`: a single `0`, or digits without a
/// leading zero.
pub open spec fn parse_uint(s: Seq<char>, i: int) -> Option<(int, int)> {
    if !(0 <= i && i < s.len() && is_digit(s[i])) {
        None
    } else if s[i] == '0' {
        Some((0, i + 1))
    } else {
        Some(parse_digits(s, i, 0))
    }
}

/// A JSON integer at `i`, possibly negative.
pub open spec fn parse_int(s: Seq<char>, i: int) -> Option<(int, int)> {
    if 0 <= i && i < s.len() && s[i] == '-' {
        match parse_uint(s, i + 1) {
            None => None,
            Some((v, j)) => Some((-v, j)),
        }
    } else {
        parse_uint(s, i)
    }
}

/// A timestamp member value: a JSON integer within the renderable span.
pub open spec fn parse_ts(s: Seq<char>, i: int) -> Option<(int, int)> {
    match parse_int(s, i) {
        None => None,
        Some((v, j)) => {
            if RFC2822_MIN_MS as int <= v && v <= RFC2822_MAX_MS as int {
                Some((v, j))
            } else {
                None
            }
        },
    }
}

/// Index of the first character at or after `i` that is not a digit.
pub open spec fn digits_end(s: Seq<char>, i: int) -> int
    decreases s.len() - i,
{
    if 0 <= i && i < s.len() && is_digit(s[i]) {
        digits_end(s, i + 1)
    } else {
        i
    }
}

/// Skips an unsigned integer: a single `0`, or digits without a leading
/// zero.
pub open spec fn skip_uint(s: Seq<char>, i: int) -> Option<int> {
    if !(0 <= i && i < s.len() && is_digit(s[i])) {
        None
    } else if s[i] == '0' {
        Some(i + 1)
    } else {
        Some(digits_end(s, i))
    }
}

/// Skips a fraction part, if one starts at `i`.
pub open spec fn skip_frac(s: Seq<char>, i: int) -> Option<int> {
    if 0 <= i && i < s.len() && s[i] == '.' {
        if i + 1 < s.len() && is_digit(s[i + 1]) {
            Some(digits_end(s, i + 1))
        } else {
            None
        }
    } else {
        Some(i)
    }
}

/// Skips an exponent part, if one starts at `i`.
pub open spec fn skip_exp(s: Seq<char>, i: int) -> Option<int> {
    if 0 <= i && i < s.len() && (s[i] == 'e' || s[i] == 'E') {
        let k = if i + 1 < s.len() && (s[i + 1] == '+' || s[i + 1] == '-') {
            i + 2
        } else {
            i + 1
        };
        if 0 <= k && k < s.len() && is_digit(s[k]) {
            Some(digits_end(s, k))
        } else {
            None
        }
    } else {
        Some(i)
    }
}

/// Skips a JSON number at `i` (integer, fraction and exponent parts).
pub open spec fn skip_number(s: Seq<char>, i: int) -> Option<int> {
    let i1 = if 0 <= i && i < s.len() && s[i] == '-' {
        i + 1
    } else {
        i
    };
    match skip_uint(s, i1) {
        None => None,
        Some(j) => match skip_frac(s, j) {
            None => None,
            Some(j2) => skip_exp(s, j2),
        },
    }
}

// ---------------------------------------------------------------------------
// Skipping arbitrary values (ignored members)
// ---------------------------------------------------------------------------

/// Skips any JSON value at `i`, nesting at most `d` levels deep: the index
/// after the value.
pub open spec fn skip_value(s: Seq<char>, i: int, d: nat) -> Option<int>
    decreases d, s.len() - i, 0int,
{
    if !(0 <= i && i < s.len()) {
        None
    } else if s[i] == '"' {
        match parse_string(s, i) {
            None => None,
            Some((_c, j)) => Some(j),
        }
    } else if s[i] == '{' {
        if d == 0 {
            None
        } else {
            skip_members0(s, i + 1, (d - 1) as nat)
        }
    } else if s[i] == '[' {
        if d == 0 {
            None
        } else {
            skip_items0(s, i + 1, (d - 1) as nat)
        }
    } else if s[i] == 't' {
        if i + 4 <= s.len() && s[i + 1] == 'r' && s[i + 2] == 'u' && s[i + 3] == 'e' {
            Some(i + 4)
        } else {
            None
        }
    } else if s[i] == 'f' {
        if i + 5 <= s.len() && s[i + 1] == 'a' && s[i + 2] == 'l' && s[i + 3] == 's'
            && s[i + 4] == 'e' {
            Some(i + 5)
        } else {
            None
        }
    } else if s[i] == 'n' {
        if i + 4 <= s.len() && s[i + 1] == 'u' && s[i + 2] == 'l' && s[i + 3] == 'l' {
            Some(i + 4)
        } else {
            None
        }
    } else if s[i] == '-' || is_digit(s[i]) {
        skip_number(s, i)
    } else {
        None
    }
}

/// Skips one `key: value` member whose key starts exactly at `k`.
pub open spec fn skip_member(s: Seq<char>, k: int, d: nat) -> Option<int>
    decreases d, s.len() - k, 1int,
{
    match parse_string(s, k) {
        None => None,
        Some((_key, j)) => {
            if !(k < j && j <= s.len()) {
                None
            } else {
                let c = skip_ws(s, j);
                if j <= c && c < s.len() && s[c] == ':' {
                    let v = skip_ws(s, c + 1);
                    if c + 1 <= v && v <= s.len() {
                        match skip_value(s, v, d) {
                            None => None,
                            Some(m) => {
                                if v < m && m <= s.len() {
                                    Some(m)
                                } else {
                                    None
                                }
                            },
                        }
                    } else {
                        None
                    }
                } else {
                    None
                }
            }
        },
    }
}

/// After `{`: the members of an object being skipped, and its `}`.
pub open spec fn skip_members0(s: Seq<char>, i: int, d: nat) -> Option<int>
    decreases d, s.len() - i, 2int,
{
    let k = skip_ws(s, i);
    if !(i <= k && k < s.len()) {
        None
    } else if s[k] == '}' {
        Some(k + 1)
    } else {
        match skip_member(s, k, d) {
            None => None,
            Some(m) => {
                if k < m && m <= s.len() {
                    skip_members_more(s, m, d)
                } else {
                    None
                }
            },
        }
    }
}

/// After a member of an object being skipped: either `}` or `,` and more.
pub open spec fn skip_members_more(s: Seq<char>, i: int, d: nat) -> Option<int>
    decreases d, s.len() - i, 2int,
{
    let k = skip_ws(s, i);
    if !(i <= k && k < s.len()) {
        None
    } else if s[k] == '}' {
        Some(k + 1)
    } else if s[k] == ',' {
        let k2 = skip_ws(s, k + 1);
        if k + 1 <= k2 && k2 <= s.len() {
            match skip_member(s, k2, d) {
                None => None,
                Some(m) => {
                    if k2 < m && m <= s.len() {
                        skip_members_more(s, m, d)
                    } else {
                        None
                    }
                },
            }
        } else {
            None
        }
    } else {
        None
    }
}

/// After `[`: the items of an array being skipped, and its `]`.
pub open spec fn skip_items0(s: Seq<char>, i: int, d: nat) -> Option<int>
    decreases d, s.len() - i, 2int,
{
    let k = skip_ws(s, i);
    if !(i <= k && k < s.len()) {
        None
    } else if s[k] == ']' {
        Some(k + 1)
    } else {
        match skip_value(s, k, d) {
            None => None,
            Some(m) => {
                if k < m && m <= s.len() {
                    skip_items_more(s, m, d)
                } else {
                    None
                }
            },
        }
    }
}

/// After an item of an array being skipped: either `]` or `,` and more.
pub open spec fn skip_items_more(s: Seq<char>, i: int, d: nat) -> Option<int>
    decreases d, s.len() - i, 2int,
{
    let k = skip_ws(s, i);
    if !(i <= k && k < s.len()) {
        None
    } else if s[k] == ']' {
        Some(k + 1)
    } else if s[k] == ',' {
        let k2 = skip_ws(s, k + 1);
        if k + 1 <= k2 && k2 <= s.len() {
            match skip_value(s, k2, d) {
                None => None,
                Some(m) => {
                    if k2 < m && m <= s.len() {
                        skip_items_more(s, m, d)
                    } else {
                        None
                    }
                },
            }
        } else {
            None
        }
    } else {
        None
    }
}

// ---------------------------------------------------------------------------
// Entries
// ---------------------------------------------------------------------------

/// The members of one entry seen so far.
pub ghost struct PartialEntry {
    pub id: Option<Seq<char>>,
    pub author: Option<Seq<char>>,
    pub content_md: Option<Seq<char>>,
    pub created_at: Option<int>,
    pub last_updated_at: Option<int>,
}

pub open spec fn partial_empty() -> PartialEntry {
    PartialEntry {
        id: None,
        author: None,
        content_md: None,
        created_at: None,
        last_updated_at: None,
    }
}

/// An entry is complete when all five members appeared.
pub open spec fn entry_complete(p: PartialEntry, j: int) -> Option<(EntryModel, int)> {
    match (p.id, p.author, p.content_md, p.created_at, p.last_updated_at) {
        (Some(id), Some(author), Some(content_md), Some(created_at), Some(last_updated_at)) => Some(
            (
                EntryModel { id, author, content_md, created_at, last_updated_at },
                j,
            ),
        ),
        _ => None,
    }
}

/// One `key: value` member of an entry, whose key starts exactly at `k`.
/// A known key takes a value of its type and may appear only once; an
/// unknown key's value is skipped.
pub open spec fn parse_entry_member(s: Seq<char>, k: int, p: PartialEntry) -> Option<
    (PartialEntry, int),
> {
    match parse_string(s, k) {
        None => None,
        Some((key, j)) => {
            if !(k < j && j <= s.len()) {
                None
            } else {
                let c = skip_ws(s, j);
                if j <= c && c < s.len() && s[c] == ':' {
                    let v = skip_ws(s, c + 1);
                    if c + 1 <= v && v <= s.len() {
                        parse_entry_member_value(s, v, p, key)
                    } else {
                        None
                    }
                } else {
                    None
                }
            }
        },
    }
}

/// The value of an entry member named `key`, starting at `v`.
pub open spec fn parse_entry_member_value(
    s: Seq<char>,
    v: int,
    p: PartialEntry,
    key: Seq<char>,
) -> Option<(PartialEntry, int)> {
    if key == "id"@ {
        if p.id is Some {
            None
        } else {
            match parse_string(s, v) {
                None => None,
                Some((val, m)) => Some((PartialEntry { id: Some(val), ..p }, m)),
            }
        }
    } else if key == "author"@ {
        if p.author is Some {
            None
        } else {
            match parse_string(s, v) {
                None => None,
                Some((val, m)) => Some((PartialEntry { author: Some(val), ..p }, m)),
            }
        }
    } else if key == "contentMd"@ {
        if p.content_md is Some {
            None
        } else {
            match parse_string(s, v) {
                None => None,
                Some((val, m)) => Some((PartialEntry { content_md: Some(val), ..p }, m)),
            }
        }
    } else if key == "createdAt"@ {
        if p.created_at is Some {
            None
        } else {
            match parse_ts(s, v) {
                None => None,
                Some((val, m)) => Some((PartialEntry { created_at: Some(val), ..p }, m)),
            }
        }
    } else if key == "lastUpdatedAt"@ {
        if p.last_updated_at is Some {
            None
        } else {
            match parse_ts(s, v) {
                None => None,
                Some((val, m)) => Some((PartialEntry { last_updated_at: Some(val), ..p }, m)),
            }
        }
    } else {
        match skip_value(s, v, SKIP_DEPTH as nat) {
            None => None,
            Some(m) => Some((p, m)),
        }
    }
}

/// After a member of an entry object: either `}` or `,` and more members.
pub open spec fn parse_entry_more(s: Seq<char>, i: int, p: PartialEntry) -> Option<
    (EntryModel, int),
>
    decreases s.len() - i,
{
    let k = skip_ws(s, i);
    if !(i <= k && k < s.len()) {
        None
    } else if s[k] == '}' {
        entry_complete(p, k + 1)
    } else if s[k] == ',' {
        let k2 = skip_ws(s, k + 1);
        if k + 1 <= k2 && k2 <= s.len() {
            match parse_entry_member(s, k2, p) {
                None => None,
                Some((p2, m)) => {
                    if k2 < m && m <= s.len() {
                        parse_entry_more(s, m, p2)
                    } else {
                        None
                    }
                },
            }
        } else {
            None
        }
    } else {
        None
    }
}

/// One entry object at `i` (expecting `{`): its model and the index after
/// the closing `}`.
pub open spec fn parse_entry(s: Seq<char>, i: int) -> Option<(EntryModel, int)> {
    if !(0 <= i && i < s.len() && s[i] == '{') {
        None
    } else {
        let k = skip_ws(s, i + 1);
        if !(i + 1 <= k && k < s.len()) {
            None
        } else if s[k] == '}' {
            entry_complete(partial_empty(), k + 1)
        } else {
            match parse_entry_member(s, k, partial_empty()) {
                None => None,
                Some((p2, m)) => {
                    if k < m && m <= s.len() {
                        parse_entry_more(s, m, p2)
                    } else {
                        None
                    }
                },
            }
        }
    }
}

/// After an entry of the result array: either `]` or `,` and more entries.
pub open spec fn parse_entries_more(s: Seq<char>, i: int, acc: Seq<EntryModel>) -> Option<
    (Seq<EntryModel>, int),
>
    decreases s.len() - i,
{
    let k = skip_ws(s, i);
    if !(i <= k && k < s.len()) {
        None
    } else if s[k] == ']' {
        Some((acc, k + 1))
    } else if s[k] == ',' {
        let k2 = skip_ws(s, k + 1);
        if k + 1 <= k2 && k2 <= s.len() {
            match parse_entry(s, k2) {
                None => None,
                Some((e, j)) => {
                    if k2 < j && j <= s.len() {
                        parse_entries_more(s, j, acc.push(e))
                    } else {
                        None
                    }
                },
            }
        } else {
            None
        }
    } else {
        None
    }
}

/// The result array at `i` (expecting `[`): the entries in order and the
/// index after the closing `]`.
pub open spec fn parse_entries(s: Seq<char>, i: int) -> Option<(Seq<EntryModel>, int)> {
    if !(0 <= i && i < s.len() && s[i] == '[') {
        None
    } else {
        let k = skip_ws(s, i + 1);
        if !(i + 1 <= k && k < s.len()) {
            None
        } else if s[k] == ']' {
            Some((Seq::empty(), k + 1))
        } else {
            match parse_entry(s, k) {
                None => None,
                Some((e, j)) => {
                    if k < j && j <= s.len() {
                        parse_entries_more(s, j, Seq::empty().push(e))
                    } else {
                        None
                    }
                },
            }
        }
    }
}

// ---------------------------------------------------------------------------
// The response object
// ---------------------------------------------------------------------------

/// One `key: value` member of the response object, whose key starts exactly
/// at `k`. The member `result` holds the entries and may appear only once;
/// any other member's value is skipped.
pub open spec fn parse_top_member(
    s: Seq<char>,
    k: int,
    res: Option<Seq<EntryModel>>,
) -> Option<(Option<Seq<EntryModel>>, int)> {
    match parse_string(s, k) {
        None => None,
        Some((key, j)) => {
            if !(k < j && j <= s.len()) {
                None
            } else {
                let c = skip_ws(s, j);
                if j <= c && c < s.len() && s[c] == ':' {
                    let v = skip_ws(s, c + 1);
                    if c + 1 <= v && v <= s.len() {
                        if key == "result"@ {
                            if res is Some {
                                None
                            } else {
                                match parse_entries(s, v) {
                                    None => None,
                                    Some((ents, m)) => Some((Some(ents), m)),
                                }
                            }
                        } else {
                            match skip_value(s, v, SKIP_DEPTH as nat) {
                                None => None,
                                Some(m) => Some((res, m)),
                            }
                        }
                    } else {
                        None
                    }
                } else {
                    None
                }
            }
        },
    }
}

/// After a member of the response object: either `}` or `,` and more.
pub open spec fn parse_top_more(s: Seq<char>, i: int, res: Option<Seq<EntryModel>>) -> Option<
    (Option<Seq<EntryModel>>, int),
>
    decreases s.len() - i,
{
    let k = skip_ws(s, i);
    if !(i <= k && k < s.len()) {
        None
    } else if s[k] == '}' {
        Some((res, k + 1))
    } else if s[k] == ',' {
        let k2 = skip_ws(s, k + 1);
        if k + 1 <= k2 && k2 <= s.len() {
            match parse_top_member(s, k2, res) {
                None => None,
                Some((r2, m)) => {
                    if k2 < m && m <= s.len() {
                        parse_top_more(s, m, r2)
                    } else {
                        None
                    }
                },
            }
        } else {
            None
        }
    } else {
        None
    }
}

/// The whole response text: a single JSON object with a `result` member,
/// surrounded by nothing but whitespace. `None` is a decoding failure.
pub open spec fn spec_response(s: Seq<char>) -> Option<Seq<EntryModel>> {
    let i = skip_ws(s, 0);
    if !(0 <= i && i < s.len() && s[i] == '{') {
        None
    } else {
        let k = skip_ws(s, i + 1);
        if !(i + 1 <= k && k < s.len()) {
            None
        } else {
            let step = if s[k] == '}' {
                Some((None::<Seq<EntryModel>>, k + 1))
            } else {
                match parse_top_member(s, k, None) {
                    None => None,
                    Some((r2, m)) => {
                        if k < m && m <= s.len() {
                            parse_top_more(s, m, r2)
                        } else {
                            None
                        }
                    },
                }
            };
            match step {
                None => None,
                Some((res, j)) => {
                    let e = skip_ws(s, j);
                    if e == s.len() {
                        res
                    } else {
                        None
                    }
                },
            }
        }
    }
}

// ---------------------------------------------------------------------------
// The decoder
// ---------------------------------------------------------------------------

/// The model of an exec string-parse result.
pub open spec fn str_res(r: Option<(Vec<char>, usize)>) -> Option<(Seq<char>, int)> {
    match r {
        None => None,
        Some((v, j)) => Some((v@, j as int)),
    }
}

/// The model of an exec escape-parse result.
pub open spec fn esc_res(r: Option<(char, usize)>) -> Option<(char, int)> {
    match r {
        None => None,
        Some((c, j)) => Some((c, j as int)),
    }
}

/// The model of an exec index result.
pub open spec fn idx_res(r: Option<usize>) -> Option<int> {
    match r {
        None => None,
        Some(j) => Some(j as int),
    }
}

fn skip_ws_exec(s: &Vec<char>, i: usize) -> (r: usize)
    requires
        i <= s@.len(),
    ensures
        r as int == skip_ws(s@, i as int),
        i <= r <= s@.len(),
{
    let mut k: usize = i;
    while k < s.len() && (s[k] == ' ' || s[k] == '\t' || s[k] == '\n' || s[k] == '\r')
        invariant
            i <= k <= s@.len(),
            skip_ws(s@, i as int) == skip_ws(s@, k as int),
        decreases s@.len() - k,
    {
        proof {
            assert(skip_ws(s@, k as int) == skip_ws(s@, k + 1));
        }
        k = k + 1;
    }
    proof {
        assert(skip_ws(s@, k as int) == k as int);
    }
    k
}

fn is_hex_exec(c: char) -> (r: bool)
    ensures
        r == is_hex(c),
{
    let n = c as u32;
    (0x30 <= n && n <= 0x39) || (0x61 <= n && n <= 0x66) || (0x41 <= n && n <= 0x46)
}

fn hex_val_exec(c: char) -> (r: u32)
    requires
        is_hex(c),
    ensures
        r as int == hex_val(c),
        r < 16,
{
    let n = c as u32;
    if 0x30 <= n && n <= 0x39 {
        n - 0x30
    } else if 0x61 <= n && n <= 0x66 {
        n - 0x61 + 10
    } else {
        n - 0x41 + 10
    }
}

fn hex4_exec(s: &Vec<char>, i: usize) -> (r: Option<u32>)
    requires
        i <= s@.len(),
    ensures
        r == hex4(s@, i as int),
        r matches Some(h) ==> h <= 0xFFFF,
{
    if s.len() - i < 4 {
        return None;
    }
    if !(is_hex_exec(s[i]) && is_hex_exec(s[i + 1]) && is_hex_exec(s[i + 2]) && is_hex_exec(
        s[i + 3],
    )) {
        return None;
    }
    let h = hex_val_exec(s[i]) * 0x1000 + hex_val_exec(s[i + 1]) * 0x100 + hex_val_exec(s[i + 2])
        * 0x10 + hex_val_exec(s[i + 3]);
    Some(h)
}

fn parse_escape_exec(s: &Vec<char>, i: usize) -> (r: Option<(char, usize)>)
    requires
        i <= s@.len(),
    ensures
        esc_res(r) == parse_escape(s@, i as int),
        r matches Some(p) ==> i < p.1 && p.1 <= s@.len(),
{
    if s.len() - i < 2 {
        return None;
    }
    let e = s[i + 1];
    if e == '"' {
        Some(('"', i + 2))
    } else if e == '\\' {
        Some(('\\', i + 2))
    } else if e == '/' {
        Some(('/', i + 2))
    } else if e == 'b' {
        Some(('\u{8}', i + 2))
    } else if e == 'f' {
        Some(('\u{c}', i + 2))
    } else if e == 'n' {
        Some(('\n', i + 2))
    } else if e == 'r' {
        Some(('\r', i + 2))
    } else if e == 't' {
        Some(('\t', i + 2))
    } else if e == 'u' {
        parse_unicode_escape_exec(s, i)
    } else {
        None
    }
}

fn parse_unicode_escape_exec(s: &Vec<char>, i: usize) -> (r: Option<(char, usize)>)
    requires
        i + 2 <= s@.len(),
    ensures
        esc_res(r) == parse_unicode_escape(s@, i as int),
        r matches Some(p) ==> i < p.1 && p.1 <= s@.len(),
{
    let n = s.len();
    match hex4_exec(s, i + 2) {
        None => None,
        Some(h) => {
            if h < 0xD800 || h >= 0xE000 {
                if let Some(c) = crate::strutil::char_from_u32(h) {
                    Some((c, i + 6))
                } else {
                    proof {
                        assert(false);
                    }
                    None
                }
            } else if h < 0xDC00 {
                if n - i >= 8 && s[i + 6] == '\\' && s[i + 7] == 'u' {
                    match hex4_exec(s, i + 8) {
                        None => None,
                        Some(l) => {
                            if 0xDC00 <= l && l < 0xE000 {
                                let code: u32 = 0x10000 + (h - 0xD800) * 0x400 + (l - 0xDC00);
                                if let Some(c) = crate::strutil::char_from_u32(code) {
                                    Some((c, i + 12))
                                } else {
                                    proof {
                                        assert(false);
                                    }
                                    None
                                }
                            } else {
                                None
                            }
                        },
                    }
                } else {
                    None
                }
            } else {
                None
            }
        },
    }
}

fn parse_string_exec(s: &Vec<char>, i: usize) -> (r: Option<(Vec<char>, usize)>)
    requires
        i <= s@.len(),
    ensures
        str_res(r) == parse_string(s@, i as int),
        r matches Some(p) ==> i < p.1 && p.1 <= s@.len(),
{
    if !(i < s.len() && s[i] == '"') {
        return None;
    }
    let mut acc: Vec<char> = Vec::new();
    let mut k: usize = i + 1;
    loop
        invariant
            i + 1 <= k <= s@.len(),
            i < s@.len(),
            s@[i as int] == '"',
            parse_string_body(s@, k as int, acc@) == parse_string_body(
                s@,
                i + 1,
                Seq::<char>::empty(),
            ),
        decreases s@.len() - k,
    {
        if k >= s.len() {
            return None;
        }
        let c = s[k];
        if c == '"' {
            return Some((acc, k + 1));
        } else if c == '\\' {
            match parse_escape_exec(s, k) {
                None => {
                    return None;
                },
                Some((ch, j)) => {
                    proof {
                        assert(parse_string_body(s@, k as int, acc@) == parse_string_body(
                            s@,
                            j as int,
                            acc@.push(ch),
                        ));
                    }
                    acc.push(ch);
                    k = j;
                },
            }
        } else if (c as u32) < 0x20 {
            return None;
        } else {
            proof {
                assert(parse_string_body(s@, k as int, acc@) == parse_string_body(
                    s@,
                    k + 1,
                    acc@.push(c),
                ));
            }
            acc.push(c);
            k = k + 1;
        }
    }
}

/// The model of an exec timestamp-parse result.
pub open spec fn ts_res(r: Option<(i64, usize)>) -> Option<(int, int)> {
    match r {
        None => None,
        Some((v, j)) => Some((v as int, j as int)),
    }
}

/// Reading digits never shrinks a non-negative accumulator.
proof fn lemma_parse_digits_lb(s: Seq<char>, i: int, acc: int)
    requires
        acc >= 0,
    ensures
        parse_digits(s, i, acc).0 >= acc,
    decreases s.len() - i,
{
    if 0 <= i && i < s.len() && is_digit(s[i]) {
        lemma_parse_digits_lb(s, i + 1, acc * 10 + digit_val(s[i]));
    }
}

fn parse_digits_exec(s: &Vec<char>, i: usize, acc0: i64) -> (r: Option<(i64, usize)>)
    requires
        i <= s@.len(),
        0 <= acc0 <= RFC2822_MAX_MS,
    ensures
        r matches Some(p) ==> {
            &&& (p.0 as int, p.1 as int) == parse_digits(s@, i as int, acc0 as int)
            &&& 0 <= p.0 <= RFC2822_MAX_MS
            &&& i <= p.1 <= s@.len()
        },
        r is None ==> parse_digits(s@, i as int, acc0 as int).0 > RFC2822_MAX_MS as int,
{
    let mut k: usize = i;
    let mut acc: i64 = acc0;
    loop
        invariant
            i <= k <= s@.len(),
            0 <= acc <= RFC2822_MAX_MS,
            parse_digits(s@, i as int, acc0 as int) == parse_digits(s@, k as int, acc as int),
        decreases s@.len() - k,
    {
        if k >= s.len() {
            return Some((acc, k));
        }
        let d = s[k] as u32;
        if !(0x30 <= d && d <= 0x39) {
            return Some((acc, k));
        }
        let next: i64 = acc * 10 + ((d - 0x30) as i64);
        if next > RFC2822_MAX_MS {
            proof {
                lemma_parse_digits_lb(s@, k + 1, next as int);
                assert(parse_digits(s@, k as int, acc as int) == parse_digits(
                    s@,
                    k + 1,
                    next as int,
                ));
            }
            return None;
        }
        proof {
            assert(parse_digits(s@, k as int, acc as int) == parse_digits(s@, k + 1, next as int));
        }
        acc = next;
        k = k + 1;
    }
}

/// Reading digits never moves the index backwards or past the end.
proof fn lemma_parse_digits_idx(s: Seq<char>, i: int, acc: int)
    requires
        0 <= i <= s.len(),
    ensures
        i <= parse_digits(s, i, acc).1 <= s.len(),
    decreases s.len() - i,
{
    if 0 <= i && i < s.len() && is_digit(s[i]) {
        lemma_parse_digits_idx(s, i + 1, acc * 10 + digit_val(s[i]));
    }
}

/// The digit span never moves the index backwards or past the end.
proof fn lemma_digits_end_idx(s: Seq<char>, i: int)
    requires
        0 <= i <= s.len(),
    ensures
        i <= digits_end(s, i) <= s.len(),
    decreases s.len() - i,
{
    if 0 <= i && i < s.len() && is_digit(s[i]) {
        lemma_digits_end_idx(s, i + 1);
    }
}

fn parse_ts_exec(s: &Vec<char>, i: usize) -> (r: Option<(i64, usize)>)
    requires
        i <= s@.len(),
    ensures
        ts_res(r) == parse_ts(s@, i as int),
        r matches Some(p) ==> i < p.1 && p.1 <= s@.len() && RFC2822_MIN_MS <= p.0
            <= RFC2822_MAX_MS,
{
    let n = s.len();
    let neg = i < n && s[i] == '-';
    let j0: usize = if neg {
        i + 1
    } else {
        i
    };
    if !(j0 < n) {
        return None;
    }
    let c0 = s[j0] as u32;
    if !(0x30 <= c0 && c0 <= 0x39) {
        return None;
    }
    let vj: (i64, usize) = if s[j0] == '0' {
        (0, j0 + 1)
    } else {
        match parse_digits_exec(s, j0, 0) {
            None => {
                return None;
            },
            Some(p) => {
                proof {
                    assert(parse_digits(s@, j0 as int, 0) == parse_digits(
                        s@,
                        j0 + 1,
                        digit_val(s@[j0 as int]),
                    ));
                    lemma_parse_digits_idx(s@, j0 + 1, digit_val(s@[j0 as int]));
                }
                p
            },
        }
    };
    let u = vj.0;
    let j = vj.1;
    if neg {
        if u <= -RFC2822_MIN_MS {
            Some((-u, j))
        } else {
            None
        }
    } else {
        Some((u, j))
    }
}

fn digits_end_exec(s: &Vec<char>, i: usize) -> (r: usize)
    requires
        i <= s@.len(),
    ensures
        r as int == digits_end(s@, i as int),
        i <= r <= s@.len(),
{
    let mut k: usize = i;
    loop
        invariant
            i <= k <= s@.len(),
            digits_end(s@, i as int) == digits_end(s@, k as int),
        decreases s@.len() - k,
    {
        if k >= s.len() {
            return k;
        }
        let d = s[k] as u32;
        if !(0x30 <= d && d <= 0x39) {
            return k;
        }
        proof {
            assert(digits_end(s@, k as int) == digits_end(s@, k + 1));
        }
        k = k + 1;
    }
}

fn skip_number_exec(s: &Vec<char>, i: usize) -> (r: Option<usize>)
    requires
        i < s@.len(),
        s@[i as int] == '-' || is_digit(s@[i as int]),
    ensures
        idx_res(r) == skip_number(s@, i as int),
        r matches Some(m) ==> i < m && m <= s@.len(),
{
    let n = s.len();
    let i1: usize = if s[i] == '-' {
        i + 1
    } else {
        i
    };
    // the unsigned part
    if !(i1 < n) {
        return None;
    }
    let c0 = s[i1] as u32;
    if !(0x30 <= c0 && c0 <= 0x39) {
        return None;
    }
    let j: usize = if s[i1] == '0' {
        i1 + 1
    } else {
        let e = digits_end_exec(s, i1);
        proof {
            assert(digits_end(s@, i1 as int) == digits_end(s@, i1 + 1));
            lemma_digits_end_idx(s@, i1 + 1);
        }
        e
    };
    // the fraction part
    let j2: usize = if j < s.len() && s[j] == '.' {
        if j + 1 < s.len() && {
            let d = s[j + 1] as u32;
            0x30 <= d && d <= 0x39
        } {
            digits_end_exec(s, j + 1)
        } else {
            return None;
        }
    } else {
        j
    };
    // the exponent part
    if j2 < s.len() && (s[j2] == 'e' || s[j2] == 'E') {
        let k: usize = if j2 + 1 < s.len() && (s[j2 + 1] == '+' || s[j2 + 1] == '-') {
            j2 + 2
        } else {
            j2 + 1
        };
        if k < s.len() && {
            let d = s[k] as u32;
            0x30 <= d && d <= 0x39
        } {
            let e = digits_end_exec(s, k);
            proof {
                assert(digits_end(s@, k as int) == digits_end(s@, k + 1));
            }
            Some(e)
        } else {
            None
        }
    } else {
        Some(j2)
    }
}

fn skip_value_exec(s: &Vec<char>, i: usize, d: u32) -> (r: Option<usize>)
    requires
        i <= s@.len(),
    ensures
        idx_res(r) == skip_value(s@, i as int, d as nat),
        r matches Some(m) ==> i < m && m <= s@.len(),
    decreases d, s@.len() - i, 0int,
{
    if !(i < s.len()) {
        return None;
    }
    let c = s[i];
    if c == '"' {
        match parse_string_exec(s, i) {
            None => None,
            Some((_v, j)) => Some(j),
        }
    } else if c == '{' {
        if d == 0 {
            None
        } else {
            skip_members0_exec(s, i + 1, d - 1)
        }
    } else if c == '[' {
        if d == 0 {
            None
        } else {
            skip_items0_exec(s, i + 1, d - 1)
        }
    } else if c == 't' {
        if s.len() - i >= 4 && s[i + 1] == 'r' && s[i + 2] == 'u' && s[i + 3] == 'e' {
            Some(i + 4)
        } else {
            None
        }
    } else if c == 'f' {
        if s.len() - i >= 5 && s[i + 1] == 'a' && s[i + 2] == 'l' && s[i + 3] == 's' && s[i + 4]
            == 'e' {
            Some(i + 5)
        } else {
            None
        }
    } else if c == 'n' {
        if s.len() - i >= 4 && s[i + 1] == 'u' && s[i + 2] == 'l' && s[i + 3] == 'l' {
            Some(i + 4)
        } else {
            None
        }
    } else {
        let n = c as u32;
        if c == '-' || (0x30 <= n && n <= 0x39) {
            skip_number_exec(s, i)
        } else {
            None
        }
    }
}

fn skip_member_exec(s: &Vec<char>, k: usize, d: u32) -> (r: Option<usize>)
    requires
        k <= s@.len(),
    ensures
        idx_res(r) == skip_member(s@, k as int, d as nat),
        r matches Some(m) ==> k < m && m <= s@.len(),
    decreases d, s@.len() - k, 1int,
{
    match parse_string_exec(s, k) {
        None => None,
        Some((_key, j)) => {
            let c = skip_ws_exec(s, j);
            if !(c < s.len() && s[c] == ':') {
                return None;
            }
            let v = skip_ws_exec(s, c + 1);
            skip_value_exec(s, v, d)
        },
    }
}

fn skip_members0_exec(s: &Vec<char>, i: usize, d: u32) -> (r: Option<usize>)
    requires
        i <= s@.len(),
    ensures
        idx_res(r) == skip_members0(s@, i as int, d as nat),
        r matches Some(m) ==> i < m && m <= s@.len(),
    decreases d, s@.len() - i, 2int,
{
    let k = skip_ws_exec(s, i);
    if !(k < s.len()) {
        return None;
    }
    if s[k] == '}' {
        return Some(k + 1);
    }
    let m0 = match skip_member_exec(s, k, d) {
        None => {
            return None;
        },
        Some(m) => m,
    };
    let mut cur = m0;
    loop
        invariant
            i < cur <= s@.len(),
            skip_members_more(s@, cur as int, d as nat) == skip_members0(s@, i as int, d as nat),
        decreases s@.len() - cur,
    {
        let k2 = skip_ws_exec(s, cur);
        if !(k2 < s.len()) {
            return None;
        }
        if s[k2] == '}' {
            return Some(k2 + 1);
        }
        if s[k2] != ',' {
            return None;
        }
        let k3 = skip_ws_exec(s, k2 + 1);
        match skip_member_exec(s, k3, d) {
            None => {
                return None;
            },
            Some(m) => {
                cur = m;
            },
        }
    }
}

fn skip_items0_exec(s: &Vec<char>, i: usize, d: u32) -> (r: Option<usize>)
    requires
        i <= s@.len(),
    ensures
        idx_res(r) == skip_items0(s@, i as int, d as nat),
        r matches Some(m) ==> i < m && m <= s@.len(),
    decreases d, s@.len() - i, 2int,
{
    let k = skip_ws_exec(s, i);
    if !(k < s.len()) {
        return None;
    }
    if s[k] == ']' {
        return Some(k + 1);
    }
    let m0 = match skip_value_exec(s, k, d) {
        None => {
            return None;
        },
        Some(m) => m,
    };
    let mut cur = m0;
    loop
        invariant
            i < cur <= s@.len(),
            skip_items_more(s@, cur as int, d as nat) == skip_items0(s@, i as int, d as nat),
        decreases s@.len() - cur,
    {
        let k2 = skip_ws_exec(s, cur);
        if !(k2 < s.len()) {
            return None;
        }
        if s[k2] == ']' {
            return Some(k2 + 1);
        }
        if s[k2] != ',' {
            return None;
        }
        let k3 = skip_ws_exec(s, k2 + 1);
        match skip_value_exec(s, k3, d) {
            None => {
                return None;
            },
            Some(m) => {
                cur = m;
            },
        }
    }
}

/// The members of one entry seen so far, as the decoder holds them.
struct PartialExec {
    id: Option<Vec<char>>,
    author: Option<Vec<char>>,
    content_md: Option<Vec<char>>,
    created_at: Option<i64>,
    last_updated_at: Option<i64>,
}

impl View for PartialExec {
    type V = PartialEntry;

    closed spec fn view(&self) -> PartialEntry {
        PartialEntry {
            id: match self.id {
                None => None,
                Some(v) => Some(v@),
            },
            author: match self.author {
                None => None,
                Some(v) => Some(v@),
            },
            content_md: match self.content_md {
                None => None,
                Some(v) => Some(v@),
            },
            created_at: match self.created_at {
                None => None,
                Some(v) => Some(v as int),
            },
            last_updated_at: match self.last_updated_at {
                None => None,
                Some(v) => Some(v as int),
            },
        }
    }
}

/// Timestamps seen so far are within the renderable span.
spec fn partial_ts_ok(p: PartialExec) -> bool {
    &&& (p.created_at matches Some(v) ==> RFC2822_MIN_MS <= v <= RFC2822_MAX_MS)
    &&& (p.last_updated_at matches Some(v) ==> RFC2822_MIN_MS <= v <= RFC2822_MAX_MS)
}

/// The model of an exec entry-member result.
spec fn pe_res(r: Option<(PartialExec, usize)>) -> Option<(PartialEntry, int)> {
    match r {
        None => None,
        Some((p, j)) => Some((p@, j as int)),
    }
}

/// The model of an exec entry result.
spec fn entry_res(r: Option<(Entry, usize)>) -> Option<(EntryModel, int)> {
    match r {
        None => None,
        Some((e, j)) => Some((e@, j as int)),
    }
}

/// The model of an exec entries result.
spec fn entries_res(r: Option<(Vec<Entry>, usize)>) -> Option<(Seq<EntryModel>, int)> {
    match r {
        None => None,
        Some((v, j)) => Some((models_of(v@), j as int)),
    }
}

fn parse_entry_member_exec(s: &Vec<char>, k: usize, p: PartialExec) -> (r: Option<
    (PartialExec, usize),
>)
    requires
        k <= s@.len(),
        partial_ts_ok(p),
    ensures
        pe_res(r) == parse_entry_member(s@, k as int, p@),
        r matches Some(q) ==> k < q.1 && q.1 <= s@.len() && partial_ts_ok(q.0),
{
    match parse_string_exec(s, k) {
        None => None,
        Some((key, j)) => {
            let c = skip_ws_exec(s, j);
            if !(c < s.len() && s[c] == ':') {
                return None;
            }
            let v = skip_ws_exec(s, c + 1);
            if chars_eq_str(&key, "id") {
                if p.id.is_some() {
                    return None;
                }
                match parse_string_exec(s, v) {
                    None => {
                        return None;
                    },
                    Some((val, m)) => {
                        return Some((PartialExec { id: Some(val), ..p }, m));
                    },
                }
            } else if chars_eq_str(&key, "author") {
                if p.author.is_some() {
                    return None;
                }
                match parse_string_exec(s, v) {
                    None => {
                        return None;
                    },
                    Some((val, m)) => {
                        return Some((PartialExec { author: Some(val), ..p }, m));
                    },
                }
            } else if chars_eq_str(&key, "contentMd") {
                if p.content_md.is_some() {
                    return None;
                }
                match parse_string_exec(s, v) {
                    None => {
                        return None;
                    },
                    Some((val, m)) => {
                        return Some((PartialExec { content_md: Some(val), ..p }, m));
                    },
                }
            } else if chars_eq_str(&key, "createdAt") {
                if p.created_at.is_some() {
                    return None;
                }
                match parse_ts_exec(s, v) {
                    None => {
                        return None;
                    },
                    Some((val, m)) => {
                        return Some((PartialExec { created_at: Some(val), ..p }, m));
                    },
                }
            } else if chars_eq_str(&key, "lastUpdatedAt") {
                if p.last_updated_at.is_some() {
                    return None;
                }
                match parse_ts_exec(s, v) {
                    None => {
                        return None;
                    },
                    Some((val, m)) => {
                        return Some((PartialExec { last_updated_at: Some(val), ..p }, m));
                    },
                }
            } else {
                match skip_value_exec(s, v, SKIP_DEPTH) {
                    None => {
                        return None;
                    },
                    Some(m) => {
                        return Some((p, m));
                    },
                }
            }
        },
    }
}

/// Builds the entry once its object closed at `j`, if all members appeared.
fn finish_entry(p: PartialExec, j: usize) -> (r: Option<(Entry, usize)>)
    requires
        partial_ts_ok(p),
    ensures
        entry_res(r) == entry_complete(p@, j as int),
        r matches Some(q) ==> q.1 == j && crate::entries::entry_ts_ok(q.0),
{
    match (p.id, p.author, p.content_md, p.created_at, p.last_updated_at) {
        (Some(id), Some(author), Some(content_md), Some(created_at), Some(last_updated_at)) => {
            Some(
                (
                    Entry {
                        id: string_from_chars(&id),
                        author: string_from_chars(&author),
                        content_md: string_from_chars(&content_md),
                        created_at_ms: created_at,
                        last_updated_at_ms: last_updated_at,
                    },
                    j,
                ),
            )
        },
        _ => None,
    }
}

fn parse_entry_exec(s: &Vec<char>, i: usize) -> (r: Option<(Entry, usize)>)
    requires
        i <= s@.len(),
    ensures
        entry_res(r) == parse_entry(s@, i as int),
        r matches Some(q) ==> i < q.1 && q.1 <= s@.len() && crate::entries::entry_ts_ok(q.0),
{
    if !(i < s.len() && s[i] == '{') {
        return None;
    }
    let k = skip_ws_exec(s, i + 1);
    if !(k < s.len()) {
        return None;
    }
    let empty = PartialExec {
        id: None,
        author: None,
        content_md: None,
        created_at: None,
        last_updated_at: None,
    };
    proof {
        assert(empty@ == partial_empty());
    }
    if s[k] == '}' {
        return finish_entry(empty, k + 1);
    }
    let first = match parse_entry_member_exec(s, k, empty) {
        None => {
            return None;
        },
        Some(q) => q,
    };
    let mut p = first.0;
    let mut cur = first.1;
    loop
        invariant
            i < cur <= s@.len(),
            partial_ts_ok(p),
            parse_entry_more(s@, cur as int, p@) == parse_entry(s@, i as int),
        decreases s@.len() - cur,
    {
        let k2 = skip_ws_exec(s, cur);
        if !(k2 < s.len()) {
            return None;
        }
        if s[k2] == '}' {
            return finish_entry(p, k2 + 1);
        }
        if s[k2] != ',' {
            return None;
        }
        let k3 = skip_ws_exec(s, k2 + 1);
        match parse_entry_member_exec(s, k3, p) {
            None => {
                return None;
            },
            Some(q) => {
                p = q.0;
                cur = q.1;
            },
        }
    }
}

fn parse_entries_exec(s: &Vec<char>, i: usize) -> (r: Option<(Vec<Entry>, usize)>)
    requires
        i <= s@.len(),
    ensures
        entries_res(r) == parse_entries(s@, i as int),
        r matches Some(q) ==> i < q.1 && q.1 <= s@.len() && (forall|k: int|
            0 <= k < q.0@.len() ==> crate::entries::entry_ts_ok(q.0@[k])),
{
    if !(i < s.len() && s[i] == '[') {
        return None;
    }
    let k = skip_ws_exec(s, i + 1);
    if !(k < s.len()) {
        return None;
    }
    let mut acc: Vec<Entry> = Vec::new();
    if s[k] == ']' {
        proof {
            assert(models_of(acc@) =~= Seq::<EntryModel>::empty());
        }
        return Some((acc, k + 1));
    }
    let first = match parse_entry_exec(s, k) {
        None => {
            return None;
        },
        Some(q) => q,
    };
    proof {
        assert(models_of(acc@.push(first.0)) =~= Seq::<EntryModel>::empty().push(first.0@));
    }
    acc.push(first.0);
    let mut cur = first.1;
    loop
        invariant
            i < cur <= s@.len(),
            forall|k: int| 0 <= k < acc@.len() ==> crate::entries::entry_ts_ok(acc@[k]),
            parse_entries_more(s@, cur as int, models_of(acc@)) == parse_entries(s@, i as int),
        decreases s@.len() - cur,
    {
        let k2 = skip_ws_exec(s, cur);
        if !(k2 < s.len()) {
            return None;
        }
        if s[k2] == ']' {
            return Some((acc, k2 + 1));
        }
        if s[k2] != ',' {
            return None;
        }
        let k3 = skip_ws_exec(s, k2 + 1);
        match parse_entry_exec(s, k3) {
            None => {
                return None;
            },
            Some(q) => {
                proof {
                    assert(models_of(acc@.push(q.0)) =~= models_of(acc@).push(q.0@));
                }
                acc.push(q.0);
                cur = q.1;
            },
        }
    }
}

/// The model of a decoder state or result.
pub open spec fn opt_entries_model(r: Option<Vec<Entry>>) -> Option<Seq<EntryModel>> {
    match r {
        None => None,
        Some(v) => Some(models_of(v@)),
    }
}

/// The model of an exec response-member result.
spec fn top_res(r: Option<(Option<Vec<Entry>>, usize)>) -> Option<
    (Option<Seq<EntryModel>>, int),
> {
    match r {
        None => None,
        Some((v, j)) => Some((opt_entries_model(v), j as int)),
    }
}

/// All timestamps of the entries held so far are renderable.
spec fn opt_entries_ts_ok(r: Option<Vec<Entry>>) -> bool {
    r matches Some(v) ==> forall|k: int|
        0 <= k < v@.len() ==> crate::entries::entry_ts_ok(v@[k])
}

fn parse_top_member_exec(s: &Vec<char>, k: usize, res: Option<Vec<Entry>>) -> (r: Option<
    (Option<Vec<Entry>>, usize),
>)
    requires
        k <= s@.len(),
        opt_entries_ts_ok(res),
    ensures
        top_res(r) == parse_top_member(s@, k as int, opt_entries_model(res)),
        r matches Some(q) ==> k < q.1 && q.1 <= s@.len() && opt_entries_ts_ok(q.0),
{
    match parse_string_exec(s, k) {
        None => None,
        Some((key, j)) => {
            let c = skip_ws_exec(s, j);
            if !(c < s.len() && s[c] == ':') {
                return None;
            }
            let v = skip_ws_exec(s, c + 1);
            if chars_eq_str(&key, "result") {
                if res.is_some() {
                    return None;
                }
                match parse_entries_exec(s, v) {
                    None => None,
                    Some((ents, m)) => Some((Some(ents), m)),
                }
            } else {
                match skip_value_exec(s, v, SKIP_DEPTH) {
                    None => None,
                    Some(m) => Some((res, m)),
                }
            }
        },
    }
}

/// Decodes the upstream response.
///
/// Returns the entries exactly when the text satisfies [`spec_response`],
/// with the models the grammar gives them; every decoded timestamp lies in
/// the renderable span. Any other text is a decoding failure.
pub fn decode_response(body: &str) -> (r: Option<Vec<Entry>>)
    ensures
        opt_entries_model(r) == spec_response(body@),
        r matches Some(v) ==> forall|k: int|
            0 <= k < v@.len() ==> crate::entries::entry_ts_ok(v@[k]),
{
    let s = chars_of(body);
    let i = skip_ws_exec(&s, 0);
    if !(i < s.len() && s[i] == '{') {
        return None;
    }
    let k = skip_ws_exec(&s, i + 1);
    if !(k < s.len()) {
        return None;
    }
    if s[k] == '}' {
        // the response object had no members, so no result member
        return None;
    }
    let mut res: Option<Vec<Entry>>;
    let mut cur: usize;
    match parse_top_member_exec(&s, k, None) {
        None => {
            return None;
        },
        Some(q) => {
            res = q.0;
            cur = q.1;
        },
    }
    loop
        invariant
            i < cur <= s@.len(),
            opt_entries_ts_ok(res),
            ({
                let i0 = skip_ws(body@, 0);
                let k0 = skip_ws(body@, i0 + 1);
                &&& s@ == body@
                &&& 0 <= i0 < body@.len()
                &&& body@[i0] == '{'
                &&& i0 + 1 <= k0 < body@.len()
                &&& body@[k0] != '}'
                &&& parse_top_member(body@, k0, None) matches Some(st)
                &&& k0 < st.1 <= body@.len()
                &&& parse_top_more(body@, cur as int, opt_entries_model(res)) == parse_top_more(
                    body@,
                    st.1,
                    st.0,
                )
            }),
        decreases s@.len() - cur,
    {
        let k2 = skip_ws_exec(&s, cur);
        if !(k2 < s.len()) {
            return None;
        }
        if s[k2] == '}' {
            let e = skip_ws_exec(&s, k2 + 1);
            if e == s.len() {
                return res;
            }
            return None;
        }
        if s[k2] != ',' {
            return None;
        }
        let k3 = skip_ws_exec(&s, k2 + 1);
        match parse_top_member_exec(&s, k3, res) {
            None => {
                return None;
            },
            Some(q) => {
                res = q.0;
                cur = q.1;
            },
        }
    }
}

} // verus!
