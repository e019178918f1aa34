//! Theme configuration read from a JSON document: the profiles it names,
//! the keys of each category, and the colours of each profile, with the
//! default profile `"_"` filling in what a profile leaves out.
use vstd::prelude::*;
use crate::data_table::{lemma_lex_antisym, lemma_lex_total, lemma_lex_trans, lex_le};
use crate::syntax::str_eq;
use crate::text::{chars_of, push_char, push_chars};
use crate::theme::{default_colors, default_palette, Color, SLOT_COUNT};

verus! {

#[verifier::external_type_specification]
#[verifier::external_body]
pub struct ExJsonDocument(serde_json::Value);

/// A JSON value as far as theme configuration reads it. A number keeps the
/// unsigned integer it denotes, if any; an object keeps its members in
/// document order.
pub enum JsonValue {
    Str(String),
    Number(Option<u64>),
    Object(Vec<(String, JsonValue)>),
    Other,
}

/// The first member named `key` among `entries`.
pub open spec fn entry_lookup(entries: Seq<(String, JsonValue)>, key: Seq<char>) -> Option<JsonValue>
    decreases entries.len(),
{
    if entries.len() == 0 {
        None
    } else if entries[0].0@ == key {
        Some(entries[0].1)
    } else {
        entry_lookup(entries.drop_first(), key)
    }
}

/// Member `key` of `v`; nothing when `v` is not an object.
pub open spec fn member(v: JsonValue, key: Seq<char>) -> Option<JsonValue> {
    match v {
        JsonValue::Object(es) => entry_lookup(es@, key),
        _ => None,
    }
}

/// Member `key` of member `category` of `profile`.
pub open spec fn category_value(profile: JsonValue, category: Seq<char>, key: Seq<char>) -> Option<JsonValue> {
    match member(profile, category) {
        Some(cat) => member(cat, key),
        None => None,
    }
}

/// The first member named `key` among `es`.
pub fn find_entry<'a>(es: &'a Vec<(String, JsonValue)>, key: &str) -> (r: Option<&'a JsonValue>)
    ensures
        match entry_lookup(es@, key@) {
            Some(m) => r == Some(&m),
            None => r is None,
        },
{
    let mut i: usize = 0;
    assert(es@.skip(0) =~= es@);
    while i < es.len()
        invariant
            i <= es@.len(),
            entry_lookup(es@, key@) == entry_lookup(es@.skip(i as int), key@),
        decreases es.len() - i,
    {
        assert(es@.skip(i as int).drop_first() =~= es@.skip(i + 1));
        assert(es@.skip(i as int)[0] == es@[i as int]);
        if str_eq(&es[i].0, key) {
            return Some(&es[i].1);
        }
        i = i + 1;
    }
    None
}

/// Member `key` of `v`, when `v` is an object that has one.
pub fn get<'a>(v: &'a JsonValue, key: &str) -> (r: Option<&'a JsonValue>)
    ensures
        match member(*v, key@) {
            Some(m) => r == Some(&m),
            None => r is None,
        },
{
    match v {
        JsonValue::Object(es) => find_entry(es, key),
        _ => None,
    }
}

/// The value of `key` in category `category` of `profile`.
pub fn get_val<'a>(profile: &'a JsonValue, category: &str, key: &str) -> (r: Option<&'a JsonValue>)
    ensures
        match category_value(*profile, category@, key@) {
            Some(m) => r == Some(&m),
            None => r is None,
        },
{
    match get(profile, category) {
        Some(cat) => get(cat, key),
        None => None,
    }
}

/// Value of hexadecimal digit `c`, if it is one.
pub open spec fn hex_digit(c: char) -> Option<int> {
    if '0' <= c && c <= '9' {
        Some(c as int - '0' as int)
    } else if 'a' <= c && c <= 'f' {
        Some(c as int - 'a' as int + 10)
    } else if 'A' <= c && c <= 'F' {
        Some(c as int - 'A' as int + 10)
    } else {
        None
    }
}

/// Whether every character of `ds` is a hexadecimal digit.
pub open spec fn all_hex(ds: Seq<char>) -> bool {
    forall|i: int| 0 <= i < ds.len() ==> (#[trigger] hex_digit(ds[i])) is Some
}

/// The number the hexadecimal digits `ds` denote.
pub open spec fn hex_value(ds: Seq<char>) -> int
    decreases ds.len(),
{
    if ds.len() == 0 {
        0
    } else {
        hex_value(ds.drop_last()) * 16 + hex_digit(ds.last())->0
    }
}

/// `u32::from_str_radix(t, 16)`, as std documents it: an optional `+`
/// followed by at least one hexadecimal digit, denoting a number that fits
/// in `u32`.
pub open spec fn radix16(t: Seq<char>) -> Option<u32> {
    let ds = if t.len() > 0 && t[0] == '+' { t.drop_first() } else { t };
    if ds.len() > 0 && all_hex(ds) && hex_value(ds) <= u32::MAX {
        Some(hex_value(ds) as u32)
    } else {
        None
    }
}

proof fn lemma_hex_value_bound(ds: Seq<char>)
    requires
        all_hex(ds),
    ensures
        0 <= hex_value(ds),
    decreases ds.len(),
{
    if ds.len() > 0 {
        lemma_hex_value_bound(ds.drop_last());
        assert(hex_digit(ds[ds.len() - 1]) is Some);
    }
}

fn hex_digit_value(c: char) -> (d: Option<u32>)
    ensures
        match hex_digit(c) {
            Some(v) => d == Some(v as u32),
            None => d is None,
        },
{
    if '0' <= c && c <= '9' {
        Some((c as u32) - ('0' as u32))
    } else if 'a' <= c && c <= 'f' {
        Some((c as u32) - ('a' as u32) + 10)
    } else if 'A' <= c && c <= 'F' {
        Some((c as u32) - ('A' as u32) + 10)
    } else {
        None
    }
}

/// Parses `t` as `u32::from_str_radix(t, 16)` does.
pub fn parse_hex_u32(t: &Vec<char>) -> (r: Option<u32>)
    ensures
        r == radix16(t@),
{
    let start: usize = if t.len() > 0 && t[0] == '+' { 1 } else { 0 };
    let ghost ds = if t@.len() > 0 && t@[0] == '+' { t@.drop_first() } else { t@ };
    if start >= t.len() {
        return None;
    }
    let mut acc: u64 = 0;
    let mut i: usize = start;
    while i < t.len()
        invariant
            start <= i <= t@.len(),
            start == 0 || start == 1,
            ds == t@.skip(start as int),
            ds == (if t@.len() > 0 && t@[0] == '+' { t@.drop_first() } else { t@ }),
            all_hex(ds.take(i - start)),
            acc == hex_value(ds.take(i - start)),
            acc <= u32::MAX,
        decreases t.len() - i,
    {
        assert(ds.take(i - start + 1).drop_last() =~= ds.take(i - start));
        assert(ds[(i - start) as int] == t@[i as int]);
        assert(ds.take(i - start + 1).last() == t@[i as int]);
        match hex_digit_value(t[i]) {
            Some(d) => {
                proof {
                    lemma_hex_value_bound(ds.take(i - start));
                }
                let next = acc * 16 + d as u64;
                assert(all_hex(ds.take(i - start + 1))) by {
                    assert forall|j: int| 0 <= j < ds.take(i - start + 1).len() implies
                        (#[trigger] hex_digit(ds.take(i - start + 1)[j])) is Some by {
                        if j < i - start {
                            assert(ds.take(i - start + 1)[j] == ds.take(i - start)[j]);
                        }
                    }
                }
                assert(hex_value(ds.take(i - start + 1)) == next);
                if next > 0xffff_ffff {
                    proof {
                        lemma_hex_prefix_grows(ds, (i - start + 1) as int);
                        assert(ds.len() > 0);
                        assert(radix16(t@) is None);
                    }
                    return None;
                }
                acc = next;
            },
            None => {
                assert(!all_hex(ds)) by {
                    assert(hex_digit(ds[(i - start) as int]) is None);
                }
                assert(radix16(t@) is None);
                return None;
            },
        }
        i = i + 1;
    }
    assert(ds.take(i - start) =~= ds);
    Some(acc as u32)
}

/// Once a prefix of hexadecimal digits exceeds `u32`, so does the whole.
proof fn lemma_hex_prefix_grows(ds: Seq<char>, n: int)
    requires
        0 <= n <= ds.len(),
        all_hex(ds.take(n)),
        hex_value(ds.take(n)) > u32::MAX,
    ensures
        !all_hex(ds) || hex_value(ds) > u32::MAX,
    decreases ds.len() - n,
{
    if n < ds.len() && all_hex(ds) {
        assert(ds.take(n + 1).drop_last() =~= ds.take(n));
        assert(all_hex(ds.take(n + 1)));
        assert(hex_digit(ds[n]) is Some);
        lemma_hex_prefix_grows(ds, n + 1);
    } else if n == ds.len() {
        assert(ds.take(n) =~= ds);
    }
}

/// Number of bytes of the UTF-8 encoding of `c` (`char::len_utf8`).
pub open spec fn utf8_width(c: char) -> int {
    if (c as u32) < 0x80 {
        1
    } else if (c as u32) < 0x800 {
        2
    } else if (c as u32) < 0x10000 {
        3
    } else {
        4
    }
}

/// Number of bytes of the UTF-8 encoding of `s` (`str::len`).
pub open spec fn utf8_len(s: Seq<char>) -> int
    decreases s.len(),
{
    if s.len() == 0 { 0 } else { utf8_len(s.drop_last()) + utf8_width(s.last()) }
}

proof fn lemma_utf8_len_nonneg(s: Seq<char>)
    ensures
        utf8_len(s) >= 0,
    decreases s.len(),
{
    if s.len() > 0 {
        lemma_utf8_len_nonneg(s.drop_last());
    }
}

/// `s` without its leading `#` characters.
pub open spec fn trim_hashes(s: Seq<char>) -> Seq<char>
    decreases s.len(),
{
    if s.len() > 0 && s[0] == '#' { trim_hashes(s.drop_first()) } else { s }
}

/// The channels of a colour written as hex: six digits give red, green and
/// blue of an opaque colour; eight give red, green, blue and alpha; digits
/// that do not parse count as zero; any other length is opaque black.
/// Lengths count UTF-8 bytes after the leading `#`s.
pub open spec fn hex_color(s: Seq<char>) -> Color {
    let t = trim_hashes(s);
    let n: int = match radix16(t) { Some(v) => v as int, None => 0 };
    if utf8_len(t) == 6 {
        Color { r: (n / 0x10000 % 256) as u8, g: (n / 0x100 % 256) as u8, b: (n % 256) as u8, a: 255 }
    } else if utf8_len(t) == 8 {
        Color { r: (n / 0x1000000 % 256) as u8, g: (n / 0x10000 % 256) as u8, b: (n / 0x100 % 256) as u8, a: (n % 256) as u8 }
    } else {
        Color { r: 0, g: 0, b: 0, a: 255 }
    }
}

/// Reads a colour written as `#rrggbb` or `#rrggbbaa`.
pub fn color_from_hex(s: &String) -> (c: Color)
    ensures
        c == hex_color(s@),
{
    let all = chars_of(s.as_str());
    let mut k: usize = 0;
    assert(all@.skip(0) =~= all@);
    while k < all.len() && all[k] == '#'
        invariant
            k <= all@.len(),
            trim_hashes(all@) == trim_hashes(all@.skip(k as int)),
        decreases all.len() - k,
    {
        assert(all@.skip(k as int).drop_first() =~= all@.skip(k + 1));
        k = k + 1;
    }
    let mut t: Vec<char> = Vec::new();
    let mut bytes: usize = 0;
    let mut i: usize = k;
    while i < all.len()
        invariant
            k <= i <= all@.len(),
            t@ == all@.subrange(k as int, i as int),
            bytes == (if utf8_len(t@) >= 9 { 9 } else { utf8_len(t@) }),
        decreases all.len() - i,
    {
        let c = all[i];
        let w: usize = if (c as u32) < 0x80 { 1 } else if (c as u32) < 0x800 { 2 } else if (c as u32) < 0x10000 { 3 } else { 4 };
        t.push(c);
        assert(t@.drop_last() =~= all@.subrange(k as int, i as int));
        assert(t@ =~= all@.subrange(k as int, i + 1));
        proof {
            lemma_utf8_len_nonneg(t@.drop_last());
        }
        bytes = if bytes + w >= 9 { 9 } else { bytes + w };
        i = i + 1;
    }
    proof {
        if k < all@.len() && all@[k as int] == '#' {
        } else {
            assert(trim_hashes(all@.skip(k as int)) == all@.skip(k as int));
        }
        assert(t@ =~= all@.skip(k as int));
        assert(trim_hashes(all@.skip(k as int)) == all@.skip(k as int)) by {
            if all@.skip(k as int).len() > 0 {
                assert(all@.skip(k as int)[0] == all@[k as int]);
            }
        }
    }
    let n: u32 = match parse_hex_u32(&t) { Some(v) => v, None => 0 };
    if bytes == 6 {
        let r = ((n >> 16) & 0xff) as u8;
        let g = ((n >> 8) & 0xff) as u8;
        let b = (n & 0xff) as u8;
        assert(((n >> 16) & 0xff) == n / 0x10000 % 256) by (bit_vector);
        assert(((n >> 8) & 0xff) == n / 0x100 % 256) by (bit_vector);
        assert((n & 0xff) == n % 256) by (bit_vector);
        Color { r, g, b, a: 255 }
    } else if bytes == 8 {
        let r = ((n >> 24) & 0xff) as u8;
        let g = ((n >> 16) & 0xff) as u8;
        let b = ((n >> 8) & 0xff) as u8;
        let a = (n & 0xff) as u8;
        assert(((n >> 24) & 0xff) == n / 0x1000000 % 256) by (bit_vector);
        assert(((n >> 16) & 0xff) == n / 0x10000 % 256) by (bit_vector);
        assert(((n >> 8) & 0xff) == n / 0x100 % 256) by (bit_vector);
        assert((n & 0xff) == n % 256) by (bit_vector);
        Color { r, g, b, a }
    } else {
        Color { r: 0, g: 0, b: 0, a: 255 }
    }
}

/// Channel `short` (or, when absent, `long`) of a colour object: the number
/// it holds, truncated to a byte, or `default` when it holds none.
pub open spec fn channel(es: Seq<(String, JsonValue)>, short: Seq<char>, long: Seq<char>, default: u64) -> u8 {
    let v = match entry_lookup(es, short) {
        Some(x) => Some(x),
        None => entry_lookup(es, long),
    };
    let n: u64 = match v {
        Some(JsonValue::Number(Some(k))) => k,
        _ => default,
    };
    (n % 256) as u8
}

/// The colour a configuration value denotes: a hex string, or an object
/// with `r`/`red`, `g`/`green`, `b`/`blue` and `a`/`alpha` channels
/// (missing ones 0, alpha 255); anything else is opaque black.
pub open spec fn color_token(val: Option<JsonValue>) -> Color {
    match val {
        Some(JsonValue::Str(s)) => hex_color(s@),
        Some(JsonValue::Object(es)) => Color {
            r: channel(es@, "r"@, "red"@, 0),
            g: channel(es@, "g"@, "green"@, 0),
            b: channel(es@, "b"@, "blue"@, 0),
            a: channel(es@, "a"@, "alpha"@, 255),
        },
        _ => Color { r: 0, g: 0, b: 0, a: 255 },
    }
}

fn channel_of(es: &Vec<(String, JsonValue)>, short: &str, long: &str, default: u64) -> (c: u8)
    ensures
        c == channel(es@, short@, long@, default),
{
    let v = match find_entry(es, short) {
        Some(x) => Some(x),
        None => find_entry(es, long),
    };
    let n: u64 = match v {
        Some(JsonValue::Number(Some(k))) => *k,
        _ => default,
    };
    (n % 256) as u8
}

/// Reads the colour a configuration value denotes.
pub fn parse_color(val: Option<&JsonValue>) -> (c: Color)
    ensures
        c == color_token(match val { Some(v) => Some(*v), None => None }),
{
    match val {
        Some(JsonValue::Str(s)) => color_from_hex(s),
        Some(JsonValue::Object(es)) => Color {
            r: channel_of(es, "r", "red", 0),
            g: channel_of(es, "g", "green", 0),
            b: channel_of(es, "b", "blue", 0),
            a: channel_of(es, "a", "alpha", 255),
        },
        _ => Color { r: 0, g: 0, b: 0, a: 255 },
    }
}

/// Upper-case form of a character, as `char::to_uppercase` gives it (one
/// to three characters).
pub uninterp spec fn uppercase_of(c: char) -> Seq<char>;

/// The upper-case form of `c`.
///
/// Trusted: `char::to_uppercase`, collected into a string; its result
/// depends on `c` alone (Unicode case mapping) and is named `uppercase_of`.
/// It is never empty: std documents the mapping as one or more characters.
#[verifier::external_body]
fn uppercase(c: char) -> (s: String)
    ensures
        s@ == uppercase_of(c),
        s@.len() >= 1,
{
    c.to_uppercase().collect()
}

/// Characters that separate the words of a profile name.
pub open spec fn is_word_sep(c: char) -> bool {
    c == '_' || c == '-' || c == ' '
}

/// `s` in PascalCase: the words between separators, each with its first
/// character upper-cased, joined; `at_start` tells whether `s` starts a word.
pub open spec fn pascal(s: Seq<char>, at_start: bool) -> Seq<char>
    decreases s.len(),
{
    if s.len() == 0 {
        Seq::empty()
    } else if is_word_sep(s[0]) {
        pascal(s.drop_first(), true)
    } else if at_start {
        uppercase_of(s[0]) + pascal(s.drop_first(), false)
    } else {
        seq![s[0]] + pascal(s.drop_first(), false)
    }
}

/// Turns a profile name such as `"high-contrast_dark"` into the variant
/// name `"HighContrastDark"`. The result is empty exactly when the name
/// holds nothing but separators.
pub fn to_pascal_case(s: &str) -> (r: String)
    ensures
        r@ == pascal(s@, true),
        r@.len() == 0 <==> forall|i: int| 0 <= i < s@.len() ==> is_word_sep(#[trigger] s@[i]),
{
    let cs = chars_of(s);
    let mut out = String::new();
    let mut at_start = true;
    let mut i: usize = 0;
    assert(cs@.skip(0) =~= cs@);
    while i < cs.len()
        invariant
            i <= cs@.len(),
            cs@ == s@,
            out@ + pascal(cs@.skip(i as int), at_start) == pascal(s@, true),
            out@.len() == 0 <==> forall|j: int| 0 <= j < i ==> is_word_sep(#[trigger] cs@[j]),
        decreases cs.len() - i,
    {
        let c = cs[i];
        let ghost rest = cs@.skip(i as int);
        assert(rest[0] == c);
        assert(rest.drop_first() =~= cs@.skip(i + 1));
        let ghost before = out@;
        if c == '_' || c == '-' || c == ' ' {
            at_start = true;
        } else if at_start {
            let up = uppercase(c);
            let upc = chars_of(up.as_str());
            push_chars(&mut out, upc.as_slice());
            at_start = false;
            assert(out@ + pascal(cs@.skip(i + 1), at_start) =~= before + pascal(rest, true));
        } else {
            push_char(&mut out, c);
            assert(out@ + pascal(cs@.skip(i + 1), at_start) =~= before + pascal(rest, false));
        }
        i = i + 1;
    }
    assert(out@ =~= out@ + pascal(cs@.skip(i as int), at_start));
    out
}

/// Names of the members of `es`, in order.
pub open spec fn entry_names(es: Seq<(String, JsonValue)>) -> Seq<Seq<char>> {
    es.map_values(|e: (String, JsonValue)| e.0@)
}

/// The keys of category `category` of the profile named `name`, in
/// document order; none when the profile or the category is missing or
/// the category is not an object.
pub open spec fn profile_keys(root: Seq<(String, JsonValue)>, name: Seq<char>, category: Seq<char>) -> Seq<Seq<char>> {
    match entry_lookup(root, name) {
        Some(pv) => match member(pv, category) {
            Some(JsonValue::Object(es)) => entry_names(es@),
            _ => Seq::empty(),
        },
        None => Seq::empty(),
    }
}

/// The keys of category `category` over the first `n` profiles, in order,
/// with repetitions.
pub open spec fn all_keys(root: Seq<(String, JsonValue)>, profiles: Seq<Seq<char>>, category: Seq<char>, n: int) -> Seq<Seq<char>>
    decreases n,
{
    if n <= 0 {
        Seq::empty()
    } else {
        all_keys(root, profiles, category, n - 1) + profile_keys(root, profiles[n - 1], category)
    }
}

/// Strict lexicographic order.
pub open spec fn lex_lt(a: Seq<char>, b: Seq<char>) -> bool {
    lex_le(a, b) && !lex_le(b, a)
}

/// `keys` is sorted without repetition.
pub open spec fn strictly_sorted(keys: Seq<Seq<char>>) -> bool {
    forall|i: int, j: int| 0 <= i < j < keys.len() ==> lex_lt(#[trigger] keys[i], #[trigger] keys[j])
}

/// The views of a list of strings.
pub open spec fn views(v: Seq<String>) -> Seq<Seq<char>> {
    v.map_values(|s: String| s@)
}

/// Adds `key` to the sorted list `out` unless it is there already.
fn insert_sorted(out: &mut Vec<String>, key: &String)
    requires
        strictly_sorted(views(old(out)@)),
    ensures
        strictly_sorted(views(final(out)@)),
        forall|k: Seq<char>| views(final(out)@).contains(k) <==> (views(old(out)@).contains(k) || k == key@),
{
    let kc = chars_of(key.as_str());
    let ghost o = views(out@);
    let mut p: usize = 0;
    while p < out.len()
        invariant
            p <= out@.len(),
            o == views(out@),
            kc@ == key@,
            strictly_sorted(o),
            forall|k: int| 0 <= k < p ==> lex_lt(#[trigger] o[k], key@),
        ensures
            p <= out@.len(),
            p < out@.len() ==> lex_le(key@, o[p as int]),
            forall|k: int| 0 <= k < p ==> lex_lt(#[trigger] o[k], key@),
        decreases out.len() - p,
    {
        let oc = chars_of(out[p].as_str());
        if crate::data_table::chars_le(&kc, &oc) {
            break;
        }
        proof {
            lemma_lex_total(key@, o[p as int]);
        }
        p = p + 1;
    }
    if p < out.len() {
        if str_eq(&out[p], key.as_str()) {
            assert(o[p as int] == key@);
            assert forall|k: Seq<char>| views(out@).contains(k) <==> (o.contains(k) || k == key@) by {
                if k == key@ {
                    assert(views(out@)[p as int] == k);
                }
            }
            return;
        }
    }
    proof {
        assert forall|q: int| p <= q < o.len() implies lex_lt(key@, #[trigger] o[q]) by {
            if q == p {
                if lex_le(o[p as int], key@) {
                    lemma_lex_antisym(o[p as int], key@);
                }
            } else {
                assert(lex_lt(o[p as int], o[q]));
                lemma_lex_trans(key@, o[p as int], o[q]);
                if lex_le(o[q], key@) {
                    lemma_lex_trans(o[q], key@, o[p as int]);
                }
                if lex_le(o[p as int], key@) {
                    lemma_lex_antisym(o[p as int], key@);
                }
            }
        }
    }
    out.insert(p, key.clone());
    proof {
        let n = views(out@);
        assert(n =~= o.subrange(0, p as int).push(key@).add(o.subrange(p as int, o.len() as int)));
        assert forall|i: int, j: int| 0 <= i < j < n.len() implies lex_lt(#[trigger] n[i], #[trigger] n[j]) by {
            if i < p && j < p { assert(n[i] == o[i] && n[j] == o[j]); }
            else if i < p && j == p { assert(n[i] == o[i]); }
            else if i < p && j > p { assert(n[i] == o[i] && n[j] == o[j - 1]); assert(lex_lt(o[i], o[j - 1])); }
            else if i == p { assert(n[j] == o[j - 1]); }
            else { assert(n[i] == o[i - 1] && n[j] == o[j - 1]); assert(lex_lt(o[i - 1], o[j - 1])); }
        }
        assert forall|k: Seq<char>| n.contains(k) <==> (o.contains(k) || k == key@) by {
            if n.contains(k) {
                let i = choose|i: int| 0 <= i < n.len() && n[i] == k;
                if i < p { assert(o[i] == k); } else if i > p { assert(o[i - 1] == k); }
            }
            if o.contains(k) {
                let i = choose|i: int| 0 <= i < o.len() && o[i] == k;
                if i < p { assert(n[i] == k); } else { assert(n[i + 1] == k); }
            }
            if k == key@ {
                assert(n[p as int] == k);
            }
        }
    }
}

/// The keys of category `category` over the profiles `profiles` of the
/// document whose members are `root`: each key once, sorted.
pub fn collect_sorted_keys(root: &Vec<(String, JsonValue)>, profiles: &Vec<String>, category: &str) -> (keys: Vec<String>)
    ensures
        strictly_sorted(views(keys@)),
        forall|k: Seq<char>| views(keys@).contains(k) <==> all_keys(root@, views(profiles@), category@, profiles@.len() as int).contains(k),
{
    let mut out: Vec<String> = Vec::new();
    let ghost ps = views(profiles@);
    let mut i: usize = 0;
    while i < profiles.len()
        invariant
            i <= profiles@.len(),
            ps == views(profiles@),
            strictly_sorted(views(out@)),
            forall|k: Seq<char>| views(out@).contains(k) <==> all_keys(root@, ps, category@, i as int).contains(k),
        decreases profiles.len() - i,
    {
        let ghost before = all_keys(root@, ps, category@, i as int);
        let ghost here = profile_keys(root@, ps[i as int], category@);
        assert(ps[i as int] == profiles@[i as int]@);
        match find_entry(root, profiles[i].as_str()) {
            Some(pv) => match get(pv, category) {
                Some(JsonValue::Object(es)) => {
                    assert(here == entry_names(es@));
                    let mut j: usize = 0;
                    while j < es.len()
                        invariant
                            j <= es@.len(),
                            here == entry_names(es@),
                            strictly_sorted(views(out@)),
                            forall|k: Seq<char>| views(out@).contains(k) <==> (before.contains(k) || here.take(j as int).contains(k)),
                        decreases es.len() - j,
                    {
                        let ghost prev = views(out@);
                        assert(forall|k: Seq<char>| #[trigger] prev.contains(k) <==> (before.contains(k) || here.take(j as int).contains(k)));
                        insert_sorted(&mut out, &es[j].0);
                        assert forall|k: Seq<char>| views(out@).contains(k) <==> (before.contains(k) || here.take(j + 1).contains(k)) by {
                            let t0 = here.take(j as int);
                            let t1 = here.take(j + 1);
                            assert(views(out@).contains(k) <==> (prev.contains(k) || k == es@[j as int].0@));
                            assert(prev.contains(k) <==> (before.contains(k) || t0.contains(k)));
                            assert(here[j as int] == es@[j as int].0@);
                            assert(t1 =~= t0.push(es@[j as int].0@));
                            if t1.contains(k) {
                                let x = choose|x: int| 0 <= x < t1.len() && t1[x] == k;
                                if x < j { assert(t0[x] == k); }
                            }
                            if t0.contains(k) {
                                let x = choose|x: int| 0 <= x < t0.len() && t0[x] == k;
                                assert(t1[x] == k);
                            }
                            if k == es@[j as int].0@ {
                                assert(t1[j as int] == k);
                            }
                        }
                        j = j + 1;
                    }
                    assert(here.take(j as int) =~= here);
                },
                _ => {
                    assert(here =~= Seq::<Seq<char>>::empty());
                },
            },
            None => {
                assert(here =~= Seq::<Seq<char>>::empty());
            },
        }
        assert forall|k: Seq<char>| views(out@).contains(k) <==> all_keys(root@, ps, category@, i + 1).contains(k) by {
            let all = all_keys(root@, ps, category@, i + 1);
            assert(all == before + here);
            if before.contains(k) {
                let x = choose|x: int| 0 <= x < before.len() && before[x] == k;
                assert(all[x] == k);
            }
            if here.contains(k) {
                let x = choose|x: int| 0 <= x < here.len() && here[x] == k;
                assert(all[before.len() + x] == k);
            }
            if all.contains(k) {
                let x = choose|x: int| 0 <= x < all.len() && all[x] == k;
                if x < before.len() { assert(before[x] == k); } else { assert(here[x - before.len()] == k); }
            }
        }
        i = i + 1;
    }
    out
}

/// The profile named `name`, or a value without members when there is none.
pub open spec fn profile_or_other(root: Seq<(String, JsonValue)>, name: Seq<char>) -> JsonValue {
    match entry_lookup(root, name) {
        Some(v) => v,
        None => JsonValue::Other,
    }
}

/// Entry `key` of category `category` for profile `name`, falling back to
/// the default profile `"_"`.
pub open spec fn resolved(root: Seq<(String, JsonValue)>, name: Seq<char>, category: Seq<char>, key: Seq<char>) -> Option<JsonValue> {
    match category_value(profile_or_other(root, name), category, key) {
        Some(v) => Some(v),
        None => category_value(profile_or_other(root, "_"@), category, key),
    }
}

fn resolve<'a>(profile: Option<&'a JsonValue>, default: Option<&'a JsonValue>, category: &str, key: &str) -> (r: Option<&'a JsonValue>)
    ensures
        ({
            let pv = match profile { Some(v) => *v, None => JsonValue::Other };
            let dv = match default { Some(v) => *v, None => JsonValue::Other };
            let want = match category_value(pv, category@, key@) {
                Some(v) => Some(v),
                None => category_value(dv, category@, key@),
            };
            match want {
                Some(m) => r == Some(&m),
                None => r is None,
            }
        }),
{
    let first = match profile {
        Some(v) => get_val(v, category, key),
        None => None,
    };
    match first {
        Some(x) => Some(x),
        None => match default {
            Some(d) => get_val(d, category, key),
            None => None,
        },
    }
}

/// `k` names a member of `es` other than the default profile `"_"`.
pub open spec fn is_other_profile(es: Seq<(String, JsonValue)>, k: Seq<char>) -> bool {
    entry_names(es).contains(k) && k != "_"@
}

/// The names of the members of `es` other than `"_"`, each once, sorted.
pub open spec fn sorted_others(es: Seq<(String, JsonValue)>) -> Seq<Seq<char>> {
    choose|s: Seq<Seq<char>>|
        strictly_sorted(s) && forall|k: Seq<char>| #[trigger] s.contains(k) <==> is_other_profile(es, k)
}

/// The profiles in order: the default profile `"_"` first when there is
/// one, then the others sorted by name, each once.
pub open spec fn profile_order(es: Seq<(String, JsonValue)>) -> Seq<Seq<char>> {
    if entry_lookup(es, "_"@) is Some { seq!["_"@] + sorted_others(es) } else { sorted_others(es) }
}

/// The profile names of a document with members `root`: `"_"` first when
/// it is a member, then the other member names sorted, each once.
pub fn profile_names(root: &Vec<(String, JsonValue)>) -> (names: Vec<String>)
    ensures
        views(names@) == profile_order(root@),
        forall|k: Seq<char>| #[trigger] views(names@).contains(k) <==> entry_names(root@).contains(k),
{
    let mut others: Vec<String> = Vec::new();
    let ghost en = entry_names(root@);
    let mut i: usize = 0;
    while i < root.len()
        invariant
            i <= root@.len(),
            en == entry_names(root@),
            strictly_sorted(views(others@)),
            forall|k: Seq<char>| #[trigger] views(others@).contains(k) <==> (en.take(i as int).contains(k) && k != "_"@),
        decreases root.len() - i,
    {
        let ghost prev = views(others@);
        assert(en[i as int] == root@[i as int].0@);
        assert(en.take(i + 1) =~= en.take(i as int).push(root@[i as int].0@));
        if !str_eq(&root[i].0, "_") {
            insert_sorted(&mut others, &root[i].0);
        }
        assert forall|k: Seq<char>| #[trigger] views(others@).contains(k) <==> (en.take(i + 1).contains(k) && k != "_"@) by {
            let t0 = en.take(i as int);
            let t1 = en.take(i + 1);
            if t1.contains(k) {
                let x = choose|x: int| 0 <= x < t1.len() && t1[x] == k;
                if x < i { assert(t0[x] == k); }
            }
            if t0.contains(k) {
                let x = choose|x: int| 0 <= x < t0.len() && t0[x] == k;
                assert(t1[x] == k);
            }
            if k == root@[i as int].0@ {
                assert(t1[i as int] == k);
            }
        }
        i = i + 1;
    }
    assert(en.take(i as int) =~= en);
    proof {
        let o = views(others@);
        assert(strictly_sorted(o) && forall|k: Seq<char>| #[trigger] o.contains(k) <==> is_other_profile(root@, k));
        let c = sorted_others(root@);
        lemma_sorted_keys_unique(o, c);
        lemma_lookup_some_iff(root@, "_"@);
    }
    let has_default = find_entry(root, "_").is_some();
    let ghost o = views(others@);
    assert(forall|k: Seq<char>| #[trigger] o.contains(k) <==> is_other_profile(root@, k));
    if has_default {
        others.insert(0, String::from_str("_"));
        let ghost n = views(others@);
        assert(n =~= seq!["_"@] + o);
        assert forall|k: Seq<char>| #[trigger] n.contains(k) <==> entry_names(root@).contains(k) by {
            if k == "_"@ {
                assert(n[0] == k);
            } else {
                if n.contains(k) {
                    let x = choose|x: int| 0 <= x < n.len() && n[x] == k;
                    assert(x > 0);
                    assert(o[x - 1] == k);
                    assert(o.contains(k));
                }
                if o.contains(k) {
                    let x = choose|x: int| 0 <= x < o.len() && o[x] == k;
                    assert(n[x + 1] == k);
                }
            }
        }
    } else {
        assert forall|k: Seq<char>| #[trigger] o.contains(k) <==> entry_names(root@).contains(k) by {
            if k == "_"@ {
                assert(!is_other_profile(root@, k));
            }
        }
    }
    others
}

/// The variant name of a profile: `Default` for `"_"`, the PascalCase form
/// of its name otherwise.
pub open spec fn variant_name(name: Seq<char>) -> Seq<char> {
    if name == "_"@ { "Default"@ } else { pascal(name, true) }
}

/// The name a profile is shown by: `default` for `"_"`, its own otherwise.
pub open spec fn display_name(name: Seq<char>) -> Seq<char> {
    if name == "_"@ { "default"@ } else { name }
}

/// The names of the colour slots that every widget reads, by slot.
pub open spec fn well_known_names() -> Seq<&'static str> {
    seq![
        "background", "foreground", "muted", "muted_foreground", "border", "input_border", "ring",
        "primary", "primary_foreground", "secondary", "secondary_foreground", "accent",
        "accent_foreground", "destructive", "destructive_foreground", "success",
        "success_foreground", "warning", "warning_foreground", "info", "info_foreground", "card",
        "card_foreground", "popover", "popover_foreground", "overlay",
    ]
}

/// The colour of slot `slot` for profile `name`: its configured colour,
/// else the built-in one.
pub open spec fn slot_color(root: Seq<(String, JsonValue)>, name: Seq<char>, slot: int) -> Color {
    match resolved(root, name, "colors"@, well_known_names()[slot]@) {
        Some(v) => color_token(Some(v)),
        None => default_palette()[slot],
    }
}

/// Why a theme document was refused.
#[derive(Clone, Copy, Debug, PartialEq, Eq, Structural)]
pub enum ThemeError {
    /// The document is not an object.
    RootNotObject,
    /// The document names no profile.
    NoProfiles,
    /// The text is not JSON.
    InvalidJson,
}

/// Everything the generated theme module is made of, but the measures
/// (edges, corners and values), which are fractional.
pub struct ThemePlan {
    pub profile_names: Vec<String>,
    pub variant_names: Vec<String>,
    pub display_names: Vec<String>,
    pub color_keys: Vec<String>,
    pub edge_keys: Vec<String>,
    pub corner_keys: Vec<String>,
    pub value_keys: Vec<String>,
    /// Per profile, the colour of each colour key.
    pub profile_colors: Vec<Vec<Color>>,
    /// Per profile, the colour of each well-known slot.
    pub slot_colors: Vec<Vec<Color>>,
}

/// The keys of a category over all profiles, each once and sorted.
pub open spec fn plan_keys_ok(keys: Seq<String>, root: Seq<(String, JsonValue)>, names: Seq<Seq<char>>, category: Seq<char>) -> bool {
    &&& strictly_sorted(views(keys))
    &&& forall|k: Seq<char>| views(keys).contains(k) <==> all_keys(root, names, category, names.len() as int).contains(k)
}

/// What a plan holds for the document with members `root`.
pub open spec fn plan_ok(p: ThemePlan, root: Seq<(String, JsonValue)>) -> bool {
    let names = profile_order(root);
    &&& views(p.profile_names@) == names
    &&& p.variant_names@.len() == names.len()
    &&& p.display_names@.len() == names.len()
    &&& forall|i: int| 0 <= i < names.len() ==> {
        &&& #[trigger] p.variant_names@[i]@ == variant_name(names[i])
        &&& p.display_names@[i]@ == display_name(names[i])
    }
    &&& plan_keys_ok(p.color_keys@, root, names, "colors"@)
    &&& plan_keys_ok(p.edge_keys@, root, names, "edges"@)
    &&& plan_keys_ok(p.corner_keys@, root, names, "corners"@)
    &&& plan_keys_ok(p.value_keys@, root, names, "values"@)
    &&& p.profile_colors@.len() == names.len()
    &&& p.slot_colors@.len() == names.len()
    &&& forall|i: int| 0 <= i < names.len() ==> {
        &&& (#[trigger] p.profile_colors@[i])@.len() == p.color_keys@.len()
        &&& forall|k: int| 0 <= k < p.color_keys@.len() ==>
            #[trigger] p.profile_colors@[i]@[k] == color_token(resolved(root, names[i], "colors"@, p.color_keys@[k]@))
        &&& p.slot_colors@[i]@.len() == SLOT_COUNT
        &&& forall|s: int| 0 <= s < SLOT_COUNT ==> #[trigger] p.slot_colors@[i]@[s] == slot_color(root, names[i], s)
    }
}

/// What reading the theme document `doc` gives: a plan for its members
/// when it is an object with at least one, else the reason it is refused.
pub open spec fn plan_outcome(doc: JsonValue, r: Result<ThemePlan, ThemeError>) -> bool {
    match doc {
        JsonValue::Object(es) => if es@.len() == 0 {
            r == Err::<ThemePlan, ThemeError>(ThemeError::NoProfiles)
        } else {
            r matches Ok(p) && plan_ok(p, es@)
        },
        _ => r == Err::<ThemePlan, ThemeError>(ThemeError::RootNotObject),
    }
}

/// Reads a theme document: its profiles, the keys of each category, and
/// every profile's colours, the default profile `"_"` filling in what a
/// profile leaves out. A document that is not an object, or names no
/// profile, is refused.
pub fn theme_plan(doc: &JsonValue) -> (r: Result<ThemePlan, ThemeError>)
    ensures
        plan_outcome(*doc, r),
{
    let root = match doc {
        JsonValue::Object(es) => es,
        _ => {
            return Err(ThemeError::RootNotObject);
        },
    };
    let names = profile_names(root);
    if names.len() == 0 {
        proof {
            if root@.len() > 0 {
                assert(entry_names(root@)[0] == root@[0].0@);
                assert(views(names@).contains(root@[0].0@));
            }
        }
        return Err(ThemeError::NoProfiles);
    }
    assert(views(names@).contains(views(names@)[0]));
    assert(entry_names(root@).len() == root@.len());
    let color_keys = collect_sorted_keys(root, &names, "colors");
    let edge_keys = collect_sorted_keys(root, &names, "edges");
    let corner_keys = collect_sorted_keys(root, &names, "corners");
    let value_keys = collect_sorted_keys(root, &names, "values");
    let default = find_entry(root, "_");
    let well_known: [&str; 26] = [
        "background", "foreground", "muted", "muted_foreground", "border", "input_border", "ring",
        "primary", "primary_foreground", "secondary", "secondary_foreground", "accent",
        "accent_foreground", "destructive", "destructive_foreground", "success",
        "success_foreground", "warning", "warning_foreground", "info", "info_foreground", "card",
        "card_foreground", "popover", "popover_foreground", "overlay",
    ];
    assert(well_known@ =~= well_known_names());
    let builtin = default_colors();
    let ghost order = profile_order(root@);
    let mut variant_names: Vec<String> = Vec::new();
    let mut display_names: Vec<String> = Vec::new();
    let mut profile_colors: Vec<Vec<Color>> = Vec::new();
    let mut slot_colors: Vec<Vec<Color>> = Vec::new();
    let mut i: usize = 0;
    while i < names.len()
        invariant
            i <= names@.len(),
            views(names@) == order,
            order == profile_order(root@),
            well_known@ == well_known_names(),
            builtin@ == default_palette(),
            match entry_lookup(root@, "_"@) {
                Some(m) => default == Some(&m),
                None => default is None,
            },
            variant_names@.len() == i,
            display_names@.len() == i,
            profile_colors@.len() == i,
            slot_colors@.len() == i,
            forall|j: int| 0 <= j < i ==> {
                &&& #[trigger] variant_names@[j]@ == variant_name(order[j])
                &&& display_names@[j]@ == display_name(order[j])
            },
            forall|j: int| 0 <= j < i ==> {
                &&& (#[trigger] profile_colors@[j])@.len() == color_keys@.len()
                &&& forall|k: int| 0 <= k < color_keys@.len() ==>
                    #[trigger] profile_colors@[j]@[k] == color_token(resolved(root@, order[j], "colors"@, color_keys@[k]@))
                &&& slot_colors@[j]@.len() == SLOT_COUNT
                &&& forall|s: int| 0 <= s < SLOT_COUNT ==> #[trigger] slot_colors@[j]@[s] == slot_color(root@, order[j], s)
            },
        decreases names.len() - i,
    {
        let name = &names[i];
        assert(order[i as int] == name@);
        let is_default = str_eq(name, "_");
        if is_default {
            variant_names.push(String::from_str("Default"));
            display_names.push(String::from_str("default"));
        } else {
            variant_names.push(to_pascal_case(name.as_str()));
            display_names.push(name.clone());
        }
        let profile = find_entry(root, name.as_str());
        let mut colors: Vec<Color> = Vec::new();
        let mut k: usize = 0;
        while k < color_keys.len()
            invariant
                k <= color_keys@.len(),
                name@ == order[i as int],
                match entry_lookup(root@, name@) {
                    Some(m) => profile == Some(&m),
                    None => profile is None,
                },
                match entry_lookup(root@, "_"@) {
                    Some(m) => default == Some(&m),
                    None => default is None,
                },
                colors@.len() == k,
                forall|q: int| 0 <= q < k ==>
                    #[trigger] colors@[q] == color_token(resolved(root@, order[i as int], "colors"@, color_keys@[q]@)),
            decreases color_keys.len() - k,
        {
            let v = resolve(profile, default, "colors", color_keys[k].as_str());
            colors.push(parse_color(v));
            k = k + 1;
        }
        let mut slots: Vec<Color> = Vec::new();
        let mut s: usize = 0;
        while s < SLOT_COUNT
            invariant
                s <= SLOT_COUNT,
                name@ == order[i as int],
                well_known@ == well_known_names(),
                builtin@ == default_palette(),
                match entry_lookup(root@, name@) {
                    Some(m) => profile == Some(&m),
                    None => profile is None,
                },
                match entry_lookup(root@, "_"@) {
                    Some(m) => default == Some(&m),
                    None => default is None,
                },
                slots@.len() == s,
                forall|q: int| 0 <= q < s ==> #[trigger] slots@[q] == slot_color(root@, order[i as int], q),
            decreases SLOT_COUNT - s,
        {
            let v = resolve(profile, default, "colors", well_known[s]);
            let c = match v {
                Some(_) => parse_color(v),
                None => builtin[s],
            };
            slots.push(c);
            s = s + 1;
        }
        profile_colors.push(colors);
        slot_colors.push(slots);
        i = i + 1;
    }
    let plan = ThemePlan {
        profile_names: names,
        variant_names,
        display_names,
        color_keys,
        edge_keys,
        corner_keys,
        value_keys,
        profile_colors,
        slot_colors,
    };
    assert(views(plan.profile_names@) == order);
    assert(plan_keys_ok(plan.color_keys@, root@, order, "colors"@));
    assert(plan_keys_ok(plan.edge_keys@, root@, order, "edges"@));
    assert(plan.profile_colors@.len() == order.len());
    assert(plan_ok(plan, root@));
    Ok(plan)
}

/// Profiles inherit from the default profile: a colour key a profile sets
/// has the colour it gives; one it leaves out has the default profile's.
pub proof fn lemma_profiles_inherit(p: ThemePlan, root: Seq<(String, JsonValue)>, i: int, k: int)
    requires
        plan_ok(p, root),
        0 <= i < p.profile_names@.len(),
        0 <= k < p.color_keys@.len(),
    ensures
        ({
            let name = profile_order(root)[i];
            let key = p.color_keys@[k]@;
            &&& category_value(profile_or_other(root, name), "colors"@, key) is Some ==> p.profile_colors@[i]@[k]
                == color_token(category_value(profile_or_other(root, name), "colors"@, key))
            &&& category_value(profile_or_other(root, name), "colors"@, key) is None ==> p.profile_colors@[i]@[k]
                == color_token(category_value(profile_or_other(root, "_"@), "colors"@, key))
        }),
{
    assert(views(p.profile_names@).len() == profile_order(root).len());
    assert(p.profile_colors@[i]@[k] == color_token(resolved(root, profile_order(root)[i], "colors"@, p.color_keys@[k]@)));
}

/// The default profile, when the document has one, comes first and is
/// the variant `Default`, shown as `default`.
pub proof fn lemma_default_first(p: ThemePlan, root: Seq<(String, JsonValue)>)
    requires
        plan_ok(p, root),
        entry_lookup(root, "_"@) is Some,
    ensures
        p.profile_names@.len() > 0,
        p.profile_names@[0]@ == "_"@,
        p.variant_names@[0]@ == "Default"@,
        p.display_names@[0]@ == "default"@,
{
    let names = profile_order(root);
    assert(names[0] == "_"@);
    assert(views(p.profile_names@)[0] == p.profile_names@[0]@);
    assert(p.variant_names@[0]@ == variant_name(names[0]));
}

/// A category's keys are determined by which keys occur: two sorted lists
/// without repetition that hold the same keys are the same list.
pub proof fn lemma_sorted_keys_unique(a: Seq<Seq<char>>, b: Seq<Seq<char>>)
    requires
        strictly_sorted(a),
        strictly_sorted(b),
        forall|k: Seq<char>| a.contains(k) <==> b.contains(k),
    ensures
        a == b,
    decreases a.len() + b.len(),
{
    if a.len() == 0 && b.len() > 0 {
        assert(b.contains(b[0]));
    } else if b.len() == 0 && a.len() > 0 {
        assert(a.contains(a[0]));
    } else if a.len() > 0 && b.len() > 0 {
        let x = a[0];
        let y = b[0];
        if x != y {
            assert(a.contains(x));
            let j = choose|j: int| 0 <= j < b.len() && b[j] == x;
            assert(b.contains(y));
            let i = choose|i: int| 0 <= i < a.len() && a[i] == y;
            assert(lex_lt(b[0], b[j]));
            assert(lex_lt(a[0], a[i]));
        }
        let a2 = a.drop_first();
        let b2 = b.drop_first();
        assert forall|k: Seq<char>| a2.contains(k) <==> b2.contains(k) by {
            if a2.contains(k) {
                let p = choose|p: int| 0 <= p < a2.len() && a2[p] == k;
                assert(a[p + 1] == k);
                assert(lex_lt(a[0], a[p + 1]));
                assert(b.contains(k));
                let m = choose|m: int| 0 <= m < b.len() && b[m] == k;
                assert(m != 0);
                assert(b2[m - 1] == k);
            }
            if b2.contains(k) {
                let p = choose|p: int| 0 <= p < b2.len() && b2[p] == k;
                assert(b[p + 1] == k);
                assert(lex_lt(b[0], b[p + 1]));
                assert(a.contains(k));
                let m = choose|m: int| 0 <= m < a.len() && a[m] == k;
                assert(m != 0);
                assert(a2[m - 1] == k);
            }
        }
        assert forall|p: int, q: int| 0 <= p < q < a2.len() implies lex_lt(#[trigger] a2[p], #[trigger] a2[q]) by {
            assert(lex_lt(a[p + 1], a[q + 1]));
        }
        assert forall|p: int, q: int| 0 <= p < q < b2.len() implies lex_lt(#[trigger] b2[p], #[trigger] b2[q]) by {
            assert(lex_lt(b[p + 1], b[q + 1]));
        }
        lemma_sorted_keys_unique(a2, b2);
        assert(a =~= seq![x].add(a2));
        assert(b =~= seq![y].add(b2));
    }
}

/// What the JSON text `text` denotes, read as the library reads JSON
/// values (objects with their members in the parser's map order); `None`
/// when the text is not JSON.
pub uninterp spec fn theme_json_of(text: Seq<char>) -> Option<JsonValue>;

/// Parses a JSON text.
///
/// Trusted: `serde_json::from_str` into a `serde_json::Value`, turned into a
/// `JsonValue` by `json_value_of`. Claims that the outcome is
/// `theme_json_of(text)`, a function of the text alone.
#[verifier::external_body]
fn parse_theme_json(text: &str) -> (v: Option<JsonValue>)
    ensures
        v == theme_json_of(text@),
{
    serde_json::from_str::<serde_json::Value>(text).ok().map(|v| json_value_of(&v))
}

/// The conversion half of `parse_theme_json`: a string, a number (the
/// unsigned integer it denotes, if any) and an object (member by member,
/// in the map's order) keep their content; anything else is `Other`.
/// Nothing is claimed of it apart from `parse_theme_json`.
#[verifier::external_body]
fn json_value_of(v: &serde_json::Value) -> JsonValue {
    match v {
        serde_json::Value::String(s) => JsonValue::Str(s.clone()),
        serde_json::Value::Number(n) => JsonValue::Number(n.as_u64()),
        serde_json::Value::Object(m) => JsonValue::Object(m.iter().map(|(k, x)| (k.clone(), json_value_of(x))).collect()),
        _ => JsonValue::Other,
    }
}

/// Reads a theme file's text: `InvalidJson` when it is not JSON, else what
/// `theme_plan` gives for the document it denotes.
pub fn theme_plan_from_text(text: &str) -> (r: Result<ThemePlan, ThemeError>)
    ensures
        match theme_json_of(text@) {
            None => r == Err::<ThemePlan, ThemeError>(ThemeError::InvalidJson),
            Some(doc) => plan_outcome(doc, r),
        },
{
    match parse_theme_json(text) {
        None => Err(ThemeError::InvalidJson),
        Some(doc) => theme_plan(&doc),
    }
}

/// `key` is the name of a member of `es` exactly when looking it up
/// finds one.
proof fn lemma_lookup_some_iff(es: Seq<(String, JsonValue)>, key: Seq<char>)
    ensures
        entry_lookup(es, key) is Some <==> entry_names(es).contains(key),
    decreases es.len(),
{
    if es.len() > 0 {
        let rest = es.drop_first();
        lemma_lookup_some_iff(rest, key);
        assert(entry_names(es) =~= seq![es[0].0@] + entry_names(rest));
        if entry_names(rest).contains(key) {
            let x = choose|x: int| 0 <= x < entry_names(rest).len() && entry_names(rest)[x] == key;
            assert(entry_names(es)[x + 1] == key);
        }
        if entry_names(es).contains(key) && es[0].0@ != key {
            let x = choose|x: int| 0 <= x < entry_names(es).len() && entry_names(es)[x] == key;
            assert(entry_names(rest)[x - 1] == key);
        }
        if es[0].0@ == key {
            assert(entry_names(es)[0] == key);
        }
    }
}

} // verus!
