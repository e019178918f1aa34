//! Regex-based syntax highlighting with JSON language definitions.
use vstd::prelude::*;
use std::collections::BTreeMap;
use std::ops::Range;
use vstd::string::StringSliceAdditionalSpecFns;
use crate::text::push_char;

verus! {

/// Token types produced by the highlighter.
#[derive(Clone, Copy, Debug, PartialEq, Eq, Hash, Structural)]
pub enum TokenType {
    Keyword,
    String,
    Comment,
    Number,
    Function,
    Type,
    Operator,
    Punctuation,
    Attribute,
    Tag,
    Constant,
    Plain,
}

#[verifier::external_type_specification]
#[verifier::external_body]
pub struct ExRegex(regex::Regex);

/// Whether `regex::Regex::new` accepts `pattern`.
pub uninterp spec fn regex_accepts(pattern: Seq<char>) -> bool;

/// Byte ranges that `find_iter` of the regex built from `pattern` yields
/// on `haystack`, in order.
pub uninterp spec fn regex_find_all(pattern: Seq<char>, haystack: Seq<char>) -> Seq<(usize, usize)>;

/// Byte range of capture group 1 of the first match of the regex built
/// from `pattern` in the part `start..end` (byte offsets) of `haystack`,
/// relative to that part; `None` without a match or when group 1 does not
/// take part.
pub uninterp spec fn regex_group1(pattern: Seq<char>, haystack: Seq<char>, start: usize, end: usize) -> Option<(usize, usize)>;

/// A compiled regular expression together with the source it was built from.
pub struct Pattern {
    source: String,
    regex: regex::Regex,
}

impl Pattern {
    pub closed spec fn source(&self) -> Seq<char> {
        self.source@
    }
}

/// Compiles `source`.
///
/// Trusted: `regex::Regex::new`. Claims that it succeeds exactly when
/// `regex_accepts(source)`; the compiled regex is kept with its source.
#[verifier::external_body]
fn compile(source: String) -> (p: Option<Pattern>)
    ensures
        p is Some <==> regex_accepts(source@),
        p matches Some(p) ==> p.source() == source@,
{
    match regex::Regex::new(&source) {
        Ok(regex) => Some(Pattern { source, regex }),
        Err(_) => None,
    }
}

/// All successive matches of `pattern` in `haystack` as byte ranges.
///
/// Trusted: `regex::Regex::find_iter` with `Match::start` and `Match::end`.
/// Claims the result is `regex_find_all` of the pattern's source and the
/// haystack, and, as the regex crate documents for `Match`, that
/// `start <= end <= haystack.len()` and both offsets fall on UTF-8
/// character boundaries.
#[verifier::external_body]
fn find_all(pattern: &Pattern, haystack: &str) -> (ms: Vec<(usize, usize)>)
    ensures
        ms@ == regex_find_all(pattern.source(), haystack@),
        forall|i: int|
            0 <= i < ms@.len() ==> {
                &&& #[trigger] ms@[i].0 <= ms@[i].1
                &&& ms@[i].1 <= haystack.spec_bytes().len()
                &&& ms@[i].1 <= haystack.len()
                &&& vstd::utf8::is_char_boundary(haystack.spec_bytes(), ms@[i].0 as int)
                &&& vstd::utf8::is_char_boundary(haystack.spec_bytes(), ms@[i].1 as int)
            },
{
    pattern.regex.find_iter(haystack).map(|m| (m.start(), m.end())).collect()
}

/// Capture group 1 of the first match in `haystack[start..end]`.
///
/// Trusted: `regex::Regex::captures` on that slice and `Captures::get(1)`.
/// Claims the result is `regex_group1` of the pattern's source, the
/// haystack and the bounds, and, as the regex crate documents, that a
/// group lies within the slice it was found in.
#[verifier::external_body]
fn group1_in(pattern: &Pattern, haystack: &str, start: usize, end: usize) -> (g: Option<(usize, usize)>)
    requires
        start <= end <= haystack.spec_bytes().len(),
        vstd::utf8::is_char_boundary(haystack.spec_bytes(), start as int),
        vstd::utf8::is_char_boundary(haystack.spec_bytes(), end as int),
    ensures
        g == regex_group1(pattern.source(), haystack@, start, end),
        g matches Some((a, b)) ==> a <= b <= end - start,
{
    pattern.regex.captures(&haystack[start..end]).and_then(|c| c.get(1)).map(|m| (m.start(), m.end()))
}

/// Priority order of the rule names: earlier rules claim text first, so
/// comments and strings mask everything inside them.
pub open spec fn token_priority() -> Seq<(Seq<char>, TokenType)> {
    seq![
        ("comment"@, TokenType::Comment),
        ("string"@, TokenType::String),
        ("attribute"@, TokenType::Attribute),
        ("keyword"@, TokenType::Keyword),
        ("constant"@, TokenType::Constant),
        ("type"@, TokenType::Type),
        ("function"@, TokenType::Function),
        ("number"@, TokenType::Number),
        ("tag"@, TokenType::Tag),
        ("operator"@, TokenType::Operator),
        ("punctuation"@, TokenType::Punctuation),
    ]
}

fn priority_entry(i: usize) -> (e: (&'static str, TokenType))
    requires
        i < 11,
    ensures
        e.0@ == token_priority()[i as int].0,
        e.1 == token_priority()[i as int].1,
{
    if i == 0 { ("comment", TokenType::Comment) }
    else if i == 1 { ("string", TokenType::String) }
    else if i == 2 { ("attribute", TokenType::Attribute) }
    else if i == 3 { ("keyword", TokenType::Keyword) }
    else if i == 4 { ("constant", TokenType::Constant) }
    else if i == 5 { ("type", TokenType::Type) }
    else if i == 6 { ("function", TokenType::Function) }
    else if i == 7 { ("number", TokenType::Number) }
    else if i == 8 { ("tag", TokenType::Tag) }
    else if i == 9 { ("operator", TokenType::Operator) }
    else { ("punctuation", TokenType::Punctuation) }
}

/// A language definition: rule name to pattern.
pub type LanguageDef = Vec<(String, String)>;

/// Pattern of the first entry named `name`.
pub open spec fn def_lookup(def: Seq<(Seq<char>, Seq<char>)>, name: Seq<char>) -> Option<Seq<char>>
    decreases def.len(),
{
    if def.len() == 0 {
        None
    } else if def[0].0 == name {
        Some(def[0].1)
    } else {
        def_lookup(def.drop_first(), name)
    }
}

pub open spec fn def_view(def: Seq<(String, String)>) -> Seq<(Seq<char>, Seq<char>)> {
    def.map_values(|e: (String, String)| (e.0@, e.1@))
}

/// The multi-line flag that every pattern is compiled with.
pub open spec fn multiline(pattern: Seq<char>) -> Seq<char> {
    seq!['(', '?', 'm', ')'] + pattern
}

/// Rules of a language built from a definition, in priority order: each
/// named pattern that compiles (with the multi-line flag), tagged with its
/// token type.
pub open spec fn rules_from(def: Seq<(Seq<char>, Seq<char>)>, upto: int) -> Seq<(TokenType, Seq<char>)>
    decreases upto,
{
    if upto <= 0 {
        Seq::empty()
    } else {
        let prev = rules_from(def, upto - 1);
        let (name, tt) = token_priority()[upto - 1];
        match def_lookup(def, name) {
            Some(p) => if regex_accepts(multiline(p)) { prev.push((tt, multiline(p))) } else { prev },
            None => prev,
        }
    }
}

/// Where a token type stands in the order in which rules claim text:
/// comments, strings, attributes, keywords, constants, types, functions,
/// numbers, tags, operators, punctuation.
pub open spec fn claim_rank(tt: TokenType) -> int {
    match tt {
        TokenType::Comment => 0,
        TokenType::String => 1,
        TokenType::Attribute => 2,
        TokenType::Keyword => 3,
        TokenType::Constant => 4,
        TokenType::Type => 5,
        TokenType::Function => 6,
        TokenType::Number => 7,
        TokenType::Tag => 8,
        TokenType::Operator => 9,
        TokenType::Punctuation => 10,
        TokenType::Plain => 11,
    }
}

/// Law: a language's rules come in claiming order, each token type at most
/// once, so a comment rule is applied before every other rule and a string
/// rule before every rule but the comment rule; and a rule of each type is
/// there exactly when the definition has a compiling pattern of that name.
pub proof fn lemma_rules_in_claim_order(def: Seq<(Seq<char>, Seq<char>)>)
    ensures
        ({
            let rules = rules_from(def, 11);
            &&& forall|i: int, j: int| 0 <= i < j < rules.len() ==>
                claim_rank(#[trigger] rules[i].0) < claim_rank(#[trigger] rules[j].0)
            &&& forall|i: int| 0 <= i < rules.len() ==> claim_rank(#[trigger] rules[i].0) < 11
            &&& (def_lookup(def, "comment"@) is Some && regex_accepts(multiline(def_lookup(def, "comment"@)->0))
                ==> rules.len() > 0 && rules[0] == (TokenType::Comment, multiline(def_lookup(def, "comment"@)->0)))
        }),
{
    lemma_rules_rank(def, 11);
    let rules = rules_from(def, 11);
    lemma_rules_first(def, 11);
}

proof fn lemma_rules_rank(def: Seq<(Seq<char>, Seq<char>)>, upto: int)
    requires
        0 <= upto <= 11,
    ensures
        forall|i: int, j: int| 0 <= i < j < rules_from(def, upto).len() ==>
            claim_rank(#[trigger] rules_from(def, upto)[i].0) < claim_rank(#[trigger] rules_from(def, upto)[j].0),
        forall|i: int| 0 <= i < rules_from(def, upto).len() ==> claim_rank(#[trigger] rules_from(def, upto)[i].0) < upto,
    decreases upto,
{
    if upto > 0 {
        lemma_rules_rank(def, upto - 1);
        let prev = rules_from(def, upto - 1);
        let cur = rules_from(def, upto);
        let (name, tt) = token_priority()[upto - 1];
        assert(claim_rank(tt) == upto - 1);
        if cur.len() > prev.len() {
            assert(cur == prev.push((tt, cur[cur.len() - 1].1)));
            assert forall|i: int| 0 <= i < prev.len() implies #[trigger] cur[i] == prev[i] by {}
        } else {
            assert(cur == prev);
        }
    }
}

proof fn lemma_rules_first(def: Seq<(Seq<char>, Seq<char>)>, upto: int)
    requires
        1 <= upto <= 11,
    ensures
        def_lookup(def, "comment"@) is Some && regex_accepts(multiline(def_lookup(def, "comment"@)->0))
            ==> rules_from(def, upto).len() > 0 && rules_from(def, upto)[0] == (TokenType::Comment, multiline(def_lookup(def, "comment"@)->0)),
    decreases upto,
{
    if upto > 1 {
        lemma_rules_first(def, upto - 1);
        let prev = rules_from(def, upto - 1);
        let cur = rules_from(def, upto);
        if cur.len() > prev.len() {
            let (name, tt) = token_priority()[upto - 1];
            assert(cur == prev.push((tt, cur[cur.len() - 1].1)));
        }
    } else {
        assert(token_priority()[0] == ("comment"@, TokenType::Comment));
        assert(rules_from(def, 0).len() == 0);
    }
}

pub(crate) fn str_eq(a: &String, b: &str) -> (r: bool)
    ensures
        r == (a@ == b@),
{
    let b2 = String::from_str(b);
    *a == b2
}

fn lookup<'a>(def: &'a LanguageDef, name: &str) -> (p: Option<&'a String>)
    ensures
        match def_lookup(def_view(def@), name@) {
            Some(q) => p matches Some(s) && s@ == q,
            None => p is None,
        },
{
    let mut i: usize = 0;
    assert(def_view(def@).skip(0) =~= def_view(def@));
    while i < def.len()
        invariant
            i <= def@.len(),
            def_lookup(def_view(def@), name@) == def_lookup(def_view(def@).skip(i as int), name@),
        decreases def.len() - i,
    {
        assert(def_view(def@).skip(i as int).drop_first() =~= def_view(def@).skip(i + 1));
        if str_eq(&def[i].0, name) {
            return Some(&def[i].1);
        }
        i = i + 1;
    }
    assert(def_view(def@).skip(i as int) =~= Seq::<(Seq<char>, Seq<char>)>::empty());
    None
}

/// A compiled language definition with ordered regex patterns.
pub struct Language {
    rules: Vec<(TokenType, Pattern)>,
}

impl Language {
    /// The rules' token types and pattern sources, in priority order.
    pub closed spec fn rule_view(&self) -> Seq<(TokenType, Seq<char>)> {
        self.rules@.map_values(|r: (TokenType, Pattern)| (r.0, r.1.source()))
    }

    /// Builds a language from a definition.
    pub fn from_def(def: &LanguageDef) -> (lang: Language)
        ensures
            lang.rule_view() == rules_from(def_view(def@), 11),
    {
        let mut rules: Vec<(TokenType, Pattern)> = Vec::new();
        let mut i: usize = 0;
        while i < 11
            invariant
                i <= 11,
                rules@.map_values(|r: (TokenType, Pattern)| (r.0, r.1.source())) == rules_from(def_view(def@), i as int),
            decreases 11 - i,
        {
            let (name, token_type) = priority_entry(i);
            let ghost prev = rules@;
            if let Some(pattern) = lookup(def, name) {
                let mut source = String::new();
                push_char(&mut source, '(');
                push_char(&mut source, '?');
                push_char(&mut source, 'm');
                push_char(&mut source, ')');
                source.append(pattern.as_str());
                assert(source@ =~= multiline(pattern@));
                if let Some(re) = compile(source) {
                    rules.push((token_type, re));
                }
            }
            assert(rules@.map_values(|r: (TokenType, Pattern)| (r.0, r.1.source())) =~= rules_from(def_view(def@), i + 1));
            i = i + 1;
        }
        Language { rules }
    }
}


// ─── Token selection ────────────────────────────────────────────────────────

/// A highlighted token: start and end byte offsets and its type.
pub type Tok = (usize, usize, TokenType);

/// Selection state: the tokens taken so far and which bytes they cover.
pub type Sel = (Seq<Tok>, Seq<bool>);

/// Whether any byte in `s..e` is already covered.
pub open spec fn any_occupied(occ: Seq<bool>, s: int, e: int) -> bool {
    exists|k: int| s <= k < e && #[trigger] occ[k]
}

/// `occ` with the bytes `s..e` covered.
pub open spec fn mark(occ: Seq<bool>, s: int, e: int) -> Seq<bool> {
    Seq::new(occ.len(), |k: int| occ[k] || (s <= k < e))
}

/// Offers the match `m` of a rule of type `tt` with pattern `source`: it is
/// skipped if it touches a covered byte; a function rule contributes its
/// capture group 1 when it has one; otherwise the whole match is taken.
pub open spec fn step(st: Sel, tt: TokenType, source: Seq<char>, code: Seq<char>, m: (usize, usize)) -> Sel {
    if any_occupied(st.1, m.0 as int, m.1 as int) {
        st
    } else if tt == TokenType::Function && regex_group1(source, code, m.0, m.1) is Some {
        let g = regex_group1(source, code, m.0, m.1)->0;
        let s = (m.0 + g.0) as usize;
        let e = (m.0 + g.1) as usize;
        (st.0.push((s, e, tt)), mark(st.1, s as int, e as int))
    } else {
        (st.0.push((m.0, m.1, tt)), mark(st.1, m.0 as int, m.1 as int))
    }
}

/// Offers the first `k` matches of one rule, in order.
pub open spec fn scan_matches(st: Sel, tt: TokenType, source: Seq<char>, code: Seq<char>, k: int) -> Sel
    decreases k,
{
    if k <= 0 {
        st
    } else {
        step(
            scan_matches(st, tt, source, code, k - 1),
            tt,
            source,
            code,
            regex_find_all(source, code)[k - 1],
        )
    }
}

/// Offers all matches of the first `r` rules, rule by rule.
pub open spec fn scan_rules(rules: Seq<(TokenType, Seq<char>)>, code: Seq<char>, len: nat, r: int) -> Sel
    decreases r,
{
    if r <= 0 {
        (Seq::empty(), Seq::new(len, |k: int| false))
    } else {
        let (tt, source) = rules[r - 1];
        scan_matches(
            scan_rules(rules, code, len, r - 1),
            tt,
            source,
            code,
            regex_find_all(source, code).len() as int,
        )
    }
}

/// Position at which `key` is inserted into `s`: after every token that
/// starts at or before it.
pub open spec fn insert_pos(s: Seq<Tok>, key: usize) -> int {
    choose|k: int| is_insert_pos(s, key, k)
}

pub open spec fn is_insert_pos(s: Seq<Tok>, key: usize, k: int) -> bool {
    &&& 0 <= k <= s.len()
    &&& forall|j: int| 0 <= j < k ==> #[trigger] s[j].0 <= key
    &&& (k == s.len() || s[k].0 > key)
}

/// Stable sort by start offset, by insertion.
pub open spec fn sort_by_start(s: Seq<Tok>) -> Seq<Tok>
    decreases s.len(),
{
    if s.len() == 0 {
        s
    } else {
        let t = sort_by_start(s.drop_last());
        t.insert(insert_pos(t, s.last().0), s.last())
    }
}

pub open spec fn covers(t: Tok, k: int) -> bool {
    t.0 <= k < t.1
}

pub open spec fn nonempty(t: Tok) -> bool {
    t.0 < t.1
}

/// Non-empty tokens at distinct positions cover disjoint bytes.
pub open spec fn disjoint_tokens(s: Seq<Tok>) -> bool {
    forall|i: int, j: int|
        0 <= i < s.len() && 0 <= j < s.len() && i != j && nonempty(#[trigger] s[i]) && nonempty(
            #[trigger] s[j],
        ) ==> s[i].1 <= s[j].0 || s[j].1 <= s[i].0
}

pub open spec fn tokens_within(s: Seq<Tok>, len: nat) -> bool {
    forall|i: int| 0 <= i < s.len() ==> #[trigger] s[i].0 <= s[i].1 && s[i].1 <= len
}

pub open spec fn sorted_by_start(s: Seq<Tok>) -> bool {
    forall|i: int, j: int| 0 <= i < j < s.len() ==> #[trigger] s[i].0 <= #[trigger] s[j].0
}

/// The selection invariant: tokens lie within the text, are pairwise
/// disjoint, and the covered bytes are exactly those of non-empty tokens.
pub open spec fn sel_inv(st: Sel, len: nat) -> bool {
    &&& st.1.len() == len
    &&& tokens_within(st.0, len)
    &&& disjoint_tokens(st.0)
    &&& forall|k: int| 0 <= k < len ==> (#[trigger] st.1[k] <==> exists|i: int|
        0 <= i < st.0.len() && covers(#[trigger] st.0[i], k))
}

proof fn lemma_step_inv(st: Sel, tt: TokenType, source: Seq<char>, code: Seq<char>, m: (usize, usize), len: nat)
    requires
        sel_inv(st, len),
        m.0 <= m.1 <= len,
        tt == TokenType::Function && !any_occupied(st.1, m.0 as int, m.1 as int) ==> (regex_group1(
            source,
            code,
            m.0,
            m.1,
        ) matches Some(g) ==> g.0 <= g.1 <= m.1 - m.0),
    ensures
        sel_inv(step(st, tt, source, code, m), len),
{
    if any_occupied(st.1, m.0 as int, m.1 as int) {
    } else {
        if tt == TokenType::Function && regex_group1(source, code, m.0, m.1) is Some {
            let g = regex_group1(source, code, m.0, m.1)->0;
            assert(g.0 <= g.1 <= m.1 - m.0);
        }
        let (s, e): (usize, usize) = if tt == TokenType::Function && regex_group1(source, code, m.0, m.1) is Some {
            let g = regex_group1(source, code, m.0, m.1)->0;
            ((m.0 + g.0) as usize, (m.0 + g.1) as usize)
        } else {
            (m.0, m.1)
        };
        assert(m.0 <= s <= e <= m.1);
        let nt = st.0.push((s, e, tt));
        let nocc = mark(st.1, s as int, e as int);
        assert(step(st, tt, source, code, m) == (nt, nocc));
        assert forall|i: int| 0 <= i < st.0.len() && nonempty(st.0[i]) && s < e
            implies st.0[i].1 <= s || e <= st.0[i].0 by {
            if !(st.0[i].1 <= s || e <= st.0[i].0) {
                let k = if st.0[i].0 < s { s as int } else { st.0[i].0 as int };
                assert(covers(st.0[i], k));
                assert(st.1[k]);
                assert(m.0 <= k < m.1);
            }
        }
        assert forall|k: int| 0 <= k < len implies (#[trigger] nocc[k] <==> exists|i: int|
            0 <= i < nt.len() && covers(#[trigger] nt[i], k)) by {
            if nocc[k] {
                if s <= k < e {
                    assert(covers(nt[st.0.len() as int], k));
                } else {
                    assert(st.1[k]);
                    let i = choose|i: int| 0 <= i < st.0.len() && covers(#[trigger] st.0[i], k);
                    assert(nt[i] == st.0[i]);
                    assert(covers(nt[i], k));
                }
            }
            if exists|i: int| 0 <= i < nt.len() && covers(#[trigger] nt[i], k) {
                let i = choose|i: int| 0 <= i < nt.len() && covers(#[trigger] nt[i], k);
                if i < st.0.len() {
                    assert(nt[i] == st.0[i]);
                    assert(covers(st.0[i], k));
                }
            }
        }
        assert(disjoint_tokens(nt));
        assert(sel_inv((nt, nocc), len));
    }
}

proof fn lemma_insert_pos_unique(s: Seq<Tok>, key: usize, k: int)
    requires
        is_insert_pos(s, key, k),
    ensures
        insert_pos(s, key) == k,
{
    let c = insert_pos(s, key);
    assert(is_insert_pos(s, key, c));
    if c < k {
        assert(s[c].0 <= key);
    } else if k < c {
        assert(s[k].0 <= key);
    }
}

proof fn lemma_insert_pos_exists(s: Seq<Tok>, key: usize) -> (k: int)
    ensures
        is_insert_pos(s, key, k),
    decreases s.len(),
{
    if s.len() == 0 {
        0
    } else if s[0].0 > key {
        0
    } else {
        let k = lemma_insert_pos_exists(s.drop_first(), key);
        assert forall|j: int| 0 <= j < k + 1 implies #[trigger] s[j].0 <= key by {
            if j > 0 {
                assert(s[j] == s.drop_first()[j - 1]);
            }
        }
        k + 1
    }
}

/// Sorting keeps the tokens (each output token is an input token), orders
/// them by start, and keeps them disjoint and within the text.
proof fn lemma_sort_by_start(s: Seq<Tok>, len: nat)
    requires
        disjoint_tokens(s),
        tokens_within(s, len),
    ensures
        sort_by_start(s).len() == s.len(),
        sorted_by_start(sort_by_start(s)),
        disjoint_tokens(sort_by_start(s)),
        tokens_within(sort_by_start(s), len),
        forall|i: int| 0 <= i < s.len() ==> s.contains(#[trigger] sort_by_start(s)[i]),
    decreases s.len(),
{
    if s.len() > 0 {
        let p = s.drop_last();
        let x = s.last();
        assert(disjoint_tokens(p));
        lemma_sort_by_start(p, len);
        let t = sort_by_start(p);
        let k0 = lemma_insert_pos_exists(t, x.0);
        lemma_insert_pos_unique(t, x.0, k0);
        let k = insert_pos(t, x.0);
        let r = t.insert(k, x);
        assert(sort_by_start(s) == r);
        assert forall|i: int| 0 <= i < r.len() implies s.contains(#[trigger] r[i]) by {
            if i < k {
                assert(r[i] == t[i]);
                assert(p.contains(t[i]));
                let j = choose|j: int| 0 <= j < p.len() && p[j] == t[i];
                assert(s[j] == p[j]);
            } else if i == k {
                assert(s[s.len() - 1] == x);
            } else {
                assert(r[i] == t[i - 1]);
                assert(p.contains(t[i - 1]));
                let j = choose|j: int| 0 <= j < p.len() && p[j] == t[i - 1];
                assert(s[j] == p[j]);
            }
        }
        assert forall|i: int, j: int| 0 <= i < j < r.len() implies #[trigger] r[i].0 <= #[trigger] r[j].0 by {
            if j < k {
                assert(r[i] == t[i] && r[j] == t[j]);
            } else if j == k {
                assert(r[i] == t[i]);
            } else if i == k {
                assert(r[j] == t[j - 1]);
                if j - 1 > k {
                    assert(t[k].0 <= t[j - 1].0);
                }
            } else if i < k {
                assert(r[i] == t[i] && r[j] == t[j - 1]);
            } else {
                assert(r[i] == t[i - 1] && r[j] == t[j - 1]);
            }
        }
        // Every token of t is disjoint from x, since it is an earlier token of s.
        assert forall|i: int| 0 <= i < t.len() && nonempty(t[i]) && nonempty(x)
            implies t[i].1 <= x.0 || x.1 <= t[i].0 by {
            assert(p.contains(t[i]));
            let j = choose|j: int| 0 <= j < p.len() && p[j] == t[i];
            assert(s[j] == t[i]);
            assert(s[s.len() - 1] == x);
        }
        assert forall|i: int, j: int|
            0 <= i < r.len() && 0 <= j < r.len() && i != j && nonempty(#[trigger] r[i]) && nonempty(
                #[trigger] r[j],
            ) implies r[i].1 <= r[j].0 || r[j].1 <= r[i].0 by {
            let ti = if i < k { i } else { i - 1 };
            let tj = if j < k { j } else { j - 1 };
            if i != k && j != k {
                assert(r[i] == t[ti] && r[j] == t[tj]);
            } else if i == k {
                assert(r[j] == t[tj]);
            } else {
                assert(r[i] == t[ti]);
            }
        }
        assert forall|i: int| 0 <= i < r.len() implies #[trigger] r[i].0 <= r[i].1 && r[i].1 <= len by {
            if i < k {
                assert(r[i] == t[i]);
            } else if i > k {
                assert(r[i] == t[i - 1]);
            } else {
                assert(s[s.len() - 1] == x);
            }
        }
    }
}

/// Law: sorted, disjoint tokens never overlap when read in order.
pub proof fn lemma_sorted_disjoint_in_order(s: Seq<Tok>)
    requires
        sorted_by_start(s),
        disjoint_tokens(s),
    ensures
        forall|i: int, j: int|
            0 <= i < j < s.len() && nonempty(#[trigger] s[i]) && nonempty(#[trigger] s[j]) ==> s[i].1 <= s[j].0,
{
    assert forall|i: int, j: int|
        0 <= i < j < s.len() && nonempty(#[trigger] s[i]) && nonempty(#[trigger] s[j]) implies s[i].1 <= s[j].0 by {
        assert(s[i].0 <= s[j].0);
    }
}


// ─── Language sets ──────────────────────────────────────────────────────────

/// What parsing `json` as an object of language objects (rule name to
/// pattern string) yields, each map listed in key order; `None` when the
/// text is not such an object.
pub uninterp spec fn json_language_defs(json: Seq<char>) -> Option<Seq<(Seq<char>, Seq<(Seq<char>, Seq<char>)>)>>;

pub open spec fn defs_view(v: Seq<(String, LanguageDef)>) -> Seq<(Seq<char>, Seq<(Seq<char>, Seq<char>)>)> {
    v.map_values(|e: (String, LanguageDef)| (e.0@, def_view(e.1@)))
}

/// Parses language definitions from JSON.
///
/// Trusted: `serde_json::from_str` into a map of maps of strings. Claims
/// that the outcome is `json_language_defs(json)`; the maps are read out in
/// key order, so no language name comes twice (a map's keys are distinct).
#[verifier::external_body]
fn parse_language_defs(json: &str) -> (r: Option<Vec<(String, LanguageDef)>>)
    ensures
        match r {
            Some(v) => json_language_defs(json@) == Some(defs_view(v@)),
            None => json_language_defs(json@) is None,
        },
        r matches Some(v) ==> forall|i: int, j: int| 0 <= i < j < v@.len() ==> #[trigger] v@[i].0@ != #[trigger] v@[j].0@,
{
    serde_json::from_str::<BTreeMap<String, BTreeMap<String, String>>>(json)
        .ok()
        .map(|m| m.into_iter().map(|(k, v)| (k, v.into_iter().collect())).collect())
}

/// Collection of compiled languages.
pub struct SyntaxSet {
    languages: Vec<(String, Language)>,
}

/// Rules of the first language named `name`.
pub open spec fn rules_named(langs: Seq<(Seq<char>, Seq<(TokenType, Seq<char>)>)>, name: Seq<char>) -> Option<Seq<(TokenType, Seq<char>)>>
    decreases langs.len(),
{
    if langs.len() == 0 {
        None
    } else if langs[0].0 == name {
        Some(langs[0].1)
    } else {
        rules_named(langs.drop_first(), name)
    }
}

/// Languages that a JSON text defines: each named definition turned into rules.
pub open spec fn languages_from(defs: Seq<(Seq<char>, Seq<(Seq<char>, Seq<char>)>)>) -> Seq<(Seq<char>, Seq<(TokenType, Seq<char>)>)> {
    defs.map_values(|d: (Seq<char>, Seq<(Seq<char>, Seq<char>)>)| (d.0, rules_from(d.1, 11)))
}

/// Tokens of `code` for a language with `rules`: every rule's matches in
/// priority order, overlapping ones dropped, sorted by start.
pub open spec fn highlight_spec(rules: Seq<(TokenType, Seq<char>)>, code: Seq<char>, len: nat) -> Seq<Tok> {
    sort_by_start(scan_rules(rules, code, len, rules.len() as int).0)
}

/// Law: comments mask what is inside them. In a language built from a
/// definition whose comment pattern compiles, every non-empty match of that
/// pattern within the text that overlaps no earlier match of it is a
/// comment token of the highlighted text, whatever the other rules match
/// inside it.
pub proof fn lemma_comment_matches_highlighted(def: Seq<(Seq<char>, Seq<char>)>, code: Seq<char>, len: nat, k: int)
    requires
        def_lookup(def, "comment"@) is Some,
        regex_accepts(multiline(def_lookup(def, "comment"@)->0)),
        ({
            let ms = regex_find_all(multiline(def_lookup(def, "comment"@)->0), code);
            &&& 0 <= k < ms.len()
            &&& ms[k].0 < ms[k].1 <= len
            &&& forall|j: int| 0 <= j < k ==> #[trigger] ms[j].1 <= ms[k].0 || ms[k].1 <= ms[j].0
        }),
    ensures
        ({
            let ms = regex_find_all(multiline(def_lookup(def, "comment"@)->0), code);
            highlight_spec(rules_from(def, 11), code, len).contains((ms[k].0, ms[k].1, TokenType::Comment))
        }),
{
    let rules = rules_from(def, 11);
    lemma_rules_in_claim_order(def);
    lemma_first_rule_taken(rules, code, len, k);
}

/// The first rule's matches are offered first: when it is a comment rule,
/// a non-empty match within the text that overlaps no earlier match of it
/// becomes a token.
proof fn lemma_first_rule_taken(rules: Seq<(TokenType, Seq<char>)>, code: Seq<char>, len: nat, k: int)
    requires
        rules.len() > 0,
        rules[0].0 == TokenType::Comment,
        ({
            let ms = regex_find_all(rules[0].1, code);
            &&& 0 <= k < ms.len()
            &&& ms[k].0 < ms[k].1 <= len
            &&& forall|j: int| 0 <= j < k ==> #[trigger] ms[j].1 <= ms[k].0 || ms[k].1 <= ms[j].0
        }),
    ensures
        ({
            let ms = regex_find_all(rules[0].1, code);
            highlight_spec(rules, code, len).contains((ms[k].0, ms[k].1, TokenType::Comment))
        }),
{
    let src = rules[0].1;
    let ms = regex_find_all(src, code);
    let st0: Sel = (Seq::empty(), Seq::new(len, |b: int| false));
    let tok: Tok = (ms[k].0, ms[k].1, TokenType::Comment);
    lemma_comment_occupancy(src, code, len, k);
    let stk = scan_matches(st0, TokenType::Comment, src, code, k);
    assert(!any_occupied(stk.1, ms[k].0 as int, ms[k].1 as int)) by {
        if any_occupied(stk.1, ms[k].0 as int, ms[k].1 as int) {
            let b = choose|b: int| ms[k].0 <= b < ms[k].1 && #[trigger] stk.1[b];
            let i = choose|i: int| 0 <= i < k && #[trigger] ms[i].0 <= b && b < ms[i].1;
            assert(ms[i].1 <= ms[k].0 || ms[k].1 <= ms[i].0);
        }
    }
    let stk1 = scan_matches(st0, TokenType::Comment, src, code, k + 1);
    assert(stk1.0 == stk.0.push(tok));
    lemma_scan_matches_prefix(stk1, TokenType::Comment, src, code, k + 1, ms.len() as int, st0);
    let first = scan_rules(rules, code, len, 1);
    assert(scan_rules(rules, code, len, 0).1 =~= st0.1);
    assert(scan_rules(rules, code, len, 0).0 =~= st0.0);
    assert(first == scan_matches(st0, TokenType::Comment, src, code, ms.len() as int));
    assert(first.0[stk.0.len() as int] == tok);
    lemma_scan_rules_prefix(rules, code, len, 1, rules.len() as int);
    let all = scan_rules(rules, code, len, rules.len() as int);
    assert(all.0[stk.0.len() as int] == tok);
    assert(all.0.contains(tok));
    lemma_sort_keeps(all.0, tok);
}

/// While the comment rule's first `j` matches are offered, a byte of the
/// text is covered only if one of those matches spans it.
proof fn lemma_comment_occupancy(src: Seq<char>, code: Seq<char>, len: nat, j: int)
    requires
        0 <= j <= regex_find_all(src, code).len(),
    ensures
        ({
            let ms = regex_find_all(src, code);
            let st = scan_matches((Seq::empty(), Seq::new(len, |b: int| false)), TokenType::Comment, src, code, j);
            &&& st.1.len() == len
            &&& forall|b: int| 0 <= b < len && #[trigger] st.1[b] ==>
                exists|i: int| 0 <= i < j && #[trigger] ms[i].0 <= b && b < ms[i].1
        }),
    decreases j,
{
    let ms = regex_find_all(src, code);
    let st0: Sel = (Seq::empty(), Seq::new(len, |b: int| false));
    if j > 0 {
        lemma_comment_occupancy(src, code, len, j - 1);
        let prev = scan_matches(st0, TokenType::Comment, src, code, j - 1);
        let st = scan_matches(st0, TokenType::Comment, src, code, j);
        assert forall|b: int| 0 <= b < len && #[trigger] st.1[b] implies
            exists|i: int| 0 <= i < j && #[trigger] ms[i].0 <= b && b < ms[i].1 by {
            if prev.1[b] {
                let i = choose|i: int| 0 <= i < j - 1 && #[trigger] ms[i].0 <= b && b < ms[i].1;
                assert(ms[i].0 <= b && b < ms[i].1);
            } else {
                assert(ms[j - 1].0 <= b && b < ms[j - 1].1);
            }
        }
    }
}

/// Offering more matches only adds tokens after the ones taken so far.
proof fn lemma_scan_matches_prefix(st: Sel, tt: TokenType, src: Seq<char>, code: Seq<char>, a: int, b: int, st0: Sel)
    requires
        0 <= a <= b,
        st == scan_matches(st0, tt, src, code, a),
    ensures
        scan_matches(st0, tt, src, code, b).0.len() >= st.0.len(),
        forall|i: int| 0 <= i < st.0.len() ==> #[trigger] scan_matches(st0, tt, src, code, b).0[i] == st.0[i],
    decreases b - a,
{
    if a < b {
        lemma_scan_matches_prefix(st, tt, src, code, a, b - 1, st0);
    }
}

/// Offering more rules only adds tokens after the ones taken so far.
proof fn lemma_scan_rules_prefix(rules: Seq<(TokenType, Seq<char>)>, code: Seq<char>, len: nat, a: int, b: int)
    requires
        0 <= a <= b,
    ensures
        scan_rules(rules, code, len, b).0.len() >= scan_rules(rules, code, len, a).0.len(),
        forall|i: int| 0 <= i < scan_rules(rules, code, len, a).0.len() ==>
            #[trigger] scan_rules(rules, code, len, b).0[i] == scan_rules(rules, code, len, a).0[i],
    decreases b - a,
{
    if a < b {
        lemma_scan_rules_prefix(rules, code, len, a, b - 1);
        let prev = scan_rules(rules, code, len, b - 1);
        let (tt, src) = rules[b - 1];
        lemma_scan_matches_prefix(prev, tt, src, code, 0, regex_find_all(src, code).len() as int, prev);
    }
}

/// Sorting keeps every token.
proof fn lemma_sort_keeps(s: Seq<Tok>, x: Tok)
    requires
        s.contains(x),
    ensures
        sort_by_start(s).contains(x),
    decreases s.len(),
{
    let p = s.drop_last();
    let y = s.last();
    let t = sort_by_start(p);
    let k0 = lemma_insert_pos_exists(t, y.0);
    lemma_insert_pos_unique(t, y.0, k0);
    let k = insert_pos(t, y.0);
    let r = t.insert(k, y);
    assert(sort_by_start(s) == r);
    if x == y {
        assert(r[k] == y);
    } else {
        let j = choose|j: int| 0 <= j < s.len() && s[j] == x;
        assert(j < s.len() - 1);
        assert(p[j] == x);
        lemma_sort_keeps(p, x);
        let i = choose|i: int| 0 <= i < t.len() && t[i] == x;
        if i < k {
            assert(r[i] == x);
        } else {
            assert(r[i + 1] == x);
        }
    }
}

pub open spec fn range_view(v: Seq<(Range<usize>, TokenType)>) -> Seq<Tok> {
    v.map_values(|t: (Range<usize>, TokenType)| (t.0.start, t.0.end, t.1))
}

impl SyntaxSet {
    /// Languages by name with their rules, in the order they were loaded.
    pub closed spec fn lang_view(&self) -> Seq<(Seq<char>, Seq<(TokenType, Seq<char>)>)> {
        self.languages@.map_values(|l: (String, Language)| (l.0@, l.1.rule_view()))
    }

    /// Loads languages from a JSON string; text that is not an object of
    /// language definitions yields no languages.
    pub fn from_json(json: &str) -> (set: SyntaxSet)
        ensures
            set.lang_view() == (match json_language_defs(json@) {
                Some(defs) => languages_from(defs),
                None => Seq::empty(),
            }),
            forall|i: int, j: int| 0 <= i < j < set.lang_view().len() ==>
                #[trigger] set.lang_view()[i].0 != #[trigger] set.lang_view()[j].0,
    {
        let defs = match parse_language_defs(json) {
            Some(d) => d,
            None => Vec::new(),
        };
        let ghost dv = match json_language_defs(json@) {
            Some(d) => d,
            None => Seq::empty(),
        };
        assert(defs_view(defs@) =~= dv);
        let mut languages: Vec<(String, Language)> = Vec::new();
        let mut i: usize = 0;
        while i < defs.len()
            invariant
                i <= defs@.len(),
                dv == defs_view(defs@),
                languages@.map_values(|l: (String, Language)| (l.0@, l.1.rule_view())) =~= languages_from(dv.subrange(0, i as int)),
            decreases defs.len() - i,
        {
            let name = defs[i].0.clone();
            let lang = Language::from_def(&defs[i].1);
            let ghost prev = languages@;
            languages.push((name, lang));
            assert(dv[i as int] == (defs@[i as int].0@, def_view(defs@[i as int].1@)));
            assert(dv.subrange(0, i + 1) =~= dv.subrange(0, i as int).push(dv[i as int]));
            assert(languages_from(dv.subrange(0, i + 1)) =~= languages_from(dv.subrange(0, i as int)).push(
                (dv[i as int].0, rules_from(dv[i as int].1, 11)),
            ));
            assert(languages@ == prev.push((name, lang)));
            i = i + 1;
        }
        assert(dv.subrange(0, i as int) =~= dv);
        let set = SyntaxSet { languages };
        assert forall|p: int, q: int| 0 <= p < q < set.lang_view().len() implies
            #[trigger] set.lang_view()[p].0 != #[trigger] set.lang_view()[q].0 by {
            assert(set.lang_view()[p].0 == dv[p].0);
            assert(set.lang_view()[q].0 == dv[q].0);
            assert(dv[p].0 == defs@[p].0@);
            assert(dv[q].0 == defs@[q].0@);
        }
        set
    }

    /// Names of the available languages.
    pub fn languages(&self) -> (names: Vec<&str>)
        ensures
            names@.len() == self.lang_view().len(),
            forall|i: int| 0 <= i < names@.len() ==> #[trigger] names@[i]@ == self.lang_view()[i].0,
    {
        let mut names: Vec<&str> = Vec::new();
        let mut i: usize = 0;
        while i < self.languages.len()
            invariant
                i <= self.languages@.len(),
                names@.len() == i,
                forall|j: int| 0 <= j < i ==> #[trigger] names@[j]@ == self.lang_view()[j].0,
            decreases self.languages.len() - i,
        {
            names.push(self.languages[i].0.as_str());
            i = i + 1;
        }
        names
    }

    fn find_language(&self, name: &str) -> (lang: Option<&Language>)
        ensures
            match rules_named(self.lang_view(), name@) {
                Some(r) => lang matches Some(l) && l.rule_view() == r,
                None => lang is None,
            },
    {
        let mut i: usize = 0;
        assert(self.lang_view().skip(0) =~= self.lang_view());
        while i < self.languages.len()
            invariant
                i <= self.languages@.len(),
                rules_named(self.lang_view(), name@) == rules_named(self.lang_view().skip(i as int), name@),
            decreases self.languages.len() - i,
        {
            assert(self.lang_view().skip(i as int).drop_first() =~= self.lang_view().skip(i + 1));
            if str_eq(&self.languages[i].0, name) {
                return Some(&self.languages[i].1);
            }
            i = i + 1;
        }
        assert(self.lang_view().skip(i as int) =~= Seq::<(Seq<char>, Seq<(TokenType, Seq<char>)>)>::empty());
        None
    }

    /// Highlights code, returning byte ranges with token types, sorted by
    /// start. Patterns are applied in priority order (comments and strings
    /// first); a match touching bytes already claimed is skipped, so no
    /// highlighting happens inside strings or comments. An unknown language
    /// gives no tokens.
    pub fn highlight(&self, code: &str, language: &str) -> (tokens: Vec<(Range<usize>, TokenType)>)
        ensures
            match rules_named(self.lang_view(), language@) {
                Some(rules) => range_view(tokens@) == highlight_spec(rules, code@, code.len() as nat),
                None => tokens@.len() == 0,
            },
            tokens_within(range_view(tokens@), code.len() as nat),
            sorted_by_start(range_view(tokens@)),
            forall|i: int, j: int|
                0 <= i < j < tokens@.len() && nonempty(#[trigger] range_view(tokens@)[i]) && nonempty(
                    #[trigger] range_view(tokens@)[j],
                ) ==> range_view(tokens@)[i].1 <= range_view(tokens@)[j].0,
    {
        let lang = match self.find_language(language) {
            Some(l) => l,
            None => {
                let empty: Vec<(Range<usize>, TokenType)> = Vec::new();
                assert(range_view(empty@) =~= Seq::<Tok>::empty());
                return empty;
            },
        };
        let ghost rules = lang.rule_view();
        let n = code.len();
        let ghost len = n as nat;
        let mut tokens: Vec<Tok> = Vec::new();
        let mut occupied: Vec<bool> = Vec::new();
        while occupied.len() < n
            invariant
                occupied@.len() <= n,
                forall|q: int| 0 <= q < occupied@.len() ==> !#[trigger] occupied@[q],
            decreases n - occupied.len(),
        {
            occupied.push(false);
        }
        assert(occupied@ =~= Seq::new(len, |k: int| false));
        let mut r: usize = 0;
        while r < lang.rules.len()
            invariant
                r <= lang.rules@.len(),
                n == len,
                n == code.len(),
                rules == lang.rule_view(),
                rules.len() == lang.rules@.len(),
                (tokens@, occupied@) == scan_rules(rules, code@, len, r as int),
                sel_inv((tokens@, occupied@), len),
            decreases lang.rules.len() - r,
        {
            let token_type = lang.rules[r].0;
            let pattern = &lang.rules[r].1;
            let ghost source = pattern.source();
            assert(rules[r as int] == (token_type, source));
            let ms = find_all(pattern, code);
            let ghost before = (tokens@, occupied@);
            let mut k: usize = 0;
            while k < ms.len()
                invariant
                    k <= ms@.len(),
                    n == len,
                    n == code.len(),
                    occupied@.len() == len,
                    ms@ == regex_find_all(source, code@),
                    source == pattern.source(),
                    forall|i: int|
                        0 <= i < ms@.len() ==> {
                            &&& #[trigger] ms@[i].0 <= ms@[i].1
                            &&& ms@[i].1 <= code.spec_bytes().len()
                            &&& ms@[i].1 <= code.len()
                            &&& vstd::utf8::is_char_boundary(code.spec_bytes(), ms@[i].0 as int)
                            &&& vstd::utf8::is_char_boundary(code.spec_bytes(), ms@[i].1 as int)
                        },
                    (tokens@, occupied@) == scan_matches(before, token_type, source, code@, k as int),
                    sel_inv((tokens@, occupied@), len),
                decreases ms.len() - k,
            {
                let (s, e) = ms[k];
                assert(ms@[k as int].0 <= ms@[k as int].1);
                assert(ms@[k as int].1 <= code.spec_bytes().len());
                assert(ms@[k as int].1 <= code.len());
                let ghost st = (tokens@, occupied@);
                // Skip if any byte in this range is already claimed.
                let mut taken = false;
                let mut b = s;
                while b < e
                    invariant
                        s <= b <= e <= occupied@.len(),
                        taken == exists|q: int| s <= q < b && #[trigger] occupied@[q],
                    decreases e - b,
                {
                    if occupied[b] {
                        taken = true;
                    }
                    b = b + 1;
                }
                if !taken {
                    let mut range = (s, e);
                    if token_type == TokenType::Function {
                        if let Some((gs, ge)) = group1_in(pattern, code, s, e) {
                            range = (s + gs, s + ge);
                        }
                    }
                    let (ts, te) = range;
                    let mut q = ts;
                    let ghost occ0 = occupied@;
                    while q < te
                        invariant
                            ts <= q <= te <= occupied@.len(),
                            occupied@.len() == occ0.len(),
                            forall|j: int| 0 <= j < occ0.len() ==> #[trigger] occupied@[j] == (occ0[j] || (ts <= j < q)),
                        decreases te - q,
                    {
                        occupied.set(q, true);
                        q = q + 1;
                    }
                    assert(occupied@ =~= mark(occ0, ts as int, te as int));
                    tokens.push((ts, te, token_type));
                } else {
                }
                proof {
                    lemma_step_inv(st, token_type, source, code@, (s, e), len);
                }
                assert((tokens@, occupied@) == step(st, token_type, source, code@, (s, e)));
                k = k + 1;
            }
            r = r + 1;
        }
        let ghost unsorted = tokens@;
        proof {
            lemma_sort_by_start(unsorted, len);
        }
        // Sort by start position (stable).
        let mut sorted: Vec<Tok> = Vec::new();
        let mut i: usize = 0;
        while i < tokens.len()
            invariant
                i <= tokens@.len(),
                tokens@ == unsorted,
                sorted@ == sort_by_start(unsorted.subrange(0, i as int)),
            decreases tokens.len() - i,
        {
            let x = tokens[i];
            let mut p: usize = 0;
            while p < sorted.len() && sorted[p].0 <= x.0
                invariant
                    p <= sorted@.len(),
                    forall|j: int| 0 <= j < p ==> #[trigger] sorted@[j].0 <= x.0,
                decreases sorted.len() - p,
            {
                p = p + 1;
            }
            proof {
                lemma_insert_pos_unique(sorted@, x.0, p as int);
                assert(unsorted.subrange(0, i + 1).drop_last() =~= unsorted.subrange(0, i as int));
            }
            sorted.insert(p, x);
            i = i + 1;
        }
        assert(unsorted.subrange(0, i as int) =~= unsorted);
        let mut out: Vec<(Range<usize>, TokenType)> = Vec::new();
        let mut j: usize = 0;
        while j < sorted.len()
            invariant
                j <= sorted@.len(),
                range_view(out@) =~= sorted@.subrange(0, j as int),
            decreases sorted.len() - j,
        {
            let (ts, te, tt) = sorted[j];
            let ghost prev = out@;
            out.push((Range { start: ts, end: te }, tt));
            assert(out@ == prev.push((Range { start: ts, end: te }, tt)));
            assert(range_view(out@) =~= range_view(prev).push((ts, te, tt)));
            assert(range_view(out@) =~= sorted@.subrange(0, j + 1));
            j = j + 1;
        }
        assert(sorted@.subrange(0, j as int) =~= sorted@);
        proof {
            lemma_sorted_disjoint_in_order(sorted@);
        }
        out
    }
}

} // verus!
