//! The grammar parser: turns diagram description text into the ordered
//! sequence of declared elements.
//!
//! The grammar, over the characters of the input:
//!
//! ```text
//! script      :=  ws* "@startuml" declarations "@enduml" ws*
//! declarations := (ws* declaration)*  followed by ws*
//! declaration :=  "component" ws+ identifier (ws* "as" ws+ identifier)?
//! identifier  :=  one or more ASCII letters, digits or underscores
//! ws          :=  space, tab, carriage return or newline
//! ```
//!
//! Parsing is all-or-nothing: any input that does not match the
//! grammar — the empty input included — is rejected as a whole.  The
//! spec functions below define the grammar; the executable parser is
//! proved to return exactly what they say.

use vstd::prelude::*;

use crate::chars::{chars_of, string_from_chars};
use crate::plant_uml::{elems_model, PlantUmlDiagram, PlantUmlElement};

verus! {

/// A structured parse failure carrying a diagnostic description; the
/// input did not match the grammar.
#[derive(Debug, Clone, PartialEq, Eq)]
pub enum PlantUmlParserError {
    UnknownError(String),
}

/// The abstraction a parser of diagram descriptions presents to its
/// callers; implemented here by [`PlantUmlTextParser`].
pub trait PlantUmlParser {
    fn parse(&self, input: &str) -> Result<PlantUmlDiagram, PlantUmlParserError>;
}

// ---------------------------------------------------------------------
// Character classes
// ---------------------------------------------------------------------
pub open spec fn ws_char(c: char) -> bool {
    c == ' ' || c == '\t' || c == '\r' || c == '\n'
}

pub open spec fn ident_char(c: char) -> bool {
    ||| ('a' as u32) <= (c as u32) && (c as u32) <= ('z' as u32)
    ||| ('A' as u32) <= (c as u32) && (c as u32) <= ('Z' as u32)
    ||| ('0' as u32) <= (c as u32) && (c as u32) <= ('9' as u32)
    ||| c == '_'
}

fn is_ws(c: char) -> (r: bool)
    ensures
        r == ws_char(c),
{
    c == ' ' || c == '\t' || c == '\r' || c == '\n'
}

fn is_ident(c: char) -> (r: bool)
    ensures
        r == ident_char(c),
{
    let u = c as u32;
    (('a' as u32) <= u && u <= ('z' as u32)) || (('A' as u32) <= u && u <= ('Z' as u32)) || (('0'
        as u32) <= u && u <= ('9' as u32)) || c == '_'
}

// ---------------------------------------------------------------------
// Scanning
// ---------------------------------------------------------------------
/// The first index at or after `i` holding a non-whitespace character,
/// or the end of the input.
pub open spec fn skip_ws(s: Seq<char>, i: int) -> int
    decreases s.len() - i,
{
    if 0 <= i < s.len() && ws_char(s[i]) {
        skip_ws(s, i + 1)
    } else {
        i
    }
}

proof fn lemma_skip_ws_at(s: Seq<char>, i: int, j: int)
    requires
        0 <= i <= j <= s.len(),
        forall|k: int| i <= k < j ==> ws_char(s[k]),
        j < s.len() ==> !ws_char(s[j]),
    ensures
        skip_ws(s, i) == j,
    decreases j - i,
{
    if i < j {
        lemma_skip_ws_at(s, i + 1, j);
    }
}

fn skip_ws_exec(v: &Vec<char>, i: usize) -> (r: usize)
    requires
        i <= v@.len(),
    ensures
        r == skip_ws(v@, i as int),
        i <= r <= v@.len(),
    decreases v@.len() - i,
{
    let n = v.len();
    let mut j = i;
    while j < n && is_ws(v[j])
        invariant
            i <= j <= n,
            n == v@.len(),
            forall|k: int| i <= k < j ==> ws_char(v@[k]),
        decreases n - j,
    {
        j = j + 1;
    }
    proof {
        lemma_skip_ws_at(v@, i as int, j as int);
    }
    j
}

/// The end of the maximal identifier run starting at `i`.
pub open spec fn ident_end(s: Seq<char>, i: int) -> int
    decreases s.len() - i,
{
    if 0 <= i < s.len() && ident_char(s[i]) {
        ident_end(s, i + 1)
    } else {
        i
    }
}

proof fn lemma_ident_end_at(s: Seq<char>, i: int, j: int)
    requires
        0 <= i <= j <= s.len(),
        forall|k: int| i <= k < j ==> ident_char(s[k]),
        j < s.len() ==> !ident_char(s[j]),
    ensures
        ident_end(s, i) == j,
    decreases j - i,
{
    if i < j {
        lemma_ident_end_at(s, i + 1, j);
    }
}

fn ident_end_exec(v: &Vec<char>, i: usize) -> (r: usize)
    requires
        i <= v@.len(),
    ensures
        r == ident_end(v@, i as int),
        i <= r <= v@.len(),
    decreases v@.len() - i,
{
    let n = v.len();
    let mut j = i;
    while j < n && is_ident(v[j])
        invariant
            i <= j <= n,
            n == v@.len(),
            forall|k: int| i <= k < j ==> ident_char(v@[k]),
        decreases n - j,
    {
        j = j + 1;
    }
    proof {
        lemma_ident_end_at(v@, i as int, j as int);
    }
    j
}

/// The characters `v[from..to]`.
fn segment(v: &Vec<char>, from: usize, to: usize) -> (r: Vec<char>)
    requires
        from <= to <= v@.len(),
    ensures
        r@ == v@.subrange(from as int, to as int),
{
    let mut seg: Vec<char> = Vec::new();
    let mut k = from;
    while k < to
        invariant
            from <= k <= to <= v@.len(),
            seg@ == v@.subrange(from as int, k as int),
        decreases to - k,
    {
        seg.push(v[k]);
        proof {
            assert(seg@ =~= v@.subrange(from as int, k + 1));
        }
        k = k + 1;
    }
    seg
}

// ---------------------------------------------------------------------
// Keywords
// ---------------------------------------------------------------------
pub open spec fn matches_startuml(s: Seq<char>, i: int) -> bool {
    &&& 0 <= i
    &&& i + 9 <= s.len()
    &&& s[i] == '@'
    &&& s[i + 1] == 's'
    &&& s[i + 2] == 't'
    &&& s[i + 3] == 'a'
    &&& s[i + 4] == 'r'
    &&& s[i + 5] == 't'
    &&& s[i + 6] == 'u'
    &&& s[i + 7] == 'm'
    &&& s[i + 8] == 'l'
}

fn matches_startuml_exec(v: &Vec<char>, i: usize) -> (r: bool)
    requires
        i <= v@.len(),
    ensures
        r == matches_startuml(v@, i as int),
{
    let n = v.len();
    n >= 9 && i <= n - 9 && v[i] == '@' && v[i + 1] == 's' && v[i + 2] == 't' && v[i + 3] == 'a'
        && v[i + 4] == 'r' && v[i + 5] == 't' && v[i + 6] == 'u' && v[i + 7] == 'm' && v[i + 8]
        == 'l'
}

pub open spec fn matches_enduml(s: Seq<char>, i: int) -> bool {
    &&& 0 <= i
    &&& i + 7 <= s.len()
    &&& s[i] == '@'
    &&& s[i + 1] == 'e'
    &&& s[i + 2] == 'n'
    &&& s[i + 3] == 'd'
    &&& s[i + 4] == 'u'
    &&& s[i + 5] == 'm'
    &&& s[i + 6] == 'l'
}

fn matches_enduml_exec(v: &Vec<char>, i: usize) -> (r: bool)
    requires
        i <= v@.len(),
    ensures
        r == matches_enduml(v@, i as int),
{
    let n = v.len();
    n >= 7 && i <= n - 7 && v[i] == '@' && v[i + 1] == 'e' && v[i + 2] == 'n' && v[i + 3] == 'd'
        && v[i + 4] == 'u' && v[i + 5] == 'm' && v[i + 6] == 'l'
}

pub open spec fn matches_component(s: Seq<char>, i: int) -> bool {
    &&& 0 <= i
    &&& i + 9 <= s.len()
    &&& s[i] == 'c'
    &&& s[i + 1] == 'o'
    &&& s[i + 2] == 'm'
    &&& s[i + 3] == 'p'
    &&& s[i + 4] == 'o'
    &&& s[i + 5] == 'n'
    &&& s[i + 6] == 'e'
    &&& s[i + 7] == 'n'
    &&& s[i + 8] == 't'
}

fn matches_component_exec(v: &Vec<char>, i: usize) -> (r: bool)
    requires
        i <= v@.len(),
    ensures
        r == matches_component(v@, i as int),
{
    let n = v.len();
    n >= 9 && i <= n - 9 && v[i] == 'c' && v[i + 1] == 'o' && v[i + 2] == 'm' && v[i + 3] == 'p'
        && v[i + 4] == 'o' && v[i + 5] == 'n' && v[i + 6] == 'e' && v[i + 7] == 'n' && v[i + 8]
        == 't'
}

pub open spec fn matches_as(s: Seq<char>, i: int) -> bool {
    &&& 0 <= i
    &&& i + 2 <= s.len()
    &&& s[i] == 'a'
    &&& s[i + 1] == 's'
}

fn matches_as_exec(v: &Vec<char>, i: usize) -> (r: bool)
    requires
        i <= v@.len(),
    ensures
        r == matches_as(v@, i as int),
{
    let n = v.len();
    n >= 2 && i <= n - 2 && v[i] == 'a' && v[i + 1] == 's'
}

// ---------------------------------------------------------------------
// Declarations
// ---------------------------------------------------------------------
/// The rest of one declaration, starting at `j`, the position right
/// after the `component` keyword: at least one whitespace character,
/// the name, and optionally the `as` keyword followed by the alias.
/// Yields the name, the alias, and the position after the declaration.
pub open spec fn parse_decl_after_kw(s: Seq<char>, j: int) -> Option<
    (Seq<char>, Option<Seq<char>>, int),
> {
    if 0 <= j < s.len() && ws_char(s[j]) {
        let p = skip_ws(s, j);
        let e = ident_end(s, p);
        if e == p {
            Option::None
        } else {
            let name = s.subrange(p, e);
            let q = skip_ws(s, e);
            if matches_as(s, q) && (q + 2 == s.len() || !ident_char(s[q + 2])) {
                let r0 = skip_ws(s, q + 2);
                let f = ident_end(s, r0);
                if f == r0 {
                    Option::None
                } else {
                    Option::Some((name, Option::Some(s.subrange(r0, f)), f))
                }
            } else {
                Option::Some((name, Option::None, e))
            }
        }
    } else {
        Option::None
    }
}

fn parse_decl_after_kw_exec(v: &Vec<char>, j: usize) -> (r: Option<(String, Option<String>, usize)>)
    requires
        j <= v@.len(),
    ensures
        r is None ==> parse_decl_after_kw(v@, j as int) is None,
        r matches Some((name, alias, e)) ==> {
            &&& parse_decl_after_kw(v@, j as int) == Option::Some(
                (
                    name@,
                    match alias {
                        Option::Some(a) => Option::Some(a@),
                        Option::None => Option::<Seq<char>>::None,
                    },
                    e as int,
                ),
            )
            &&& j < e <= v@.len()
        },
{
    let n = v.len();
    if j < n && is_ws(v[j]) {
        let p = skip_ws_exec(v, j);
        let e = ident_end_exec(v, p);
        if e == p {
            return Option::None;
        }
        let name_chars = segment(v, p, e);
        let name = string_from_chars(&name_chars);
        let q = skip_ws_exec(v, e);
        if matches_as_exec(v, q) && (q + 2 == n || !is_ident(v[q + 2])) {
            let r0 = skip_ws_exec(v, q + 2);
            let f = ident_end_exec(v, r0);
            if f == r0 {
                return Option::None;
            }
            let alias_chars = segment(v, r0, f);
            let alias = string_from_chars(&alias_chars);
            Option::Some((name, Option::Some(alias), f))
        } else {
            Option::Some((name, Option::None, e))
        }
    } else {
        Option::None
    }
}

/// All declarations from position `i` on, each preceded by arbitrary
/// whitespace.  Yields the declared elements in source order and the
/// position after the last declaration and any following whitespace.
pub open spec fn parse_decls(s: Seq<char>, i: int) -> Option<
    (Seq<(Seq<char>, Option<Seq<char>>)>, int),
>
    decreases s.len() - i,
{
    let j = skip_ws(s, i);
    if matches_component(s, j) {
        match parse_decl_after_kw(s, j + 9) {
            Option::None => Option::None,
            Option::Some((name, alias, e)) => {
                if i < e && e <= s.len() {
                    match parse_decls(s, e) {
                        Option::None => Option::None,
                        Option::Some((rest, fin)) => Option::Some(
                            (seq![(name, alias)] + rest, fin),
                        ),
                    }
                } else {
                    Option::None
                }
            },
        }
    } else {
        Option::Some((Seq::empty(), j))
    }
}

fn parse_decls_exec(v: &Vec<char>, i: usize) -> (r: Option<(Vec<PlantUmlElement>, usize)>)
    requires
        i <= v@.len(),
    ensures
        r is None ==> parse_decls(v@, i as int) is None,
        r matches Some((elems, fin)) ==> parse_decls(v@, i as int) == Option::Some(
            (elems_model(elems@), fin as int),
        ) && fin <= v@.len(),
    decreases v@.len() - i,
{
    let n = v.len();
    let j = skip_ws_exec(v, i);
    if matches_component_exec(v, j) {
        proof {
            assert(j + 9 <= n);
        }
        match parse_decl_after_kw_exec(v, j + 9) {
            Option::None => Option::None,
            Option::Some((name, alias, e)) => {
                let ghost name_view = name@;
                let ghost alias_view = match alias {
                    Option::Some(ref a) => Option::Some(a@),
                    Option::None => Option::<Seq<char>>::None,
                };
                match parse_decls_exec(v, e) {
                    Option::None => Option::None,
                    Option::Some((mut elems, fin)) => {
                        let ghost tail_model = elems_model(elems@);
                        elems.insert(0, PlantUmlElement::Component(name, alias));
                        proof {
                            assert(elems_model(elems@) =~= seq![(name_view, alias_view)]
                                + tail_model);
                        }
                        Option::Some((elems, fin))
                    },
                }
            },
        }
    } else {
        proof {
            assert(elems_model(Seq::<PlantUmlElement>::empty())
                =~= Seq::<(Seq<char>, Option<Seq<char>>)>::empty());
        }
        Option::Some((Vec::new(), j))
    }
}

// ---------------------------------------------------------------------
// The whole script
// ---------------------------------------------------------------------
/// What a whole description parses to: the declared elements — each a
/// name with an optional alias — in source order, or nothing if the
/// input does not match the grammar.
pub open spec fn parse_script(s: Seq<char>) -> Option<Seq<(Seq<char>, Option<Seq<char>>)>> {
    let i0 = skip_ws(s, 0);
    if matches_startuml(s, i0) {
        match parse_decls(s, i0 + 9) {
            Option::None => Option::None,
            Option::Some((elems, j)) => {
                if matches_enduml(s, j) && skip_ws(s, j + 7) == s.len() {
                    Option::Some(elems)
                } else {
                    Option::None
                }
            },
        }
    } else {
        Option::None
    }
}

// ---------------------------------------------------------------------
// Laws
// ---------------------------------------------------------------------
/// Whether every character of `sep` is whitespace: spaces, tabs,
/// carriage returns or newlines — runs of newlines form blank lines.
pub open spec fn ws_run(sep: Seq<char>) -> bool {
    forall|i: int| 0 <= i < sep.len() ==> ws_char(#[trigger] sep[i])
}

pub open spec fn kw_startuml_text() -> Seq<char> {
    seq!['@', 's', 't', 'a', 'r', 't', 'u', 'm', 'l']
}

pub open spec fn kw_enduml_text() -> Seq<char> {
    seq!['@', 'e', 'n', 'd', 'u', 'm', 'l']
}

pub open spec fn kw_component_text() -> Seq<char> {
    seq!['c', 'o', 'm', 'p', 'o', 'n', 'e', 'n', 't']
}

/// Whether a token can stand as a name or an alias: at least one
/// character, all of them identifier characters.
pub open spec fn valid_ident(s: Seq<char>) -> bool {
    s.len() > 0 && (forall|i: int| 0 <= i < s.len() ==> ident_char(#[trigger] s[i]))
}

/// Whether a declaration can be written down as source text.
pub open spec fn valid_decl(d: (Seq<char>, Option<Seq<char>>)) -> bool {
    valid_ident(d.0) && match d.1 {
        Option::Some(a) => valid_ident(a),
        Option::None => true,
    }
}

/// One declaration as source text.
pub open spec fn decl_text(d: (Seq<char>, Option<Seq<char>>)) -> Seq<char> {
    match d.1 {
        Option::None => kw_component_text() + seq![' '] + d.0,
        Option::Some(a) => kw_component_text() + seq![' '] + d.0 + seq![' ', 'a', 's', ' '] + a,
    }
}

/// The text between the wrapper tokens: the declaration at position
/// `g` is preceded by the whitespace run `gaps[g]`, and the run
/// `gaps[decls.len()]` follows the last declaration.
pub open spec fn decls_text(
    decls: Seq<(Seq<char>, Option<Seq<char>>)>,
    gaps: Seq<Seq<char>>,
) -> Seq<char>
    decreases decls.len(),
{
    if decls.len() == 0 {
        gaps[0]
    } else {
        gaps[0] + decl_text(decls[0]) + decls_text(decls.drop_first(), gaps.drop_first())
    }
}

/// A whole script declaring `decls`: optional leading whitespace, the
/// opening keyword, the declarations with their separating whitespace
/// runs, the closing keyword, and optional trailing whitespace.
pub open spec fn script_text(
    lead: Seq<char>,
    decls: Seq<(Seq<char>, Option<Seq<char>>)>,
    gaps: Seq<Seq<char>>,
    trail: Seq<char>,
) -> Seq<char> {
    lead + kw_startuml_text() + decls_text(decls, gaps) + kw_enduml_text() + trail
}

/// No character is both whitespace and an identifier character.
proof fn lemma_ws_ident_disjoint(c: char)
    ensures
        !(ws_char(c) && ident_char(c)),
{
}

/// Parsing the declarations of a rendered script: from position `i`,
/// the text begins with exactly `decls_text(decls, gaps)` followed by
/// the closing keyword, and the declarations parse back to `decls`.
#[verifier::rlimit(60)]
proof fn lemma_decls_round_trip(
    s: Seq<char>,
    i: int,
    decls: Seq<(Seq<char>, Option<Seq<char>>)>,
    gaps: Seq<Seq<char>>,
)
    requires
        gaps.len() == decls.len() + 1,
        forall|g: int| 0 <= g < gaps.len() ==> ws_run(#[trigger] gaps[g]) && gaps[g].len() >= 1,
        forall|n: int| 0 <= n < decls.len() ==> valid_decl(#[trigger] decls[n]),
        0 <= i,
        i + decls_text(decls, gaps).len() + 7 <= s.len(),
        s.subrange(i, i + decls_text(decls, gaps).len() + 7) == decls_text(decls, gaps)
            + kw_enduml_text(),
    ensures
        parse_decls(s, i) == Option::<(Seq<(Seq<char>, Option<Seq<char>>)>, int)>::Some(
            (decls, i + decls_text(decls, gaps).len()),
        ),
    decreases decls.len(),
{
    let k = gaps[0].len() as int;
    let suf = s.subrange(i, i + decls_text(decls, gaps).len() + 7);
    assert forall|m: int| 0 <= m < suf.len() implies s[i + m] == suf[m] by {}
    if decls.len() == 0 {
        // The suffix is one whitespace run and then the closing keyword.
        assert forall|m: int| i <= m < i + k implies ws_char(s[m]) by {
            assert(suf[m - i] == gaps[0][m - i]);
        }
        assert(s[i + k] == suf[k]);
        assert(s[i + k] == '@');
        lemma_skip_ws_at(s, i, i + k);
        assert(!matches_component(s, i + k));
        assert(parse_decls(s, i) == Option::<(Seq<(Seq<char>, Option<Seq<char>>)>, int)>::Some(
            (Seq::empty(), i + k),
        ));
    } else {
        let d = decls[0];
        let dt = decl_text(d);
        let rest_text = decls_text(decls.drop_first(), gaps.drop_first()) + kw_enduml_text();
        assert(suf =~= gaps[0] + dt + rest_text);
        // Whitespace up to the keyword.
        assert forall|m: int| i <= m < i + k implies ws_char(s[m]) by {
            assert(suf[m - i] == gaps[0][m - i]);
        }
        let j = i + k;
        assert(s[j] == suf[k]);
        assert(s[j] == 'c');
        lemma_skip_ws_at(s, i, j);
        // The `component` keyword.
        assert forall|m: int| 0 <= m < 9 implies s[j + m] == kw_component_text()[m] by {
            assert(suf[k + m] == kw_component_text()[m]);
        }
        assert(matches_component(s, j));
        // One space, then the name.
        assert(s[j + 9] == suf[k + 9int]);
        assert(s[j + 9] == ' ');
        let p = j + 10;
        assert(s[p] == suf[k + 10int]);
        assert(s[p] == d.0[0]);
        lemma_ws_ident_disjoint(d.0[0]);
        lemma_skip_ws_at(s, j + 9, p);
        let e = p + d.0.len();
        assert forall|m: int| p <= m < e implies ident_char(s[m]) by {
            assert(suf[m - i] == d.0[m - p]);
        }
        match d.1 {
            Option::None => {
                // After the name comes the next whitespace run.
                assert(s[e] == suf[e - i]);
                assert(s[e] == gaps.drop_first()[0][0]);
                lemma_ws_ident_disjoint(s[e]);
                lemma_ident_end_at(s, p, e);
                assert forall|m: int| 0 <= m < d.0.len() implies s.subrange(p, e)[m]
                    == d.0[m] by {
                    assert(s[p + m] == suf[p + m - i]);
                    assert(suf[p + m - i] == d.0[m]);
                }
                assert(s.subrange(p, e) =~= d.0);
                // No `as` keyword follows: past the whitespace run the
                // next token starts with no `a`.
                let q = skip_ws(s, e);
                let k2 = gaps.drop_first()[0].len() as int;
                assert forall|m: int| e <= m < e + k2 implies ws_char(s[m]) by {
                    assert(suf[m - i] == gaps.drop_first()[0][m - e]);
                }
                if decls.drop_first().len() == 0 {
                    assert(s[e + k2] == suf[e + k2 - i]);
                    assert(s[e + k2] == '@');
                } else {
                    assert(s[e + k2] == suf[e + k2 - i]);
                    assert(s[e + k2] == 'c');
                }
                lemma_skip_ws_at(s, e, e + k2);
                assert(!matches_as(s, q));
                assert(parse_decl_after_kw(s, j + 9) == Option::<(
                    Seq<char>,
                    Option<Seq<char>>,
                    int,
                )>::Some((d.0, Option::None, e)));
                // The rest of the declarations.
                assert forall|m: int| 0 <= m < rest_text.len() implies s.subrange(
                    e,
                    e + rest_text.len(),
                )[m] == rest_text[m] by {
                    assert(s[e + m] == suf[e + m - i]);
                    assert(suf[e + m - i] == rest_text[m]);
                }
                assert(s.subrange(e, e + rest_text.len()) =~= decls_text(
                    decls.drop_first(),
                    gaps.drop_first(),
                ) + kw_enduml_text());
                lemma_decls_round_trip(s, e, decls.drop_first(), gaps.drop_first());
                assert(seq![(d.0, d.1)] + decls.drop_first() =~= decls);
            },
            Option::Some(a) => {
                // A space, the `as` keyword, a space, then the alias.
                assert(s[e] == suf[e - i]);
                assert(s[e] == ' ');
                lemma_ident_end_at(s, p, e);
                assert forall|m: int| 0 <= m < d.0.len() implies s.subrange(p, e)[m]
                    == d.0[m] by {
                    assert(s[p + m] == suf[p + m - i]);
                    assert(suf[p + m - i] == d.0[m]);
                }
                assert(s.subrange(p, e) =~= d.0);
                let q = e + 1;
                assert(s[q] == suf[q - i]);
                assert(s[q] == 'a');
                lemma_skip_ws_at(s, e, q);
                assert(s[q + 1] == suf[q + 1 - i]);
                assert(s[q + 1] == 's');
                assert(matches_as(s, q));
                assert(s[q + 2] == suf[q + 2 - i]);
                assert(s[q + 2] == ' ');
                let r0 = q + 3;
                assert(s[r0] == suf[r0 - i]);
                assert(s[r0] == a[0]);
                lemma_ws_ident_disjoint(a[0]);
                lemma_skip_ws_at(s, q + 2, r0);
                let f = r0 + a.len();
                assert forall|m: int| r0 <= m < f implies ident_char(s[m]) by {
                    assert(suf[m - i] == a[m - r0]);
                }
                assert(s[f] == suf[f - i]);
                assert(s[f] == gaps.drop_first()[0][0]);
                lemma_ws_ident_disjoint(s[f]);
                lemma_ident_end_at(s, r0, f);
                assert forall|m: int| 0 <= m < a.len() implies s.subrange(r0, f)[m] == a[m] by {
                    assert(s[r0 + m] == suf[r0 + m - i]);
                    assert(suf[r0 + m - i] == a[m]);
                }
                assert(s.subrange(r0, f) =~= a);
                assert(parse_decl_after_kw(s, j + 9) == Option::<(
                    Seq<char>,
                    Option<Seq<char>>,
                    int,
                )>::Some((d.0, Option::Some(a), f)));
                // The rest of the declarations.
                assert forall|m: int| 0 <= m < rest_text.len() implies s.subrange(
                    f,
                    f + rest_text.len(),
                )[m] == rest_text[m] by {
                    assert(s[f + m] == suf[f + m - i]);
                    assert(suf[f + m - i] == rest_text[m]);
                }
                assert(s.subrange(f, f + rest_text.len()) =~= decls_text(
                    decls.drop_first(),
                    gaps.drop_first(),
                ) + kw_enduml_text());
                lemma_decls_round_trip(s, f, decls.drop_first(), gaps.drop_first());
                assert(seq![(d.0, d.1)] + decls.drop_first() =~= decls);
            },
        }
    }
}

/// Law: a script that declares `decls` — after any leading whitespace,
/// each part separated by any non-empty run of whitespace, spaces,
/// tabs and blank lines alike, and before any trailing whitespace —
/// parses back to exactly `decls`, in source order, whatever the
/// separating runs are.  One whitespace character per gap is the least
/// that keeps a declaration and the following token apart.
pub proof fn lemma_script_round_trip(
    lead: Seq<char>,
    decls: Seq<(Seq<char>, Option<Seq<char>>)>,
    gaps: Seq<Seq<char>>,
    trail: Seq<char>,
)
    requires
        ws_run(lead),
        ws_run(trail),
        gaps.len() == decls.len() + 1,
        forall|g: int| 0 <= g < gaps.len() ==> ws_run(#[trigger] gaps[g]) && gaps[g].len() >= 1,
        forall|n: int| 0 <= n < decls.len() ==> valid_decl(#[trigger] decls[n]),
    ensures
        parse_script(script_text(lead, decls, gaps, trail)) == Option::<
            Seq<(Seq<char>, Option<Seq<char>>)>,
        >::Some(decls),
{
    let s = script_text(lead, decls, gaps, trail);
    let body = decls_text(decls, gaps);
    let b = lead.len() as int;
    assert(s.len() == b + 9 + body.len() + 7 + trail.len());
    assert forall|m: int| 0 <= m < b implies ws_char(s[m]) by {
        assert(s[m] == lead[m]);
    }
    assert(s[b] == kw_startuml_text()[0]);
    lemma_skip_ws_at(s, 0, b);
    assert forall|m: int| 0 <= m < 9 implies s[b + m] == kw_startuml_text()[m] by {}
    assert(matches_startuml(s, b));
    assert forall|m: int| 0 <= m < body.len() + 7 implies s.subrange(
        b + 9,
        b + 9 + body.len() + 7,
    )[m] == (body + kw_enduml_text())[m] by {
        assert(s[b + 9 + m] == (body + kw_enduml_text())[m]);
    }
    assert(s.subrange(b + 9, b + 9 + body.len() + 7) =~= body + kw_enduml_text());
    lemma_decls_round_trip(s, b + 9, decls, gaps);
    let fin = b + 9 + body.len() as int;
    assert forall|m: int| 0 <= m < 7 implies s[fin + m] == kw_enduml_text()[m] by {}
    assert(matches_enduml(s, fin));
    assert forall|m: int| fin + 7 <= m < s.len() implies ws_char(s[m]) by {
        assert(s[m] == trail[m - (fin + 7)]);
    }
    lemma_skip_ws_at(s, fin + 7, s.len() as int);
}

/// The diagnostic text every rejected input reports.
pub open spec fn rejection_text() -> Seq<char> {
    "input does not match the component diagram grammar"@
}

/// The parser of the diagram description language: a hand-written
/// recursive-descent parser over the input's characters.
pub struct PlantUmlTextParser {}

impl PlantUmlTextParser {
    pub fn new() -> (r: Self) {
        Self {}
    }

    /// Parses `input`.  On success the returned elements are, name and
    /// alias alike, exactly what the grammar says the input declares;
    /// any input the grammar rejects yields the parse failure.
    pub fn parse(&self, input: &str) -> (r: Result<PlantUmlDiagram, PlantUmlParserError>)
        ensures
            r matches Ok(d) ==> parse_script(input@) == Option::Some(elems_model(d.elements@)),
            r matches Err(e) ==> parse_script(input@) is None && (e matches
                PlantUmlParserError::UnknownError(m) && m@ == rejection_text()),
    {
        let v = chars_of(input);
        let i0 = skip_ws_exec(&v, 0);
        if !matches_startuml_exec(&v, i0) {
            return Result::Err(Self::failure());
        }
        match parse_decls_exec(&v, i0 + 9) {
            Option::None => Result::Err(Self::failure()),
            Option::Some((elems, j)) => {
                if matches_enduml_exec(&v, j) {
                    let k = skip_ws_exec(&v, j + 7);
                    if k == v.len() {
                        Result::Ok(PlantUmlDiagram::new(elems))
                    } else {
                        Result::Err(Self::failure())
                    }
                } else {
                    Result::Err(Self::failure())
                }
            },
        }
    }

    /// The failure every rejected input reports.
    fn failure() -> (r: PlantUmlParserError)
        ensures
            r matches PlantUmlParserError::UnknownError(m) && m@ == rejection_text(),
    {
        PlantUmlParserError::UnknownError(String::from_str(
            "input does not match the component diagram grammar",
        ))
    }
}

impl PlantUmlParser for PlantUmlTextParser {
    fn parse(&self, input: &str) -> Result<PlantUmlDiagram, PlantUmlParserError> {
        self.parse(input)
    }
}

} // verus!
