use vstd::prelude::*;

use crate::errors::ContextError;
use crate::text::find_at;
use crate::text::find_char;
use crate::text::is_space;
use crate::text::matches_at;
use crate::text::spec_trim;

verus! {

// ---------------------------------------------------------------------------
// The lexical layer of the markup reader: the raw text is turned into a
// stream of events — start tags with attributes, self-closing tags, end
// tags, trimmed text with entities resolved, and literal character data.
// Comments, processing instructions and document-type declarations are
// consumed and produce no event.
// ---------------------------------------------------------------------------

#[derive(Debug, Clone, PartialEq)]
pub enum XmlEvent {
    Start(String, Vec<(String, String)>),
    Empty(String, Vec<(String, String)>),
    End(String),
    Text(String),
    CData(String),
}

pub enum SpecXmlEvent {
    Start(Seq<char>, Seq<(Seq<char>, Seq<char>)>),
    Empty(Seq<char>, Seq<(Seq<char>, Seq<char>)>),
    End(Seq<char>),
    Text(Seq<char>),
    CData(Seq<char>),
}

pub open spec fn attrs_view(attrs: Seq<(String, String)>) -> Seq<(Seq<char>, Seq<char>)> {
    Seq::new(attrs.len(), |i: int| (attrs[i].0@, attrs[i].1@))
}

impl View for XmlEvent {
    type V = SpecXmlEvent;

    open spec fn view(&self) -> SpecXmlEvent {
        match self {
            XmlEvent::Start(n, a) => SpecXmlEvent::Start(n@, attrs_view(a@)),
            XmlEvent::Empty(n, a) => SpecXmlEvent::Empty(n@, attrs_view(a@)),
            XmlEvent::End(n) => SpecXmlEvent::End(n@),
            XmlEvent::Text(t) => SpecXmlEvent::Text(t@),
            XmlEvent::CData(t) => SpecXmlEvent::CData(t@),
        }
    }
}

impl DeepView for XmlEvent {
    type V = SpecXmlEvent;

    open spec fn deep_view(&self) -> SpecXmlEvent {
        self.view()
    }
}

// ---------------------------------------------------------------------------
// Entity unescaping.
// ---------------------------------------------------------------------------

/// A Unicode scalar value: anything in range except the surrogates.
pub open spec fn is_valid_scalar(n: int) -> bool {
    (0 <= n < 0xD800) || (0xE000 <= n < 0x110000)
}

/// The character with the given code point; meaningful for valid scalar
/// values, where exactly one character carries the code.
pub open spec fn char_of(n: int) -> char {
    (n as u32) as char
}

/// The value of one digit in the given base, if the character is one.
pub open spec fn digit_of(c: char, base: int) -> Option<int> {
    let u = (c as u32) as int;
    if 48 <= u <= 57 {
        Option::Some(u - 48)
    } else if base == 16 && 97 <= u <= 102 {
        Option::Some(u - 87)
    } else if base == 16 && 65 <= u <= 70 {
        Option::Some(u - 55)
    } else {
        Option::None
    }
}

/// The number the digits from `i` on denote in the given base, on top of
/// the value accumulated so far; a non-digit spoils the whole reference.
pub open spec fn digits_from(s: Seq<char>, i: int, base: int, acc: int) -> Option<int>
    decreases s.len() - i,
{
    if !(0 <= i < s.len()) {
        Option::Some(acc)
    } else {
        match digit_of(s[i], base) {
            Option::None => Option::None,
            Option::Some(d) => digits_from(s, i + 1, base, acc * base + d),
        }
    }
}

/// The character a numeric character reference denotes: `#` then decimal
/// digits, or `#x` then hexadecimal digits, naming a valid scalar value.
pub open spec fn numeric_entity_char(ent: Seq<char>) -> Option<char> {
    if ent.len() >= 2 && ent[0] == '#' {
        let v = if ent[1] == 'x' {
            if ent.len() >= 3 {
                digits_from(ent, 2, 16, 0)
            } else {
                Option::None
            }
        } else {
            digits_from(ent, 1, 10, 0)
        };
        match v {
            Option::Some(n) => if is_valid_scalar(n) {
                Option::Some(char_of(n))
            } else {
                Option::None
            },
            Option::None => Option::None,
        }
    } else {
        Option::None
    }
}

/// The character an entity denotes: one of the five predefined names, or a
/// numeric character reference.
pub open spec fn entity_char(ent: Seq<char>) -> Option<char> {
    if ent == "lt"@ {
        Option::Some('<')
    } else if ent == "gt"@ {
        Option::Some('>')
    } else if ent == "amp"@ {
        Option::Some('&')
    } else if ent == "quot"@ {
        Option::Some('"')
    } else if ent == "apos"@ {
        Option::Some('\'')
    } else {
        numeric_entity_char(ent)
    }
}

/// Relies on char::from_u32: the character with the given code point, or
/// nothing when the value is a surrogate or lies beyond the scalar range.
#[verifier::external_body]
fn char_from_u32(n: u32) -> (r: Option<char>)
    ensures
        match r {
            Option::Some(c) => c as u32 == n && is_valid_scalar(n as int),
            Option::None => !is_valid_scalar(n as int),
        },
{
    char::from_u32(n)
}

/// Resolve a numeric character reference executably.
fn numeric_entity_exec(ent: &Vec<char>) -> (r: Option<char>)
    ensures
        match r {
            Option::Some(c) => numeric_entity_char(ent@) == Option::Some(c),
            Option::None => numeric_entity_char(ent@) is None,
        },
{
    if !(ent.len() >= 2 && ent[0] == '#') {
        return Option::None;
    }
    let hex = ent[1] == 'x';
    if hex && ent.len() < 3 {
        return Option::None;
    }
    let base: u32 = if hex {
        16
    } else {
        10
    };
    let start: usize = if hex {
        2
    } else {
        1
    };
    let mut acc: u32 = 0;
    let mut big = false;
    let ghost mut a: int = 0;
    let mut k: usize = start;
    while k < ent.len()
        invariant
            ent@.len() >= 2,
            ent@[0] == '#',
            hex == (ent@[1] == 'x'),
            hex ==> ent@.len() >= 3,
            base == (if hex { 16u32 } else { 10u32 }),
            start == (if hex { 2int } else { 1int }),
            start <= k <= ent@.len(),
            digits_from(ent@, start as int, base as int, 0) == digits_from(
                ent@,
                k as int,
                base as int,
                a,
            ),
            a >= 0,
            big ==> a > 0x10FFFF,
            !big ==> a == acc && acc <= 0x10FFFFF,
        decreases ent@.len() - k,
    {
        let u = ent[k] as u32;
        let d: u32;
        if 48 <= u && u <= 57 {
            d = u - 48;
        } else if base == 16 && 97 <= u && u <= 102 {
            d = u - 87;
        } else if base == 16 && 65 <= u && u <= 70 {
            d = u - 55;
        } else {
            proof {
                assert(digit_of(ent@[k as int], base as int) is None);
            }
            return Option::None;
        }
        proof {
            assert(digit_of(ent@[k as int], base as int) == Option::Some(d as int));
            a = a * (base as int) + (d as int);
        }
        if big || acc > 0x10FFFF {
            big = true;
        } else {
            acc = acc * base + d;
        }
        k = k + 1;
    }
    proof {
        assert(digits_from(ent@, start as int, base as int, 0) == Option::Some(a));
    }
    if big {
        return Option::None;
    }
    match char_from_u32(acc) {
        Option::Some(c) => {
            proof {
                assert(acc as int == a);
                assert(c as u32 == acc);
                vstd::utf8::char_u32_cast(c, acc);
                assert(a as u32 == acc);
                assert(c == char_of(a));
            }
            Option::Some(c)
        },
        Option::None => Option::None,
    }
}

/// Text from `i` on with every `&...;` entity reference replaced by its
/// character; a reference that is unterminated, or names neither a
/// predefined entity nor a valid numeric character, is an error.
pub open spec fn spec_unescape_from(u: Seq<char>, i: int) -> Result<Seq<char>, Seq<char>>
    decreases u.len() - i,
{
    if !(0 <= i < u.len()) {
        Result::Ok(Seq::empty())
    } else if u[i] == '&' {
        match find_char(u, i + 1, ';') {
            Option::None => Result::Err("unterminated entity reference"@),
            Option::Some(f) => match entity_char(u.subrange(i + 1, f)) {
                Option::None => Result::Err("unknown entity reference"@),
                Option::Some(c) => if i < f + 1 <= u.len() {
                    match spec_unescape_from(u, f + 1) {
                        Result::Ok(rest) => Result::Ok(seq![c] + rest),
                        Result::Err(m) => Result::Err(m),
                    }
                } else {
                    Result::Err("unterminated entity reference"@)
                },
            },
        }
    } else {
        match spec_unescape_from(u, i + 1) {
            Result::Ok(rest) => Result::Ok(seq![u[i]] + rest),
            Result::Err(m) => Result::Err(m),
        }
    }
}

pub open spec fn spec_unescape(u: Seq<char>) -> Result<Seq<char>, Seq<char>> {
    spec_unescape_from(u, 0)
}

/// Resolve entity references executably.
fn unescape_exec(v: &Vec<char>) -> (r: Result<Vec<char>, String>)
    ensures
        match r {
            Result::Ok(o) => spec_unescape(v@) == Result::Ok::<Seq<char>, Seq<char>>(o@),
            Result::Err(m) => spec_unescape(v@) == Result::Err::<Seq<char>, Seq<char>>(m@),
        },
{
    let mut out: Vec<char> = Vec::new();
    let mut i: usize = 0;
    while i < v.len()
        invariant
            i <= v@.len(),
            spec_unescape(v@) == match spec_unescape_from(v@, i as int) {
                Result::Ok(rest) => Result::Ok::<Seq<char>, Seq<char>>(out@ + rest),
                Result::Err(m) => Result::Err::<Seq<char>, Seq<char>>(m),
            },
        decreases v@.len() - i,
    {
        let ghost pre = out@;
        if v[i] == '&' {
            match crate::text::find_ch(v, i + 1, ';') {
                Option::None => {
                    return Result::Err(String::from_str("unterminated entity reference"));
                },
                Option::Some(f) => {
                    let ent = crate::text::subvec(v, i + 1, f);
                    let c: char;
                    if crate::text::eq_str(&ent, "lt") {
                        c = '<';
                    } else if crate::text::eq_str(&ent, "gt") {
                        c = '>';
                    } else if crate::text::eq_str(&ent, "amp") {
                        c = '&';
                    } else if crate::text::eq_str(&ent, "quot") {
                        c = '"';
                    } else if crate::text::eq_str(&ent, "apos") {
                        c = '\'';
                    } else {
                        match numeric_entity_exec(&ent) {
                            Option::Some(nc) => {
                                c = nc;
                            },
                            Option::None => {
                                return Result::Err(
                                    String::from_str("unknown entity reference"),
                                );
                            },
                        }
                    }
                    out.push(c);
                    proof {
                        assert(entity_char(v@.subrange(i + 1, f as int)) == Option::Some(c));
                        assert(out@ =~= pre.push(c));
                        if spec_unescape_from(v@, f + 1) is Ok {
                            assert(pre + (seq![c] + spec_unescape_from(v@, f + 1)->Ok_0) =~= out@
                                + spec_unescape_from(v@, f + 1)->Ok_0);
                        }
                    }
                    i = f + 1;
                },
            }
        } else {
            out.push(v[i]);
            proof {
                assert(out@ =~= pre.push(v@[i as int]));
                if spec_unescape_from(v@, i + 1) is Ok {
                    assert(pre + (seq![v@[i as int]] + spec_unescape_from(v@, i + 1)->Ok_0) =~= out@
                        + spec_unescape_from(v@, i + 1)->Ok_0);
                }
            }
            i = i + 1;
        }
    }
    proof {
        assert(out@ + Seq::<char>::empty() =~= out@);
    }
    Result::Ok(out)
}

// ---------------------------------------------------------------------------
// Tag scanning.
// ---------------------------------------------------------------------------

/// A character that ends a tag or attribute name.
pub open spec fn is_name_stop(c: char) -> bool {
    is_space(c) || c == '>' || c == '/' || c == '=' || c == '<'
}

/// First position at or after `i` whose character stops a name.
pub open spec fn name_run_end(s: Seq<char>, i: int) -> int
    decreases s.len() - i,
{
    if 0 <= i < s.len() && !is_name_stop(s[i]) {
        name_run_end(s, i + 1)
    } else {
        i
    }
}

pub proof fn lemma_name_run_end(s: Seq<char>, i: int, k: int)
    requires
        0 <= i <= k <= s.len(),
        forall|j: int| i <= j < k ==> !is_name_stop(s[j]),
        k < s.len() ==> is_name_stop(s[k]),
    ensures
        name_run_end(s, i) == k,
    decreases k - i,
{
    if i < k {
        lemma_name_run_end(s, i + 1, k);
    }
}

/// Skip name characters from `i` on.
fn name_scan(v: &Vec<char>, i: usize) -> (r: usize)
    requires
        i <= v@.len(),
    ensures
        r as int == name_run_end(v@, i as int),
        i <= r <= v@.len(),
{
    let mut k: usize = i;
    while k < v.len() && !(v[k] == ' ' || v[k] == '\t' || v[k] == '\n' || v[k] == '\r' || v[k]
        == '>' || v[k] == '/' || v[k] == '=' || v[k] == '<')
        invariant
            i <= k <= v@.len(),
            forall|j: int| i <= j < k ==> !is_name_stop(v@[j]),
        decreases v@.len() - k,
    {
        k = k + 1;
    }
    proof {
        lemma_name_run_end(v@, i as int, k as int);
    }
    k
}

/// The outcome of scanning an attribute list: the attributes, whether the
/// tag closed itself, and the position just past the `>`.
pub enum AttrsStep {
    Fail(Seq<char>),
    Done(Seq<(Seq<char>, Seq<char>)>, bool, int),
}

/// Scan attributes from `pos` to the end of the tag: whitespace-separated
/// `name="value"` pairs with either quote character, the value kept raw,
/// then `>` or `/>`.
pub open spec fn spec_attrs(s: Seq<char>, pos: int) -> AttrsStep
    decreases s.len() - pos,
{
    let w = crate::mermaid_parser::ws_run_end(s, pos);
    if !(0 <= pos <= s.len()) || w >= s.len() {
        AttrsStep::Fail("unclosed tag"@)
    } else if s[w] == '>' {
        AttrsStep::Done(Seq::empty(), false, w + 1)
    } else if s[w] == '/' {
        if w + 1 < s.len() && s[w + 1] == '>' {
            AttrsStep::Done(Seq::empty(), true, w + 2)
        } else {
            AttrsStep::Fail("malformed tag end"@)
        }
    } else {
        let e = name_run_end(s, w);
        if e == w {
            AttrsStep::Fail("malformed attribute"@)
        } else {
            let w2 = crate::mermaid_parser::ws_run_end(s, e);
            if !(w2 < s.len() && s[w2] == '=') {
                AttrsStep::Fail("expected attribute value"@)
            } else {
                let w3 = crate::mermaid_parser::ws_run_end(s, w2 + 1);
                if !(w3 < s.len() && (s[w3] == '"' || s[w3] == '\'')) {
                    AttrsStep::Fail("expected quoted attribute value"@)
                } else {
                    match find_char(s, w3 + 1, s[w3]) {
                        Option::None => AttrsStep::Fail("unclosed attribute value"@),
                        Option::Some(f) => if pos < f + 1 <= s.len() {
                            match spec_attrs(s, f + 1) {
                                AttrsStep::Fail(m) => AttrsStep::Fail(m),
                                AttrsStep::Done(rest, empty, p2) => AttrsStep::Done(
                                    seq![(s.subrange(w, e), s.subrange(w3 + 1, f))] + rest,
                                    empty,
                                    p2,
                                ),
                            }
                        } else {
                            AttrsStep::Fail("unclosed attribute value"@)
                        },
                    }
                }
            }
        }
    }
}

/// Scan an attribute list executably.
fn attrs_exec(v: &Vec<char>, pos: usize) -> (r: Result<(Vec<(String, String)>, bool, usize), String>)
    requires
        pos <= v@.len(),
    ensures
        match r {
            Result::Ok((attrs, empty, p2)) => spec_attrs(v@, pos as int) == AttrsStep::Done(
                attrs_view(attrs@),
                empty,
                p2 as int,
            ) && pos < p2 <= v@.len(),
            Result::Err(m) => spec_attrs(v@, pos as int) matches AttrsStep::Fail(sm) && sm == m@,
        },
{
    let mut acc: Vec<(String, String)> = Vec::new();
    let mut cur: usize = pos;
    loop
        invariant
            pos <= cur <= v@.len(),
            spec_attrs(v@, pos as int) == match spec_attrs(v@, cur as int) {
                AttrsStep::Fail(m) => AttrsStep::Fail(m),
                AttrsStep::Done(rest, empty, p2) => AttrsStep::Done(
                    attrs_view(acc@) + rest,
                    empty,
                    p2,
                ),
            },
        decreases v@.len() - cur,
    {
        let w = crate::mermaid_parser::ws_scan(v, cur);
        if w >= v.len() {
            return Result::Err(String::from_str("unclosed tag"));
        }
        if v[w] == '>' {
            proof {
                assert(attrs_view(acc@) + Seq::<(Seq<char>, Seq<char>)>::empty() =~= attrs_view(
                    acc@,
                ));
            }
            return Result::Ok((acc, false, w + 1));
        }
        if v[w] == '/' {
            if w + 1 < v.len() && v[w + 1] == '>' {
                proof {
                    assert(attrs_view(acc@) + Seq::<(Seq<char>, Seq<char>)>::empty() =~= attrs_view(
                        acc@,
                    ));
                }
                return Result::Ok((acc, true, w + 2));
            }
            return Result::Err(String::from_str("malformed tag end"));
        }
        let e = name_scan(v, w);
        if e == w {
            return Result::Err(String::from_str("malformed attribute"));
        }
        let w2 = crate::mermaid_parser::ws_scan(v, e);
        if !(w2 < v.len()) {
            return Result::Err(String::from_str("expected attribute value"));
        }
        if v[w2] != '=' {
            return Result::Err(String::from_str("expected attribute value"));
        }
        let w3 = crate::mermaid_parser::ws_scan(v, w2 + 1);
        if !(w3 < v.len() && (v[w3] == '"' || v[w3] == '\'')) {
            return Result::Err(String::from_str("expected quoted attribute value"));
        }
        match crate::text::find_ch(v, w3 + 1, v[w3]) {
            Option::None => {
                return Result::Err(String::from_str("unclosed attribute value"));
            },
            Option::Some(f) => {
                let ghost pre = acc@;
                let name = crate::text::string_from_chars(&crate::text::subvec(v, w, e));
                let value = crate::text::string_from_chars(&crate::text::subvec(v, w3 + 1, f));
                acc.push((name, value));
                proof {
                    assert(attrs_view(acc@) =~= attrs_view(pre).push(
                        (v@.subrange(w as int, e as int), v@.subrange(w3 + 1, f as int)),
                    ));
                    match spec_attrs(v@, f + 1) {
                        AttrsStep::Fail(m) => {},
                        AttrsStep::Done(rest, empty, p2) => {
                            assert(attrs_view(acc@) + rest =~= attrs_view(pre) + (seq![
                                (v@.subrange(w as int, e as int), v@.subrange(w3 + 1, f as int)),
                            ] + rest));
                        },
                    }
                }
                cur = f + 1;
            },
        }
    }
}

} // verus!

verus! {

// ---------------------------------------------------------------------------
// The event scanner.
// ---------------------------------------------------------------------------

/// One scanning step: an error, or an optional event together with the
/// position where the next step starts.
pub enum LexStep {
    Fail(Seq<char>),
    Item(Option<SpecXmlEvent>, int),
}

/// Scan one event starting at `pos`: literal character data, a comment, a
/// document-type or processing declaration (producing no event), an end
/// tag, a start or self-closing tag with its attributes, or a run of text
/// up to the next `<`, entity-resolved and trimmed — whitespace-only text
/// produces no event.
pub open spec fn lex_step(s: Seq<char>, pos: int) -> LexStep {
    if s[pos] != '<' {
        let t_end = match find_char(s, pos, '<') {
            Option::Some(d) => d,
            Option::None => s.len() as int,
        };
        match spec_unescape(s.subrange(pos, t_end)) {
            Result::Err(m) => LexStep::Fail(m),
            Result::Ok(u) => {
                let t = spec_trim(u);
                if t.len() > 0 {
                    LexStep::Item(Option::Some(SpecXmlEvent::Text(t)), t_end)
                } else {
                    LexStep::Item(Option::None, t_end)
                }
            },
        }
    } else if matches_at(s, pos, "<![CDATA["@) {
        match find_at(s, pos + 9, "]]>"@) {
            Option::None => LexStep::Fail("unclosed CDATA section"@),
            Option::Some(j) => LexStep::Item(
                Option::Some(SpecXmlEvent::CData(s.subrange(pos + 9, j))),
                j + 3,
            ),
        }
    } else if matches_at(s, pos, "<!--"@) {
        match find_at(s, pos + 4, "-->"@) {
            Option::None => LexStep::Fail("unclosed comment"@),
            Option::Some(j) => LexStep::Item(Option::None, j + 3),
        }
    } else if matches_at(s, pos, "<!"@) {
        match find_char(s, pos + 2, '>') {
            Option::None => LexStep::Fail("unclosed document type declaration"@),
            Option::Some(j) => LexStep::Item(Option::None, j + 1),
        }
    } else if matches_at(s, pos, "<?"@) {
        match find_at(s, pos + 2, "?>"@) {
            Option::None => LexStep::Fail("unclosed processing instruction"@),
            Option::Some(j) => LexStep::Item(Option::None, j + 2),
        }
    } else if matches_at(s, pos, "</"@) {
        match find_char(s, pos + 2, '>') {
            Option::None => LexStep::Fail("unclosed end tag"@),
            Option::Some(j) => LexStep::Item(
                Option::Some(SpecXmlEvent::End(spec_trim(s.subrange(pos + 2, j)))),
                j + 1,
            ),
        }
    } else {
        let e = name_run_end(s, pos + 1);
        if e == pos + 1 {
            LexStep::Fail("invalid tag name"@)
        } else {
            match spec_attrs(s, e) {
                AttrsStep::Fail(m) => LexStep::Fail(m),
                AttrsStep::Done(attrs, empty, p2) => LexStep::Item(
                    Option::Some(
                        if empty {
                            SpecXmlEvent::Empty(s.subrange(pos + 1, e), attrs)
                        } else {
                            SpecXmlEvent::Start(s.subrange(pos + 1, e), attrs)
                        },
                    ),
                    p2,
                ),
            }
        }
    }
}

pub open spec fn opt_event_seq(op: Option<SpecXmlEvent>) -> Seq<SpecXmlEvent> {
    match op {
        Option::Some(e) => seq![e],
        Option::None => Seq::empty(),
    }
}

/// The whole event stream of the text, or the first scanning error.  A step
/// that would not advance is rejected, which keeps the scan finite; the
/// steps above always advance.
pub open spec fn spec_lex_from(s: Seq<char>, pos: int) -> Result<Seq<SpecXmlEvent>, Seq<char>>
    decreases s.len() - pos,
{
    if !(0 <= pos < s.len()) {
        Result::Ok(Seq::empty())
    } else {
        match lex_step(s, pos) {
            LexStep::Fail(m) => Result::Err(m),
            LexStep::Item(op, next) => if pos < next <= s.len() {
                match spec_lex_from(s, next) {
                    Result::Err(m) => Result::Err(m),
                    Result::Ok(rest) => Result::Ok(opt_event_seq(op) + rest),
                }
            } else {
                Result::Err("scanner made no progress"@)
            },
        }
    }
}

pub open spec fn spec_lex(s: Seq<char>) -> Result<Seq<SpecXmlEvent>, Seq<char>> {
    spec_lex_from(s, 0)
}

pub open spec fn opt_view(op: Option<XmlEvent>) -> Option<SpecXmlEvent> {
    match op {
        Option::Some(e) => Option::Some(e@),
        Option::None => Option::None,
    }
}

/// Scan one event executably.
fn lex_step_exec(v: &Vec<char>, pos: usize) -> (r: Result<(Option<XmlEvent>, usize), String>)
    requires
        pos < v@.len(),
    ensures
        match r {
            Result::Ok((op, next)) => lex_step(v@, pos as int) == LexStep::Item(
                opt_view(op),
                next as int,
            ) && pos < next <= v@.len(),
            Result::Err(m) => lex_step(v@, pos as int) == LexStep::Fail(m@),
        },
{
    proof {
        reveal_strlit("<![CDATA[");
        reveal_strlit("]]>");
        reveal_strlit("<!--");
        reveal_strlit("-->");
        reveal_strlit("<!");
        reveal_strlit("<?");
        reveal_strlit("?>");
        reveal_strlit("</");
    }
    let n = v.len();
    proof {
        assert(v@.len() == n);
    }
    let cdata_open = crate::text::str_to_chars("<![CDATA[");
    let cdata_close = crate::text::str_to_chars("]]>");
    let comment_open = crate::text::str_to_chars("<!--");
    let comment_close = crate::text::str_to_chars("-->");
    let bang = crate::text::str_to_chars("<!");
    let pi_open = crate::text::str_to_chars("<?");
    let pi_close = crate::text::str_to_chars("?>");
    let end_open = crate::text::str_to_chars("</");
    if v[pos] != '<' {
        let t_end = match crate::text::find_ch(v, pos, '<') {
            Option::Some(d) => d,
            Option::None => v.len(),
        };
        let raw = crate::text::subvec(v, pos, t_end);
        match unescape_exec(&raw) {
            Result::Err(m) => Result::Err(m),
            Result::Ok(u) => {
                let t = crate::text::trim_vec(&u);
                if t.len() > 0 {
                    Result::Ok(
                        (
                            Option::Some(XmlEvent::Text(crate::text::string_from_chars(&t))),
                            t_end,
                        ),
                    )
                } else {
                    Result::Ok((Option::None, t_end))
                }
            },
        }
    } else if crate::text::matches_at_exec(v, pos, &cdata_open) {
        match crate::text::find_pat(v, pos + 9, &cdata_close) {
            Option::None => Result::Err(String::from_str("unclosed CDATA section")),
            Option::Some(j) => Result::Ok(
                (
                    Option::Some(
                        XmlEvent::CData(
                            crate::text::string_from_chars(&crate::text::subvec(v, pos + 9, j)),
                        ),
                    ),
                    j + 3,
                ),
            ),
        }
    } else if crate::text::matches_at_exec(v, pos, &comment_open) {
        match crate::text::find_pat(v, pos + 4, &comment_close) {
            Option::None => Result::Err(String::from_str("unclosed comment")),
            Option::Some(j) => Result::Ok((Option::None, j + 3)),
        }
    } else if crate::text::matches_at_exec(v, pos, &bang) {
        match crate::text::find_ch(v, pos + 2, '>') {
            Option::None => Result::Err(String::from_str("unclosed document type declaration")),
            Option::Some(j) => Result::Ok((Option::None, j + 1)),
        }
    } else if crate::text::matches_at_exec(v, pos, &pi_open) {
        match crate::text::find_pat(v, pos + 2, &pi_close) {
            Option::None => Result::Err(String::from_str("unclosed processing instruction")),
            Option::Some(j) => Result::Ok((Option::None, j + 2)),
        }
    } else if crate::text::matches_at_exec(v, pos, &end_open) {
        match crate::text::find_ch(v, pos + 2, '>') {
            Option::None => Result::Err(String::from_str("unclosed end tag")),
            Option::Some(j) => Result::Ok(
                (
                    Option::Some(
                        XmlEvent::End(
                            crate::text::string_from_chars(
                                &crate::text::trim_vec(&crate::text::subvec(v, pos + 2, j)),
                            ),
                        ),
                    ),
                    j + 1,
                ),
            ),
        }
    } else {
        let e = name_scan(v, pos + 1);
        if e == pos + 1 {
            return Result::Err(String::from_str("invalid tag name"));
        }
        match attrs_exec(v, e) {
            Result::Err(m) => Result::Err(m),
            Result::Ok((attrs, empty, p2)) => {
                let name = crate::text::string_from_chars(&crate::text::subvec(v, pos + 1, e));
                if empty {
                    Result::Ok((Option::Some(XmlEvent::Empty(name, attrs)), p2))
                } else {
                    Result::Ok((Option::Some(XmlEvent::Start(name, attrs)), p2))
                }
            },
        }
    }
}

/// The event stream of a whole text, or the first scanning error as an
/// `InvalidXml` error.
pub fn lex_document(content: &str) -> (r: Result<Vec<XmlEvent>, ContextError>)
    ensures
        match r {
            Result::Ok(evs) => spec_lex_from(content@, 0) == Result::Ok::<
                Seq<SpecXmlEvent>,
                Seq<char>,
            >(evs.deep_view()),
            Result::Err(e) => {
                &&& spec_lex_from(content@, 0) is Err
                &&& e@ == crate::errors::SpecContextError::InvalidXml(
                    spec_lex_from(content@, 0)->Err_0,
                )
            },
        },
{
    let v = crate::text::str_to_chars(content);
    let mut events: Vec<XmlEvent> = Vec::new();
    let mut pos: usize = 0;
    while pos < v.len()
        invariant
            pos <= v@.len(),
            v@ == content@,
            spec_lex_from(v@, 0) == match spec_lex_from(v@, pos as int) {
                Result::Ok(rest) => Result::Ok::<Seq<SpecXmlEvent>, Seq<char>>(
                    events.deep_view() + rest,
                ),
                Result::Err(m) => Result::Err::<Seq<SpecXmlEvent>, Seq<char>>(m),
            },
        decreases v@.len() - pos,
    {
        let ghost pre = events.deep_view();
        match lex_step_exec(&v, pos) {
            Result::Err(m) => {
                return Result::Err(ContextError::InvalidXml(m));
            },
            Result::Ok((op, next)) => {
                match op {
                    Option::Some(ev) => {
                        events.push(ev);
                        proof {
                            assert(events.deep_view() =~= pre + opt_event_seq(
                                lex_step(v@, pos as int)->Item_0,
                            ));
                        }
                    },
                    Option::None => {
                        proof {
                            assert(events.deep_view() =~= pre + opt_event_seq(
                                lex_step(v@, pos as int)->Item_0,
                            ));
                        }
                    },
                }
                proof {
                    match spec_lex_from(v@, next as int) {
                        Result::Ok(rest) => {
                            assert(events.deep_view() + rest =~= pre + (opt_event_seq(
                                lex_step(v@, pos as int)->Item_0,
                            ) + rest));
                        },
                        Result::Err(m) => {},
                    }
                }
                pos = next;
            },
        }
    }
    proof {
        assert(events.deep_view() + Seq::<SpecXmlEvent>::empty() =~= events.deep_view());
    }
    Result::Ok(events)
}

} // verus!
