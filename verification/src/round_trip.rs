use vstd::prelude::*;

use crate::text::find_char;
use crate::text::lemma_find_char_skip;
use crate::xml_events::entity_char;
use crate::xml_events::spec_unescape;
use crate::xml_events::spec_unescape_from;
use crate::xml_serializer::escape_char;
use crate::xml_serializer::spec_escape;
use crate::xml_serializer::spec_escape_from;
use crate::models::SpecSection;
use crate::xml_events::SpecXmlEvent;
use crate::xml_parser::advance;
use crate::xml_parser::p_cdata_raw;
use crate::xml_parser::p_read_cdata;
use crate::xml_parser::p_section;
use crate::xml_parser::p_section_loop;
use crate::xml_parser::p_sections_list;
use crate::xml_parser::attr_last;
use crate::xml_parser::attr_or_empty;
use crate::models::SpecVariable;
use crate::xml_parser::p_text_raw;
use crate::xml_parser::p_read_text;
use crate::xml_parser::p_variables;
use crate::errors::SpecContextError;
use crate::models::SpecMetaData;
use crate::text::join_with;
use crate::xml_parser::p_meta;
use crate::models::SpecContextDocument;

verus! {

// ---------------------------------------------------------------------------
// Round-trip laws: what the serializer writes, the reader recovers.
// ---------------------------------------------------------------------------

/// The first occurrence of a character in a prefix is its first occurrence
/// in any extension of that prefix.
proof fn lemma_find_char_shift(a: Seq<char>, b: Seq<char>, k: int, c: char)
    requires
        0 <= k,
    ensures
        find_char(a + b, a.len() + k, c) == match find_char(b, k, c) {
            Option::None => Option::None::<int>,
            Option::Some(j) => Option::Some(a.len() + j),
        },
    decreases b.len() - k,
{
    if k >= b.len() {
    } else {
        assert((a + b)[a.len() + k] == b[k]);
        if b[k] != c {
            lemma_find_char_shift(a, b, k + 1, c);
        }
    }
}

/// What a successful character search guarantees.
proof fn lemma_find_char_props(s: Seq<char>, from: int, c: char)
    requires
        find_char(s, from, c) is Some,
    ensures
        from <= find_char(s, from, c)->Some_0 < s.len(),
        s[find_char(s, from, c)->Some_0] == c,
    decreases s.len() - from,
{
    if 0 <= from < s.len() && s[from] != c {
        lemma_find_char_props(s, from + 1, c);
    }
}

/// Resolving entities only reads the text from the given position on.
proof fn lemma_unescape_shift(a: Seq<char>, b: Seq<char>, k: int)
    requires
        0 <= k,
    ensures
        spec_unescape_from(a + b, a.len() + k) == spec_unescape_from(b, k),
    decreases b.len() - k,
{
    if k >= b.len() {
    } else {
        assert((a + b)[a.len() + k] == b[k]);
        if b[k] == '&' {
            lemma_find_char_shift(a, b, k + 1, ';');
            match find_char(b, k + 1, ';') {
                Option::None => {},
                Option::Some(f) => {
                    lemma_find_char_props(b, k + 1, ';');
                    assert((a + b).subrange(a.len() + k + 1, a.len() + f) =~= b.subrange(
                        k + 1,
                        f,
                    ));
                    match entity_char(b.subrange(k + 1, f)) {
                        Option::None => {},
                        Option::Some(c) => {
                            lemma_unescape_shift(a, b, f + 1);
                        },
                    }
                },
            }
        } else {
            lemma_unescape_shift(a, b, k + 1);
        }
    }
}

/// One escaped character at the head of a text resolves back to itself.
proof fn lemma_unescape_one(c: char, rest: Seq<char>, tail: Seq<char>)
    requires
        spec_unescape(rest) == Result::Ok::<Seq<char>, Seq<char>>(tail),
    ensures
        spec_unescape(escape_char(c) + rest) == Result::Ok::<Seq<char>, Seq<char>>(
            seq![c] + tail,
        ),
{
    reveal_strlit("&amp;");
    reveal_strlit("&lt;");
    reveal_strlit("&gt;");
    reveal_strlit("&quot;");
    reveal_strlit("&apos;");
    reveal_strlit("lt");
    reveal_strlit("gt");
    reveal_strlit("amp");
    reveal_strlit("quot");
    reveal_strlit("apos");
    let e = escape_char(c) + rest;
    if c == '&' || c == '<' || c == '>' || c == '"' || c == '\'' {
        let h = escape_char(c);
        assert(forall|j: int| 0 <= j < h.len() ==> e[j] == h[j]);
        assert(e[0] == '&');
        assert(forall|j: int| 1 <= j < h.len() - 1 ==> e[j] != ';');
        assert(e[h.len() - 1] == ';');
        lemma_find_char_skip(e, 1, h.len() - 1, ';');
        assert(find_char(e, 1, ';') == Option::Some(h.len() - 1));
        assert(e.subrange(1, h.len() - 1) =~= h.subrange(1, h.len() - 1));
        let ent = e.subrange(1, h.len() - 1);
        if c == '&' {
            assert(ent =~= "amp"@);
            assert(ent != "lt"@ && ent != "gt"@) by {
                assert(ent.len() == 3);
            }
            assert(entity_char(ent) == Option::Some(c));
        } else if c == '<' {
            assert(ent =~= "lt"@);
            assert(entity_char(ent) == Option::Some(c));
        } else if c == '>' {
            assert(ent =~= "gt"@);
            assert(ent != "lt"@) by {
                assert(ent[0] == 'g' && "lt"@[0] == 'l');
            }
            assert(entity_char(ent) == Option::Some(c));
        } else if c == '"' {
            assert(ent =~= "quot"@);
            assert(ent != "lt"@ && ent != "gt"@ && ent != "amp"@) by {
                assert(ent.len() == 4);
            }
            assert(entity_char(ent) == Option::Some(c));
        } else {
            assert(ent =~= "apos"@);
            assert(ent != "lt"@ && ent != "gt"@ && ent != "amp"@) by {
                assert(ent.len() == 4);
            }
            assert(ent != "quot"@) by {
                assert(ent[0] == 'a' && "quot"@[0] == 'q');
            }
            assert(entity_char(ent) == Option::Some(c));
        }
        assert(entity_char(e.subrange(1, h.len() - 1)) == Option::Some(c));
        lemma_unescape_shift(h, rest, 0);
        assert(spec_unescape_from(e, h.len() as int) == Result::Ok::<Seq<char>, Seq<char>>(tail));
    } else {
        assert(e[0] == c);
        assert(e[0] != '&');
        lemma_unescape_shift(seq![c], rest, 0);
        assert(spec_unescape_from(e, 1) == Result::Ok::<Seq<char>, Seq<char>>(tail));
    }
}

proof fn lemma_unescape_escape_from(s: Seq<char>, i: int)
    requires
        0 <= i <= s.len(),
    ensures
        spec_unescape(spec_escape_from(s, i)) == Result::Ok::<Seq<char>, Seq<char>>(s.skip(i)),
    decreases s.len() - i,
{
    if i == s.len() {
        assert(s.skip(i) =~= Seq::<char>::empty());
    } else {
        lemma_unescape_escape_from(s, i + 1);
        lemma_unescape_one(s[i], spec_escape_from(s, i + 1), s.skip(i + 1));
        assert(seq![s[i]] + s.skip(i + 1) =~= s.skip(i));
    }
}

/// Entity escaping round-trips: resolving the references the serializer
/// writes recovers the text that was escaped, exactly and for every text.
pub proof fn lemma_unescape_escape(s: Seq<char>)
    ensures
        spec_unescape(spec_escape(s)) == Result::Ok::<Seq<char>, Seq<char>>(s),
{
    lemma_unescape_escape_from(s, 0);
    assert(s.skip(0) =~= s);
}

} // verus!

verus! {

// ---------------------------------------------------------------------------
// Parse-level round trip: the canonical event stream that the serializer's
// output denotes parses back to the value it was rendered from.
// ---------------------------------------------------------------------------

/// Reading a content body only looks at events from the given position on.
proof fn lemma_cdata_shift(a: Seq<SpecXmlEvent>, b: Seq<SpecXmlEvent>, k: int)
    requires
        0 <= k,
    ensures
        p_cdata_raw(a + b, a.len() + k) == (p_cdata_raw(b, k).0, a.len() + p_cdata_raw(b, k).1),
    decreases b.len() - k,
{
    if k >= b.len() {
        assert((a + b).len() == a.len() + b.len());
    } else {
        assert((a + b)[a.len() + k] == b[k]);
        match b[k] {
            SpecXmlEvent::Text(_) => {
                lemma_cdata_shift(a, b, k + 1);
            },
            SpecXmlEvent::CData(_) => {
                lemma_cdata_shift(a, b, k + 1);
            },
            SpecXmlEvent::End(_) => {},
            _ => {
                lemma_cdata_shift(a, b, k + 1);
            },
        }
    }
}

/// Reading a section only looks at events from the given position on.
proof fn lemma_section_shift(
    a: Seq<SpecXmlEvent>,
    b: Seq<SpecXmlEvent>,
    k: int,
    id: Seq<char>,
    section_type: Seq<char>,
    content: Seq<char>,
    ref_target: Option<Seq<char>>,
    children: Seq<SpecSection>,
)
    requires
        0 <= k,
    ensures
        p_section_loop(a + b, a.len() + k, id, section_type, content, ref_target, children) == (
            p_section_loop(b, k, id, section_type, content, ref_target, children).0,
            a.len() + p_section_loop(b, k, id, section_type, content, ref_target, children).1,
        ),
    decreases b.len() - k, 0nat,
{
    if k >= b.len() {
        assert((a + b).len() == a.len() + b.len());
    } else {
        assert((a + b)[a.len() + k] == b[k]);
        match b[k] {
            SpecXmlEvent::Start(n, attrs) => {
                if n == "content"@ {
                    lemma_cdata_shift(a, b, k + 1);
                    let (c, j) = p_read_cdata(b, k + 1);
                    lemma_cdata_bounds(b, k + 1);
                    lemma_section_shift(
                        a,
                        b,
                        advance(k, j, b.len() as int),
                        id,
                        section_type,
                        c,
                        ref_target,
                        children,
                    );
                    assert(advance(
                        a.len() + k,
                        a.len() + j,
                        a.len() + b.len() as int,
                    ) == a.len() + advance(k, j, b.len() as int));
                } else if n == "section"@ {
                    lemma_p_section_shift(a, b, k + 1, attrs);
                    let (child, j) = p_section(b, k + 1, attrs);
                    lemma_section_bounds(b, k + 1, attrs);
                    lemma_section_shift(
                        a,
                        b,
                        advance(k, j, b.len() as int),
                        id,
                        section_type,
                        content,
                        ref_target,
                        children.push(child),
                    );
                    assert(advance(
                        a.len() + k,
                        a.len() + j,
                        a.len() + b.len() as int,
                    ) == a.len() + advance(k, j, b.len() as int));
                } else {
                    lemma_section_shift(
                        a,
                        b,
                        k + 1,
                        id,
                        section_type,
                        content,
                        ref_target,
                        children,
                    );
                }
            },
            SpecXmlEvent::End(n) => {
                if n != "section"@ {
                    lemma_section_shift(
                        a,
                        b,
                        k + 1,
                        id,
                        section_type,
                        content,
                        ref_target,
                        children,
                    );
                }
            },
            _ => {
                lemma_section_shift(a, b, k + 1, id, section_type, content, ref_target, children);
            },
        }
    }
}

proof fn lemma_p_section_shift(
    a: Seq<SpecXmlEvent>,
    b: Seq<SpecXmlEvent>,
    k: int,
    attrs: Seq<(Seq<char>, Seq<char>)>,
)
    requires
        0 <= k,
    ensures
        p_section(a + b, a.len() + k, attrs) == (
            p_section(b, k, attrs).0,
            a.len() + p_section(b, k, attrs).1,
        ),
    decreases b.len() - k, 1nat,
{
    lemma_section_shift(
        a,
        b,
        k,
        crate::xml_parser::attr_or_empty(attrs, "id"@),
        crate::xml_parser::attr_or_empty(attrs, "type"@),
        Seq::empty(),
        crate::xml_parser::attr_last(attrs, "refTarget"@),
        Seq::empty(),
    );
}

/// Reading a content body never moves backwards nor past the end.
proof fn lemma_cdata_bounds(evs: Seq<SpecXmlEvent>, i: int)
    requires
        0 <= i <= evs.len(),
    ensures
        i <= p_cdata_raw(evs, i).1 <= evs.len(),
    decreases evs.len() - i,
{
    if i < evs.len() {
        match evs[i] {
            SpecXmlEvent::Text(_) => lemma_cdata_bounds(evs, i + 1),
            SpecXmlEvent::CData(_) => lemma_cdata_bounds(evs, i + 1),
            SpecXmlEvent::End(_) => {},
            _ => lemma_cdata_bounds(evs, i + 1),
        }
    }
}

/// Reading a section never moves backwards nor past the end.
proof fn lemma_section_loop_bounds(
    evs: Seq<SpecXmlEvent>,
    i: int,
    id: Seq<char>,
    section_type: Seq<char>,
    content: Seq<char>,
    ref_target: Option<Seq<char>>,
    children: Seq<SpecSection>,
)
    requires
        0 <= i <= evs.len(),
    ensures
        i <= p_section_loop(evs, i, id, section_type, content, ref_target, children).1
            <= evs.len(),
    decreases evs.len() - i, 0nat,
{
    if i < evs.len() {
        match evs[i] {
            SpecXmlEvent::Start(n, attrs) => {
                if n == "content"@ {
                    lemma_cdata_bounds(evs, i + 1);
                    let (c, j) = p_read_cdata(evs, i + 1);
                    lemma_section_loop_bounds(
                        evs,
                        advance(i, j, evs.len() as int),
                        id,
                        section_type,
                        c,
                        ref_target,
                        children,
                    );
                } else if n == "section"@ {
                    let (child, j) = p_section(evs, i + 1, attrs);
                    lemma_section_loop_bounds(
                        evs,
                        advance(i, j, evs.len() as int),
                        id,
                        section_type,
                        content,
                        ref_target,
                        children.push(child),
                    );
                } else {
                    lemma_section_loop_bounds(
                        evs,
                        i + 1,
                        id,
                        section_type,
                        content,
                        ref_target,
                        children,
                    );
                }
            },
            SpecXmlEvent::End(n) => {
                if n != "section"@ {
                    lemma_section_loop_bounds(
                        evs,
                        i + 1,
                        id,
                        section_type,
                        content,
                        ref_target,
                        children,
                    );
                }
            },
            _ => {
                lemma_section_loop_bounds(
                    evs,
                    i + 1,
                    id,
                    section_type,
                    content,
                    ref_target,
                    children,
                );
            },
        }
    }
}

proof fn lemma_section_bounds(evs: Seq<SpecXmlEvent>, i: int, attrs: Seq<(Seq<char>, Seq<char>)>)
    requires
        0 <= i <= evs.len(),
    ensures
        i <= p_section(evs, i, attrs).1 <= evs.len(),
    decreases evs.len() - i, 1nat,
{
    lemma_section_loop_bounds(
        evs,
        i,
        crate::xml_parser::attr_or_empty(attrs, "id"@),
        crate::xml_parser::attr_or_empty(attrs, "type"@),
        Seq::empty(),
        crate::xml_parser::attr_last(attrs, "refTarget"@),
        Seq::empty(),
    );
}

} // verus!

verus! {

/// The attribute list the serializer writes for a section.
pub open spec fn sec_attrs(s: SpecSection) -> Seq<(Seq<char>, Seq<char>)> {
    seq![("id"@, s.id), ("type"@, s.section_type)] + (match s.ref_target {
        Option::None => Seq::<(Seq<char>, Seq<char>)>::empty(),
        Option::Some(rt) => seq![("refTarget"@, rt)],
    })
}

/// The literal-data body the serializer writes for a content text.
pub open spec fn cdata_body(c: Seq<char>) -> Seq<char> {
    "\n"@ + crate::text::spec_trim(c) + "\n"@
}

/// The event stream one rendered flat section denotes.
pub open spec fn sec_events(s: SpecSection) -> Seq<SpecXmlEvent> {
    seq![
        SpecXmlEvent::Start("section"@, sec_attrs(s)),
        SpecXmlEvent::Start("content"@, Seq::empty()),
        SpecXmlEvent::CData(cdata_body(s.content)),
        SpecXmlEvent::End("content"@),
        SpecXmlEvent::End("section"@),
    ]
}

pub open spec fn secs_events(ss: Seq<SpecSection>) -> Seq<SpecXmlEvent>
    decreases ss.len(),
{
    if ss.len() == 0 {
        Seq::empty()
    } else {
        sec_events(ss[0]) + secs_events(ss.skip(1))
    }
}

/// What looking attributes up in a serialized section's attribute list
/// yields: exactly the section's own fields.
proof fn lemma_sec_attrs(s: SpecSection)
    ensures
        attr_or_empty(sec_attrs(s), "id"@) == s.id,
        attr_or_empty(sec_attrs(s), "type"@) == s.section_type,
        attr_last(sec_attrs(s), "refTarget"@) == s.ref_target,
{
    reveal_strlit("id");
    reveal_strlit("type");
    reveal_strlit("refTarget");
    reveal_with_fuel(crate::xml_parser::attr_last, 4);
    let a = sec_attrs(s);
    assert("id"@.len() == 2 && "type"@.len() == 4 && "refTarget"@.len() == 9);
    assert("type"@ != "id"@);
    assert("refTarget"@ != "id"@);
    assert("refTarget"@ != "type"@);
    match s.ref_target {
        Option::None => {
            assert(a =~= seq![("id"@, s.id), ("type"@, s.section_type)]);
            assert(a.last() == ("type"@, s.section_type));
            assert(a.drop_last() =~= seq![("id"@, s.id)]);
            assert(a.drop_last().last() == ("id"@, s.id));
            assert(a.drop_last().drop_last() =~= Seq::<(Seq<char>, Seq<char>)>::empty());
        },
        Option::Some(rt) => {
            assert(a =~= seq![("id"@, s.id), ("type"@, s.section_type), ("refTarget"@, rt)]);
            assert(a.last() == ("refTarget"@, rt));
            assert(a.drop_last() =~= seq![("id"@, s.id), ("type"@, s.section_type)]);
            assert(a.drop_last().last() == ("type"@, s.section_type));
            assert(a.drop_last().drop_last() =~= seq![("id"@, s.id)]);
            assert(a.drop_last().drop_last().last() == ("id"@, s.id));
            assert(a.drop_last().drop_last().drop_last() =~= Seq::<
                (Seq<char>, Seq<char>),
            >::empty());
        },
    }
}

/// Where the leading space run of a text ends.
proof fn lemma_leading_bound(s: Seq<char>)
    ensures
        crate::text::leading_spaces(s) <= s.len(),
        forall|j: int| 0 <= j < crate::text::leading_spaces(s) ==> crate::text::is_space(s[j]),
        crate::text::leading_spaces(s) < s.len() ==> !crate::text::is_space(
            s[crate::text::leading_spaces(s) as int],
        ),
    decreases s.len(),
{
    if s.len() > 0 && crate::text::is_space(s[0]) {
        lemma_leading_bound(s.skip(1));
        assert forall|j: int|
            0 <= j < crate::text::leading_spaces(s) implies crate::text::is_space(#[trigger] s[j]) by {
            if j >= 1 {
                assert(crate::text::is_space(s.skip(1)[j - 1]));
            }
        }
    }
}

/// Where the trailing space run of a text begins.
proof fn lemma_trailing_bound(s: Seq<char>)
    ensures
        crate::text::trailing_spaces(s) <= s.len(),
        forall|j: int|
            s.len() - crate::text::trailing_spaces(s) <= j < s.len() ==> crate::text::is_space(
                s[j],
            ),
        crate::text::trailing_spaces(s) < s.len() ==> !crate::text::is_space(
            s[s.len() - crate::text::trailing_spaces(s) - 1],
        ),
    decreases s.len(),
{
    if s.len() > 0 && crate::text::is_space(s[s.len() - 1]) {
        lemma_trailing_bound(s.take(s.len() - 1));
        assert forall|j: int|
            s.len() - crate::text::trailing_spaces(s) <= j < s.len() implies crate::text::is_space(
            #[trigger] s[j],
        ) by {
            if j < s.len() - 1 {
                assert(crate::text::is_space(s.take(s.len() - 1)[j]));
            }
        }
    }
}

/// A non-empty trim-stable text neither starts nor ends with whitespace.
proof fn lemma_trim_stable_ends(c: Seq<char>)
    requires
        crate::text::spec_trim(c) == c,
        c.len() > 0,
    ensures
        !crate::text::is_space(c[0]),
        !crate::text::is_space(c[c.len() - 1]),
{
    let l = crate::text::leading_spaces(c);
    let t = crate::text::trailing_spaces(c);
    lemma_leading_bound(c);
    lemma_trailing_bound(c);
    assert(l != c.len()) by {
        if l == c.len() {
            assert(crate::text::spec_trim(c).len() == 0);
        }
    }
    assert(l + t < c.len()) by {
        if c.len() - t <= l {
            assert(crate::text::is_space(c[l as int]));
        }
    }
    assert(crate::text::spec_trim(c).len() == c.len() - t - l);
    assert(l == 0 && t == 0);
}

/// Trimming the padded literal-data body recovers a trim-stable content.
proof fn lemma_trim_cdata_body(c: Seq<char>)
    requires
        crate::text::spec_trim(c) == c,
    ensures
        crate::text::spec_trim(cdata_body(c)) == c,
{
    reveal_strlit("\n");
    let p = cdata_body(c);
    assert(p.len() == c.len() + 2);
    assert(p[0] == '\n');
    assert(p[p.len() - 1] == '\n');
    if c.len() == 0 {
        crate::text::lemma_leading_spaces(p, 2);
        assert(crate::text::spec_trim(p) =~= c);
    } else {
        lemma_trim_stable_ends(c);
        assert(p[1] == c[0]);
        assert(p[p.len() - 2] == c[c.len() - 1]);
        crate::text::lemma_leading_spaces(p, 1);
        crate::text::lemma_trailing_spaces(p, 1);
        assert(crate::text::spec_trim(p) =~= c);
    }
}

/// A rendered flat section's events, start tag already consumed, parse back
/// to exactly that section, whatever events follow.
proof fn lemma_parse_sec_events(s: SpecSection, rest: Seq<SpecXmlEvent>)
    requires
        s.children.len() == 0,
        crate::text::spec_trim(s.content) == s.content,
    ensures
        p_section(sec_events(s).skip(1) + rest, 0, sec_attrs(s)) == (s, 4int),
{
    reveal_strlit("content");
    reveal_strlit("section");
    reveal_with_fuel(crate::xml_parser::p_section_loop, 4);
    reveal_with_fuel(crate::xml_parser::p_cdata_raw, 4);
    let e = sec_events(s).skip(1) + rest;
    assert(e[0] == SpecXmlEvent::Start("content"@, Seq::<(Seq<char>, Seq<char>)>::empty()));
    assert(e[1] == SpecXmlEvent::CData(cdata_body(s.content)));
    assert(e[2] == SpecXmlEvent::End("content"@));
    assert(e[3] == SpecXmlEvent::End("section"@));
    lemma_sec_attrs(s);
    lemma_trim_cdata_body(s.content);
    assert(p_cdata_raw(e, 2).1 == 3);
    assert(p_cdata_raw(e, 1) == (cdata_body(s.content) + Seq::<char>::empty(), 3int));
    assert(cdata_body(s.content) + Seq::<char>::empty() =~= cdata_body(s.content));
    assert(p_read_cdata(e, 1) == (s.content, 3int));
    assert("section"@ != "content"@) by {
        assert("section"@[0] == 's' && "content"@[0] == 'c');
    }
    assert(advance(0, 3, e.len() as int) == 3);
    let built = SpecSection {
        id: s.id,
        section_type: s.section_type,
        content: s.content,
        ref_target: s.ref_target,
        children: Seq::empty(),
    };
    assert(built.children =~= s.children);
    assert(built == s);
    assert(p_section(e, 0, sec_attrs(s)) == p_section_loop(
        e,
        0,
        s.id,
        s.section_type,
        Seq::empty(),
        s.ref_target,
        Seq::empty(),
    ));
    assert(p_section_loop(e, 3, s.id, s.section_type, s.content, s.ref_target, Seq::empty()) == (
        built,
        4int,
    ));
    assert(p_section_loop(e, 0, s.id, s.section_type, Seq::empty(), s.ref_target, Seq::empty())
        == p_section_loop(e, 3, s.id, s.section_type, s.content, s.ref_target, Seq::empty()));
}

/// Reading a section list only looks at events from the given position on.
proof fn lemma_sections_list_shift(a: Seq<SpecXmlEvent>, b: Seq<SpecXmlEvent>, k: int)
    requires
        0 <= k,
    ensures
        p_sections_list(a + b, a.len() + k) == (
            p_sections_list(b, k).0,
            a.len() + p_sections_list(b, k).1,
        ),
    decreases b.len() - k,
{
    if k >= b.len() {
        assert((a + b).len() == a.len() + b.len());
    } else {
        assert((a + b)[a.len() + k] == b[k]);
        match b[k] {
            SpecXmlEvent::Start(n, attrs) => {
                if n == "section"@ {
                    lemma_p_section_shift(a, b, k + 1, attrs);
                    let (sec, j) = p_section(b, k + 1, attrs);
                    lemma_section_bounds(b, k + 1, attrs);
                    lemma_sections_list_shift(a, b, advance(k, j, b.len() as int));
                    assert(advance(a.len() + k, a.len() + j, a.len() + b.len() as int) == a.len()
                        + advance(k, j, b.len() as int));
                } else {
                    lemma_sections_list_shift(a, b, k + 1);
                }
            },
            SpecXmlEvent::End(n) => {
                if n != "sections"@ {
                    lemma_sections_list_shift(a, b, k + 1);
                }
            },
            _ => {
                lemma_sections_list_shift(a, b, k + 1);
            },
        }
    }
}

/// A rendered list of flat sections, followed by the closing sections tag,
/// parses back to exactly those sections, whatever events follow.
pub proof fn lemma_parse_secs_events(ss: Seq<SpecSection>, rest: Seq<SpecXmlEvent>)
    requires
        forall|x: int| 0 <= x < ss.len() ==> (#[trigger] ss[x]).children.len() == 0,
        forall|x: int|
            0 <= x < ss.len() ==> crate::text::spec_trim((#[trigger] ss[x]).content)
                == ss[x].content,
    ensures
        p_sections_list(secs_events(ss) + seq![SpecXmlEvent::End("sections"@)] + rest, 0) == (
            ss,
            secs_events(ss).len() as int + 1,
        ),
    decreases ss.len(),
{
    reveal_strlit("section");
    reveal_strlit("sections");
    let e = secs_events(ss) + seq![SpecXmlEvent::End("sections"@)] + rest;
    if ss.len() == 0 {
        assert(e[0] == SpecXmlEvent::End("sections"@));
        assert(p_sections_list(e, 0) == (Seq::<SpecSection>::empty(), 1int));
        assert(ss =~= Seq::<SpecSection>::empty());
    } else {
        let s0 = ss[0];
        let tail_events = secs_events(ss.skip(1)) + seq![SpecXmlEvent::End("sections"@)] + rest;
        assert(e =~= sec_events(s0) + tail_events);
        assert(e[0] == SpecXmlEvent::Start("section"@, sec_attrs(s0)));
        // The section itself.
        assert(e =~= seq![e[0]] + (sec_events(s0).skip(1) + tail_events));
        lemma_p_section_shift(seq![e[0]], sec_events(s0).skip(1) + tail_events, 0, sec_attrs(s0));
        lemma_parse_sec_events(s0, tail_events);
        assert(p_section(e, 1, sec_attrs(s0)) == (s0, 5int));
        assert(advance(0, 5, e.len() as int) == 5);
        // The remaining sections.
        assert(e =~= sec_events(s0) + tail_events);
        lemma_sections_list_shift(sec_events(s0), tail_events, 0);
        lemma_parse_secs_events(ss.skip(1), rest);
        assert(p_sections_list(e, 5) == (
            ss.skip(1),
            5 + secs_events(ss.skip(1)).len() as int + 1,
        ));
        assert(seq![s0] + ss.skip(1) =~= ss);
        assert(secs_events(ss).len() == 5 + secs_events(ss.skip(1)).len());
        assert(p_sections_list(e, 0) == (ss, secs_events(ss).len() as int + 1));
    }
}

} // verus!

verus! {

// ---------------------------------------------------------------------------
// Variables round trip at the event level.
// ---------------------------------------------------------------------------

/// Reading a text body only looks at events from the given position on.
proof fn lemma_text_shift(a: Seq<SpecXmlEvent>, b: Seq<SpecXmlEvent>, k: int)
    requires
        0 <= k,
    ensures
        p_text_raw(a + b, a.len() + k) == (p_text_raw(b, k).0, a.len() + p_text_raw(b, k).1),
    decreases b.len() - k,
{
    if k >= b.len() {
        assert((a + b).len() == a.len() + b.len());
    } else {
        assert((a + b)[a.len() + k] == b[k]);
        match b[k] {
            SpecXmlEvent::Text(_) => {
                lemma_text_shift(a, b, k + 1);
            },
            SpecXmlEvent::End(_) => {},
            _ => {
                lemma_text_shift(a, b, k + 1);
            },
        }
    }
}

/// Reading a text body never moves backwards nor past the end.
proof fn lemma_text_bounds(evs: Seq<SpecXmlEvent>, i: int)
    requires
        0 <= i <= evs.len(),
    ensures
        i <= p_text_raw(evs, i).1 <= evs.len(),
    decreases evs.len() - i,
{
    if i < evs.len() {
        match evs[i] {
            SpecXmlEvent::Text(_) => lemma_text_bounds(evs, i + 1),
            SpecXmlEvent::End(_) => {},
            _ => lemma_text_bounds(evs, i + 1),
        }
    }
}

/// Reading the variables block only looks at events from the given position
/// on.
proof fn lemma_variables_shift(a: Seq<SpecXmlEvent>, b: Seq<SpecXmlEvent>, k: int)
    requires
        0 <= k,
    ensures
        p_variables(a + b, a.len() + k) == (
            p_variables(b, k).0,
            a.len() + p_variables(b, k).1,
        ),
    decreases b.len() - k,
{
    if k >= b.len() {
        assert((a + b).len() == a.len() + b.len());
    } else {
        assert((a + b)[a.len() + k] == b[k]);
        match b[k] {
            SpecXmlEvent::Start(n, attrs) => {
                if n == "var"@ {
                    lemma_text_shift(a, b, k + 1);
                    lemma_text_bounds(b, k + 1);
                    let (value, j) = p_read_text(b, k + 1);
                    lemma_variables_shift(a, b, advance(k, j, b.len() as int));
                    assert(advance(a.len() + k, a.len() + j, a.len() + b.len() as int) == a.len()
                        + advance(k, j, b.len() as int));
                } else {
                    lemma_variables_shift(a, b, k + 1);
                }
            },
            SpecXmlEvent::Empty(n, attrs) => {
                lemma_variables_shift(a, b, k + 1);
            },
            SpecXmlEvent::End(n) => {
                if n != "variables"@ {
                    lemma_variables_shift(a, b, k + 1);
                }
            },
            _ => {
                lemma_variables_shift(a, b, k + 1);
            },
        }
    }
}

/// The event stream one rendered variable denotes: the name attribute, the
/// value as trimmed text — absent entirely when the value is empty.
pub open spec fn var_events(v: SpecVariable) -> Seq<SpecXmlEvent> {
    if v.value.len() == 0 {
        seq![
            SpecXmlEvent::Start("var"@, seq![("name"@, v.name)]),
            SpecXmlEvent::End("var"@),
        ]
    } else {
        seq![
            SpecXmlEvent::Start("var"@, seq![("name"@, v.name)]),
            SpecXmlEvent::Text(v.value),
            SpecXmlEvent::End("var"@),
        ]
    }
}

pub open spec fn vars_events(vs: Seq<SpecVariable>) -> Seq<SpecXmlEvent>
    decreases vs.len(),
{
    if vs.len() == 0 {
        Seq::empty()
    } else {
        var_events(vs[0]) + vars_events(vs.skip(1))
    }
}

/// A rendered variable list, followed by the closing variables tag, parses
/// back to exactly those variables, whatever events follow.
pub proof fn lemma_parse_vars_events(vs: Seq<SpecVariable>, rest: Seq<SpecXmlEvent>)
    requires
        forall|x: int|
            0 <= x < vs.len() ==> crate::text::spec_trim((#[trigger] vs[x]).value) == vs[x].value,
    ensures
        p_variables(vars_events(vs) + seq![SpecXmlEvent::End("variables"@)] + rest, 0) == (
            vs,
            vars_events(vs).len() as int + 1,
        ),
    decreases vs.len(),
{
    reveal_strlit("var");
    reveal_strlit("variables");
    reveal_strlit("name");
    let e = vars_events(vs) + seq![SpecXmlEvent::End("variables"@)] + rest;
    if vs.len() == 0 {
        assert(e[0] == SpecXmlEvent::End("variables"@));
        assert("variables"@ != "var"@) by {
            assert("variables"@.len() == 9 && "var"@.len() == 3);
        }
        assert(p_variables(e, 0) == (Seq::<SpecVariable>::empty(), 1int));
        assert(vs =~= Seq::<SpecVariable>::empty());
    } else {
        reveal_with_fuel(crate::xml_parser::p_variables, 3);
        reveal_with_fuel(crate::xml_parser::p_text_raw, 4);
        let v0 = vs[0];
        let tail_events = vars_events(vs.skip(1)) + seq![SpecXmlEvent::End("variables"@)] + rest;
        assert(e =~= var_events(v0) + tail_events);
        assert(e[0] == SpecXmlEvent::Start("var"@, seq![("name"@, v0.name)]));
        assert(attr_or_empty(seq![("name"@, v0.name)], "name"@) == v0.name) by {
            assert(seq![("name"@, v0.name)].last() == ("name"@, v0.name));
        }
        let n = var_events(v0).len() as int;
        if v0.value.len() == 0 {
            assert(e[1] == SpecXmlEvent::End("var"@));
            assert(p_text_raw(e, 1) == (Seq::<char>::empty(), 2int));
            assert(crate::text::spec_trim(Seq::<char>::empty()) =~= Seq::<char>::empty());
            assert(p_read_text(e, 1) == (v0.value, 2int));
        } else {
            assert(e[1] == SpecXmlEvent::Text(v0.value));
            assert(e[2] == SpecXmlEvent::End("var"@));
            assert(p_text_raw(e, 2) == (Seq::<char>::empty(), 3int));
            assert(p_text_raw(e, 1) == (v0.value + Seq::<char>::empty(), 3int));
            assert(v0.value + Seq::<char>::empty() =~= v0.value);
            assert(p_read_text(e, 1) == (v0.value, 3int));
        }
        assert(advance(0, n, e.len() as int) == n);
        let built = SpecVariable { name: v0.name, value: v0.value };
        assert(built == v0);
        assert(e =~= var_events(v0) + tail_events);
        lemma_variables_shift(var_events(v0), tail_events, 0);
        lemma_parse_vars_events(vs.skip(1), rest);
        assert(p_variables(e, n) == (vs.skip(1), n + vars_events(vs.skip(1)).len() as int + 1));
        assert(p_variables(e, 0) == (
            seq![built] + vs.skip(1),
            n + vars_events(vs.skip(1)).len() as int + 1,
        ));
        assert(seq![v0] + vs.skip(1) =~= vs);
        assert(vars_events(vs).len() == n + vars_events(vs.skip(1)).len());
    }
}

} // verus!

verus! {

// ---------------------------------------------------------------------------
// Metadata round trip at the event level.
// ---------------------------------------------------------------------------

/// The event stream one rendered scalar element denotes: its trimmed text,
/// absent entirely when empty.
pub open spec fn scalar_events(tag: Seq<char>, text: Seq<char>) -> Seq<SpecXmlEvent> {
    if text.len() == 0 {
        seq![SpecXmlEvent::Start(tag, Seq::empty()), SpecXmlEvent::End(tag)]
    } else {
        seq![
            SpecXmlEvent::Start(tag, Seq::empty()),
            SpecXmlEvent::Text(text),
            SpecXmlEvent::End(tag),
        ]
    }
}

/// The event stream a rendered metadata block denotes, its opening tag
/// already consumed.
pub open spec fn meta_events(m: SpecMetaData) -> Seq<SpecXmlEvent> {
    scalar_events("title"@, m.title) + scalar_events("author"@, m.author) + scalar_events(
        "created"@,
        m.created,
    ) + seq![
        SpecXmlEvent::Empty(
            "app"@,
            seq![("name"@, m.app_info.name), ("version"@, m.app_info.version)],
        ),
    ] + scalar_events("tags"@, join_with(m.tags, ", "@)) + scalar_events(
        "description"@,
        m.description,
    ) + seq![SpecXmlEvent::End("meta"@)]
}

/// Reading a scalar element body after its start tag.
proof fn lemma_scalar_read(tag: Seq<char>, text: Seq<char>, rest: Seq<SpecXmlEvent>)
    requires
        crate::text::spec_trim(text) == text,
    ensures
        p_read_text(scalar_events(tag, text).skip(1) + rest, 0) == (
            text,
            scalar_events(tag, text).len() as int - 1,
        ),
{
    reveal_with_fuel(crate::xml_parser::p_text_raw, 3);
    let e = scalar_events(tag, text).skip(1) + rest;
    if text.len() == 0 {
        assert(e[0] == SpecXmlEvent::End(tag));
        assert(p_text_raw(e, 0) == (Seq::<char>::empty(), 1int));
        assert(crate::text::spec_trim(Seq::<char>::empty()) =~= Seq::<char>::empty());
    } else {
        assert(e[0] == SpecXmlEvent::Text(text));
        assert(e[1] == SpecXmlEvent::End(tag));
        assert(p_text_raw(e, 1) == (Seq::<char>::empty(), 2int));
        assert(p_text_raw(e, 0) == (text + Seq::<char>::empty(), 2int));
        assert(text + Seq::<char>::empty() =~= text);
    }
}

/// One recognized scalar field step of the metadata walk: from the start
/// tag at `i`, the field's text is read and the walk resumes just past its
/// end tag.
proof fn lemma_meta_scalar_step(
    e: Seq<SpecXmlEvent>,
    i: int,
    tag: Seq<char>,
    text: Seq<char>,
)
    requires
        0 <= i,
        crate::text::spec_trim(text) == text,
        i + scalar_events(tag, text).len() <= e.len(),
        e.subrange(i, i + scalar_events(tag, text).len() as int) == scalar_events(tag, text),
    ensures
        p_read_text(e, i + 1) == (text, i + scalar_events(tag, text).len() as int),
        advance(i, i + scalar_events(tag, text).len() as int, e.len() as int) == i
            + scalar_events(tag, text).len() as int,
{
    let n = scalar_events(tag, text).len() as int;
    let a = e.subrange(0, i + 1);
    let b = e.subrange(i + 1, e.len() as int);
    assert(e =~= a + b);
    assert(b.subrange(0, n - 1) =~= scalar_events(tag, text).skip(1));
    let rest = b.subrange(n - 1, b.len() as int);
    assert(b =~= scalar_events(tag, text).skip(1) + rest);
    lemma_text_shift(a, b, 0);
    lemma_scalar_read(tag, text, rest);
    assert(p_read_text(e, i + 1) == (text, (i + 1) + (n - 1)));
}

/// One scalar metadata field consumed by the walk.
proof fn lemma_meta_step_scalar(
    e: Seq<SpecXmlEvent>,
    i: int,
    tag: Seq<char>,
    text: Seq<char>,
    title: Seq<char>,
    author: Seq<char>,
    created: Seq<char>,
    app: Option<crate::models::SpecAppInfo>,
    tags: Seq<Seq<char>>,
    description: Seq<char>,
)
    requires
        0 <= i,
        crate::text::spec_trim(text) == text,
        i + scalar_events(tag, text).len() <= e.len(),
        e.subrange(i, i + scalar_events(tag, text).len() as int) == scalar_events(tag, text),
        tag == "title"@ || tag == "author"@ || tag == "created"@ || tag == "tags"@ || tag
            == "description"@,
    ensures
        crate::xml_parser::p_meta_loop(e, i, title, author, created, app, tags, description)
            == crate::xml_parser::p_meta_loop(
            e,
            i + scalar_events(tag, text).len() as int,
            if tag == "title"@ {
                text
            } else {
                title
            },
            if tag == "author"@ {
                text
            } else {
                author
            },
            if tag == "created"@ {
                text
            } else {
                created
            },
            app,
            if tag == "tags"@ {
                crate::text::trim_all(crate::text::split_char(text, ','))
            } else {
                tags
            },
            if tag == "description"@ {
                text
            } else {
                description
            },
        ),
{
    reveal_strlit("title");
    reveal_strlit("author");
    reveal_strlit("created");
    reveal_strlit("app");
    reveal_strlit("tags");
    reveal_strlit("description");
    lemma_meta_scalar_step(e, i, tag, text);
    let n = scalar_events(tag, text).len() as int;
    assert(e[i] == SpecXmlEvent::Start(tag, Seq::<(Seq<char>, Seq<char>)>::empty()));
    assert("title"@.len() == 5 && "author"@.len() == 6 && "created"@.len() == 7 && "tags"@.len()
        == 4 && "description"@.len() == 11 && "app"@.len() == 3);
    assert("title"@ != "author"@ && "title"@ != "created"@ && "title"@ != "tags"@ && "title"@
        != "description"@ && "title"@ != "app"@);
    assert("author"@ != "created"@ && "author"@ != "tags"@ && "author"@ != "description"@
        && "author"@ != "app"@);
    assert("created"@ != "tags"@ && "created"@ != "description"@ && "created"@ != "app"@);
    assert("tags"@ != "description"@ && "tags"@ != "app"@);
    assert("description"@ != "app"@);
    let len = e.len() as int;
    assert(advance(i, i + n, len) == i + n);
    assert(crate::xml_parser::p_meta_loop(e, i, title, author, created, app, tags, description)
        == crate::xml_parser::p_meta_field(
        e,
        i,
        tag,
        Seq::empty(),
        title,
        author,
        created,
        app,
        tags,
        description,
    ));
    assert(p_read_text(e, i + 1) == (text, i + n));
    if tag == "title"@ {
        assert(crate::xml_parser::p_meta_loop(e, i, title, author, created, app, tags, description)
            == crate::xml_parser::p_meta_loop(e, i + n, text, author, created, app, tags, description));
    } else if tag == "author"@ {
        assert(crate::xml_parser::p_meta_loop(e, i, title, author, created, app, tags, description)
            == crate::xml_parser::p_meta_loop(e, i + n, title, text, created, app, tags, description));
    } else if tag == "created"@ {
        assert(crate::xml_parser::p_meta_loop(e, i, title, author, created, app, tags, description)
            == crate::xml_parser::p_meta_loop(e, i + n, title, author, text, app, tags, description));
    } else if tag == "tags"@ {
        assert(crate::xml_parser::p_meta_loop(e, i, title, author, created, app, tags, description)
            == crate::xml_parser::p_meta_loop(
            e,
            i + n,
            title,
            author,
            created,
            app,
            crate::text::trim_all(crate::text::split_char(text, ',')),
            description,
        ));
    } else {
        assert(crate::xml_parser::p_meta_loop(e, i, title, author, created, app, tags, description)
            == crate::xml_parser::p_meta_loop(e, i + n, title, author, created, app, tags, text));
    }
}

/// The app element consumed by the walk.
proof fn lemma_meta_step_app(
    e: Seq<SpecXmlEvent>,
    i: int,
    m: SpecMetaData,
    tags: Seq<Seq<char>>,
    description: Seq<char>,
)
    requires
        0 <= i < e.len(),
        e[i] == SpecXmlEvent::Empty(
            "app"@,
            seq![("name"@, m.app_info.name), ("version"@, m.app_info.version)],
        ),
    ensures
        crate::xml_parser::p_meta_loop(
            e,
            i,
            m.title,
            m.author,
            m.created,
            Option::None,
            tags,
            description,
        ) == crate::xml_parser::p_meta_loop(
            e,
            i + 1,
            m.title,
            m.author,
            m.created,
            Option::Some(m.app_info),
            tags,
            description,
        ),
{
    reveal_strlit("title");
    reveal_strlit("author");
    reveal_strlit("created");
    reveal_strlit("app");
    reveal_strlit("tags");
    reveal_strlit("description");
    reveal_strlit("name");
    reveal_strlit("version");
    reveal_with_fuel(crate::xml_parser::attr_last, 4);
    assert("title"@.len() == 5 && "author"@.len() == 6 && "created"@.len() == 7 && "tags"@.len()
        == 4 && "description"@.len() == 11 && "app"@.len() == 3 && "name"@.len() == 4
        && "version"@.len() == 7);
    assert("app"@ != "title"@ && "app"@ != "author"@ && "app"@ != "created"@ && "app"@ != "tags"@
        && "app"@ != "description"@);
    let app_attrs = seq![("name"@, m.app_info.name), ("version"@, m.app_info.version)];
    assert(app_attrs.last() == ("version"@, m.app_info.version));
    assert(app_attrs.drop_last() =~= seq![("name"@, m.app_info.name)]);
    assert(app_attrs.drop_last().last() == ("name"@, m.app_info.name));
    assert("version"@ != "name"@);
    assert(attr_or_empty(app_attrs, "name"@) == m.app_info.name);
    assert(attr_or_empty(app_attrs, "version"@) == m.app_info.version);
    assert(crate::models::SpecAppInfo {
        name: m.app_info.name,
        version: m.app_info.version,
    } == m.app_info);
    assert(crate::xml_parser::p_meta_loop(
        e,
        i,
        m.title,
        m.author,
        m.created,
        Option::None,
        tags,
        description,
    ) == crate::xml_parser::p_meta_field(
        e,
        i,
        "app"@,
        app_attrs,
        m.title,
        m.author,
        m.created,
        Option::None,
        tags,
        description,
    ));
}

/// The closing meta tag finishes the walk with every field gathered.
proof fn lemma_meta_step_end(e: Seq<SpecXmlEvent>, i: int, m: SpecMetaData)
    requires
        0 <= i < e.len(),
        e[i] == SpecXmlEvent::End("meta"@),
    ensures
        crate::xml_parser::p_meta_loop(
            e,
            i,
            m.title,
            m.author,
            m.created,
            Option::Some(m.app_info),
            m.tags,
            m.description,
        ) == Result::Ok::<(SpecMetaData, int), SpecContextError>((m, i + 1)),
{
    let built = SpecMetaData {
        title: m.title,
        author: m.author,
        created: m.created,
        app_info: crate::models::SpecAppInfo {
            name: m.app_info.name,
            version: m.app_info.version,
        },
        tags: m.tags,
        description: m.description,
    };
    assert(built == m);
}

/// A rendered metadata block, its opening tag already consumed, parses back
/// to exactly the metadata it was rendered from, whatever events follow.
/// The tag list must survive its join: joined with the comma separator and
/// split back, it must come out unchanged — a tag holding a comma would be
/// torn apart, as the serializer's contract concedes.
pub proof fn lemma_parse_meta_events(m: SpecMetaData, rest: Seq<SpecXmlEvent>)
    requires
        crate::text::spec_trim(m.title) == m.title,
        crate::text::spec_trim(m.author) == m.author,
        crate::text::spec_trim(m.created) == m.created,
        crate::text::spec_trim(m.description) == m.description,
        crate::text::spec_trim(join_with(m.tags, ", "@)) == join_with(m.tags, ", "@),
        crate::text::trim_all(
            crate::text::split_char(join_with(m.tags, ", "@), ','),
        ) == m.tags,
    ensures
        p_meta(meta_events(m) + rest, 0) == Result::Ok::<(SpecMetaData, int), SpecContextError>(
            (m, meta_events(m).len() as int),
        ),
{
    reveal_strlit("title");
    reveal_strlit("author");
    reveal_strlit("created");
    reveal_strlit("app");
    reveal_strlit("tags");
    reveal_strlit("description");
    reveal_strlit("meta");
    reveal_strlit("name");
    reveal_strlit("version");
    assert("title"@.len() == 5 && "author"@.len() == 6 && "created"@.len() == 7 && "tags"@.len()
        == 4 && "description"@.len() == 11 && "app"@.len() == 3);
    assert("title"@ != "author"@ && "title"@ != "created"@ && "title"@ != "tags"@ && "title"@
        != "description"@);
    assert("author"@ != "created"@ && "author"@ != "tags"@ && "author"@ != "description"@);
    assert("created"@ != "tags"@ && "created"@ != "description"@);
    assert("tags"@ != "description"@);
    let e = meta_events(m) + rest;
    assert(p_meta(e, 0) == crate::xml_parser::p_meta_loop(
        e,
        0,
        Seq::empty(),
        Seq::empty(),
        Seq::empty(),
        Option::None,
        Seq::empty(),
        Seq::empty(),
    ));
    let s1 = scalar_events("title"@, m.title);
    let s2 = scalar_events("author"@, m.author);
    let s3 = scalar_events("created"@, m.created);
    let app_attrs = seq![("name"@, m.app_info.name), ("version"@, m.app_info.version)];
    let s5 = scalar_events("tags"@, join_with(m.tags, ", "@));
    let s6 = scalar_events("description"@, m.description);
    let i1 = s1.len() as int;
    let i2 = i1 + s2.len() as int;
    let i3 = i2 + s3.len() as int;
    let i4 = i3 + 1;
    let i5 = i4 + s5.len() as int;
    let i6 = i5 + s6.len() as int;
    let i7 = i6 + 1;
    assert(meta_events(m).len() == i7);
    assert(e.subrange(0, i1) =~= s1);
    lemma_meta_step_scalar(
        e,
        0,
        "title"@,
        m.title,
        Seq::empty(),
        Seq::empty(),
        Seq::empty(),
        Option::None,
        Seq::empty(),
        Seq::empty(),
    );
    assert(p_meta(e, 0) == crate::xml_parser::p_meta_loop(
        e,
        i1,
        m.title,
        Seq::empty(),
        Seq::empty(),
        Option::None,
        Seq::empty(),
        Seq::empty(),
    ));
    assert(e.subrange(i1, i2) =~= s2);
    lemma_meta_step_scalar(
        e,
        i1,
        "author"@,
        m.author,
        m.title,
        Seq::empty(),
        Seq::empty(),
        Option::None,
        Seq::empty(),
        Seq::empty(),
    );
    assert(e.subrange(i2, i3) =~= s3);
    lemma_meta_step_scalar(
        e,
        i2,
        "created"@,
        m.created,
        m.title,
        m.author,
        Seq::empty(),
        Option::None,
        Seq::empty(),
        Seq::empty(),
    );
    assert(e[i3] == SpecXmlEvent::Empty(
        "app"@,
        seq![("name"@, m.app_info.name), ("version"@, m.app_info.version)],
    ));
    lemma_meta_step_app(e, i3, m, Seq::empty(), Seq::empty());
    assert(e.subrange(i4, i5) =~= s5);
    lemma_meta_step_scalar(
        e,
        i4,
        "tags"@,
        join_with(m.tags, ", "@),
        m.title,
        m.author,
        m.created,
        Option::Some(m.app_info),
        Seq::empty(),
        Seq::empty(),
    );
    assert(e.subrange(i5, i6) =~= s6);
    lemma_meta_step_scalar(
        e,
        i5,
        "description"@,
        m.description,
        m.title,
        m.author,
        m.created,
        Option::Some(m.app_info),
        m.tags,
        Seq::empty(),
    );
    assert(e[i6] == SpecXmlEvent::End("meta"@));
    lemma_meta_step_end(e, i6, m);
}

} // verus!

verus! {

// ---------------------------------------------------------------------------
// Document round trip at the event level.
// ---------------------------------------------------------------------------

/// Reading the metadata block only looks at events from the given position
/// on.
proof fn lemma_meta_loop_shift(
    a: Seq<SpecXmlEvent>,
    b: Seq<SpecXmlEvent>,
    k: int,
    title: Seq<char>,
    author: Seq<char>,
    created: Seq<char>,
    app: Option<crate::models::SpecAppInfo>,
    tags: Seq<Seq<char>>,
    description: Seq<char>,
)
    requires
        0 <= k,
    ensures
        crate::xml_parser::p_meta_loop(a + b, a.len() + k, title, author, created, app, tags, description)
            == match crate::xml_parser::p_meta_loop(b, k, title, author, created, app, tags, description) {
            Result::Ok((m, j)) => Result::Ok::<(SpecMetaData, int), SpecContextError>(
                (m, a.len() + j),
            ),
            Result::Err(err) => Result::Err(err),
        },
    decreases b.len() - k, 1nat,
{
    if k >= b.len() {
        assert((a + b).len() == a.len() + b.len());
    } else {
        assert((a + b)[a.len() + k] == b[k]);
        match b[k] {
            SpecXmlEvent::Start(n, attrs) => {
                lemma_meta_field_shift(a, b, k, n, attrs, title, author, created, app, tags, description);
            },
            SpecXmlEvent::Empty(n, attrs) => {
                lemma_meta_field_shift(a, b, k, n, attrs, title, author, created, app, tags, description);
            },
            SpecXmlEvent::End(n) => {
                if n != "meta"@ {
                    lemma_meta_loop_shift(a, b, k + 1, title, author, created, app, tags, description);
                }
            },
            _ => {
                lemma_meta_loop_shift(a, b, k + 1, title, author, created, app, tags, description);
            },
        }
    }
}

proof fn lemma_meta_field_shift(
    a: Seq<SpecXmlEvent>,
    b: Seq<SpecXmlEvent>,
    k: int,
    n: Seq<char>,
    attrs: Seq<(Seq<char>, Seq<char>)>,
    title: Seq<char>,
    author: Seq<char>,
    created: Seq<char>,
    app: Option<crate::models::SpecAppInfo>,
    tags: Seq<Seq<char>>,
    description: Seq<char>,
)
    requires
        0 <= k < b.len(),
    ensures
        crate::xml_parser::p_meta_field(a + b, a.len() + k, n, attrs, title, author, created, app, tags, description)
            == match crate::xml_parser::p_meta_field(b, k, n, attrs, title, author, created, app, tags, description) {
            Result::Ok((m, j)) => Result::Ok::<(SpecMetaData, int), SpecContextError>(
                (m, a.len() + j),
            ),
            Result::Err(err) => Result::Err(err),
        },
    decreases b.len() - k, 0nat,
{
    lemma_text_shift(a, b, k + 1);
    lemma_text_bounds(b, k + 1);
    if n == "title"@ {
        let (t, j) = p_read_text(b, k + 1);
        lemma_meta_loop_shift(a, b, advance(k, j, b.len() as int), t, author, created, app, tags, description);
        assert(advance(a.len() + k, a.len() + j, a.len() + b.len() as int) == a.len() + advance(
            k,
            j,
            b.len() as int,
        ));
    } else if n == "author"@ {
        let (t, j) = p_read_text(b, k + 1);
        lemma_meta_loop_shift(a, b, advance(k, j, b.len() as int), title, t, created, app, tags, description);
        assert(advance(a.len() + k, a.len() + j, a.len() + b.len() as int) == a.len() + advance(
            k,
            j,
            b.len() as int,
        ));
    } else if n == "created"@ {
        let (t, j) = p_read_text(b, k + 1);
        lemma_meta_loop_shift(a, b, advance(k, j, b.len() as int), title, author, t, app, tags, description);
        assert(advance(a.len() + k, a.len() + j, a.len() + b.len() as int) == a.len() + advance(
            k,
            j,
            b.len() as int,
        ));
    } else if n == "app"@ {
        let info = crate::models::SpecAppInfo {
            name: crate::xml_parser::attr_or_empty(attrs, "name"@),
            version: crate::xml_parser::attr_or_empty(attrs, "version"@),
        };
        lemma_meta_loop_shift(a, b, k + 1, title, author, created, Option::Some(info), tags, description);
    } else if n == "tags"@ {
        let (t, j) = p_read_text(b, k + 1);
        lemma_meta_loop_shift(
            a,
            b,
            advance(k, j, b.len() as int),
            title,
            author,
            created,
            app,
            crate::text::trim_all(crate::text::split_char(t, ',')),
            description,
        );
        assert(advance(a.len() + k, a.len() + j, a.len() + b.len() as int) == a.len() + advance(
            k,
            j,
            b.len() as int,
        ));
    } else if n == "description"@ {
        let (t, j) = p_read_text(b, k + 1);
        lemma_meta_loop_shift(a, b, advance(k, j, b.len() as int), title, author, created, app, tags, t);
        assert(advance(a.len() + k, a.len() + j, a.len() + b.len() as int) == a.len() + advance(
            k,
            j,
            b.len() as int,
        ));
    } else {
        lemma_meta_loop_shift(a, b, k + 1, title, author, created, app, tags, description);
    }
}

} // verus!

verus! {

/// The event segment a rendered optional flow block denotes.
pub open spec fn flow_seg(d: SpecContextDocument) -> Seq<SpecXmlEvent> {
    match d.flow_graph {
        Option::None => Seq::empty(),
        Option::Some(f) => seq![SpecXmlEvent::Start("flow"@, flow_attrs(f))] + flow_body_events(
            f,
        ),
    }
}

/// The event stream a rendered document denotes.
pub open spec fn doc_events(d: SpecContextDocument) -> Seq<SpecXmlEvent> {
    seq![SpecXmlEvent::Start("context"@, seq![("version"@, "1.0"@)])] + seq![
        SpecXmlEvent::Start("meta"@, Seq::empty()),
    ] + meta_events(d.meta) + seq![SpecXmlEvent::Start("variables"@, Seq::empty())] + vars_events(
        d.variables,
    ) + seq![SpecXmlEvent::End("variables"@)] + seq![
        SpecXmlEvent::Start("sections"@, Seq::empty()),
    ] + secs_events(d.sections) + seq![SpecXmlEvent::End("sections"@)] + flow_seg(d) + seq![
        SpecXmlEvent::End("context"@),
    ]
}

/// The walk's tail: from the position just past the sections block, an
/// optional flow block and the closing root tag finish the document.
#[verifier::spinoff_prover]
proof fn lemma_doc_tail(e: Seq<SpecXmlEvent>, j4: int, d: SpecContextDocument)
    requires
        0 <= j4 < e.len(),
        e.len() == j4 + flow_seg(d).len() + 1,
        e.subrange(j4, e.len() as int) =~= flow_seg(d) + seq![SpecXmlEvent::End("context"@)],
        d.flow_graph matches Option::Some(f) ==> {
            &&& (f.title matches Option::Some(t) ==> crate::text::spec_trim(t) == t)
            &&& crate::text::spec_trim(f.mermaid_code) == f.mermaid_code
            &&& f.parsed_graph.nodes.len() == 0
            &&& f.parsed_graph.edges.len() == 0
            &&& f.node_refs.len() == 0
        },
    ensures
        crate::xml_parser::p_doc_loop(
            e,
            j4,
            Option::Some(d.meta),
            d.variables,
            d.sections,
            Option::None,
        ) == Result::Ok::<SpecContextDocument, SpecContextError>(d),
{
    reveal_strlit("context");
    reveal_strlit("meta");
    reveal_strlit("variables");
    reveal_strlit("sections");
    reveal_strlit("flow");
    assert("context"@.len() == 7 && "meta"@.len() == 4 && "variables"@.len() == 9
        && "sections"@.len() == 8 && "flow"@.len() == 4);
    reveal_with_fuel(crate::xml_parser::p_doc_loop, 3);
    assert(e.subrange(j4, e.len() as int)[0] == e[j4]);
    match d.flow_graph {
        Option::None => {
            assert(e[j4] == SpecXmlEvent::End("context"@));
            let built = SpecContextDocument {
                meta: d.meta,
                variables: d.variables,
                sections: d.sections,
                flow_graph: Option::None,
            };
            assert(built == d);
        },
        Option::Some(f) => {
            lemma_doc_tail_flow(e, j4, d, f);
        },
    }
}

/// The flow block read at an absolute position inside a larger stream.
#[verifier::spinoff_prover]
proof fn lemma_flow_at(e: Seq<SpecXmlEvent>, i: int, f: crate::models::SpecFlowGraph)
    requires
        0 <= i,
        i + flow_body_events(f).len() <= e.len(),
        e.subrange(i, i + flow_body_events(f).len() as int) =~= flow_body_events(f),
        f.title matches Option::Some(t) ==> crate::text::spec_trim(t) == t,
        crate::text::spec_trim(f.mermaid_code) == f.mermaid_code,
        f.parsed_graph.nodes.len() == 0,
        f.parsed_graph.edges.len() == 0,
        f.node_refs.len() == 0,
    ensures
        crate::xml_parser::p_flow(e, i, flow_attrs(f)) == (
            f,
            i + flow_body_events(f).len() as int,
        ),
{
    let pre = e.subrange(0, i);
    let post = e.subrange(i, e.len() as int);
    assert(e =~= pre + post);
    assert(post.subrange(0, flow_body_events(f).len() as int) =~= flow_body_events(f));
    let rest = post.subrange(flow_body_events(f).len() as int, post.len() as int);
    assert(post =~= flow_body_events(f) + rest);
    lemma_flow_loop_shift(
        pre,
        post,
        0,
        crate::xml_parser::attr_or_empty(flow_attrs(f), "id"@),
        crate::xml_parser::attr_or_empty(flow_attrs(f), "version"@),
        Option::None,
        Seq::empty(),
    );
    lemma_parse_flow_events(f, rest);
}

/// The tail's flow case: the flow block is read, then the closing root tag
/// finishes the document.
#[verifier::spinoff_prover]
#[verifier::rlimit(100)]
proof fn lemma_doc_tail_flow(
    e: Seq<SpecXmlEvent>,
    j4: int,
    d: SpecContextDocument,
    f: crate::models::SpecFlowGraph,
)
    requires
        d.flow_graph == Option::Some(f),
        0 <= j4 < e.len(),
        e.len() == j4 + flow_seg(d).len() + 1,
        e.subrange(j4, e.len() as int) =~= flow_seg(d) + seq![SpecXmlEvent::End("context"@)],
        f.title matches Option::Some(t) ==> crate::text::spec_trim(t) == t,
        crate::text::spec_trim(f.mermaid_code) == f.mermaid_code,
        f.parsed_graph.nodes.len() == 0,
        f.parsed_graph.edges.len() == 0,
        f.node_refs.len() == 0,
    ensures
        crate::xml_parser::p_doc_loop(
            e,
            j4,
            Option::Some(d.meta),
            d.variables,
            d.sections,
            Option::None,
        ) == Result::Ok::<SpecContextDocument, SpecContextError>(d),
{
    reveal_strlit("context");
    reveal_strlit("meta");
    reveal_strlit("variables");
    reveal_strlit("sections");
    reveal_strlit("flow");
    assert("context"@.len() == 7 && "meta"@.len() == 4 && "variables"@.len() == 9
        && "sections"@.len() == 8 && "flow"@.len() == 4);
    reveal_with_fuel(crate::xml_parser::p_doc_loop, 3);
    assert(e.subrange(j4, e.len() as int)[0] == e[j4]);
    assert(e[j4] == SpecXmlEvent::Start("flow"@, flow_attrs(f)));
    assert("flow"@ != "meta"@) by {
        assert("flow"@[0] == 'f' && "meta"@[0] == 'm');
    }
    let tail = e.subrange(j4, e.len() as int);
    let n = flow_body_events(f).len() as int;
    assert(flow_seg(d) =~= seq![SpecXmlEvent::Start("flow"@, flow_attrs(f))] + flow_body_events(
        f,
    ));
    assert(tail == flow_seg(d) + seq![SpecXmlEvent::End("context"@)]);
    assert forall|x: int| 0 <= x < n implies e.subrange(j4 + 1, j4 + 1 + n)[x]
        == flow_body_events(f)[x] by {
        assert(e.subrange(j4 + 1, j4 + 1 + n)[x] == e[j4 + 1 + x]);
        assert(e[j4 + 1 + x] == tail[1 + x]);
        assert(tail[1 + x] == flow_seg(d)[1 + x]);
    }
    assert(e.subrange(j4 + 1, j4 + 1 + n) =~= flow_body_events(f));
    lemma_flow_at(e, j4 + 1, f);
    let j5 = j4 + 1 + flow_body_events(f).len() as int;
    assert(crate::xml_parser::p_flow(e, j4 + 1, flow_attrs(f)) == (f, j5));
    assert(advance(j4, j5, e.len() as int) == j5);
    assert(crate::xml_parser::p_doc_loop(
        e,
        j4,
        Option::Some(d.meta),
        d.variables,
        d.sections,
        Option::None,
    ) == crate::xml_parser::p_doc_loop(
        e,
        j5,
        Option::Some(d.meta),
        d.variables,
        d.sections,
        Option::Some(f),
    ));
    assert(e[j5] == tail[1 + n]);
    assert(e[j5] == SpecXmlEvent::End("context"@));
    let built = SpecContextDocument {
        meta: d.meta,
        variables: d.variables,
        sections: d.sections,
        flow_graph: Option::Some(f),
    };
    assert(built == d);
}

/// The event-level half of the serialization round trip: the event stream a
/// rendered flow-free document denotes parses back to exactly that
/// document.  The conditions are those under which rendering is lossless:
/// scalar fields and contents trim-stable, the tag list surviving its
/// comma join, and the section list flat.
#[verifier::rlimit(100)]
#[verifier::spinoff_prover]
pub proof fn lemma_parse_doc_events(d: SpecContextDocument)
    requires
        crate::text::spec_trim(d.meta.title) == d.meta.title,
        crate::text::spec_trim(d.meta.author) == d.meta.author,
        crate::text::spec_trim(d.meta.created) == d.meta.created,
        crate::text::spec_trim(d.meta.description) == d.meta.description,
        crate::text::spec_trim(join_with(d.meta.tags, ", "@)) == join_with(d.meta.tags, ", "@),
        crate::text::trim_all(
            crate::text::split_char(join_with(d.meta.tags, ", "@), ','),
        ) == d.meta.tags,
        forall|x: int|
            0 <= x < d.variables.len() ==> crate::text::spec_trim(
                (#[trigger] d.variables[x]).value,
            ) == d.variables[x].value,
        forall|x: int| 0 <= x < d.sections.len() ==> (#[trigger] d.sections[x]).children.len() == 0,
        forall|x: int|
            0 <= x < d.sections.len() ==> crate::text::spec_trim(
                (#[trigger] d.sections[x]).content,
            ) == d.sections[x].content,
        d.flow_graph matches Option::Some(f) ==> {
            &&& (f.title matches Option::Some(t) ==> crate::text::spec_trim(t) == t)
            &&& crate::text::spec_trim(f.mermaid_code) == f.mermaid_code
            &&& f.parsed_graph.nodes.len() == 0
            &&& f.parsed_graph.edges.len() == 0
            &&& f.node_refs.len() == 0
        },
    ensures
        crate::xml_parser::p_doc(doc_events(d)) == Result::Ok::<
            SpecContextDocument,
            SpecContextError,
        >(d),
{
    reveal_strlit("context");
    reveal_strlit("meta");
    reveal_strlit("variables");
    reveal_strlit("sections");
    reveal_strlit("flow");
    assert("context"@.len() == 7 && "meta"@.len() == 4 && "variables"@.len() == 9
        && "sections"@.len() == 8 && "flow"@.len() == 4);
    assert("meta"@ != "flow"@) by {
        assert("meta"@[0] == 'm' && "flow"@[0] == 'f');
    }
    assert("context"@ != "meta"@ && "context"@ != "variables"@ && "context"@ != "sections"@
        && "context"@ != "flow"@);
    assert("variables"@ != "meta"@ && "variables"@ != "sections"@ && "variables"@ != "flow"@);
    assert("sections"@ != "meta"@ && "sections"@ != "flow"@);
    let e = doc_events(d);
    let me = meta_events(d.meta);
    let ve = vars_events(d.variables);
    let se = secs_events(d.sections);
    let j2 = 2 + me.len() as int;
    let j3 = j2 + 1 + ve.len() as int + 1;
    let j4 = j3 + 1 + se.len() as int + 1;
    assert(e.len() == j4 + flow_seg(d).len() + 1);
    // The root start tag is not a recognized block: it is skipped.
    assert(e[0] == SpecXmlEvent::Start("context"@, seq![("version"@, "1.0"@)]));
    assert(crate::xml_parser::p_doc(e) == crate::xml_parser::p_doc_loop(
        e,
        1,
        Option::None,
        Seq::empty(),
        Seq::empty(),
        Option::None,
    ));
    // The metadata block.
    assert(e[1] == SpecXmlEvent::Start("meta"@, Seq::<(Seq<char>, Seq<char>)>::empty()));
    let pre2 = e.subrange(0, 2);
    let post2 = e.subrange(2, e.len() as int);
    assert(e =~= pre2 + post2);
    assert(post2.subrange(0, me.len() as int) =~= me);
    let rest2 = post2.subrange(me.len() as int, post2.len() as int);
    assert(post2 =~= me + rest2);
    lemma_meta_loop_shift(
        pre2,
        post2,
        0,
        Seq::empty(),
        Seq::empty(),
        Seq::empty(),
        Option::None,
        Seq::empty(),
        Seq::empty(),
    );
    lemma_parse_meta_events(d.meta, rest2);
    assert(crate::xml_parser::p_meta(e, 2) == Result::Ok::<
        (SpecMetaData, int),
        SpecContextError,
    >((d.meta, j2)));
    assert(advance(1, j2, e.len() as int) == j2);
    assert(crate::xml_parser::p_doc_loop(e, 1, Option::None, Seq::empty(), Seq::empty(), Option::None)
        == crate::xml_parser::p_doc_loop(
        e,
        j2,
        Option::Some(d.meta),
        Seq::empty(),
        Seq::empty(),
        Option::None,
    ));
    // The variables block.
    assert(e[j2] == SpecXmlEvent::Start("variables"@, Seq::<(Seq<char>, Seq<char>)>::empty()));
    let pre3 = e.subrange(0, j2 + 1);
    let post3 = e.subrange(j2 + 1, e.len() as int);
    assert(e =~= pre3 + post3);
    assert(post3.subrange(0, ve.len() as int + 1) =~= ve + seq![SpecXmlEvent::End("variables"@)]);
    let rest3 = post3.subrange(ve.len() as int + 1, post3.len() as int);
    assert(post3 =~= (ve + seq![SpecXmlEvent::End("variables"@)]) + rest3);
    assert(ve + seq![SpecXmlEvent::End("variables"@)] + rest3 =~= (ve + seq![
        SpecXmlEvent::End("variables"@),
    ]) + rest3);
    lemma_variables_shift(pre3, post3, 0);
    lemma_parse_vars_events(d.variables, rest3);
    assert(crate::xml_parser::p_variables(e, j2 + 1) == (d.variables, j3));
    assert(advance(j2, j3, e.len() as int) == j3);
    assert(crate::xml_parser::p_doc_loop(
        e,
        j2,
        Option::Some(d.meta),
        Seq::empty(),
        Seq::empty(),
        Option::None,
    ) == crate::xml_parser::p_doc_loop(
        e,
        j3,
        Option::Some(d.meta),
        d.variables,
        Seq::empty(),
        Option::None,
    ));
    // The sections block.
    assert(e[j3] == SpecXmlEvent::Start("sections"@, Seq::<(Seq<char>, Seq<char>)>::empty()));
    let pre4 = e.subrange(0, j3 + 1);
    let post4 = e.subrange(j3 + 1, e.len() as int);
    assert(e =~= pre4 + post4);
    assert(post4.subrange(0, se.len() as int + 1) =~= se + seq![SpecXmlEvent::End("sections"@)]);
    let rest4 = post4.subrange(se.len() as int + 1, post4.len() as int);
    assert(post4 =~= (se + seq![SpecXmlEvent::End("sections"@)]) + rest4);
    assert(se + seq![SpecXmlEvent::End("sections"@)] + rest4 =~= (se + seq![
        SpecXmlEvent::End("sections"@),
    ]) + rest4);
    lemma_sections_list_shift(pre4, post4, 0);
    lemma_parse_secs_events(d.sections, rest4);
    assert(crate::xml_parser::p_sections_list(e, j3 + 1) == (d.sections, j4));
    assert(advance(j3, j4, e.len() as int) == j4);
    assert(crate::xml_parser::p_doc_loop(
        e,
        j3,
        Option::Some(d.meta),
        d.variables,
        Seq::empty(),
        Option::None,
    ) == crate::xml_parser::p_doc_loop(
        e,
        j4,
        Option::Some(d.meta),
        d.variables,
        d.sections,
        Option::None,
    ));
    // The optional flow block and the closing root tag finish the walk.
    assert(e.subrange(j4, e.len() as int) =~= flow_seg(d) + seq![SpecXmlEvent::End("context"@)]);
    lemma_doc_tail(e, j4, d);
}

} // verus!

verus! {

// ---------------------------------------------------------------------------
// Flow-block round trip at the event level.
// ---------------------------------------------------------------------------

/// Reading the flow block only looks at events from the given position on.
proof fn lemma_flow_loop_shift(
    a: Seq<SpecXmlEvent>,
    b: Seq<SpecXmlEvent>,
    k: int,
    id: Seq<char>,
    version: Seq<char>,
    title: Option<Seq<char>>,
    mermaid_code: Seq<char>,
)
    requires
        0 <= k,
    ensures
        crate::xml_parser::p_flow_loop(a + b, a.len() + k, id, version, title, mermaid_code) == (
            crate::xml_parser::p_flow_loop(b, k, id, version, title, mermaid_code).0,
            a.len() + crate::xml_parser::p_flow_loop(b, k, id, version, title, mermaid_code).1,
        ),
    decreases b.len() - k,
{
    if k >= b.len() {
        assert((a + b).len() == a.len() + b.len());
    } else {
        assert((a + b)[a.len() + k] == b[k]);
        match b[k] {
            SpecXmlEvent::Start(n, _attrs) => {
                if n == "title"@ {
                    lemma_text_shift(a, b, k + 1);
                    lemma_text_bounds(b, k + 1);
                    let (t, j) = p_read_text(b, k + 1);
                    lemma_flow_loop_shift(
                        a,
                        b,
                        advance(k, j, b.len() as int),
                        id,
                        version,
                        Option::Some(t),
                        mermaid_code,
                    );
                    assert(advance(a.len() + k, a.len() + j, a.len() + b.len() as int) == a.len()
                        + advance(k, j, b.len() as int));
                } else if n == "diagram"@ {
                    lemma_cdata_shift(a, b, k + 1);
                    lemma_cdata_bounds(b, k + 1);
                    let (c, j) = crate::xml_parser::p_read_cdata(b, k + 1);
                    lemma_flow_loop_shift(
                        a,
                        b,
                        advance(k, j, b.len() as int),
                        id,
                        version,
                        title,
                        c,
                    );
                    assert(advance(a.len() + k, a.len() + j, a.len() + b.len() as int) == a.len()
                        + advance(k, j, b.len() as int));
                } else {
                    lemma_flow_loop_shift(a, b, k + 1, id, version, title, mermaid_code);
                }
            },
            SpecXmlEvent::End(n) => {
                if n != "flow"@ {
                    lemma_flow_loop_shift(a, b, k + 1, id, version, title, mermaid_code);
                }
            },
            _ => {
                lemma_flow_loop_shift(a, b, k + 1, id, version, title, mermaid_code);
            },
        }
    }
}

/// The attribute list the serializer writes for a flow block.
pub open spec fn flow_attrs(f: crate::models::SpecFlowGraph) -> Seq<(Seq<char>, Seq<char>)> {
    seq![("id"@, f.id), ("version"@, f.version)]
}

/// The event stream a rendered flow block denotes, its opening tag already
/// consumed.
pub open spec fn flow_body_events(f: crate::models::SpecFlowGraph) -> Seq<SpecXmlEvent> {
    (match f.title {
        Option::None => Seq::<SpecXmlEvent>::empty(),
        Option::Some(t) => scalar_events("title"@, t),
    }) + seq![
        SpecXmlEvent::Start("diagram"@, Seq::empty()),
        SpecXmlEvent::CData(cdata_body(f.mermaid_code)),
        SpecXmlEvent::End("diagram"@),
    ] + seq![SpecXmlEvent::End("flow"@)]
}

/// A rendered flow block, its opening tag already consumed, parses back to
/// the flow it was rendered from with its derived state empty, whatever
/// events follow.
pub proof fn lemma_parse_flow_events(f: crate::models::SpecFlowGraph, rest: Seq<SpecXmlEvent>)
    requires
        f.title matches Option::Some(t) ==> crate::text::spec_trim(t) == t,
        crate::text::spec_trim(f.mermaid_code) == f.mermaid_code,
        f.parsed_graph.nodes.len() == 0,
        f.parsed_graph.edges.len() == 0,
        f.node_refs.len() == 0,
    ensures
        crate::xml_parser::p_flow(flow_body_events(f) + rest, 0, flow_attrs(f)) == (
            f,
            flow_body_events(f).len() as int,
        ),
{
    reveal_strlit("id");
    reveal_strlit("version");
    reveal_strlit("title");
    reveal_strlit("diagram");
    reveal_strlit("flow");
    reveal_with_fuel(crate::xml_parser::attr_last, 3);
    reveal_with_fuel(crate::xml_parser::p_flow_loop, 8);
    reveal_with_fuel(crate::xml_parser::p_cdata_raw, 4);
    assert("id"@.len() == 2 && "version"@.len() == 7 && "title"@.len() == 5 && "diagram"@.len()
        == 7 && "flow"@.len() == 4);
    assert("version"@ != "id"@);
    assert("diagram"@ != "title"@);
    assert("version"@ != "diagram"@) by {
        assert("version"@[0] == 'v' && "diagram"@[0] == 'd');
    }
    let a = flow_attrs(f);
    assert(a.last() == ("version"@, f.version));
    assert(a.drop_last() =~= seq![("id"@, f.id)]);
    assert(a.drop_last().last() == ("id"@, f.id));
    assert(crate::xml_parser::attr_or_empty(a, "id"@) == f.id);
    assert(crate::xml_parser::attr_or_empty(a, "version"@) == f.version);
    let e = flow_body_events(f) + rest;
    let dg = seq![
        SpecXmlEvent::Start("diagram"@, Seq::<(Seq<char>, Seq<char>)>::empty()),
        SpecXmlEvent::CData(cdata_body(f.mermaid_code)),
        SpecXmlEvent::End("diagram"@),
    ];
    lemma_trim_cdata_body(f.mermaid_code);
    let toff: int = match f.title {
        Option::None => 0,
        Option::Some(t) => scalar_events("title"@, t).len() as int,
    };
    match f.title {
        Option::None => {},
        Option::Some(t) => {
            assert(e.subrange(0, toff) =~= scalar_events("title"@, t));
            assert(e[0] == SpecXmlEvent::Start("title"@, Seq::<(Seq<char>, Seq<char>)>::empty()));
            lemma_meta_scalar_step(e, 0, "title"@, t);
        },
    }
    assert(e[toff] == SpecXmlEvent::Start("diagram"@, Seq::<(Seq<char>, Seq<char>)>::empty()));
    assert(e[toff + 1] == SpecXmlEvent::CData(cdata_body(f.mermaid_code)));
    assert(e[toff + 2] == SpecXmlEvent::End("diagram"@));
    assert(e[toff + 3] == SpecXmlEvent::End("flow"@));
    assert(crate::xml_parser::p_cdata_raw(e, toff + 2).1 == toff + 3);
    assert(crate::xml_parser::p_cdata_raw(e, toff + 1) == (
        cdata_body(f.mermaid_code) + Seq::<char>::empty(),
        toff + 3,
    ));
    assert(cdata_body(f.mermaid_code) + Seq::<char>::empty() =~= cdata_body(f.mermaid_code));
    assert(crate::xml_parser::p_read_cdata(e, toff + 1) == (f.mermaid_code, toff + 3));
    assert(advance(toff, toff + 3, e.len() as int) == toff + 3);
    let built = crate::xml_parser::p_flow_value(
        f.id,
        f.version,
        f.title,
        f.mermaid_code,
    );
    assert(built.parsed_graph.nodes =~= f.parsed_graph.nodes);
    assert(built.parsed_graph.edges =~= f.parsed_graph.edges);
    assert(built.node_refs =~= f.node_refs);
    assert(built.parsed_graph == f.parsed_graph);
    assert(built == f);
}

} // verus!

verus! {

/// The serialization round trip, assembled: when the scanner reads the
/// rendered text as the canonical event stream — the remaining, purely
/// lexical step — a flat document with lossless fields parses back to
/// itself, its derived diagram state excluded by construction.
pub proof fn lemma_serialize_parse_round_trip(d: SpecContextDocument)
    requires
        crate::xml_events::spec_lex(crate::xml_serializer::spec_serialize(d)) == Result::Ok::<
            Seq<SpecXmlEvent>,
            Seq<char>,
        >(doc_events(d)),
        crate::text::spec_trim(d.meta.title) == d.meta.title,
        crate::text::spec_trim(d.meta.author) == d.meta.author,
        crate::text::spec_trim(d.meta.created) == d.meta.created,
        crate::text::spec_trim(d.meta.description) == d.meta.description,
        crate::text::spec_trim(join_with(d.meta.tags, ", "@)) == join_with(d.meta.tags, ", "@),
        crate::text::trim_all(
            crate::text::split_char(join_with(d.meta.tags, ", "@), ','),
        ) == d.meta.tags,
        forall|x: int|
            0 <= x < d.variables.len() ==> crate::text::spec_trim(
                (#[trigger] d.variables[x]).value,
            ) == d.variables[x].value,
        forall|x: int| 0 <= x < d.sections.len() ==> (#[trigger] d.sections[x]).children.len() == 0,
        forall|x: int|
            0 <= x < d.sections.len() ==> crate::text::spec_trim(
                (#[trigger] d.sections[x]).content,
            ) == d.sections[x].content,
        d.flow_graph matches Option::Some(f) ==> {
            &&& (f.title matches Option::Some(t) ==> crate::text::spec_trim(t) == t)
            &&& crate::text::spec_trim(f.mermaid_code) == f.mermaid_code
            &&& f.parsed_graph.nodes.len() == 0
            &&& f.parsed_graph.edges.len() == 0
            &&& f.node_refs.len() == 0
        },
    ensures
        crate::xml_parser::spec_parse_xml(crate::xml_serializer::spec_serialize(d))
            == Result::Ok::<SpecContextDocument, SpecContextError>(d),
{
    lemma_parse_doc_events(d);
}

} // verus!
