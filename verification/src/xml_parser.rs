use vstd::prelude::*;

use crate::errors::ContextError;
use crate::errors::SpecContextError;
use crate::models::AppInfo;
use crate::models::ContextDocument;
use crate::models::FlowGraph;
use crate::models::GraphStructure;
use crate::models::MetaData;
use crate::models::Section;
use crate::models::SpecAppInfo;
use crate::models::SpecContextDocument;
use crate::models::SpecFlowGraph;
use crate::models::SpecGraphStructure;
use crate::models::SpecMetaData;
use crate::models::SpecSection;
use crate::models::SpecVariable;
use crate::models::Variable;
use crate::models::section_view;
use crate::models::sections_view;
use crate::text::spec_trim;
use crate::text::split_char;
use crate::text::trim_all;
use crate::xml_events::SpecXmlEvent;
use crate::xml_events::XmlEvent;
use crate::xml_events::spec_lex;

verus! {

// ---------------------------------------------------------------------------
// The streaming document reader: an event-driven traversal that recognizes
// the metadata, variables, sections and flow blocks by name, ignores
// unrecognized elements, and builds the in-memory document tree.  It is
// deliberately permissive: sections may nest arbitrarily deep even though
// schema validation forbids it.
// ---------------------------------------------------------------------------

/// The value of the last attribute with the given key, if any: a repeated
/// attribute is overridden by its later occurrence.
pub open spec fn attr_last(attrs: Seq<(Seq<char>, Seq<char>)>, key: Seq<char>) -> Option<Seq<char>>
    decreases attrs.len(),
{
    if attrs.len() == 0 {
        Option::None
    } else if attrs.last().0 == key {
        Option::Some(attrs.last().1)
    } else {
        attr_last(attrs.drop_last(), key)
    }
}

pub open spec fn attr_or_empty(attrs: Seq<(Seq<char>, Seq<char>)>, key: Seq<char>) -> Seq<char> {
    match attr_last(attrs, key) {
        Option::Some(v) => v,
        Option::None => Seq::empty(),
    }
}

/// Keep positions inside the event list and strictly advancing; the parsers
/// below always advance on their own, so this guard never alters a result.
pub open spec fn advance(i: int, j: int, len: int) -> int {
    if i + 1 <= j && j <= len {
        j
    } else {
        i + 1
    }
}

/// Concatenated text events up to (and consuming) the next end tag, other
/// events skipped; yields the raw text and the next position.
pub open spec fn p_text_raw(evs: Seq<SpecXmlEvent>, i: int) -> (Seq<char>, int)
    decreases evs.len() - i,
{
    if !(0 <= i < evs.len()) {
        (Seq::empty(), evs.len() as int)
    } else {
        match evs[i] {
            SpecXmlEvent::Text(t) => {
                let (rest, j) = p_text_raw(evs, i + 1);
                (t + rest, j)
            },
            SpecXmlEvent::End(_) => (Seq::empty(), i + 1),
            _ => p_text_raw(evs, i + 1),
        }
    }
}

/// A scalar element body: its concatenated text, trimmed.
pub open spec fn p_read_text(evs: Seq<SpecXmlEvent>, i: int) -> (Seq<char>, int) {
    let (raw, j) = p_text_raw(evs, i);
    (spec_trim(raw), j)
}

/// Like `p_text_raw`, but literal character data contributes verbatim.
pub open spec fn p_cdata_raw(evs: Seq<SpecXmlEvent>, i: int) -> (Seq<char>, int)
    decreases evs.len() - i,
{
    if !(0 <= i < evs.len()) {
        (Seq::empty(), evs.len() as int)
    } else {
        match evs[i] {
            SpecXmlEvent::Text(t) => {
                let (rest, j) = p_cdata_raw(evs, i + 1);
                (t + rest, j)
            },
            SpecXmlEvent::CData(t) => {
                let (rest, j) = p_cdata_raw(evs, i + 1);
                (t + rest, j)
            },
            SpecXmlEvent::End(_) => (Seq::empty(), i + 1),
            _ => p_cdata_raw(evs, i + 1),
        }
    }
}

/// A content body: concatenated character data and text, trimmed.
pub open spec fn p_read_cdata(evs: Seq<SpecXmlEvent>, i: int) -> (Seq<char>, int) {
    let (raw, j) = p_cdata_raw(evs, i);
    (spec_trim(raw), j)
}

/// The metadata block: six scalar fields plus the app element's two
/// attributes, read in event order until the closing meta tag; a metadata
/// block without an app element is an error.
pub open spec fn p_meta_loop(
    evs: Seq<SpecXmlEvent>,
    i: int,
    title: Seq<char>,
    author: Seq<char>,
    created: Seq<char>,
    app: Option<SpecAppInfo>,
    tags: Seq<Seq<char>>,
    description: Seq<char>,
) -> Result<(SpecMetaData, int), SpecContextError>
    decreases evs.len() - i, 1nat,
{
    if !(0 <= i < evs.len()) {
        p_meta_finish(evs.len() as int, title, author, created, app, tags, description)
    } else {
        match evs[i] {
            SpecXmlEvent::Start(n, attrs) => p_meta_field(
                evs,
                i,
                n,
                attrs,
                title,
                author,
                created,
                app,
                tags,
                description,
            ),
            SpecXmlEvent::Empty(n, attrs) => p_meta_field(
                evs,
                i,
                n,
                attrs,
                title,
                author,
                created,
                app,
                tags,
                description,
            ),
            SpecXmlEvent::End(n) => if n == "meta"@ {
                p_meta_finish(i + 1, title, author, created, app, tags, description)
            } else {
                p_meta_loop(evs, i + 1, title, author, created, app, tags, description)
            },
            _ => p_meta_loop(evs, i + 1, title, author, created, app, tags, description),
        }
    }
}

/// One recognized metadata child: scalar fields read their text body, the
/// app element contributes its attributes, anything else is skipped.
pub open spec fn p_meta_field(
    evs: Seq<SpecXmlEvent>,
    i: int,
    n: Seq<char>,
    attrs: Seq<(Seq<char>, Seq<char>)>,
    title: Seq<char>,
    author: Seq<char>,
    created: Seq<char>,
    app: Option<SpecAppInfo>,
    tags: Seq<Seq<char>>,
    description: Seq<char>,
) -> Result<(SpecMetaData, int), SpecContextError>
    decreases evs.len() - i, 0nat,
{
    if !(0 <= i < evs.len()) {
        p_meta_finish(evs.len() as int, title, author, created, app, tags, description)
    } else if n == "title"@ {
        let (t, j) = p_read_text(evs, i + 1);
        p_meta_loop(evs, advance(i, j, evs.len() as int), t, author, created, app, tags, description)
    } else if n == "author"@ {
        let (t, j) = p_read_text(evs, i + 1);
        p_meta_loop(evs, advance(i, j, evs.len() as int), title, t, created, app, tags, description)
    } else if n == "created"@ {
        let (t, j) = p_read_text(evs, i + 1);
        p_meta_loop(evs, advance(i, j, evs.len() as int), title, author, t, app, tags, description)
    } else if n == "app"@ {
        let info = SpecAppInfo {
            name: attr_or_empty(attrs, "name"@),
            version: attr_or_empty(attrs, "version"@),
        };
        p_meta_loop(
            evs,
            i + 1,
            title,
            author,
            created,
            Option::Some(info),
            tags,
            description,
        )
    } else if n == "tags"@ {
        let (t, j) = p_read_text(evs, i + 1);
        p_meta_loop(
            evs,
            advance(i, j, evs.len() as int),
            title,
            author,
            created,
            app,
            trim_all(split_char(t, ',')),
            description,
        )
    } else if n == "description"@ {
        let (t, j) = p_read_text(evs, i + 1);
        p_meta_loop(evs, advance(i, j, evs.len() as int), title, author, created, app, tags, t)
    } else {
        p_meta_loop(evs, i + 1, title, author, created, app, tags, description)
    }
}

pub open spec fn p_meta_finish(
    j: int,
    title: Seq<char>,
    author: Seq<char>,
    created: Seq<char>,
    app: Option<SpecAppInfo>,
    tags: Seq<Seq<char>>,
    description: Seq<char>,
) -> Result<(SpecMetaData, int), SpecContextError> {
    match app {
        Option::None => Result::Err(SpecContextError::MissingRequiredField("app"@)),
        Option::Some(info) => Result::Ok(
            (SpecMetaData { title, author, created, app_info: info, tags, description }, j),
        ),
    }
}

pub open spec fn p_meta(evs: Seq<SpecXmlEvent>, i: int) -> Result<
    (SpecMetaData, int),
    SpecContextError,
> {
    p_meta_loop(evs, i, Seq::empty(), Seq::empty(), Seq::empty(), Option::None, Seq::empty(), Seq::empty())
}

/// The variables block: a `var` element with a body yields its trimmed
/// text as the value, a self-closing `var` yields the empty value, and the
/// name attribute (or the empty name) keys each entry.
pub open spec fn p_variables(evs: Seq<SpecXmlEvent>, i: int) -> (Seq<SpecVariable>, int)
    decreases evs.len() - i,
{
    if !(0 <= i < evs.len()) {
        (Seq::empty(), evs.len() as int)
    } else {
        match evs[i] {
            SpecXmlEvent::Start(n, attrs) => if n == "var"@ {
                let (value, j) = p_read_text(evs, i + 1);
                let v = SpecVariable { name: attr_or_empty(attrs, "name"@), value };
                let (rest, j2) = p_variables(evs, advance(i, j, evs.len() as int));
                (seq![v] + rest, j2)
            } else {
                p_variables(evs, i + 1)
            },
            SpecXmlEvent::Empty(n, attrs) => if n == "var"@ {
                let v = SpecVariable { name: attr_or_empty(attrs, "name"@), value: Seq::empty() };
                let (rest, j2) = p_variables(evs, i + 1);
                (seq![v] + rest, j2)
            } else {
                p_variables(evs, i + 1)
            },
            SpecXmlEvent::End(n) => if n == "variables"@ {
                (Seq::empty(), i + 1)
            } else {
                p_variables(evs, i + 1)
            },
            _ => p_variables(evs, i + 1),
        }
    }
}

/// One section element, its start event already consumed: id, type and
/// optional reference target from the attributes, content from a nested
/// content element (the last one read wins), and nested section elements
/// gathered recursively as children.
pub open spec fn p_section(
    evs: Seq<SpecXmlEvent>,
    i: int,
    attrs: Seq<(Seq<char>, Seq<char>)>,
) -> (SpecSection, int)
    decreases evs.len() - i, 1nat,
{
    p_section_loop(
        evs,
        i,
        attr_or_empty(attrs, "id"@),
        attr_or_empty(attrs, "type"@),
        Seq::empty(),
        attr_last(attrs, "refTarget"@),
        Seq::empty(),
    )
}

pub open spec fn p_section_loop(
    evs: Seq<SpecXmlEvent>,
    i: int,
    id: Seq<char>,
    section_type: Seq<char>,
    content: Seq<char>,
    ref_target: Option<Seq<char>>,
    children: Seq<SpecSection>,
) -> (SpecSection, int)
    decreases evs.len() - i, 0nat,
{
    if !(0 <= i < evs.len()) {
        (
            SpecSection { id, section_type, content, ref_target, children },
            evs.len() as int,
        )
    } else {
        match evs[i] {
            SpecXmlEvent::Start(n, attrs) => if n == "content"@ {
                let (c, j) = p_read_cdata(evs, i + 1);
                p_section_loop(
                    evs,
                    advance(i, j, evs.len() as int),
                    id,
                    section_type,
                    c,
                    ref_target,
                    children,
                )
            } else if n == "section"@ {
                let (child, j) = p_section(evs, i + 1, attrs);
                p_section_loop(
                    evs,
                    advance(i, j, evs.len() as int),
                    id,
                    section_type,
                    content,
                    ref_target,
                    children.push(child),
                )
            } else {
                p_section_loop(evs, i + 1, id, section_type, content, ref_target, children)
            },
            SpecXmlEvent::End(n) => if n == "section"@ {
                (SpecSection { id, section_type, content, ref_target, children }, i + 1)
            } else {
                p_section_loop(evs, i + 1, id, section_type, content, ref_target, children)
            },
            _ => p_section_loop(evs, i + 1, id, section_type, content, ref_target, children),
        }
    }
}

/// The sections block: every direct or stray section element in event order
/// until the closing sections tag.
pub open spec fn p_sections_list(evs: Seq<SpecXmlEvent>, i: int) -> (Seq<SpecSection>, int)
    decreases evs.len() - i,
{
    if !(0 <= i < evs.len()) {
        (Seq::empty(), evs.len() as int)
    } else {
        match evs[i] {
            SpecXmlEvent::Start(n, attrs) => if n == "section"@ {
                let (sec, j) = p_section(evs, i + 1, attrs);
                let (rest, j2) = p_sections_list(evs, advance(i, j, evs.len() as int));
                (seq![sec] + rest, j2)
            } else {
                p_sections_list(evs, i + 1)
            },
            SpecXmlEvent::End(n) => if n == "sections"@ {
                (Seq::empty(), i + 1)
            } else {
                p_sections_list(evs, i + 1)
            },
            _ => p_sections_list(evs, i + 1),
        }
    }
}

/// The flow block: id and version from the attributes, an optional title
/// text element, and the diagram element's body as the diagram source; the
/// derived graph and references start empty and are recomputed on demand.
pub open spec fn p_flow_loop(
    evs: Seq<SpecXmlEvent>,
    i: int,
    id: Seq<char>,
    version: Seq<char>,
    title: Option<Seq<char>>,
    mermaid_code: Seq<char>,
) -> (SpecFlowGraph, int)
    decreases evs.len() - i,
{
    if !(0 <= i < evs.len()) {
        (p_flow_value(id, version, title, mermaid_code), evs.len() as int)
    } else {
        match evs[i] {
            SpecXmlEvent::Start(n, _attrs) => if n == "title"@ {
                let (t, j) = p_read_text(evs, i + 1);
                p_flow_loop(
                    evs,
                    advance(i, j, evs.len() as int),
                    id,
                    version,
                    Option::Some(t),
                    mermaid_code,
                )
            } else if n == "diagram"@ {
                let (c, j) = p_read_cdata(evs, i + 1);
                p_flow_loop(evs, advance(i, j, evs.len() as int), id, version, title, c)
            } else {
                p_flow_loop(evs, i + 1, id, version, title, mermaid_code)
            },
            SpecXmlEvent::End(n) => if n == "flow"@ {
                (p_flow_value(id, version, title, mermaid_code), i + 1)
            } else {
                p_flow_loop(evs, i + 1, id, version, title, mermaid_code)
            },
            _ => p_flow_loop(evs, i + 1, id, version, title, mermaid_code),
        }
    }
}

pub open spec fn p_flow_value(
    id: Seq<char>,
    version: Seq<char>,
    title: Option<Seq<char>>,
    mermaid_code: Seq<char>,
) -> SpecFlowGraph {
    SpecFlowGraph {
        id,
        version,
        title,
        mermaid_code,
        parsed_graph: SpecGraphStructure { nodes: Seq::empty(), edges: Seq::empty() },
        node_refs: Seq::empty(),
    }
}

pub open spec fn p_flow(evs: Seq<SpecXmlEvent>, i: int, attrs: Seq<(Seq<char>, Seq<char>)>) -> (
    SpecFlowGraph,
    int,
) {
    p_flow_loop(
        evs,
        i,
        attr_or_empty(attrs, "id"@),
        attr_or_empty(attrs, "version"@),
        Option::None,
        Seq::empty(),
    )
}

/// The whole event stream: the four top-level blocks recognized by name in
/// any order, later occurrences overwriting earlier ones, everything else
/// ignored; a stream with no metadata block is an error.
pub open spec fn p_doc_loop(
    evs: Seq<SpecXmlEvent>,
    i: int,
    meta: Option<SpecMetaData>,
    variables: Seq<SpecVariable>,
    sections: Seq<SpecSection>,
    flow: Option<SpecFlowGraph>,
) -> Result<SpecContextDocument, SpecContextError>
    decreases evs.len() - i,
{
    if !(0 <= i < evs.len()) {
        match meta {
            Option::None => Result::Err(SpecContextError::MissingRequiredField("meta"@)),
            Option::Some(m) => Result::Ok(
                SpecContextDocument { meta: m, variables, sections, flow_graph: flow },
            ),
        }
    } else {
        match evs[i] {
            SpecXmlEvent::Start(n, attrs) => if n == "meta"@ {
                match p_meta(evs, i + 1) {
                    Result::Err(e) => Result::Err(e),
                    Result::Ok((m, j)) => p_doc_loop(
                        evs,
                        advance(i, j, evs.len() as int),
                        Option::Some(m),
                        variables,
                        sections,
                        flow,
                    ),
                }
            } else if n == "variables"@ {
                let (vs, j) = p_variables(evs, i + 1);
                p_doc_loop(evs, advance(i, j, evs.len() as int), meta, vs, sections, flow)
            } else if n == "sections"@ {
                let (ss, j) = p_sections_list(evs, i + 1);
                p_doc_loop(evs, advance(i, j, evs.len() as int), meta, variables, ss, flow)
            } else if n == "flow"@ {
                let (f, j) = p_flow(evs, i + 1, attrs);
                p_doc_loop(
                    evs,
                    advance(i, j, evs.len() as int),
                    meta,
                    variables,
                    sections,
                    Option::Some(f),
                )
            } else {
                p_doc_loop(evs, i + 1, meta, variables, sections, flow)
            },
            _ => p_doc_loop(evs, i + 1, meta, variables, sections, flow),
        }
    }
}

pub open spec fn p_doc(evs: Seq<SpecXmlEvent>) -> Result<SpecContextDocument, SpecContextError> {
    p_doc_loop(evs, 0, Option::None, Seq::empty(), Seq::empty(), Option::None)
}

/// Parsing a whole text: scan it into events, then build the document; a
/// scanning failure is an `InvalidXml` error.
pub open spec fn spec_parse_xml(s: Seq<char>) -> Result<SpecContextDocument, SpecContextError> {
    match spec_lex(s) {
        Result::Err(m) => Result::Err(SpecContextError::InvalidXml(m)),
        Result::Ok(evs) => p_doc(evs),
    }
}

} // verus!

verus! {

// ---------------------------------------------------------------------------
// Executable reader.
// ---------------------------------------------------------------------------

/// Look an attribute up, its last occurrence winning.
fn attr_get(attrs: &Vec<(String, String)>, key: &str) -> (r: Option<String>)
    ensures
        match r {
            Option::Some(v) => attr_last(crate::xml_events::attrs_view(attrs@), key@)
                == Option::Some(v@),
            Option::None => attr_last(crate::xml_events::attrs_view(attrs@), key@) is None,
        },
{
    let ghost av = crate::xml_events::attrs_view(attrs@);
    let mut i: usize = attrs.len();
    proof {
        assert(av.take(attrs@.len() as int) =~= av);
    }
    while i > 0
        invariant
            av == crate::xml_events::attrs_view(attrs@),
            i <= attrs@.len(),
            attr_last(av, key@) == attr_last(av.take(i as int), key@),
        decreases i,
    {
        proof {
            assert(av[i - 1] == (attrs@[i - 1].0@, attrs@[i - 1].1@));
            assert(av.take(i as int).last() == av[i - 1]);
        }
        if crate::text::str_eq(attrs[i - 1].0.as_str(), key) {
            return Option::Some(attrs[i - 1].1.clone());
        }
        proof {
            assert(av.take(i as int).drop_last() =~= av.take(i - 1));
        }
        i = i - 1;
    }
    Option::None
}

/// The same lookup defaulting to the empty string.
fn attr_get_or_empty(attrs: &Vec<(String, String)>, key: &str) -> (r: String)
    ensures
        r@ == attr_or_empty(crate::xml_events::attrs_view(attrs@), key@),
{
    match attr_get(attrs, key) {
        Option::Some(v) => v,
        Option::None => String::new(),
    }
}

/// Read a scalar element body executably.
fn read_text_exec(evs: &Vec<XmlEvent>, i: usize) -> (r: (String, usize))
    requires
        i <= evs@.len(),
    ensures
        p_read_text(evs.deep_view(), i as int) == (r.0@, r.1 as int),
        i <= r.1 <= evs@.len(),
{
    let ghost dv = evs.deep_view();
    let mut raw: Vec<char> = Vec::new();
    let mut cur: usize = i;
    loop
        invariant
            i <= cur <= evs@.len(),
            dv == evs.deep_view(),
            p_text_raw(dv, i as int) == (raw@ + p_text_raw(dv, cur as int).0, p_text_raw(
                dv,
                cur as int,
            ).1),
        decreases evs@.len() - cur,
    {
        let ghost pre = raw@;
        if cur == evs.len() {
            proof {
                assert(pre + Seq::<char>::empty() =~= pre);
            }
            return (crate::text::string_from_chars(&crate::text::trim_vec(&raw)), cur);
        }
        proof {
            assert(dv[cur as int] == evs@[cur as int]@);
        }
        match &evs[cur] {
            XmlEvent::Text(t) => {
                crate::text::push_str_chars(&mut raw, t.as_str());
                proof {
                    assert(raw@ + p_text_raw(dv, cur + 1).0 =~= pre + (t@ + p_text_raw(
                        dv,
                        cur + 1,
                    ).0));
                }
                cur = cur + 1;
            },
            XmlEvent::End(_) => {
                proof {
                    assert(pre + Seq::<char>::empty() =~= pre);
                }
                return (crate::text::string_from_chars(&crate::text::trim_vec(&raw)), cur + 1);
            },
            _ => {
                cur = cur + 1;
            },
        }
    }
}

/// Read a content body executably.
fn read_cdata_exec(evs: &Vec<XmlEvent>, i: usize) -> (r: (String, usize))
    requires
        i <= evs@.len(),
    ensures
        p_read_cdata(evs.deep_view(), i as int) == (r.0@, r.1 as int),
        i <= r.1 <= evs@.len(),
{
    let ghost dv = evs.deep_view();
    let mut raw: Vec<char> = Vec::new();
    let mut cur: usize = i;
    loop
        invariant
            i <= cur <= evs@.len(),
            dv == evs.deep_view(),
            p_cdata_raw(dv, i as int) == (raw@ + p_cdata_raw(dv, cur as int).0, p_cdata_raw(
                dv,
                cur as int,
            ).1),
        decreases evs@.len() - cur,
    {
        let ghost pre = raw@;
        if cur == evs.len() {
            proof {
                assert(pre + Seq::<char>::empty() =~= pre);
            }
            return (crate::text::string_from_chars(&crate::text::trim_vec(&raw)), cur);
        }
        proof {
            assert(dv[cur as int] == evs@[cur as int]@);
        }
        match &evs[cur] {
            XmlEvent::Text(t) => {
                crate::text::push_str_chars(&mut raw, t.as_str());
                proof {
                    assert(raw@ + p_cdata_raw(dv, cur + 1).0 =~= pre + (t@ + p_cdata_raw(
                        dv,
                        cur + 1,
                    ).0));
                }
                cur = cur + 1;
            },
            XmlEvent::CData(t) => {
                crate::text::push_str_chars(&mut raw, t.as_str());
                proof {
                    assert(raw@ + p_cdata_raw(dv, cur + 1).0 =~= pre + (t@ + p_cdata_raw(
                        dv,
                        cur + 1,
                    ).0));
                }
                cur = cur + 1;
            },
            XmlEvent::End(_) => {
                proof {
                    assert(pre + Seq::<char>::empty() =~= pre);
                }
                return (crate::text::string_from_chars(&crate::text::trim_vec(&raw)), cur + 1);
            },
            _ => {
                cur = cur + 1;
            },
        }
    }
}

} // verus!

verus! {

pub open spec fn opt_view<T: View>(o: Option<T>) -> Option<T::V> {
    match o {
        Option::Some(x) => Option::Some(x@),
        Option::None => Option::None,
    }
}

/// Accumulated metadata fields while the block is being read.
struct MetaAcc {
    title: String,
    author: String,
    created: String,
    app: Option<AppInfo>,
    tags: Vec<String>,
    description: String,
}

/// One recognized metadata child, executably.
fn meta_field_step(
    evs: &Vec<XmlEvent>,
    cur: usize,
    n: &String,
    attrs: &Vec<(String, String)>,
    acc: MetaAcc,
) -> (r: (MetaAcc, usize))
    requires
        cur < evs@.len(),
    ensures
        p_meta_field(
            evs.deep_view(),
            cur as int,
            n@,
            crate::xml_events::attrs_view(attrs@),
            acc.title@,
            acc.author@,
            acc.created@,
            opt_view(acc.app),
            acc.tags.deep_view(),
            acc.description@,
        ) == p_meta_loop(
            evs.deep_view(),
            r.1 as int,
            r.0.title@,
            r.0.author@,
            r.0.created@,
            opt_view(r.0.app),
            r.0.tags.deep_view(),
            r.0.description@,
        ),
        cur < r.1 <= evs@.len(),
{
    let len = evs.len();
    proof {
        assert(cur < len);
    }
    let mut acc = acc;
    if crate::text::str_eq(n.as_str(), "title") {
        let (t, j) = read_text_exec(evs, cur + 1);
        acc.title = t;
        (acc, j)
    } else if crate::text::str_eq(n.as_str(), "author") {
        let (t, j) = read_text_exec(evs, cur + 1);
        acc.author = t;
        (acc, j)
    } else if crate::text::str_eq(n.as_str(), "created") {
        let (t, j) = read_text_exec(evs, cur + 1);
        acc.created = t;
        (acc, j)
    } else if crate::text::str_eq(n.as_str(), "app") {
        let name = attr_get_or_empty(attrs, "name");
        let version = attr_get_or_empty(attrs, "version");
        acc.app = Option::Some(AppInfo { name, version });
        (acc, cur + 1)
    } else if crate::text::str_eq(n.as_str(), "tags") {
        let (t, j) = read_text_exec(evs, cur + 1);
        acc.tags = crate::text::split_trim_commas(t.as_str());
        (acc, j)
    } else if crate::text::str_eq(n.as_str(), "description") {
        let (t, j) = read_text_exec(evs, cur + 1);
        acc.description = t;
        (acc, j)
    } else {
        (acc, cur + 1)
    }
}

/// Read the metadata block executably.
fn parse_meta_exec(evs: &Vec<XmlEvent>, i: usize) -> (r: Result<(MetaData, usize), ContextError>)
    requires
        i <= evs@.len(),
    ensures
        match r {
            Result::Ok((m, j)) => p_meta(evs.deep_view(), i as int) == Result::Ok::<
                (SpecMetaData, int),
                SpecContextError,
            >((m@, j as int)) && i <= j <= evs@.len(),
            Result::Err(e) => p_meta(evs.deep_view(), i as int) == Result::Err::<
                (SpecMetaData, int),
                SpecContextError,
            >(e@),
        },
{
    let ghost dv = evs.deep_view();
    let mut acc = MetaAcc {
        title: String::new(),
        author: String::new(),
        created: String::new(),
        app: Option::None,
        tags: Vec::new(),
        description: String::new(),
    };
    proof {
        assert(acc.tags.deep_view() =~= Seq::<Seq<char>>::empty());
    }
    let mut cur: usize = i;
    while cur < evs.len()
        invariant
            dv == evs.deep_view(),
            i <= cur <= evs@.len(),
            p_meta(dv, i as int) == p_meta_loop(
                dv,
                cur as int,
                acc.title@,
                acc.author@,
                acc.created@,
                opt_view(acc.app),
                acc.tags.deep_view(),
                acc.description@,
            ),
        decreases evs@.len() - cur,
    {
        proof {
            assert(dv[cur as int] == evs@[cur as int]@);
        }
        match &evs[cur] {
            XmlEvent::Start(n, attrs) => {
                let (acc2, j) = meta_field_step(evs, cur, n, attrs, acc);
                acc = acc2;
                cur = j;
            },
            XmlEvent::Empty(n, attrs) => {
                let (acc2, j) = meta_field_step(evs, cur, n, attrs, acc);
                acc = acc2;
                cur = j;
            },
            XmlEvent::End(n) => {
                if crate::text::str_eq(n.as_str(), "meta") {
                    match acc.app {
                        Option::None => {
                            return Result::Err(
                                ContextError::MissingRequiredField(String::from_str("app")),
                            );
                        },
                        Option::Some(info) => {
                            return Result::Ok(
                                (
                                    MetaData {
                                        title: acc.title,
                                        author: acc.author,
                                        created: acc.created,
                                        app_info: info,
                                        tags: acc.tags,
                                        description: acc.description,
                                    },
                                    cur + 1,
                                ),
                            );
                        },
                    }
                }
                cur = cur + 1;
            },
            _ => {
                cur = cur + 1;
            },
        }
    }
    match acc.app {
        Option::None => Result::Err(ContextError::MissingRequiredField(String::from_str("app"))),
        Option::Some(info) => Result::Ok(
            (
                MetaData {
                    title: acc.title,
                    author: acc.author,
                    created: acc.created,
                    app_info: info,
                    tags: acc.tags,
                    description: acc.description,
                },
                evs.len(),
            ),
        ),
    }
}

/// Read the variables block executably.
fn parse_variables_exec(evs: &Vec<XmlEvent>, i: usize) -> (r: (Vec<Variable>, usize))
    requires
        i <= evs@.len(),
    ensures
        p_variables(evs.deep_view(), i as int) == (r.0.deep_view(), r.1 as int),
        i <= r.1 <= evs@.len(),
{
    let ghost dv = evs.deep_view();
    let mut vars: Vec<Variable> = Vec::new();
    proof {
        assert(vars.deep_view() =~= Seq::<SpecVariable>::empty());
        assert(Seq::<SpecVariable>::empty() + p_variables(dv, i as int).0 =~= p_variables(
            dv,
            i as int,
        ).0);
    }
    let mut cur: usize = i;
    while cur < evs.len()
        invariant
            dv == evs.deep_view(),
            i <= cur <= evs@.len(),
            p_variables(dv, i as int) == (
                vars.deep_view() + p_variables(dv, cur as int).0,
                p_variables(dv, cur as int).1,
            ),
        decreases evs@.len() - cur,
    {
        let ghost pre = vars.deep_view();
        proof {
            assert(dv[cur as int] == evs@[cur as int]@);
        }
        match &evs[cur] {
            XmlEvent::Start(n, attrs) => {
                if crate::text::str_eq(n.as_str(), "var") {
                    let name = attr_get_or_empty(attrs, "name");
                    let (value, j) = read_text_exec(evs, cur + 1);
                    vars.push(Variable { name, value });
                    proof {
                        assert(vars.deep_view() =~= pre.push(
                            SpecVariable {
                                name: attr_or_empty(
                                    crate::xml_events::attrs_view(evs@[cur as int]->Start_1@),
                                    "name"@,
                                ),
                                value: p_read_text(dv, cur + 1).0,
                            },
                        ));
                        assert(vars.deep_view() + p_variables(dv, j as int).0 =~= pre
                            + p_variables(dv, cur as int).0);
                    }
                    cur = j;
                } else {
                    cur = cur + 1;
                }
            },
            XmlEvent::Empty(n, attrs) => {
                if crate::text::str_eq(n.as_str(), "var") {
                    let name = attr_get_or_empty(attrs, "name");
                    vars.push(Variable { name, value: String::new() });
                    proof {
                        assert(vars.deep_view() =~= pre.push(
                            SpecVariable {
                                name: attr_or_empty(
                                    crate::xml_events::attrs_view(evs@[cur as int]->Empty_1@),
                                    "name"@,
                                ),
                                value: Seq::empty(),
                            },
                        ));
                        assert(vars.deep_view() + p_variables(dv, cur + 1).0 =~= pre + p_variables(
                            dv,
                            cur as int,
                        ).0);
                    }
                    cur = cur + 1;
                } else {
                    cur = cur + 1;
                }
            },
            XmlEvent::End(n) => {
                if crate::text::str_eq(n.as_str(), "variables") {
                    proof {
                        assert(pre + Seq::<SpecVariable>::empty() =~= pre);
                    }
                    return (vars, cur + 1);
                }
                cur = cur + 1;
            },
            _ => {
                cur = cur + 1;
            },
        }
    }
    proof {
        assert(vars.deep_view() + Seq::<SpecVariable>::empty() =~= vars.deep_view());
    }
    (vars, evs.len())
}

/// Read one section element executably, its start event already consumed.
fn parse_section_exec(evs: &Vec<XmlEvent>, i: usize, attrs: &Vec<(String, String)>) -> (r: (
    Section,
    usize,
))
    requires
        i <= evs@.len(),
    ensures
        p_section(evs.deep_view(), i as int, crate::xml_events::attrs_view(attrs@)) == (
            section_view(r.0),
            r.1 as int,
        ),
        i <= r.1 <= evs@.len(),
    decreases evs@.len() - i,
{
    let ghost dv = evs.deep_view();
    let ghost av = crate::xml_events::attrs_view(attrs@);
    let id = attr_get_or_empty(attrs, "id");
    let section_type = attr_get_or_empty(attrs, "type");
    let ref_target = attr_get(attrs, "refTarget");
    let mut content = String::new();
    let mut children: Vec<Section> = Vec::new();
    let mut cur: usize = i;
    while cur < evs.len()
        invariant
            dv == evs.deep_view(),
            av == crate::xml_events::attrs_view(attrs@),
            i <= cur <= evs@.len(),
            p_section(dv, i as int, av) == p_section_loop(
                dv,
                cur as int,
                id@,
                section_type@,
                content@,
                opt_view(ref_target),
                sections_view(children@),
            ),
        decreases evs@.len() - cur,
    {
        proof {
            assert(dv[cur as int] == evs@[cur as int]@);
        }
        match &evs[cur] {
            XmlEvent::Start(n, attrs2) => {
                if crate::text::str_eq(n.as_str(), "content") {
                    let (c, j) = read_cdata_exec(evs, cur + 1);
                    content = c;
                    cur = j;
                } else if crate::text::str_eq(n.as_str(), "section") {
                    let (child, j) = parse_section_exec(evs, cur + 1, attrs2);
                    proof {
                        crate::variable_resolver::lemma_sections_view_push(children@, child);
                    }
                    children.push(child);
                    cur = j;
                } else {
                    cur = cur + 1;
                }
            },
            XmlEvent::End(n) => {
                if crate::text::str_eq(n.as_str(), "section") {
                    return (
                        Section { id, section_type, content, ref_target, children },
                        cur + 1,
                    );
                }
                cur = cur + 1;
            },
            _ => {
                cur = cur + 1;
            },
        }
    }
    (Section { id, section_type, content, ref_target, children }, evs.len())
}

/// Read the sections block executably.
fn parse_sections_list_exec(evs: &Vec<XmlEvent>, i: usize) -> (r: (Vec<Section>, usize))
    requires
        i <= evs@.len(),
    ensures
        p_sections_list(evs.deep_view(), i as int) == (sections_view(r.0@), r.1 as int),
        i <= r.1 <= evs@.len(),
{
    let ghost dv = evs.deep_view();
    let mut secs: Vec<Section> = Vec::new();
    proof {
        assert(sections_view(secs@) + p_sections_list(dv, i as int).0 =~= p_sections_list(
            dv,
            i as int,
        ).0);
    }
    let mut cur: usize = i;
    while cur < evs.len()
        invariant
            dv == evs.deep_view(),
            i <= cur <= evs@.len(),
            p_sections_list(dv, i as int) == (
                sections_view(secs@) + p_sections_list(dv, cur as int).0,
                p_sections_list(dv, cur as int).1,
            ),
        decreases evs@.len() - cur,
    {
        let ghost pre = sections_view(secs@);
        proof {
            assert(dv[cur as int] == evs@[cur as int]@);
        }
        match &evs[cur] {
            XmlEvent::Start(n, attrs) => {
                if crate::text::str_eq(n.as_str(), "section") {
                    let (sec, j) = parse_section_exec(evs, cur + 1, attrs);
                    proof {
                        crate::variable_resolver::lemma_sections_view_push(secs@, sec);
                    }
                    secs.push(sec);
                    proof {
                        assert(sections_view(secs@) + p_sections_list(dv, j as int).0 =~= pre
                            + p_sections_list(dv, cur as int).0);
                    }
                    cur = j;
                } else {
                    cur = cur + 1;
                }
            },
            XmlEvent::End(n) => {
                if crate::text::str_eq(n.as_str(), "sections") {
                    proof {
                        assert(pre + Seq::<SpecSection>::empty() =~= pre);
                    }
                    return (secs, cur + 1);
                }
                cur = cur + 1;
            },
            _ => {
                cur = cur + 1;
            },
        }
    }
    proof {
        assert(sections_view(secs@) + Seq::<SpecSection>::empty() =~= sections_view(secs@));
    }
    (secs, evs.len())
}

/// Read the flow block executably.
fn parse_flow_exec(evs: &Vec<XmlEvent>, i: usize, attrs: &Vec<(String, String)>) -> (r: (
    FlowGraph,
    usize,
))
    requires
        i <= evs@.len(),
    ensures
        p_flow(evs.deep_view(), i as int, crate::xml_events::attrs_view(attrs@)) == (
            r.0@,
            r.1 as int,
        ),
        i <= r.1 <= evs@.len(),
{
    let ghost dv = evs.deep_view();
    let ghost av = crate::xml_events::attrs_view(attrs@);
    let id = attr_get_or_empty(attrs, "id");
    let version = attr_get_or_empty(attrs, "version");
    let mut title: Option<String> = Option::None;
    let mut mermaid_code = String::new();
    let mut cur: usize = i;
    while cur < evs.len()
        invariant
            dv == evs.deep_view(),
            av == crate::xml_events::attrs_view(attrs@),
            i <= cur <= evs@.len(),
            p_flow(dv, i as int, av) == p_flow_loop(
                dv,
                cur as int,
                id@,
                version@,
                opt_view(title),
                mermaid_code@,
            ),
        decreases evs@.len() - cur,
    {
        proof {
            assert(dv[cur as int] == evs@[cur as int]@);
        }
        match &evs[cur] {
            XmlEvent::Start(n, _a) => {
                if crate::text::str_eq(n.as_str(), "title") {
                    let (t, j) = read_text_exec(evs, cur + 1);
                    title = Option::Some(t);
                    cur = j;
                } else if crate::text::str_eq(n.as_str(), "diagram") {
                    let (c, j) = read_cdata_exec(evs, cur + 1);
                    mermaid_code = c;
                    cur = j;
                } else {
                    cur = cur + 1;
                }
            },
            XmlEvent::End(n) => {
                if crate::text::str_eq(n.as_str(), "flow") {
                    let fg = FlowGraph {
                        id,
                        version,
                        title,
                        mermaid_code,
                        parsed_graph: GraphStructure { nodes: Vec::new(), edges: Vec::new() },
                        node_refs: Vec::new(),
                    };
                    proof {
                        assert(fg@.parsed_graph.nodes =~= Seq::<
                            crate::models::SpecGraphNode,
                        >::empty());
                        assert(fg@.parsed_graph.edges =~= Seq::<
                            crate::models::SpecGraphEdge,
                        >::empty());
                        assert(fg@.node_refs =~= Seq::<
                            crate::models::SpecNodeReference,
                        >::empty());
                    }
                    return (fg, cur + 1);
                }
                cur = cur + 1;
            },
            _ => {
                cur = cur + 1;
            },
        }
    }
    let fg = FlowGraph {
        id,
        version,
        title,
        mermaid_code,
        parsed_graph: GraphStructure { nodes: Vec::new(), edges: Vec::new() },
        node_refs: Vec::new(),
    };
    proof {
        assert(fg@.parsed_graph.nodes =~= Seq::<crate::models::SpecGraphNode>::empty());
        assert(fg@.parsed_graph.edges =~= Seq::<crate::models::SpecGraphEdge>::empty());
        assert(fg@.node_refs =~= Seq::<crate::models::SpecNodeReference>::empty());
    }
    (fg, evs.len())
}

/// Parse markup text into a document: scan it into events, then read the
/// four top-level blocks in any order, ignoring unrecognized elements.  A
/// scanning failure is an `InvalidXml` error; a text without a metadata
/// block, or whose metadata lacks an app element, is a
/// `MissingRequiredField` error; nothing else fails.
pub fn parse_xml(xml_content: &str) -> (r: Result<ContextDocument, ContextError>)
    ensures
        match r {
            Result::Ok(d) => spec_parse_xml(xml_content@) == Result::Ok::<
                SpecContextDocument,
                SpecContextError,
            >(d@),
            Result::Err(e) => spec_parse_xml(xml_content@) == Result::Err::<
                SpecContextDocument,
                SpecContextError,
            >(e@),
        },
{
    let evs = match crate::xml_events::lex_document(xml_content) {
        Result::Ok(evs) => evs,
        Result::Err(e) => {
            return Result::Err(e);
        },
    };
    let ghost dv = evs.deep_view();
    let mut meta: Option<MetaData> = Option::None;
    let mut variables: Vec<Variable> = Vec::new();
    let mut sections: Vec<Section> = Vec::new();
    let mut flow_graph: Option<FlowGraph> = Option::None;
    proof {
        assert(variables.deep_view() =~= Seq::<SpecVariable>::empty());
    }
    let mut cur: usize = 0;
    while cur < evs.len()
        invariant
            dv == evs.deep_view(),
            cur <= evs@.len(),
            spec_parse_xml(xml_content@) == p_doc_loop(
                dv,
                cur as int,
                opt_view(meta),
                variables.deep_view(),
                sections_view(sections@),
                opt_view(flow_graph),
            ),
        decreases evs@.len() - cur,
    {
        proof {
            assert(dv[cur as int] == evs@[cur as int]@);
        }
        match &evs[cur] {
            XmlEvent::Start(n, attrs) => {
                if crate::text::str_eq(n.as_str(), "meta") {
                    match parse_meta_exec(&evs, cur + 1) {
                        Result::Err(e) => {
                            return Result::Err(e);
                        },
                        Result::Ok((m, j)) => {
                            meta = Option::Some(m);
                            cur = j;
                        },
                    }
                } else if crate::text::str_eq(n.as_str(), "variables") {
                    let (vs, j) = parse_variables_exec(&evs, cur + 1);
                    variables = vs;
                    cur = j;
                } else if crate::text::str_eq(n.as_str(), "sections") {
                    let (ss, j) = parse_sections_list_exec(&evs, cur + 1);
                    sections = ss;
                    cur = j;
                } else if crate::text::str_eq(n.as_str(), "flow") {
                    let (f, j) = parse_flow_exec(&evs, cur + 1, attrs);
                    flow_graph = Option::Some(f);
                    cur = j;
                } else {
                    cur = cur + 1;
                }
            },
            _ => {
                cur = cur + 1;
            },
        }
    }
    match meta {
        Option::None => Result::Err(ContextError::MissingRequiredField(String::from_str("meta"))),
        Option::Some(m) => Result::Ok(ContextDocument { meta: m, variables, sections, flow_graph }),
    }
}

} // verus!
