use vstd::prelude::*;

use crate::errors::ContextError;
use crate::models::ContextDocument;
use crate::models::Section;
use crate::models::SpecContextDocument;
use crate::models::SpecFlowGraph;
use crate::models::SpecMetaData;
use crate::models::SpecSection;
use crate::models::SpecVariable;
use crate::models::section_view;
use crate::models::sections_view;
use crate::text::join_with;
use crate::text::spec_trim;

verus! {

// ---------------------------------------------------------------------------
// Deterministic, indentation-normalized rendering of a document back to
// markup text: a declaration line, the versioned root element, metadata,
// variables, the section tree mirrored exactly (nesting included), and the
// optional flow block whose diagram source is wrapped verbatim in a
// literal-data block padded with newlines.  The derived graph state is
// never emitted.
// ---------------------------------------------------------------------------

/// The five markup metacharacters rendered as entity references; every
/// other character stands for itself.
pub open spec fn escape_char(c: char) -> Seq<char> {
    if c == '&' {
        "&amp;"@
    } else if c == '<' {
        "&lt;"@
    } else if c == '>' {
        "&gt;"@
    } else if c == '"' {
        "&quot;"@
    } else if c == '\'' {
        "&apos;"@
    } else {
        seq![c]
    }
}

pub open spec fn spec_escape_from(s: Seq<char>, i: int) -> Seq<char>
    decreases s.len() - i,
{
    if !(0 <= i < s.len()) {
        Seq::empty()
    } else {
        escape_char(s[i]) + spec_escape_from(s, i + 1)
    }
}

pub open spec fn spec_escape(s: Seq<char>) -> Seq<char> {
    spec_escape_from(s, 0)
}

/// A scalar element on its own line: padding, the tag, the escaped text,
/// the closing tag.
pub open spec fn text_elem(pad: Seq<char>, tag: Seq<char>, text: Seq<char>) -> Seq<char> {
    "\n"@ + pad + "<"@ + tag + ">"@ + spec_escape(text) + "</"@ + tag + ">"@
}

/// A literal-data element on its own line: the trimmed content wrapped
/// verbatim between padding newlines.
pub open spec fn cdata_elem(pad: Seq<char>, tag: Seq<char>, content: Seq<char>) -> Seq<char> {
    "\n"@ + pad + "<"@ + tag + "><![CDATA[\n"@ + spec_trim(content) + "\n]]></"@ + tag + ">"@
}

/// The metadata block: six scalar or attribute fields, tags rejoined with a
/// comma separator.
pub open spec fn ser_meta(m: SpecMetaData) -> Seq<char> {
    "\n  <meta>"@ + text_elem("    "@, "title"@, m.title) + text_elem("    "@, "author"@, m.author)
        + text_elem("    "@, "created"@, m.created) + "\n    <app name=\""@ + spec_escape(
        m.app_info.name,
    ) + "\" version=\""@ + spec_escape(m.app_info.version) + "\"/>"@ + text_elem(
        "    "@,
        "tags"@,
        join_with(m.tags, ", "@),
    ) + text_elem("    "@, "description"@, m.description) + "\n  </meta>"@
}

pub open spec fn ser_var(v: SpecVariable) -> Seq<char> {
    "\n    <var name=\""@ + spec_escape(v.name) + "\">"@ + spec_escape(v.value) + "</var>"@
}

pub open spec fn ser_vars_from(vs: Seq<SpecVariable>, i: int) -> Seq<char>
    decreases vs.len() - i,
{
    if !(0 <= i < vs.len()) {
        Seq::empty()
    } else {
        ser_var(vs[i]) + ser_vars_from(vs, i + 1)
    }
}

pub open spec fn ser_variables(vs: Seq<SpecVariable>) -> Seq<char> {
    "\n  <variables>"@ + ser_vars_from(vs, 0) + "\n  </variables>"@
}

/// One section at the given padding: its attributes, its content as
/// literal data, then its children two spaces deeper, mirroring the tree.
pub open spec fn ser_section(s: SpecSection, pad: Seq<char>) -> Seq<char>
    decreases s,
{
    "\n"@ + pad + "<section id=\""@ + spec_escape(s.id) + "\" type=\""@ + spec_escape(
        s.section_type,
    ) + "\""@ + (match s.ref_target {
        Option::None => Seq::<char>::empty(),
        Option::Some(rt) => " refTarget=\""@ + spec_escape(rt) + "\""@,
    }) + ">"@ + cdata_elem(pad + "  "@, "content"@, s.content) + ser_section_list(
        s.children,
        0,
        pad + "  "@,
    ) + "\n"@ + pad + "</section>"@
}

pub open spec fn ser_section_list(ss: Seq<SpecSection>, i: int, pad: Seq<char>) -> Seq<char>
    decreases ss, ss.len() - i,
{
    if !(0 <= i < ss.len()) {
        Seq::empty()
    } else {
        ser_section(ss[i], pad) + ser_section_list(ss, i + 1, pad)
    }
}

pub open spec fn ser_sections(ss: Seq<SpecSection>) -> Seq<char> {
    "\n  <sections>"@ + ser_section_list(ss, 0, "    "@) + "\n  </sections>"@
}

/// The flow block: identity attributes, the optional title, and the
/// diagram source as literal data.  The derived graph and references are
/// never rendered.
pub open spec fn ser_flow(f: SpecFlowGraph) -> Seq<char> {
    "\n  <flow id=\""@ + spec_escape(f.id) + "\" version=\""@ + spec_escape(f.version) + "\">"@
        + (match f.title {
        Option::None => Seq::<char>::empty(),
        Option::Some(t) => text_elem("    "@, "title"@, t),
    }) + cdata_elem("    "@, "diagram"@, f.mermaid_code) + "\n  </flow>"@
}

/// The whole document as markup text.
pub open spec fn spec_serialize(d: SpecContextDocument) -> Seq<char> {
    "<?xml version=\"1.0\" encoding=\"UTF-8\"?>"@ + "\n<context version=\"1.0\">"@ + ser_meta(
        d.meta,
    ) + ser_variables(d.variables) + ser_sections(d.sections) + (match d.flow_graph {
        Option::None => Seq::<char>::empty(),
        Option::Some(f) => ser_flow(f),
    }) + "\n</context>"@
}

// ---------------------------------------------------------------------------
// Executable renderer.
// ---------------------------------------------------------------------------

/// Append the escaped text.
fn push_escaped(out: &mut Vec<char>, s: &str)
    ensures
        final(out)@ == old(out)@ + spec_escape(s@),
{
    let v = crate::text::str_to_chars(s);
    let ghost base = out@;
    let mut i: usize = 0;
    while i < v.len()
        invariant
            v@ == s@,
            i <= v@.len(),
            out@ + spec_escape_from(s@, i as int) == base + spec_escape(s@),
        decreases v@.len() - i,
    {
        let ghost pre = out@;
        let c = v[i];
        if c == '&' {
            crate::text::push_str_chars(out, "&amp;");
        } else if c == '<' {
            crate::text::push_str_chars(out, "&lt;");
        } else if c == '>' {
            crate::text::push_str_chars(out, "&gt;");
        } else if c == '"' {
            crate::text::push_str_chars(out, "&quot;");
        } else if c == '\'' {
            crate::text::push_str_chars(out, "&apos;");
        } else {
            out.push(c);
            proof {
                assert(out@ =~= pre + seq![s@[i as int]]);
            }
        }
        proof {
            assert(out@ == pre + escape_char(s@[i as int]));
            assert(out@ + spec_escape_from(s@, i + 1) =~= pre + spec_escape_from(s@, i as int));
        }
        i = i + 1;
    }
}

/// Append a scalar element line.
fn push_text_elem(out: &mut Vec<char>, pad: &Vec<char>, tag: &str, text: &str)
    ensures
        final(out)@ == old(out)@ + text_elem(pad@, tag@, text@),
{
    let ghost base = out@;
    crate::text::push_str_chars(out, "\n");
    crate::text::push_vec_chars(out, pad);
    crate::text::push_str_chars(out, "<");
    crate::text::push_str_chars(out, tag);
    crate::text::push_str_chars(out, ">");
    push_escaped(out, text);
    crate::text::push_str_chars(out, "</");
    crate::text::push_str_chars(out, tag);
    crate::text::push_str_chars(out, ">");
    proof {
        assert(out@ =~= base + text_elem(pad@, tag@, text@));
    }
}

/// Append a literal-data element line.
fn push_cdata_elem(out: &mut Vec<char>, pad: &Vec<char>, tag: &str, content: &str)
    ensures
        final(out)@ == old(out)@ + cdata_elem(pad@, tag@, content@),
{
    let ghost base = out@;
    crate::text::push_str_chars(out, "\n");
    crate::text::push_vec_chars(out, pad);
    crate::text::push_str_chars(out, "<");
    crate::text::push_str_chars(out, tag);
    crate::text::push_str_chars(out, "><![CDATA[\n");
    let trimmed = crate::text::trim_vec(&crate::text::str_to_chars(content));
    crate::text::push_vec_chars(out, &trimmed);
    crate::text::push_str_chars(out, "\n]]></");
    crate::text::push_str_chars(out, tag);
    crate::text::push_str_chars(out, ">");
    proof {
        assert(out@ =~= base + cdata_elem(pad@, tag@, content@));
    }
}

/// Append one rendered section and, recursively, its children.
fn write_section(out: &mut Vec<char>, s: &Section, pad: &Vec<char>)
    ensures
        final(out)@ == old(out)@ + ser_section(section_view(*s), pad@),
    decreases *s,
{
    let ghost base = out@;
    crate::text::push_str_chars(out, "\n");
    crate::text::push_vec_chars(out, pad);
    crate::text::push_str_chars(out, "<section id=\"");
    push_escaped(out, s.id.as_str());
    crate::text::push_str_chars(out, "\" type=\"");
    push_escaped(out, s.section_type.as_str());
    crate::text::push_str_chars(out, "\"");
    match &s.ref_target {
        Option::Some(rt) => {
            crate::text::push_str_chars(out, " refTarget=\"");
            push_escaped(out, rt.as_str());
            crate::text::push_str_chars(out, "\"");
        },
        Option::None => {},
    }
    crate::text::push_str_chars(out, ">");
    let mut child_pad = crate::text::subvec(pad, 0, pad.len());
    child_pad.push(' ');
    child_pad.push(' ');
    proof {
        reveal_strlit("  ");
        assert(child_pad@ =~= pad@ + "  "@);
    }
    push_cdata_elem(out, &child_pad, "content", s.content.as_str());
    let ghost ssv = sections_view(s.children@);
    proof {
        crate::models::lemma_sections_view_len(s.children@);
    }
    let mut k: usize = 0;
    while k < s.children.len()
        invariant
            ssv == sections_view(s.children@),
            ssv.len() == s.children@.len(),
            child_pad@ == pad@ + "  "@,
            k <= s.children@.len(),
            out@ + ser_section_list(ssv, k as int, child_pad@) == base + ("\n"@ + pad@
                + "<section id=\""@ + spec_escape(section_view(*s).id) + "\" type=\""@
                + spec_escape(section_view(*s).section_type) + "\""@ + (match section_view(
                *s,
            ).ref_target {
                Option::None => Seq::<char>::empty(),
                Option::Some(rt) => " refTarget=\""@ + spec_escape(rt) + "\""@,
            }) + ">"@ + cdata_elem(pad@ + "  "@, "content"@, section_view(*s).content))
                + ser_section_list(ssv, 0, child_pad@),
        decreases s.children@.len() - k,
    {
        let ghost pre = out@;
        proof {
            crate::models::lemma_sections_view_index(s.children@, k as int);
        }
        write_section(out, &s.children[k], &child_pad);
        proof {
            assert(out@ + ser_section_list(ssv, k + 1, child_pad@) =~= pre + ser_section_list(
                ssv,
                k as int,
                child_pad@,
            ));
        }
        k = k + 1;
    }
    crate::text::push_str_chars(out, "\n");
    crate::text::push_vec_chars(out, pad);
    crate::text::push_str_chars(out, "</section>");
    proof {
        assert(out@ =~= base + ser_section(section_view(*s), pad@));
    }
}

/// Render a document to markup text.  Rendering never fails: the result is
/// exactly the text `spec_serialize` states, deterministic in the document
/// alone.
#[verifier::rlimit(100)]
pub fn serialize_to_xml(doc: &ContextDocument) -> (r: Result<String, ContextError>)
    ensures
        r is Ok,
        r->Ok_0@ == spec_serialize(doc@),
{
    let mut out: Vec<char> = Vec::new();
    crate::text::push_str_chars(&mut out, "<?xml version=\"1.0\" encoding=\"UTF-8\"?>");
    crate::text::push_str_chars(&mut out, "\n<context version=\"1.0\">");
    let ghost after_head = out@;
    // Metadata.
    let pad4 = crate::text::str_to_chars("    ");
    crate::text::push_str_chars(&mut out, "\n  <meta>");
    push_text_elem(&mut out, &pad4, "title", doc.meta.title.as_str());
    push_text_elem(&mut out, &pad4, "author", doc.meta.author.as_str());
    push_text_elem(&mut out, &pad4, "created", doc.meta.created.as_str());
    crate::text::push_str_chars(&mut out, "\n    <app name=\"");
    push_escaped(&mut out, doc.meta.app_info.name.as_str());
    crate::text::push_str_chars(&mut out, "\" version=\"");
    push_escaped(&mut out, doc.meta.app_info.version.as_str());
    crate::text::push_str_chars(&mut out, "\"/>");
    let tags_joined = join_tags(&doc.meta.tags);
    push_text_elem(&mut out, &pad4, "tags", tags_joined.as_str());
    push_text_elem(&mut out, &pad4, "description", doc.meta.description.as_str());
    crate::text::push_str_chars(&mut out, "\n  </meta>");
    proof {
        assert(out@ =~= after_head + ser_meta(doc.meta@));
    }
    let ghost after_meta = out@;
    // Variables.
    crate::text::push_str_chars(&mut out, "\n  <variables>");
    let ghost vars_open = out@;
    let ghost vsv = doc.variables.deep_view();
    let mut k: usize = 0;
    while k < doc.variables.len()
        invariant
            vsv == doc.variables.deep_view(),
            k <= doc.variables@.len(),
            out@ + ser_vars_from(vsv, k as int) == vars_open + ser_vars_from(vsv, 0),
        decreases doc.variables@.len() - k,
    {
        let ghost pre = out@;
        crate::text::push_str_chars(&mut out, "\n    <var name=\"");
        push_escaped(&mut out, doc.variables[k].name.as_str());
        crate::text::push_str_chars(&mut out, "\">");
        push_escaped(&mut out, doc.variables[k].value.as_str());
        crate::text::push_str_chars(&mut out, "</var>");
        proof {
            assert(out@ =~= pre + ser_var(vsv[k as int]));
            assert(out@ + ser_vars_from(vsv, k + 1) =~= pre + ser_vars_from(vsv, k as int));
        }
        k = k + 1;
    }
    crate::text::push_str_chars(&mut out, "\n  </variables>");
    proof {
        assert(out@ =~= after_meta + ser_variables(vsv));
    }
    let ghost after_vars = out@;
    // Sections.
    crate::text::push_str_chars(&mut out, "\n  <sections>");
    let ghost secs_open = out@;
    let ghost ssv = sections_view(doc.sections@);
    proof {
        crate::models::lemma_sections_view_len(doc.sections@);
    }
    let mut k: usize = 0;
    while k < doc.sections.len()
        invariant
            ssv == sections_view(doc.sections@),
            ssv.len() == doc.sections@.len(),
            pad4@ == "    "@,
            k <= doc.sections@.len(),
            out@ + ser_section_list(ssv, k as int, "    "@) == secs_open + ser_section_list(
                ssv,
                0,
                "    "@,
            ),
        decreases doc.sections@.len() - k,
    {
        let ghost pre = out@;
        proof {
            crate::models::lemma_sections_view_index(doc.sections@, k as int);
        }
        write_section(&mut out, &doc.sections[k], &pad4);
        proof {
            assert(out@ + ser_section_list(ssv, k + 1, "    "@) =~= pre + ser_section_list(
                ssv,
                k as int,
                "    "@,
            ));
        }
        k = k + 1;
    }
    crate::text::push_str_chars(&mut out, "\n  </sections>");
    proof {
        assert(out@ =~= after_vars + ser_sections(ssv));
    }
    let ghost after_secs = out@;
    // Flow.
    match &doc.flow_graph {
        Option::Some(f) => {
            crate::text::push_str_chars(&mut out, "\n  <flow id=\"");
            push_escaped(&mut out, f.id.as_str());
            crate::text::push_str_chars(&mut out, "\" version=\"");
            push_escaped(&mut out, f.version.as_str());
            crate::text::push_str_chars(&mut out, "\">");
            match &f.title {
                Option::Some(t) => {
                    push_text_elem(&mut out, &pad4, "title", t.as_str());
                },
                Option::None => {},
            }
            push_cdata_elem(&mut out, &pad4, "diagram", f.mermaid_code.as_str());
            crate::text::push_str_chars(&mut out, "\n  </flow>");
            proof {
                assert(out@ =~= after_secs + ser_flow(f@));
            }
        },
        Option::None => {},
    }
    crate::text::push_str_chars(&mut out, "\n</context>");
    proof {
        assert(out@ =~= spec_serialize(doc@));
    }
    Ok(crate::text::string_from_chars(&out))
}

/// Join the tag list with a comma separator.
fn join_tags(tags: &Vec<String>) -> (r: String)
    ensures
        r@ == join_with(tags.deep_view(), ", "@),
{
    let mut out: Vec<char> = Vec::new();
    let ghost tv = tags.deep_view();
    let mut k: usize = 0;
    while k < tags.len()
        invariant
            tv == tags.deep_view(),
            k <= tags@.len(),
            out@ == join_prefix(tv, k as int),
        decreases tags@.len() - k,
    {
        let ghost pre = out@;
        if k > 0 {
            crate::text::push_str_chars(&mut out, ", ");
        }
        crate::text::push_str_chars(&mut out, tags[k].as_str());
        proof {
            lemma_join_prefix_step(tv, k as int);
            if k > 0 {
                assert(out@ =~= pre + (", "@ + tv[k as int]));
            } else {
                assert(out@ =~= pre + tv[k as int]);
            }
        }
        k = k + 1;
    }
    proof {
        lemma_join_prefix_full(tv);
    }
    crate::text::string_from_chars(&out)
}

/// The join of the first `k` parts.
pub open spec fn join_prefix(parts: Seq<Seq<char>>, k: int) -> Seq<char>
    decreases k,
{
    if k <= 0 || k > parts.len() {
        Seq::empty()
    } else if k == 1 {
        parts[0]
    } else {
        join_prefix(parts, k - 1) + ", "@ + parts[k - 1]
    }
}

proof fn lemma_join_prefix_step(parts: Seq<Seq<char>>, k: int)
    requires
        0 <= k < parts.len(),
    ensures
        k == 0 ==> join_prefix(parts, 1) == parts[0],
        k > 0 ==> join_prefix(parts, k + 1) == join_prefix(parts, k) + ", "@ + parts[k],
{
}

proof fn lemma_join_prefix_full(parts: Seq<Seq<char>>)
    ensures
        join_prefix(parts, parts.len() as int) == join_with(parts, ", "@),
    decreases parts.len(),
{
    if parts.len() > 1 {
        lemma_join_prefix_full(parts.drop_last());
        lemma_join_with_snoc(parts);
        assert(join_prefix(parts, parts.len() - 1) == join_prefix(
            parts.drop_last(),
            parts.len() - 1,
        )) by {
            lemma_join_prefix_frame(parts, parts.len() - 1);
        }
    }
}

/// `join_prefix` only reads the first `k` parts.
proof fn lemma_join_prefix_frame(parts: Seq<Seq<char>>, k: int)
    requires
        0 <= k < parts.len(),
    ensures
        join_prefix(parts, k) == join_prefix(parts.drop_last(), k),
    decreases k,
{
    if k > 1 {
        lemma_join_prefix_frame(parts, k - 1);
    }
}

/// Joining splits at the last part.
proof fn lemma_join_with_snoc(parts: Seq<Seq<char>>)
    requires
        parts.len() >= 2,
    ensures
        join_with(parts, ", "@) == join_with(parts.drop_last(), ", "@) + ", "@ + parts.last(),
    decreases parts.len(),
{
    if parts.len() == 2 {
        assert(parts.skip(1) =~= seq![parts[1]]);
        assert(parts.drop_last() =~= seq![parts[0]]);
        assert(join_with(parts.skip(1), ", "@) == parts[1]);
        assert(join_with(parts.drop_last(), ", "@) == parts[0]);
        assert(join_with(parts, ", "@) =~= join_with(parts.drop_last(), ", "@) + ", "@
            + parts.last());
    } else {
        lemma_join_with_snoc(parts.skip(1));
        assert(parts.drop_last().skip(1) =~= parts.skip(1).drop_last());
        assert(parts.drop_last()[0] == parts[0]);
        assert(parts.skip(1).last() == parts.last());
        assert(join_with(parts, ", "@) =~= join_with(parts.drop_last(), ", "@) + ", "@
            + parts.last());
    }
}

} // verus!
