use vstd::prelude::*;

use crate::errors::ContextError;
use crate::errors::SpecContextError;
use crate::mermaid_parser::spec_click_actions;
use crate::mermaid_parser::spec_extract_mermaid;
use crate::mermaid_parser::spec_link;
use crate::mermaid_parser::spec_parse_mermaid;
use crate::models::ContextDocument;
use crate::models::FlowGraph;
use crate::models::MetaData;
use crate::models::Section;
use crate::models::SpecContextDocument;
use crate::models::SpecFlowGraph;
use crate::models::sections_view;
use crate::schema_validator::spec_validate_schema;
use crate::variable_resolver::spec_resolve_sections;
use crate::variable_resolver::vars_map;
use crate::xml_parser::spec_parse_xml;
use crate::xml_serializer::spec_serialize;

verus! {

// ---------------------------------------------------------------------------
// The document pipeline over text: validate, parse, substitute variables in
// every section, and on demand enrich the flow graph or render the whole
// document back.  Reading and writing files stays outside; these functions
// are deterministic in the text and values they are given.
// ---------------------------------------------------------------------------

/// What loading a document from its raw text yields: schema validation
/// first, then the permissive parse, then variable substitution over the
/// section tree — or the first error any stage reports.
pub open spec fn spec_load_document(s: Seq<char>) -> Result<
    SpecContextDocument,
    SpecContextError,
> {
    match spec_validate_schema(s) {
        Result::Err(e) => Result::Err(e),
        Result::Ok(()) => match spec_parse_xml(s) {
            Result::Err(e) => Result::Err(e),
            Result::Ok(d) => Result::Ok(
                SpecContextDocument {
                    meta: d.meta,
                    variables: d.variables,
                    sections: spec_resolve_sections(d.sections, vars_map(d.variables)),
                    flow_graph: d.flow_graph,
                },
            ),
        },
    }
}

/// A flow graph with its derived state recomputed from its diagram source.
pub open spec fn spec_enrich(f: SpecFlowGraph) -> SpecFlowGraph {
    SpecFlowGraph {
        id: f.id,
        version: f.version,
        title: f.title,
        mermaid_code: f.mermaid_code,
        parsed_graph: crate::models::SpecGraphStructure {
            nodes: spec_link(
                spec_parse_mermaid(f.mermaid_code).nodes,
                spec_click_actions(spec_extract_mermaid(f.mermaid_code), 0),
            ),
            edges: spec_parse_mermaid(f.mermaid_code).edges,
        },
        node_refs: spec_click_actions(spec_extract_mermaid(f.mermaid_code), 0),
    }
}

/// Load a document from raw markup text: validate the schema, parse, and
/// resolve variable placeholders in every section's content, descendants
/// included.  Metadata, variables and the flow block are returned as
/// parsed; the flow graph's derived state stays empty until it is
/// processed.
pub fn load_document_from_text(xml_content: &str) -> (r: Result<ContextDocument, ContextError>)
    ensures
        match r {
            Result::Ok(d) => spec_load_document(xml_content@) == Result::Ok::<
                SpecContextDocument,
                SpecContextError,
            >(d@),
            Result::Err(e) => spec_load_document(xml_content@) == Result::Err::<
                SpecContextDocument,
                SpecContextError,
            >(e@),
        },
{
    match crate::schema_validator::validate_schema(xml_content) {
        Result::Err(e) => {
            return Result::Err(e);
        },
        Result::Ok(()) => {},
    }
    let mut doc = match crate::xml_parser::parse_xml(xml_content) {
        Result::Err(e) => {
            return Result::Err(e);
        },
        Result::Ok(d) => d,
    };
    let var_map = crate::variable_resolver::build_variable_map(&doc.variables);
    crate::variable_resolver::resolve_section_tree(&mut doc.sections, &var_map);
    Result::Ok(doc)
}

/// Recompute a flow graph's derived state from its diagram source.  This
/// step never fails.
pub fn process_flow_graph(flow: FlowGraph) -> (r: Result<FlowGraph, ContextError>)
    ensures
        r is Ok,
        r->Ok_0@ == spec_enrich(flow@),
{
    let mut flow = flow;
    match crate::mermaid_parser::enrich_flow_graph(&mut flow) {
        Result::Ok(()) => {},
        Result::Err(e) => {
            return Result::Err(e);
        },
    }
    Result::Ok(flow)
}

/// Load a document and keep its ordered section tree, placeholders already
/// resolved.
pub fn sections_from_text(xml_content: &str) -> (r: Result<Vec<Section>, ContextError>)
    ensures
        match r {
            Result::Ok(ss) => spec_load_document(xml_content@) is Ok && sections_view(ss@)
                == spec_load_document(xml_content@)->Ok_0.sections,
            Result::Err(e) => spec_load_document(xml_content@) == Result::Err::<
                SpecContextDocument,
                SpecContextError,
            >(e@),
        },
{
    match load_document_from_text(xml_content) {
        Result::Ok(d) => Result::Ok(d.sections),
        Result::Err(e) => Result::Err(e),
    }
}

/// Load a document and keep its metadata.
pub fn metadata_from_text(xml_content: &str) -> (r: Result<MetaData, ContextError>)
    ensures
        match r {
            Result::Ok(m) => spec_load_document(xml_content@) is Ok && m@ == spec_load_document(
                xml_content@,
            )->Ok_0.meta,
            Result::Err(e) => spec_load_document(xml_content@) == Result::Err::<
                SpecContextDocument,
                SpecContextError,
            >(e@),
        },
{
    match load_document_from_text(xml_content) {
        Result::Ok(d) => Result::Ok(d.meta),
        Result::Err(e) => Result::Err(e),
    }
}

/// Load a document and, if it carries a flow block, return the flow graph
/// with its derived state recomputed.
pub fn flow_graph_from_text(xml_content: &str) -> (r: Result<Option<FlowGraph>, ContextError>)
    ensures
        match r {
            Result::Ok(of) => spec_load_document(xml_content@) is Ok && (match of {
                Option::Some(f) => spec_load_document(xml_content@)->Ok_0.flow_graph is Some && f@
                    == spec_enrich(spec_load_document(xml_content@)->Ok_0.flow_graph->Some_0),
                Option::None => spec_load_document(xml_content@)->Ok_0.flow_graph is None,
            }),
            Result::Err(e) => spec_load_document(xml_content@) == Result::Err::<
                SpecContextDocument,
                SpecContextError,
            >(e@),
        },
{
    match load_document_from_text(xml_content) {
        Result::Ok(d) => {
            match d.flow_graph {
                Option::Some(f) => {
                    match process_flow_graph(f) {
                        Result::Ok(p) => Result::Ok(Option::Some(p)),
                        Result::Err(e) => Result::Err(e),
                    }
                },
                Option::None => Result::Ok(Option::None),
            }
        },
        Result::Err(e) => Result::Err(e),
    }
}

/// What saving yields: the current text re-loaded — its metadata,
/// variables and flow kept exactly as on disk — with the section tree
/// replaced by the given sections, rendered back to markup.  The supplied
/// sections are rendered as given: no substitution is applied to or undone
/// in them.
pub open spec fn spec_save_document(s: Seq<char>, updated: Seq<crate::models::SpecSection>) -> Result<
    Seq<char>,
    SpecContextError,
> {
    match spec_load_document(s) {
        Result::Err(e) => Result::Err(e),
        Result::Ok(d) => Result::Ok(
            spec_serialize(
                SpecContextDocument {
                    meta: d.meta,
                    variables: d.variables,
                    sections: updated,
                    flow_graph: d.flow_graph,
                },
            ),
        ),
    }
}

/// Merge updated sections into the document the text holds and render the
/// result: load (to preserve metadata, variables and flow exactly), replace
/// the sections, serialize.
pub fn save_document_text(xml_content: &str, updated_sections: Vec<Section>) -> (r: Result<
    String,
    ContextError,
>)
    ensures
        match r {
            Result::Ok(text) => spec_save_document(
                xml_content@,
                sections_view(updated_sections@),
            ) == Result::Ok::<Seq<char>, SpecContextError>(text@),
            Result::Err(e) => spec_save_document(xml_content@, sections_view(updated_sections@))
                == Result::Err::<Seq<char>, SpecContextError>(e@),
        },
{
    let mut doc = match load_document_from_text(xml_content) {
        Result::Ok(d) => d,
        Result::Err(e) => {
            return Result::Err(e);
        },
    };
    doc.sections = updated_sections;
    crate::xml_serializer::serialize_to_xml(&doc)
}

} // verus!
