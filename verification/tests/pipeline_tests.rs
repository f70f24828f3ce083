use flow_writer::models::Section;
use flow_writer::pipeline::flow_graph_from_text;
use flow_writer::pipeline::load_document_from_text;
use flow_writer::pipeline::metadata_from_text;
use flow_writer::pipeline::process_flow_graph;
use flow_writer::pipeline::save_document_text;
use flow_writer::pipeline::sections_from_text;
use flow_writer::xml_parser::parse_xml;
use flow_writer::xml_serializer::serialize_to_xml;

fn create_test_xml() -> String {
    r#"
<context version="1.0">
    <meta>
        <title>Test Document</title>
        <author>Test Author</author>
        <created>2025-10-09</created>
        <app name="CEC" version="0.1.0"/>
        <tags>test, doc</tags>
        <description>A test document</description>
    </meta>
    <variables>
        <var name="userName">Jeremy</var>
        <var name="goal">Ship v1</var>
    </variables>
    <sections>
        <section id="intent-1" type="intent">
            <content><![CDATA[
# Intent
User: ${userName}
Goal: ${goal}
            ]]></content>
        </section>
    </sections>
    <flow id="flow-1" version="1.0">
        <title>Test Flow</title>
        <diagram><![CDATA[
```mermaid
flowchart TD
  A[Intent] --> B[Evaluation]
  B --> C[Process]
```
        ]]></diagram>
    </flow>
</context>
        "#
    .to_string()
}

#[test]
fn test_load_document_from_text() {
    let doc = load_document_from_text(&create_test_xml()).unwrap();

    assert_eq!(doc.meta.title, "Test Document");
    assert_eq!(doc.meta.author, "Test Author");
    assert_eq!(doc.variables.len(), 2);
    assert_eq!(doc.sections.len(), 1);
    assert!(doc.flow_graph.is_some());
}

#[test]
fn test_sections_from_text_resolve_variables() {
    let sections = sections_from_text(&create_test_xml()).unwrap();

    assert_eq!(sections.len(), 1);
    assert_eq!(sections[0].id, "intent-1");
    assert!(sections[0].content.contains("Jeremy"));
    assert!(sections[0].content.contains("Ship v1"));
}

#[test]
fn test_metadata_from_text() {
    let meta = metadata_from_text(&create_test_xml()).unwrap();

    assert_eq!(meta.title, "Test Document");
    assert_eq!(meta.author, "Test Author");
    assert_eq!(meta.app_info.name, "CEC");
    assert_eq!(meta.tags.len(), 2);
}

#[test]
fn test_flow_graph_from_text_is_enriched() {
    let flow = flow_graph_from_text(&create_test_xml()).unwrap();

    assert!(flow.is_some());
    let flow = flow.unwrap();
    assert_eq!(flow.id, "flow-1");
    assert_eq!(flow.title, Some("Test Flow".to_string()));
    assert_eq!(flow.parsed_graph.nodes.len(), 3);
    assert_eq!(flow.parsed_graph.edges.len(), 2);
}

#[test]
fn test_process_flow_graph() {
    let mermaid_code = r###"
```mermaid
flowchart TD
  A[Start] --> B[End]
  click A "#section-1" "Go to section"
```
            "###;

    let flow = flow_writer::models::FlowGraph {
        id: "test-flow".to_string(),
        version: "1.0".to_string(),
        title: Some("Test".to_string()),
        mermaid_code: mermaid_code.to_string(),
        parsed_graph: flow_writer::models::GraphStructure {
            nodes: vec![],
            edges: vec![],
        },
        node_refs: vec![],
    };

    let processed = process_flow_graph(flow).unwrap();

    assert_eq!(processed.parsed_graph.nodes.len(), 2);
    assert_eq!(processed.parsed_graph.edges.len(), 1);
    assert_eq!(processed.node_refs.len(), 1);
    assert_eq!(processed.node_refs[0].node_id, "A");
    assert_eq!(processed.node_refs[0].section_id, "section-1");
}

#[test]
fn test_load_document_without_flow() {
    let xml_content = r#"
<context version="1.0">
    <meta>
        <title>No Flow Document</title>
        <author>Test Author</author>
        <created>2025-10-09</created>
        <app name="CEC" version="0.1.0"/>
        <tags>test</tags>
        <description>Document without flow</description>
    </meta>
    <variables></variables>
    <sections>
        <section id="test-1" type="intent">
            <content><![CDATA[Test content]]></content>
        </section>
    </sections>
</context>
        "#;

    let flow = flow_graph_from_text(xml_content).unwrap();
    assert!(flow.is_none());
}

#[test]
fn test_round_trip_reparses_to_the_same_document() {
    let xml = r#"
<context version="1.0">
    <meta>
        <title>Round Trip</title>
        <author>An Author</author>
        <created>2025-10-09</created>
        <app name="CEC" version="0.1.0"/>
        <tags>alpha, beta</tags>
        <description>A flat document</description>
    </meta>
    <variables>
        <var name="k">v</var>
    </variables>
    <sections>
        <section id="a-1" type="intent">
            <content><![CDATA[First]]></content>
        </section>
        <section id="b-2" type="process" refTarget="a-1">
            <content><![CDATA[Second]]></content>
        </section>
    </sections>
    <flow id="f" version="1.0">
        <title>Flow</title>
        <diagram><![CDATA[flowchart TD
  A[One] --> B[Two]]]></diagram>
    </flow>
</context>
        "#;

    let first = parse_xml(xml).unwrap();
    let rendered = serialize_to_xml(&first).unwrap();
    let second = parse_xml(&rendered).unwrap();

    assert_eq!(second.meta, first.meta);
    assert_eq!(second.variables, first.variables);
    assert_eq!(second.sections, first.sections);
    assert_eq!(
        second.flow_graph.as_ref().unwrap().mermaid_code,
        first.flow_graph.as_ref().unwrap().mermaid_code
    );
    assert_eq!(
        second.flow_graph.as_ref().unwrap().title,
        first.flow_graph.as_ref().unwrap().title
    );
}

#[test]
fn test_save_then_load_returns_saved_sections_unresolved() {
    let saved = save_document_text(
        &create_test_xml(),
        vec![Section {
            id: "intent-1".to_string(),
            section_type: "intent".to_string(),
            content: "Raw ${unknownName} stays".to_string(),
            ref_target: None,
            children: vec![],
        }],
    )
    .unwrap();

    let sections = sections_from_text(&saved).unwrap();

    assert_eq!(sections.len(), 1);
    assert_eq!(sections[0].id, "intent-1");
    // The placeholder names no stored variable, so loading leaves it as-is.
    assert_eq!(sections[0].content, "Raw ${unknownName} stays");
}

#[test]
fn test_save_preserves_metadata_variables_and_flow() {
    let saved = save_document_text(
        &create_test_xml(),
        vec![Section {
            id: "fresh-1".to_string(),
            section_type: "evaluation".to_string(),
            content: "New content".to_string(),
            ref_target: None,
            children: vec![],
        }],
    )
    .unwrap();

    let doc = load_document_from_text(&saved).unwrap();
    assert_eq!(doc.meta.title, "Test Document");
    assert_eq!(doc.variables.len(), 2);
    assert_eq!(doc.sections.len(), 1);
    assert_eq!(doc.sections[0].id, "fresh-1");
    assert!(doc.flow_graph.is_some());
    assert_eq!(doc.flow_graph.unwrap().id, "flow-1");
}

#[test]
fn test_load_rejects_schema_invalid_text_before_parsing() {
    let xml = r#"
<context version="1.0">
    <meta>
        <title>T</title>
        <author>A</author>
        <created>c</created>
        <app name="CEC" version="0.1.0"/>
        <tags>t</tags>
        <description>d</description>
    </meta>
    <variables></variables>
    <sections>
        <section id="x" type="bogus">
            <content>c</content>
        </section>
    </sections>
</context>
        "#;

    let err = load_document_from_text(xml).unwrap_err();
    assert!(err.message().contains("invalid type 'bogus'"));
}

#[test]
fn test_full_workflow_on_a_flat_document() {
    let xml_content = r###"
<context version="1.0">
    <meta>
        <title>Product Strategy Document</title>
        <author>Jeremy Lu</author>
        <created>2025-10-09</created>
        <app name="CEC" version="0.1.0"/>
        <tags>product, strategy, planning</tags>
        <description>Comprehensive product strategy with flow diagram</description>
    </meta>
    <variables>
        <var name="productName">Flow Writer</var>
        <var name="targetDate">2025-11-15</var>
        <var name="teamSize">5 engineers</var>
    </variables>
    <sections>
        <section id="intent-1" type="intent">
            <content><![CDATA[
# Product Intent

We aim to build **${productName}** with a team of ${teamSize}.

Launch target: ${targetDate}
            ]]></content>
        </section>
        <section id="evaluation-1" type="evaluation">
            <content><![CDATA[
# Evaluation Criteria

- Performance benchmarks
- User acceptance testing
- Security audit results
            ]]></content>
        </section>
        <section id="process-1" type="process">
            <content><![CDATA[
# Development Process

1. Design phase
2. Implementation
3. Testing
4. Deployment
            ]]></content>
        </section>
    </sections>
    <flow id="main-flow" version="1.0">
        <title>Product Development Flow</title>
        <diagram><![CDATA[
```mermaid
flowchart TD
  A[Intent] --> B[Evaluation]
  B --> C[Process]
  C -->|Success| D[Deployment]
  C -->|Issues Found| E[Refinement]
  E --> B

  click A "#intent-1"
  click B "#evaluation-1"
  click C "#process-1"
```
        ]]></diagram>
    </flow>
</context>
    "###;

    let metadata = metadata_from_text(xml_content).unwrap();
    assert_eq!(metadata.title, "Product Strategy Document");
    assert_eq!(metadata.author, "Jeremy Lu");
    assert_eq!(metadata.app_info.name, "CEC");
    assert_eq!(metadata.tags, vec!["product", "strategy", "planning"]);
    assert_eq!(
        metadata.description,
        "Comprehensive product strategy with flow diagram"
    );

    let sections = sections_from_text(xml_content).unwrap();
    assert_eq!(sections.len(), 3);

    let intent_section = &sections[0];
    assert_eq!(intent_section.id, "intent-1");
    assert_eq!(intent_section.section_type, "intent");
    assert!(intent_section.content.contains("Flow Writer"));
    assert!(intent_section.content.contains("5 engineers"));
    assert!(intent_section.content.contains("2025-11-15"));
    assert!(!intent_section.content.contains("${productName}"));

    let flow = flow_graph_from_text(xml_content).unwrap().unwrap();
    assert_eq!(flow.id, "main-flow");
    assert_eq!(flow.version, "1.0");
    assert_eq!(flow.title, Some("Product Development Flow".to_string()));

    assert_eq!(flow.parsed_graph.nodes.len(), 5);
    assert_eq!(flow.parsed_graph.edges.len(), 5);

    let node_a = flow.parsed_graph.nodes.iter().find(|n| n.id == "A").unwrap();
    assert_eq!(node_a.label, "Intent");
    assert_eq!(node_a.ref_section_id, Some("intent-1".to_string()));

    let node_b = flow.parsed_graph.nodes.iter().find(|n| n.id == "B").unwrap();
    assert_eq!(node_b.label, "Evaluation");
    assert_eq!(node_b.ref_section_id, Some("evaluation-1".to_string()));

    assert_eq!(flow.node_refs.len(), 3);
    let click_a = flow.node_refs.iter().find(|r| r.node_id == "A").unwrap();
    assert_eq!(click_a.section_id, "intent-1");
    assert_eq!(click_a.click_action, "#intent-1");

    let success_edge = flow
        .parsed_graph
        .edges
        .iter()
        .find(|e| e.from == "C" && e.to == "D")
        .unwrap();
    assert_eq!(success_edge.label, Some("Success".to_string()));

    let issues_edge = flow
        .parsed_graph
        .edges
        .iter()
        .find(|e| e.from == "C" && e.to == "E")
        .unwrap();
    assert_eq!(issues_edge.label, Some("Issues Found".to_string()));
}

#[test]
fn test_validator_rejects_what_the_parser_would_accept() {
    // The model and parser support nested sections; schema validation does
    // not, and the pipeline validates before parsing.
    let xml = r#"
<context version="1.0">
    <meta>
        <title>Deep</title>
        <author>A</author>
        <created>c</created>
        <app name="CEC" version="0.1.0"/>
        <tags>t</tags>
        <description>d</description>
    </meta>
    <variables></variables>
    <sections>
        <section id="parent" type="process">
            <content><![CDATA[Top]]></content>
            <section id="child-1" type="alternatives">
                <content><![CDATA[Inner]]></content>
            </section>
        </section>
    </sections>
</context>
        "#;

    let err = load_document_from_text(xml).unwrap_err();
    assert!(err.message().contains("contains nested sections"));

    let doc = parse_xml(xml).unwrap();
    assert_eq!(doc.sections[0].children.len(), 1);
}
