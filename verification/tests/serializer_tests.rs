use flow_writer::models::AppInfo;
use flow_writer::models::ContextDocument;
use flow_writer::models::FlowGraph;
use flow_writer::models::GraphStructure;
use flow_writer::models::MetaData;
use flow_writer::models::Section;
use flow_writer::models::Variable;
use flow_writer::xml_serializer::serialize_to_xml;

fn create_test_document() -> ContextDocument {
    ContextDocument {
        meta: MetaData {
            title: "Test Document".to_string(),
            author: "Test Author".to_string(),
            created: "2025-10-20".to_string(),
            app_info: AppInfo {
                name: "CEC".to_string(),
                version: "0.1.0".to_string(),
            },
            tags: vec!["test".to_string(), "doc".to_string()],
            description: "A test document".to_string(),
        },
        variables: vec![Variable {
            name: "userName".to_string(),
            value: "Jeremy".to_string(),
        }],
        sections: vec![Section {
            id: "intent-1".to_string(),
            section_type: "intent".to_string(),
            content: "# Intent\nThis is test content".to_string(),
            ref_target: None,
            children: vec![],
        }],
        flow_graph: None,
    }
}

#[test]
fn test_serialize_basic_document() {
    let doc = create_test_document();
    let xml = serialize_to_xml(&doc).unwrap();

    assert!(xml.contains("<context version=\"1.0\">"));
    assert!(xml.contains("<title>Test Document</title>"));
    assert!(xml.contains("<author>Test Author</author>"));
    assert!(xml.contains("<var name=\"userName\">Jeremy</var>"));
    assert!(xml.contains("<section id=\"intent-1\" type=\"intent\">"));
    assert!(xml.contains("CDATA"));
}

#[test]
fn test_serialize_with_flow() {
    let mut doc = create_test_document();
    doc.flow_graph = Some(FlowGraph {
        id: "flow-1".to_string(),
        version: "1.0".to_string(),
        title: Some("Test Flow".to_string()),
        mermaid_code: "```mermaid\nflowchart TD\n  A --> B\n```".to_string(),
        parsed_graph: GraphStructure {
            nodes: vec![],
            edges: vec![],
        },
        node_refs: vec![],
    });

    let xml = serialize_to_xml(&doc).unwrap();

    assert!(xml.contains("<flow id=\"flow-1\" version=\"1.0\">"));
    assert!(xml.contains("<title>Test Flow</title>"));
    assert!(xml.contains("mermaid"));
}

#[test]
fn test_serialize_section_with_separator() {
    let mut doc = create_test_document();
    doc.sections[0].content = "First block\n---\nSecond block".to_string();

    let xml = serialize_to_xml(&doc).unwrap();

    assert!(xml.contains("First block"));
    assert!(xml.contains("---"));
    assert!(xml.contains("Second block"));
}

#[test]
fn test_serialize_escapes_markup_characters() {
    let mut doc = create_test_document();
    doc.meta.title = "Fish & Chips <fresh>".to_string();

    let xml = serialize_to_xml(&doc).unwrap();

    assert!(xml.contains("<title>Fish &amp; Chips &lt;fresh&gt;</title>"));
}

#[test]
fn test_serialize_joins_tags_with_comma() {
    let doc = create_test_document();
    let xml = serialize_to_xml(&doc).unwrap();
    assert!(xml.contains("<tags>test, doc</tags>"));
}

#[test]
fn test_serialize_starts_with_declaration() {
    let doc = create_test_document();
    let xml = serialize_to_xml(&doc).unwrap();
    assert!(xml.starts_with("<?xml version=\"1.0\" encoding=\"UTF-8\"?>"));
    assert!(xml.ends_with("</context>"));
}

#[test]
fn test_serialize_never_emits_derived_graph_state() {
    let mut doc = create_test_document();
    doc.flow_graph = Some(FlowGraph {
        id: "flow-1".to_string(),
        version: "1.0".to_string(),
        title: None,
        mermaid_code: "A --> B".to_string(),
        parsed_graph: GraphStructure {
            nodes: vec![],
            edges: vec![],
        },
        node_refs: vec![],
    });

    let xml = serialize_to_xml(&doc).unwrap();
    assert!(!xml.contains("parsed_graph"));
    assert!(!xml.contains("node_refs"));
    assert!(xml.contains("<diagram><![CDATA[\nA --> B\n]]></diagram>"));
}
