use flow_writer::models::AppInfo;
use flow_writer::models::ContextDocument;
use flow_writer::models::FlowGraph;
use flow_writer::models::GraphEdge;
use flow_writer::models::GraphNode;
use flow_writer::models::GraphStructure;
use flow_writer::models::MetaData;
use flow_writer::models::NodeReference;
use flow_writer::models::NodeType;
use flow_writer::models::Section;
use flow_writer::errors::ContextError;
use flow_writer::models::Variable;

#[test]
fn test_variable_creation() {
    let var = Variable {
        name: "userName".to_string(),
        value: "Jeremy".to_string(),
    };

    assert_eq!(var.name, "userName");
    assert_eq!(var.value, "Jeremy");
}

#[test]
fn test_metadata_creation() {
    let meta = MetaData {
        title: "Test Document".to_string(),
        author: "Test Author".to_string(),
        created: "2025-10-09".to_string(),
        app_info: AppInfo {
            name: "CEC".to_string(),
            version: "0.1.0".to_string(),
        },
        tags: vec!["test".to_string(), "document".to_string()],
        description: "A test document".to_string(),
    };

    assert_eq!(meta.title, "Test Document");
    assert_eq!(meta.tags.len(), 2);
}

#[test]
fn test_context_document_structure() {
    let doc = ContextDocument {
        meta: MetaData {
            title: "Test".to_string(),
            author: "Author".to_string(),
            created: "2025-10-09".to_string(),
            app_info: AppInfo {
                name: "CEC".to_string(),
                version: "0.1.0".to_string(),
            },
            tags: vec![],
            description: "Test".to_string(),
        },
        variables: vec![Variable {
            name: "var1".to_string(),
            value: "value1".to_string(),
        }],
        sections: vec![],
        flow_graph: None,
    };

    assert_eq!(doc.variables.len(), 1);
    assert!(doc.flow_graph.is_none());
}

#[test]
fn test_graph_node_creation() {
    let node = GraphNode {
        id: "A".to_string(),
        label: "Intent".to_string(),
        node_type: NodeType::Rectangle,
        ref_section_id: Some("intent-1".to_string()),
    };

    assert_eq!(node.id, "A");
    assert_eq!(node.label, "Intent");
    assert_eq!(node.ref_section_id, Some("intent-1".to_string()));
}

#[test]
fn test_graph_edge_creation() {
    let edge = GraphEdge {
        from: "A".to_string(),
        to: "B".to_string(),
        label: None,
    };

    assert_eq!(edge.from, "A");
    assert_eq!(edge.to, "B");
    assert!(edge.label.is_none());
}

#[test]
fn test_graph_edge_with_label() {
    let edge = GraphEdge {
        from: "C".to_string(),
        to: "D".to_string(),
        label: Some("Alt A".to_string()),
    };

    assert_eq!(edge.label, Some("Alt A".to_string()));
}

#[test]
fn test_node_reference_creation() {
    let node_ref = NodeReference {
        node_id: "A".to_string(),
        section_id: "intent-1".to_string(),
        click_action: "#intent-1".to_string(),
        tooltip: Some("Jump to Intent".to_string()),
    };

    assert_eq!(node_ref.node_id, "A");
    assert_eq!(node_ref.click_action, "#intent-1");
}

#[test]
fn test_graph_structure_creation() {
    let graph = GraphStructure {
        nodes: vec![GraphNode {
            id: "A".to_string(),
            label: "Intent".to_string(),
            node_type: NodeType::Rectangle,
            ref_section_id: Some("intent-1".to_string()),
        }],
        edges: vec![GraphEdge {
            from: "A".to_string(),
            to: "B".to_string(),
            label: None,
        }],
    };

    assert_eq!(graph.nodes.len(), 1);
    assert_eq!(graph.edges.len(), 1);
}

#[test]
fn test_flow_graph_creation() {
    let flow = FlowGraph {
        id: "flow-1".to_string(),
        version: "1.0".to_string(),
        title: Some("Document Flow".to_string()),
        mermaid_code: "flowchart TD\n  A[Intent] --> B[Evaluation]".to_string(),
        parsed_graph: GraphStructure {
            nodes: vec![],
            edges: vec![],
        },
        node_refs: vec![],
    };

    assert_eq!(flow.id, "flow-1");
    assert_eq!(flow.version, "1.0");
    assert_eq!(flow.title, Some("Document Flow".to_string()));
}

#[test]
fn test_section_creation() {
    let section = Section {
        id: "intent-1".to_string(),
        section_type: "intent".to_string(),
        content: "# Intent\nTest content".to_string(),
        ref_target: None,
        children: vec![],
    };

    assert_eq!(section.id, "intent-1");
    assert_eq!(section.section_type, "intent");
    assert!(section.children.is_empty());
}

#[test]
fn test_section_with_children() {
    let child = Section {
        id: "alt-1".to_string(),
        section_type: "alternatives".to_string(),
        content: "Alternative content".to_string(),
        ref_target: None,
        children: vec![],
    };

    let parent = Section {
        id: "proc-1".to_string(),
        section_type: "process".to_string(),
        content: "Process content".to_string(),
        ref_target: Some("intent-1 eval-1".to_string()),
        children: vec![child],
    };

    assert_eq!(parent.children.len(), 1);
    assert_eq!(parent.ref_target, Some("intent-1 eval-1".to_string()));
}

#[test]
fn test_error_messages_carry_category_and_detail() {
    assert_eq!(
        ContextError::InvalidXml("bad".to_string()).message(),
        "Invalid XML structure: bad"
    );
    assert_eq!(
        ContextError::MissingRequiredField("meta".to_string()).message(),
        "Missing required field: meta"
    );
    assert_eq!(
        ContextError::SchemaValidationError("oops".to_string()).message(),
        "Schema validation error: oops"
    );
    assert_eq!(ContextError::IoError("gone".to_string()).message(), "IO error: gone");
}
