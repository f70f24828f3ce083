use flow_writer::mermaid_parser::enrich_flow_graph;
use flow_writer::mermaid_parser::extract_mermaid_from_markdown;
use flow_writer::mermaid_parser::parse_click_actions;
use flow_writer::mermaid_parser::parse_edges;
use flow_writer::mermaid_parser::parse_mermaid;
use flow_writer::mermaid_parser::parse_nodes;
use flow_writer::models::FlowGraph;
use flow_writer::models::GraphStructure;
use flow_writer::models::NodeType;

#[test]
fn test_extract_mermaid_from_markdown() {
    let content = r#"
```mermaid
flowchart TD
  A[Intent] --> B[Evaluation]
```
        "#;

    let result = extract_mermaid_from_markdown(content).unwrap();
    assert!(result.contains("flowchart TD"));
    assert!(result.contains("A[Intent]"));
}

#[test]
fn test_extract_without_fence_returns_input_unchanged() {
    let content = "flowchart TD\n  A[Intent] --> B[Evaluation]";
    let result = extract_mermaid_from_markdown(content).unwrap();
    assert_eq!(result, content);
}

#[test]
fn test_extract_returns_exactly_the_fenced_interior() {
    let content = "before\n```mermaid\nflowchart TD\n  A --> B\n```\nafter";
    let result = extract_mermaid_from_markdown(content).unwrap();
    assert_eq!(result, "flowchart TD\n  A --> B");
}

#[test]
fn test_parse_rectangle_nodes() {
    let code = "A[Intent] --> B[Evaluation]";
    let nodes = parse_nodes(code).unwrap();

    assert_eq!(nodes.len(), 2);
    assert_eq!(nodes[0].id, "A");
    assert_eq!(nodes[0].label, "Intent");
    assert_eq!(nodes[1].id, "B");
    assert_eq!(nodes[1].label, "Evaluation");
}

#[test]
fn test_round_node_yields_round_shape_when_id_unclaimed() {
    let nodes = parse_nodes("A[X] --> B(Y)").unwrap();

    assert_eq!(nodes.len(), 2);
    assert_eq!(nodes[0].id, "A");
    assert_eq!(nodes[0].node_type, NodeType::Rectangle);
    assert_eq!(nodes[1].id, "B");
    assert_eq!(nodes[1].label, "Y");
    assert_eq!(nodes[1].node_type, NodeType::RoundEdges);
}

#[test]
fn test_first_matched_shape_wins_per_id() {
    let nodes = parse_nodes("A[X]\nA(Y)").unwrap();

    assert_eq!(nodes.len(), 1);
    assert_eq!(nodes[0].id, "A");
    assert_eq!(nodes[0].node_type, NodeType::Rectangle);
}

#[test]
fn test_parse_simple_edges() {
    let code = "A --> B\nB --> C";
    let edges = parse_edges(code).unwrap();

    assert_eq!(edges.len(), 2);
    assert_eq!(edges[0].from, "A");
    assert_eq!(edges[0].to, "B");
    assert!(edges[0].label.is_none());
    assert_eq!(edges[1].from, "B");
    assert_eq!(edges[1].to, "C");
}

#[test]
fn test_parse_labeled_edges() {
    let code = "C -->|Alt A| D";
    let edges = parse_edges(code).unwrap();

    assert_eq!(edges.len(), 1);
    assert_eq!(edges[0].from, "C");
    assert_eq!(edges[0].to, "D");
    assert_eq!(edges[0].label, Some("Alt A".to_string()));
}

#[test]
fn test_parse_click_actions() {
    let code = r###"click A "#intent-1" "Jump to Intent""###;
    let refs = parse_click_actions(code).unwrap();

    assert_eq!(refs.len(), 1);
    assert_eq!(refs[0].node_id, "A");
    assert_eq!(refs[0].section_id, "intent-1");
    assert_eq!(refs[0].click_action, "#intent-1");
    assert_eq!(refs[0].tooltip, Some("Jump to Intent".to_string()));
}

#[test]
fn test_click_action_strips_only_one_leading_hash() {
    let refs = parse_click_actions("click A \"##x\"").unwrap();

    assert_eq!(refs.len(), 1);
    assert_eq!(refs[0].section_id, "#x");
    assert_eq!(refs[0].click_action, "##x");
}

#[test]
fn test_extract_skips_incomplete_fence_marker() {
    // The first marker occurrence is not a proper open fence; the first
    // complete fence further on decides.
    let content = "```mermaidX not a fence\n```mermaid\nA --> B\n```";
    let result = extract_mermaid_from_markdown(content).unwrap();
    assert_eq!(result, "A --> B");
}

#[test]
fn test_click_action_without_tooltip() {
    let refs = parse_click_actions("click B \"#eval-2\"").unwrap();

    assert_eq!(refs.len(), 1);
    assert_eq!(refs[0].node_id, "B");
    assert_eq!(refs[0].section_id, "eval-2");
    assert_eq!(refs[0].tooltip, None);
}

#[test]
fn test_parse_full_mermaid() {
    let code = r#"
```mermaid
flowchart TD
  A[Intent] --> B[Evaluation]
  B --> C[Process]
  C -->|Alt A| D[Alternative A]
```
        "#;

    let graph = parse_mermaid(code).unwrap();

    assert_eq!(graph.nodes.len(), 4);
    assert_eq!(graph.edges.len(), 3);
}

#[test]
fn test_enrich_links_known_nodes_and_keeps_unknown_refs() {
    let mut flow = FlowGraph {
        id: "flow-1".to_string(),
        version: "1.0".to_string(),
        title: None,
        mermaid_code: "flowchart TD\n  A[Intent] --> B[Evaluation]\n  click A \"#intent-1\" \"Jump to Intent\"\n  click C \"#nowhere\"\n".to_string(),
        parsed_graph: GraphStructure {
            nodes: vec![],
            edges: vec![],
        },
        node_refs: vec![],
    };

    enrich_flow_graph(&mut flow).unwrap();

    assert_eq!(flow.parsed_graph.nodes.len(), 2);
    assert_eq!(
        flow.parsed_graph.nodes[0].ref_section_id,
        Some("intent-1".to_string())
    );
    assert_eq!(flow.parsed_graph.nodes[1].ref_section_id, None);
    assert_eq!(flow.node_refs.len(), 2);
    assert_eq!(flow.node_refs[1].node_id, "C");
    assert_eq!(flow.node_refs[1].section_id, "nowhere");
}
