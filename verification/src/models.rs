use vstd::prelude::*;

verus! {

// ---------------------------------------------------------------------------
// In-memory model of a context document: metadata, named variables, a tree of
// content sections, and an optional flow diagram.  Each executable type has a
// mathematical view (`Spec*`) over sequences of characters; every contract in
// this crate speaks about those views.
// ---------------------------------------------------------------------------

#[derive(Debug, Clone, PartialEq)]
pub struct AppInfo {
    pub name: String,
    pub version: String,
}

pub struct SpecAppInfo {
    pub name: Seq<char>,
    pub version: Seq<char>,
}

impl View for AppInfo {
    type V = SpecAppInfo;

    open spec fn view(&self) -> SpecAppInfo {
        SpecAppInfo { name: self.name@, version: self.version@ }
    }
}

#[derive(Debug, Clone, PartialEq)]
pub struct MetaData {
    pub title: String,
    pub author: String,
    pub created: String,
    pub app_info: AppInfo,
    pub tags: Vec<String>,
    pub description: String,
}

pub struct SpecMetaData {
    pub title: Seq<char>,
    pub author: Seq<char>,
    pub created: Seq<char>,
    pub app_info: SpecAppInfo,
    pub tags: Seq<Seq<char>>,
    pub description: Seq<char>,
}

impl View for MetaData {
    type V = SpecMetaData;

    open spec fn view(&self) -> SpecMetaData {
        SpecMetaData {
            title: self.title@,
            author: self.author@,
            created: self.created@,
            app_info: self.app_info@,
            tags: self.tags.deep_view(),
            description: self.description@,
        }
    }
}

#[derive(Debug, Clone, PartialEq)]
pub struct Variable {
    pub name: String,
    pub value: String,
}

pub struct SpecVariable {
    pub name: Seq<char>,
    pub value: Seq<char>,
}

impl DeepView for Variable {
    type V = SpecVariable;

    open spec fn deep_view(&self) -> SpecVariable {
        self.view()
    }
}

impl View for Variable {
    type V = SpecVariable;

    open spec fn view(&self) -> SpecVariable {
        SpecVariable { name: self.name@, value: self.value@ }
    }
}

/// A titled content block, addressable by id; the tree may nest arbitrarily
/// even though schema validation only accepts flat section lists.
#[derive(Debug, PartialEq)]
pub struct Section {
    pub id: String,
    pub section_type: String,
    pub content: String,
    pub ref_target: Option<String>,
    pub children: Vec<Section>,
}

pub struct SpecSection {
    pub id: Seq<char>,
    pub section_type: Seq<char>,
    pub content: Seq<char>,
    pub ref_target: Option<Seq<char>>,
    pub children: Seq<SpecSection>,
}

pub open spec fn section_view(s: Section) -> SpecSection
    decreases s,
{
    SpecSection {
        id: s.id@,
        section_type: s.section_type@,
        content: s.content@,
        ref_target: match s.ref_target {
            Option::None => Option::None,
            Option::Some(t) => Option::Some(t@),
        },
        children: sections_view(s.children@),
    }
}

pub open spec fn sections_view(ss: Seq<Section>) -> Seq<SpecSection>
    decreases ss,
{
    if ss.len() == 0 {
        Seq::empty()
    } else {
        seq![section_view(ss[0])] + sections_view(ss.skip(1))
    }
}

/// Shape vocabulary for diagram nodes.  Only `Rectangle` and `RoundEdges` are
/// currently produced by diagram extraction; the remaining shapes are reserved
/// so the grammar can grow without a model change.
#[derive(Debug, Clone, Copy, PartialEq, Eq, Structural)]
pub enum NodeType {
    Rectangle,
    RoundEdges,
    Stadium,
    Subroutine,
    Cylindrical,
    Circle,
    Asymmetric,
    Rhombus,
    Hexagon,
    Parallelogram,
    Trapezoid,
}

#[derive(Debug, Clone, PartialEq)]
pub struct GraphNode {
    pub id: String,
    pub label: String,
    pub node_type: NodeType,
    pub ref_section_id: Option<String>,
}

pub struct SpecGraphNode {
    pub id: Seq<char>,
    pub label: Seq<char>,
    pub node_type: NodeType,
    pub ref_section_id: Option<Seq<char>>,
}

impl DeepView for GraphNode {
    type V = SpecGraphNode;

    open spec fn deep_view(&self) -> SpecGraphNode {
        self.view()
    }
}

impl View for GraphNode {
    type V = SpecGraphNode;

    open spec fn view(&self) -> SpecGraphNode {
        SpecGraphNode {
            id: self.id@,
            label: self.label@,
            node_type: self.node_type,
            ref_section_id: match self.ref_section_id {
                Option::None => Option::None,
                Option::Some(r) => Option::Some(r@),
            },
        }
    }
}

#[derive(Debug, Clone, PartialEq)]
pub struct GraphEdge {
    pub from: String,
    pub to: String,
    pub label: Option<String>,
}

pub struct SpecGraphEdge {
    pub from: Seq<char>,
    pub to: Seq<char>,
    pub label: Option<Seq<char>>,
}

impl DeepView for GraphEdge {
    type V = SpecGraphEdge;

    open spec fn deep_view(&self) -> SpecGraphEdge {
        self.view()
    }
}

impl View for GraphEdge {
    type V = SpecGraphEdge;

    open spec fn view(&self) -> SpecGraphEdge {
        SpecGraphEdge {
            from: self.from@,
            to: self.to@,
            label: match self.label {
                Option::None => Option::None,
                Option::Some(l) => Option::Some(l@),
            },
        }
    }
}

#[derive(Debug, Clone, PartialEq)]
pub struct GraphStructure {
    pub nodes: Vec<GraphNode>,
    pub edges: Vec<GraphEdge>,
}

pub struct SpecGraphStructure {
    pub nodes: Seq<SpecGraphNode>,
    pub edges: Seq<SpecGraphEdge>,
}

impl View for GraphStructure {
    type V = SpecGraphStructure;

    open spec fn view(&self) -> SpecGraphStructure {
        SpecGraphStructure { nodes: self.nodes.deep_view(), edges: self.edges.deep_view() }
    }
}

/// A diagram-level annotation binding a diagram node to a section id.
#[derive(Debug, Clone, PartialEq)]
pub struct NodeReference {
    pub node_id: String,
    pub section_id: String,
    pub click_action: String,
    pub tooltip: Option<String>,
}

pub struct SpecNodeReference {
    pub node_id: Seq<char>,
    pub section_id: Seq<char>,
    pub click_action: Seq<char>,
    pub tooltip: Option<Seq<char>>,
}

impl DeepView for NodeReference {
    type V = SpecNodeReference;

    open spec fn deep_view(&self) -> SpecNodeReference {
        self.view()
    }
}

impl View for NodeReference {
    type V = SpecNodeReference;

    open spec fn view(&self) -> SpecNodeReference {
        SpecNodeReference {
            node_id: self.node_id@,
            section_id: self.section_id@,
            click_action: self.click_action@,
            tooltip: match self.tooltip {
                Option::None => Option::None,
                Option::Some(t) => Option::Some(t@),
            },
        }
    }
}

/// A flow diagram attached to a document.  `mermaid_code` is the only durable
/// representation; `parsed_graph` and `node_refs` are derived views that are
/// recomputed from it on every load and never serialized.
#[derive(Debug, Clone, PartialEq)]
pub struct FlowGraph {
    pub id: String,
    pub version: String,
    pub title: Option<String>,
    pub mermaid_code: String,
    pub parsed_graph: GraphStructure,
    pub node_refs: Vec<NodeReference>,
}

pub struct SpecFlowGraph {
    pub id: Seq<char>,
    pub version: Seq<char>,
    pub title: Option<Seq<char>>,
    pub mermaid_code: Seq<char>,
    pub parsed_graph: SpecGraphStructure,
    pub node_refs: Seq<SpecNodeReference>,
}

impl View for FlowGraph {
    type V = SpecFlowGraph;

    open spec fn view(&self) -> SpecFlowGraph {
        SpecFlowGraph {
            id: self.id@,
            version: self.version@,
            title: match self.title {
                Option::None => Option::None,
                Option::Some(t) => Option::Some(t@),
            },
            mermaid_code: self.mermaid_code@,
            parsed_graph: self.parsed_graph@,
            node_refs: self.node_refs.deep_view(),
        }
    }
}

/// Root aggregate built fresh on every load.
#[derive(Debug, PartialEq)]
pub struct ContextDocument {
    pub meta: MetaData,
    pub variables: Vec<Variable>,
    pub sections: Vec<Section>,
    pub flow_graph: Option<FlowGraph>,
}

pub struct SpecContextDocument {
    pub meta: SpecMetaData,
    pub variables: Seq<SpecVariable>,
    pub sections: Seq<SpecSection>,
    pub flow_graph: Option<SpecFlowGraph>,
}

impl View for ContextDocument {
    type V = SpecContextDocument;

    open spec fn view(&self) -> SpecContextDocument {
        SpecContextDocument {
            meta: self.meta@,
            variables: self.variables.deep_view(),
            sections: sections_view(self.sections@),
            flow_graph: match self.flow_graph {
                Option::None => Option::None,
                Option::Some(f) => Option::Some(f@),
            },
        }
    }
}

} // verus!

verus! {

pub proof fn lemma_sections_view_len(ss: Seq<Section>)
    ensures
        sections_view(ss).len() == ss.len(),
    decreases ss.len(),
{
    if ss.len() > 0 {
        lemma_sections_view_len(ss.skip(1));
    }
}

pub proof fn lemma_sections_view_index(ss: Seq<Section>, j: int)
    requires
        0 <= j < ss.len(),
    ensures
        sections_view(ss).len() == ss.len(),
        sections_view(ss)[j] == section_view(ss[j]),
    decreases ss.len(),
{
    lemma_sections_view_len(ss);
    if j > 0 {
        lemma_sections_view_index(ss.skip(1), j - 1);
    }
}

} // verus!
