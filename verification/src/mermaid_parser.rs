use vstd::prelude::*;

use crate::errors::ContextError;
use crate::models::FlowGraph;
use crate::models::GraphEdge;
use crate::models::GraphNode;
use crate::models::GraphStructure;
use crate::models::NodeReference;
use crate::models::NodeType;
use crate::models::SpecGraphEdge;
use crate::models::SpecGraphNode;
use crate::models::SpecGraphStructure;
use crate::models::SpecNodeReference;
use crate::text::find_at;
use crate::text::find_char;
use crate::text::is_space;
use crate::text::is_word_char;
use crate::text::matches_at;
use crate::text::spec_trim;

verus! {

// ---------------------------------------------------------------------------
// Extraction of a node/edge graph and click-style cross-references from
// flowchart markup: an explicit, deterministic scanner with ordered-pass
// semantics — a rectangle pass, then a round pass that never re-claims an
// id, line-at-a-time edge classification, and a click-reference pass.
// ---------------------------------------------------------------------------

/// First position at or after `i` whose character is not whitespace.
pub open spec fn ws_run_end(s: Seq<char>, i: int) -> int
    decreases s.len() - i,
{
    if 0 <= i < s.len() && is_space(s[i]) {
        ws_run_end(s, i + 1)
    } else {
        i
    }
}

/// Position of the last occurrence of `c` in `s[lo..hi]`, if any.
pub open spec fn last_char_in(s: Seq<char>, lo: int, hi: int, c: char) -> Option<int>
    decreases hi - lo,
{
    if lo >= hi || hi > s.len() || lo < 0 {
        Option::None
    } else if s[hi - 1] == c {
        Option::Some(hi - 1)
    } else {
        last_char_in(s, lo, hi - 1, c)
    }
}

/// A complete fenced block opening exactly at `i`: the "```mermaid" marker,
/// whitespace whose last character is a newline, and a closing
/// newline-fence further on.  Yields the interior's bounds.
pub open spec fn fence_match_at(s: Seq<char>, i: int) -> Option<(int, int)> {
    if matches_at(s, i, "```mermaid"@) {
        let w = ws_run_end(s, i + 10);
        match last_char_in(s, i + 10, w, '\n') {
            Option::None => Option::None,
            Option::Some(p) => match find_at(s, p + 1, "\n```"@) {
                Option::None => Option::None,
                Option::Some(j) => Option::Some((p + 1, j)),
            },
        }
    } else {
        Option::None
    }
}

/// The interior bounds of the first complete fenced block opening at or
/// after `i`, if any.
pub open spec fn fence_scan(s: Seq<char>, i: int) -> Option<(int, int)>
    decreases s.len() - i,
{
    if !(0 <= i < s.len()) {
        Option::None
    } else {
        match fence_match_at(s, i) {
            Option::Some(m) => Option::Some(m),
            Option::None => fence_scan(s, i + 1),
        }
    }
}

/// The diagram source of a text: the interior of the first complete fenced
/// block, or the whole text unchanged when no such block exists.
pub open spec fn spec_extract_mermaid(s: Seq<char>) -> Seq<char> {
    match fence_scan(s, 0) {
        Option::None => s,
        Option::Some((a, b)) => if 0 <= a <= b <= s.len() {
            s.subrange(a, b)
        } else {
            s
        },
    }
}

// ---------------------------------------------------------------------------
// Node extraction.
// ---------------------------------------------------------------------------

/// A node declaration `id<open>label<close>` starting exactly at `k`: a
/// maximal non-empty word run, the opening bracket, a non-empty label free
/// of the closing bracket, and the closing bracket.  Yields id, label and
/// the position just past the declaration.
pub open spec fn bracket_match_at(s: Seq<char>, k: int, open: char, close: char) -> Option<
    (Seq<char>, Seq<char>, int),
> {
    if 0 <= k < s.len() && is_word_char(s[k]) {
        let e = crate::variable_resolver::word_run_end(s, k);
        if e < s.len() && s[e] == open {
            match find_char(s, e + 1, close) {
                Option::Some(f) => if f > e + 1 {
                    Option::Some((s.subrange(k, e), s.subrange(e + 1, f), f + 1))
                } else {
                    Option::None
                },
                Option::None => Option::None,
            }
        } else {
            Option::None
        }
    } else {
        Option::None
    }
}

/// All `id[label]` pairs of the rectangle pass, scanning left to right,
/// resuming after each match.
pub open spec fn spec_rect_pairs(s: Seq<char>, i: int) -> Seq<(Seq<char>, Seq<char>)>
    decreases s.len() - i,
{
    if !(0 <= i < s.len()) {
        Seq::empty()
    } else {
        match bracket_match_at(s, i, '[', ']') {
            Option::Some((id, label, next)) => if i < next <= s.len() {
                seq![(id, label)] + spec_rect_pairs(s, next)
            } else {
                spec_rect_pairs(s, i + 1)
            },
            Option::None => spec_rect_pairs(s, i + 1),
        }
    }
}

/// Does the list already hold a node with this id?
pub open spec fn has_node_id(nodes: Seq<SpecGraphNode>, id: Seq<char>) -> bool {
    exists|k: int| 0 <= k < nodes.len() && nodes[k].id == id
}

pub open spec fn rect_node(id: Seq<char>, label: Seq<char>) -> SpecGraphNode {
    SpecGraphNode { id, label, node_type: NodeType::Rectangle, ref_section_id: Option::None }
}

pub open spec fn round_node(id: Seq<char>, label: Seq<char>) -> SpecGraphNode {
    SpecGraphNode { id, label, node_type: NodeType::RoundEdges, ref_section_id: Option::None }
}

pub open spec fn rect_nodes_of(pairs: Seq<(Seq<char>, Seq<char>)>) -> Seq<SpecGraphNode> {
    pairs.map_values(|p: (Seq<char>, Seq<char>)| rect_node(p.0, p.1))
}

/// The round pass: every `id(label)` occurrence appends a round node unless
/// some node — rectangle or earlier round — already claimed the id.
pub open spec fn spec_round_add(s: Seq<char>, i: int, nodes: Seq<SpecGraphNode>) -> Seq<
    SpecGraphNode,
>
    decreases s.len() - i,
{
    if !(0 <= i < s.len()) {
        nodes
    } else {
        match bracket_match_at(s, i, '(', ')') {
            Option::Some((id, label, next)) => if i < next <= s.len() {
                if has_node_id(nodes, id) {
                    spec_round_add(s, next, nodes)
                } else {
                    spec_round_add(s, next, nodes.push(round_node(id, label)))
                }
            } else {
                spec_round_add(s, i + 1, nodes)
            },
            Option::None => spec_round_add(s, i + 1, nodes),
        }
    }
}

/// Both node passes over already-extracted diagram source: rectangles first,
/// then rounds, first-matched shape winning per id.
pub open spec fn spec_parse_nodes(s: Seq<char>) -> Seq<SpecGraphNode> {
    spec_round_add(s, 0, rect_nodes_of(spec_rect_pairs(s, 0)))
}

// ---------------------------------------------------------------------------
// Edge extraction.
// ---------------------------------------------------------------------------

/// A labeled edge `from ... -->|label| to` starting exactly at `k`: a word
/// run, dash-free filler up to the arrow, the arrow, a pipe-delimited
/// non-empty label, and the destination word run.
pub open spec fn labeled_match_at(s: Seq<char>, k: int) -> Option<(Seq<char>, Seq<char>, Seq<char>)> {
    if 0 <= k < s.len() && is_word_char(s[k]) {
        let e = crate::variable_resolver::word_run_end(s, k);
        match find_char(s, e, '-') {
            Option::Some(p) => if matches_at(s, p, "-->"@) {
                let q = ws_run_end(s, p + 3);
                if q < s.len() && s[q] == '|' {
                    match find_char(s, q + 1, '|') {
                        Option::Some(r) => if r > q + 1 {
                            let t = ws_run_end(s, r + 1);
                            if t < s.len() && is_word_char(s[t]) {
                                let u = crate::variable_resolver::word_run_end(s, t);
                                Option::Some(
                                    (s.subrange(k, e), s.subrange(q + 1, r), s.subrange(t, u)),
                                )
                            } else {
                                Option::None
                            }
                        } else {
                            Option::None
                        },
                        Option::None => Option::None,
                    }
                } else {
                    Option::None
                }
            } else {
                Option::None
            },
            Option::None => Option::None,
        }
    } else {
        Option::None
    }
}

/// The first labeled-edge match of the line, if any.
pub open spec fn spec_labeled_edge(line: Seq<char>, k: int) -> Option<
    (Seq<char>, Seq<char>, Seq<char>),
>
    decreases line.len() - k,
{
    if !(0 <= k < line.len()) {
        Option::None
    } else {
        match labeled_match_at(line, k) {
            Option::Some(m) => Option::Some(m),
            Option::None => spec_labeled_edge(line, k + 1),
        }
    }
}

/// A simple edge `from ... --> to` starting exactly at `k`.
pub open spec fn simple_match_at(s: Seq<char>, k: int) -> Option<(Seq<char>, Seq<char>)> {
    if 0 <= k < s.len() && is_word_char(s[k]) {
        let e = crate::variable_resolver::word_run_end(s, k);
        match find_char(s, e, '-') {
            Option::Some(p) => if matches_at(s, p, "-->"@) {
                let t = ws_run_end(s, p + 3);
                if t < s.len() && is_word_char(s[t]) {
                    let u = crate::variable_resolver::word_run_end(s, t);
                    Option::Some((s.subrange(k, e), s.subrange(t, u)))
                } else {
                    Option::None
                }
            } else {
                Option::None
            },
            Option::None => Option::None,
        }
    } else {
        Option::None
    }
}

/// The first simple-edge match of the line, if any.
pub open spec fn spec_simple_edge(line: Seq<char>, k: int) -> Option<(Seq<char>, Seq<char>)>
    decreases line.len() - k,
{
    if !(0 <= k < line.len()) {
        Option::None
    } else {
        match simple_match_at(line, k) {
            Option::Some(m) => Option::Some(m),
            Option::None => spec_simple_edge(line, k + 1),
        }
    }
}

/// The edges one trimmed line contributes: at most one — labeled when the
/// line holds an arrow followed by a pipe, else simple when it holds a bare
/// arrow, else none.
pub open spec fn spec_line_edges(line: Seq<char>) -> Seq<SpecGraphEdge> {
    if find_at(line, 0, "-->|"@) is Some {
        match spec_labeled_edge(line, 0) {
            Option::Some((from, label, to)) => seq![
                SpecGraphEdge { from, to, label: Option::Some(label) },
            ],
            Option::None => Seq::empty(),
        }
    } else if find_at(line, 0, "-->"@) is Some {
        match spec_simple_edge(line, 0) {
            Option::Some((from, to)) => seq![SpecGraphEdge { from, to, label: Option::None }],
            Option::None => Seq::empty(),
        }
    } else {
        Seq::empty()
    }
}

/// Line-oriented edge extraction: lines in order, each line trimmed, output
/// order equal to line order.
pub open spec fn spec_parse_edges_from(s: Seq<char>, i: int) -> Seq<SpecGraphEdge>
    decreases s.len() - i,
{
    if !(0 <= i <= s.len()) {
        Seq::empty()
    } else {
        let e = match find_char(s, i, '\n') {
            Option::Some(p) => p,
            Option::None => s.len() as int,
        };
        if i <= e <= s.len() {
            let line_edges = spec_line_edges(spec_trim(s.subrange(i, e)));
            if e < s.len() {
                line_edges + spec_parse_edges_from(s, e + 1)
            } else {
                line_edges
            }
        } else {
            Seq::empty()
        }
    }
}

pub open spec fn spec_parse_edges(s: Seq<char>) -> Seq<SpecGraphEdge> {
    spec_parse_edges_from(s, 0)
}

// ---------------------------------------------------------------------------
// Click-reference extraction.
// ---------------------------------------------------------------------------

/// `s` with one leading `#` removed, if present.
pub open spec fn drop_hash(s: Seq<char>) -> Seq<char> {
    if s.len() > 0 && s[0] == '#' {
        s.skip(1)
    } else {
        s
    }
}

/// A click reference `click id "target"` with an optional quoted tooltip,
/// starting exactly at `k`.  Yields node id, raw target, optional tooltip
/// and the position just past the match.
pub open spec fn click_match_at(s: Seq<char>, k: int) -> Option<
    (Seq<char>, Seq<char>, Option<Seq<char>>, int),
> {
    if matches_at(s, k, "click"@) {
        let w = ws_run_end(s, k + 5);
        if w > k + 5 && w < s.len() && is_word_char(s[w]) {
            let e = crate::variable_resolver::word_run_end(s, w);
            let w2 = ws_run_end(s, e);
            if w2 > e && w2 < s.len() && s[w2] == '"' {
                match find_char(s, w2 + 1, '"') {
                    Option::Some(f) => if f > w2 + 1 {
                        let id = s.subrange(w, e);
                        let target = s.subrange(w2 + 1, f);
                        let t = ws_run_end(s, f + 1);
                        if t < s.len() && s[t] == '"' {
                            match find_char(s, t + 1, '"') {
                                Option::Some(g) => if g > t + 1 {
                                    Option::Some(
                                        (id, target, Option::Some(s.subrange(t + 1, g)), g + 1),
                                    )
                                } else {
                                    Option::Some((id, target, Option::None, f + 1))
                                },
                                Option::None => Option::Some((id, target, Option::None, f + 1)),
                            }
                        } else {
                            Option::Some((id, target, Option::None, f + 1))
                        }
                    } else {
                        Option::None
                    },
                    Option::None => Option::None,
                }
            } else {
                Option::None
            }
        } else {
            Option::None
        }
    } else {
        Option::None
    }
}

pub open spec fn click_reference(
    id: Seq<char>,
    target: Seq<char>,
    tooltip: Option<Seq<char>>,
) -> SpecNodeReference {
    SpecNodeReference {
        node_id: id,
        section_id: drop_hash(target),
        click_action: target,
        tooltip,
    }
}

/// Every click reference of the source, in scan order.
pub open spec fn spec_click_actions(s: Seq<char>, i: int) -> Seq<SpecNodeReference>
    decreases s.len() - i,
{
    if !(0 <= i < s.len()) {
        Seq::empty()
    } else {
        match click_match_at(s, i) {
            Option::Some((id, target, tooltip, next)) => if i < next <= s.len() {
                seq![click_reference(id, target, tooltip)] + spec_click_actions(s, next)
            } else {
                spec_click_actions(s, i + 1)
            },
            Option::None => spec_click_actions(s, i + 1),
        }
    }
}

// ---------------------------------------------------------------------------
// Linking and the assembled graph.
// ---------------------------------------------------------------------------

/// Index of the first node holding the id, if any.
pub open spec fn first_node_idx(nodes: Seq<SpecGraphNode>, id: Seq<char>, i: int) -> Option<int>
    decreases nodes.len() - i,
{
    if !(0 <= i < nodes.len()) {
        Option::None
    } else if nodes[i].id == id {
        Option::Some(i)
    } else {
        first_node_idx(nodes, id, i + 1)
    }
}

/// One reference applied: the first node with the matching id takes the
/// reference's section id; an unmatched reference changes nothing.
pub open spec fn spec_link_one(nodes: Seq<SpecGraphNode>, r: SpecNodeReference) -> Seq<
    SpecGraphNode,
> {
    match first_node_idx(nodes, r.node_id, 0) {
        Option::Some(j) => nodes.update(
            j,
            SpecGraphNode {
                id: nodes[j].id,
                label: nodes[j].label,
                node_type: nodes[j].node_type,
                ref_section_id: Option::Some(r.section_id),
            },
        ),
        Option::None => nodes,
    }
}

/// All references applied in order.
pub open spec fn spec_link(nodes: Seq<SpecGraphNode>, refs: Seq<SpecNodeReference>) -> Seq<
    SpecGraphNode,
>
    decreases refs.len(),
{
    if refs.len() == 0 {
        nodes
    } else {
        spec_link(spec_link_one(nodes, refs[0]), refs.skip(1))
    }
}

/// The graph parsed from diagram markup: extract the fenced source, then the
/// two node passes and the line edge pass.
pub open spec fn spec_parse_mermaid(s: Seq<char>) -> SpecGraphStructure {
    SpecGraphStructure {
        nodes: spec_parse_nodes(spec_extract_mermaid(s)),
        edges: spec_parse_edges(spec_extract_mermaid(s)),
    }
}

} // verus!

verus! {

// ---------------------------------------------------------------------------
// Executable scanners.
// ---------------------------------------------------------------------------

pub proof fn lemma_ws_run_end(s: Seq<char>, i: int, k: int)
    requires
        0 <= i <= k <= s.len(),
        forall|j: int| i <= j < k ==> is_space(s[j]),
        k < s.len() ==> !is_space(s[k]),
    ensures
        ws_run_end(s, i) == k,
    decreases k - i,
{
    if i < k {
        lemma_ws_run_end(s, i + 1, k);
    }
}

/// Skip whitespace from `i` on.
pub fn ws_scan(v: &Vec<char>, i: usize) -> (r: usize)
    requires
        i <= v@.len(),
    ensures
        r as int == ws_run_end(v@, i as int),
        i <= r <= v@.len(),
{
    let mut k: usize = i;
    while k < v.len() && (v[k] == ' ' || v[k] == '\t' || v[k] == '\n' || v[k] == '\r')
        invariant
            i <= k <= v@.len(),
            forall|j: int| i <= j < k ==> is_space(v@[j]),
        decreases v@.len() - k,
    {
        k = k + 1;
    }
    proof {
        lemma_ws_run_end(v@, i as int, k as int);
    }
    k
}

/// Skip word characters from `i` on.
fn word_scan(v: &Vec<char>, i: usize) -> (r: usize)
    requires
        i <= v@.len(),
    ensures
        r as int == crate::variable_resolver::word_run_end(v@, i as int),
        i <= r <= v@.len(),
{
    let mut k: usize = i;
    while k < v.len() && crate::variable_resolver::is_word_char_exec(v[k])
        invariant
            i <= k <= v@.len(),
            forall|j: int| i <= j < k ==> is_word_char(v@[j]),
        decreases v@.len() - k,
    {
        k = k + 1;
    }
    proof {
        crate::variable_resolver::lemma_word_run_end(v@, i as int, k as int);
    }
    k
}

proof fn lemma_last_char_skip(s: Seq<char>, lo: int, hi: int, i: int, c: char)
    requires
        0 <= lo <= i <= hi <= s.len(),
        forall|j: int| i <= j < hi ==> s[j] != c,
    ensures
        last_char_in(s, lo, hi, c) == last_char_in(s, lo, i, c),
    decreases hi - i,
{
    if i < hi {
        lemma_last_char_skip(s, lo, hi - 1, i, c);
    }
}

/// Last occurrence of `c` in `v[lo..hi]`.
fn last_ch_scan(v: &Vec<char>, lo: usize, hi: usize, c: char) -> (r: Option<usize>)
    requires
        lo <= hi <= v@.len(),
    ensures
        match r {
            Option::Some(p) => last_char_in(v@, lo as int, hi as int, c) == Option::Some(p as int)
                && lo <= p < hi,
            Option::None => last_char_in(v@, lo as int, hi as int, c) is None,
        },
{
    let mut k: usize = hi;
    while k > lo
        invariant
            lo <= k <= hi <= v@.len(),
            forall|j: int| k <= j < hi ==> v@[j] != c,
        decreases k,
    {
        if v[k - 1] == c {
            proof {
                lemma_last_char_skip(v@, lo as int, hi as int, k as int, c);
            }
            return Option::Some(k - 1);
        }
        k = k - 1;
    }
    proof {
        lemma_last_char_skip(v@, lo as int, hi as int, lo as int, c);
    }
    Option::None
}

/// Try a complete fenced block opening at `i`.
fn fence_match_exec(v: &Vec<char>, i: usize) -> (r: Option<(usize, usize)>)
    ensures
        match r {
            Option::Some((a, b)) => fence_match_at(v@, i as int) == Option::Some(
                (a as int, b as int),
            ) && a <= b <= v@.len(),
            Option::None => fence_match_at(v@, i as int) is None,
        },
{
    let fence = crate::text::str_to_chars("```mermaid");
    proof {
        reveal_strlit("```mermaid");
        reveal_strlit("\n```");
    }
    if !crate::text::matches_at_exec(v, i, &fence) {
        return Option::None;
    }
    let n = v.len();
    proof {
        assert(fence@ == "```mermaid"@);
        assert(fence@.len() == 10);
        assert(i + 10 <= n);
    }
    let w = ws_scan(v, i + 10);
    match last_ch_scan(v, i + 10, w, '\n') {
        Option::None => Option::None,
        Option::Some(p) => {
            let close = crate::text::str_to_chars("\n```");
            match crate::text::find_pat(v, p + 1, &close) {
                Option::None => Option::None,
                Option::Some(j) => Option::Some((p + 1, j)),
            }
        },
    }
}

/// If the text holds a complete fenced "```mermaid" block, the content
/// strictly between the first such opening fence line and the next closing
/// fence; otherwise the whole input unchanged.  This step never fails.
pub fn extract_mermaid_from_markdown(content: &str) -> (r: Result<String, ContextError>)
    ensures
        r is Ok,
        r->Ok_0@ == spec_extract_mermaid(content@),
{
    let v = crate::text::str_to_chars(content);
    let mut i: usize = 0;
    while i < v.len()
        invariant
            v@ == content@,
            i <= v@.len(),
            fence_scan(v@, 0) == fence_scan(v@, i as int),
        decreases v@.len() - i,
    {
        match fence_match_exec(&v, i) {
            Option::Some((a, b)) => {
                return Ok(crate::text::string_from_chars(&crate::text::subvec(&v, a, b)));
            },
            Option::None => {
                i = i + 1;
            },
        }
    }
    Ok(content.to_owned())
}

/// Try a node declaration at position `k`.
fn bracket_match_exec(v: &Vec<char>, k: usize, open: char, close: char) -> (r: Option<
    (Vec<char>, Vec<char>, usize),
>)
    ensures
        match r {
            Option::Some((id, label, next)) => bracket_match_at(v@, k as int, open, close)
                == Option::Some((id@, label@, next as int)) && k < next <= v@.len(),
            Option::None => bracket_match_at(v@, k as int, open, close) is None,
        },
{
    let n = v.len();
    if k >= n || !crate::variable_resolver::is_word_char_exec(v[k]) {
        return Option::None;
    }
    let e = word_scan(v, k);
    if e >= n || v[e] != open {
        return Option::None;
    }
    match crate::text::find_ch(v, e + 1, close) {
        Option::Some(f) => {
            if f > e + 1 {
                Option::Some((crate::text::subvec(v, k, e), crate::text::subvec(v, e + 1, f), f + 1))
            } else {
                Option::None
            }
        },
        Option::None => Option::None,
    }
}

/// Look for an id among the nodes collected so far.
fn has_node_id_exec(nodes: &Vec<GraphNode>, id: &Vec<char>) -> (r: bool)
    ensures
        r == has_node_id(nodes.deep_view(), id@),
{
    let mut j: usize = 0;
    while j < nodes.len()
        invariant
            j <= nodes@.len(),
            forall|k: int| 0 <= k < j ==> nodes.deep_view()[k].id != id@,
        decreases nodes@.len() - j,
    {
        if crate::text::eq_str(id, nodes[j].id.as_str()) {
            proof {
                assert(nodes.deep_view()[j as int].id == id@);
            }
            return true;
        }
        j = j + 1;
    }
    false
}

/// Extract every node declaration of already-extracted diagram source: the
/// rectangle pass first, then the round pass, an id keeping the shape it was
/// first matched with.  This step never fails.
pub fn parse_nodes(code: &str) -> (r: Result<Vec<GraphNode>, ContextError>)
    ensures
        r is Ok,
        r->Ok_0.deep_view() == spec_parse_nodes(code@),
{
    let v = crate::text::str_to_chars(code);
    let mut nodes: Vec<GraphNode> = Vec::new();
    let mut i: usize = 0;
    while i < v.len()
        invariant
            v@ == code@,
            i <= v@.len(),
            nodes.deep_view() + rect_nodes_of(spec_rect_pairs(v@, i as int)) == rect_nodes_of(
                spec_rect_pairs(v@, 0),
            ),
        decreases v@.len() - i,
    {
        let ghost pre = nodes.deep_view();
        match bracket_match_exec(&v, i, '[', ']') {
            Option::Some((id, label, next)) => {
                nodes.push(
                    GraphNode {
                        id: crate::text::string_from_chars(&id),
                        label: crate::text::string_from_chars(&label),
                        node_type: NodeType::Rectangle,
                        ref_section_id: Option::None,
                    },
                );
                proof {
                    assert(nodes.deep_view() =~= pre.push(rect_node(id@, label@)));
                    assert(spec_rect_pairs(v@, i as int) == seq![(id@, label@)] + spec_rect_pairs(
                        v@,
                        next as int,
                    ));
                    assert(rect_nodes_of(seq![(id@, label@)] + spec_rect_pairs(v@, next as int))
                        =~= seq![rect_node(id@, label@)] + rect_nodes_of(
                        spec_rect_pairs(v@, next as int),
                    ));
                    assert(nodes.deep_view() + rect_nodes_of(spec_rect_pairs(v@, next as int))
                        =~= pre + rect_nodes_of(spec_rect_pairs(v@, i as int)));
                }
                i = next;
            },
            Option::None => {
                i = i + 1;
            },
        }
    }
    let ghost rect_all = nodes.deep_view();
    proof {
        assert(rect_nodes_of(spec_rect_pairs(v@, v@.len() as int)) =~= Seq::<
            SpecGraphNode,
        >::empty());
        assert(rect_all =~= rect_nodes_of(spec_rect_pairs(v@, 0)));
    }
    let mut i: usize = 0;
    while i < v.len()
        invariant
            v@ == code@,
            i <= v@.len(),
            spec_round_add(v@, i as int, nodes.deep_view()) == spec_round_add(v@, 0, rect_all),
        decreases v@.len() - i,
    {
        let ghost pre = nodes.deep_view();
        match bracket_match_exec(&v, i, '(', ')') {
            Option::Some((id, label, next)) => {
                if !has_node_id_exec(&nodes, &id) {
                    nodes.push(
                        GraphNode {
                            id: crate::text::string_from_chars(&id),
                            label: crate::text::string_from_chars(&label),
                            node_type: NodeType::RoundEdges,
                            ref_section_id: Option::None,
                        },
                    );
                    proof {
                        assert(nodes.deep_view() =~= pre.push(round_node(id@, label@)));
                    }
                }
                i = next;
            },
            Option::None => {
                i = i + 1;
            },
        }
    }
    proof {
        assert(spec_round_add(v@, v@.len() as int, nodes.deep_view()) == nodes.deep_view());
    }
    Ok(nodes)
}

} // verus!

verus! {

/// Try a labeled edge at position `k` of a line.
fn labeled_match_exec(v: &Vec<char>, k: usize) -> (r: Option<(Vec<char>, Vec<char>, Vec<char>)>)
    ensures
        match r {
            Option::Some((from, label, to)) => labeled_match_at(v@, k as int) == Option::Some(
                (from@, label@, to@),
            ),
            Option::None => labeled_match_at(v@, k as int) is None,
        },
{
    let n = v.len();
    if k >= n || !crate::variable_resolver::is_word_char_exec(v[k]) {
        return Option::None;
    }
    let e = word_scan(v, k);
    let arrow = crate::text::str_to_chars("-->");
    proof {
        reveal_strlit("-->");
    }
    match crate::text::find_ch(v, e, '-') {
        Option::None => Option::None,
        Option::Some(p) => {
            if !crate::text::matches_at_exec(v, p, &arrow) {
                return Option::None;
            }
            let q = ws_scan(v, p + 3);
            if q >= n || v[q] != '|' {
                return Option::None;
            }
            match crate::text::find_ch(v, q + 1, '|') {
                Option::None => Option::None,
                Option::Some(r) => {
                    if !(r > q + 1) {
                        return Option::None;
                    }
                    let t = ws_scan(v, r + 1);
                    if t >= n || !crate::variable_resolver::is_word_char_exec(v[t]) {
                        return Option::None;
                    }
                    let u = word_scan(v, t);
                    Option::Some(
                        (
                            crate::text::subvec(v, k, e),
                            crate::text::subvec(v, q + 1, r),
                            crate::text::subvec(v, t, u),
                        ),
                    )
                },
            }
        },
    }
}

/// Try a simple edge at position `k` of a line.
fn simple_match_exec(v: &Vec<char>, k: usize) -> (r: Option<(Vec<char>, Vec<char>)>)
    ensures
        match r {
            Option::Some((from, to)) => simple_match_at(v@, k as int) == Option::Some((from@, to@)),
            Option::None => simple_match_at(v@, k as int) is None,
        },
{
    let n = v.len();
    if k >= n || !crate::variable_resolver::is_word_char_exec(v[k]) {
        return Option::None;
    }
    let e = word_scan(v, k);
    let arrow = crate::text::str_to_chars("-->");
    proof {
        reveal_strlit("-->");
    }
    match crate::text::find_ch(v, e, '-') {
        Option::None => Option::None,
        Option::Some(p) => {
            if !crate::text::matches_at_exec(v, p, &arrow) {
                return Option::None;
            }
            let t = ws_scan(v, p + 3);
            if t >= n || !crate::variable_resolver::is_word_char_exec(v[t]) {
                return Option::None;
            }
            let u = word_scan(v, t);
            Option::Some((crate::text::subvec(v, k, e), crate::text::subvec(v, t, u)))
        },
    }
}

/// First labeled match of a line, scanning every start position.
fn labeled_edge_scan(line: &Vec<char>) -> (r: Option<(Vec<char>, Vec<char>, Vec<char>)>)
    ensures
        match r {
            Option::Some((from, label, to)) => spec_labeled_edge(line@, 0) == Option::Some(
                (from@, label@, to@),
            ),
            Option::None => spec_labeled_edge(line@, 0) is None,
        },
{
    let mut k: usize = 0;
    while k < line.len()
        invariant
            k <= line@.len(),
            spec_labeled_edge(line@, 0) == spec_labeled_edge(line@, k as int),
        decreases line@.len() - k,
    {
        match labeled_match_exec(line, k) {
            Option::Some(m) => {
                return Option::Some(m);
            },
            Option::None => {
                k = k + 1;
            },
        }
    }
    Option::None
}

/// First simple match of a line, scanning every start position.
fn simple_edge_scan(line: &Vec<char>) -> (r: Option<(Vec<char>, Vec<char>)>)
    ensures
        match r {
            Option::Some((from, to)) => spec_simple_edge(line@, 0) == Option::Some((from@, to@)),
            Option::None => spec_simple_edge(line@, 0) is None,
        },
{
    let mut k: usize = 0;
    while k < line.len()
        invariant
            k <= line@.len(),
            spec_simple_edge(line@, 0) == spec_simple_edge(line@, k as int),
        decreases line@.len() - k,
    {
        match simple_match_exec(line, k) {
            Option::Some(m) => {
                return Option::Some(m);
            },
            Option::None => {
                k = k + 1;
            },
        }
    }
    Option::None
}

/// The edges one trimmed line contributes.
fn line_edges_exec(line: &Vec<char>) -> (r: Option<GraphEdge>)
    ensures
        match r {
            Option::Some(e) => spec_line_edges(line@) == seq![e@],
            Option::None => spec_line_edges(line@) == Seq::<SpecGraphEdge>::empty(),
        },
{
    let labeled_pat = crate::text::str_to_chars("-->|");
    let simple_pat = crate::text::str_to_chars("-->");
    proof {
        reveal_strlit("-->|");
        reveal_strlit("-->");
    }
    if crate::text::find_pat(line, 0, &labeled_pat).is_some() {
        match labeled_edge_scan(line) {
            Option::Some((from, label, to)) => Option::Some(
                GraphEdge {
                    from: crate::text::string_from_chars(&from),
                    to: crate::text::string_from_chars(&to),
                    label: Option::Some(crate::text::string_from_chars(&label)),
                },
            ),
            Option::None => Option::None,
        }
    } else if crate::text::find_pat(line, 0, &simple_pat).is_some() {
        match simple_edge_scan(line) {
            Option::Some((from, to)) => Option::Some(
                GraphEdge {
                    from: crate::text::string_from_chars(&from),
                    to: crate::text::string_from_chars(&to),
                    label: Option::None,
                },
            ),
            Option::None => Option::None,
        }
    } else {
        Option::None
    }
}

/// Extract every edge of already-extracted diagram source, line by line, at
/// most one edge per line, in line order.  This step never fails.
pub fn parse_edges(code: &str) -> (r: Result<Vec<GraphEdge>, ContextError>)
    ensures
        r is Ok,
        r->Ok_0.deep_view() == spec_parse_edges(code@),
{
    let v = crate::text::str_to_chars(code);
    let mut edges: Vec<GraphEdge> = Vec::new();
    let mut i: usize = 0;
    let mut more = true;
    while more
        invariant
            v@ == code@,
            more ==> i <= v@.len(),
            more ==> edges.deep_view() + spec_parse_edges_from(v@, i as int) == spec_parse_edges(
                v@,
            ),
            !more ==> edges.deep_view() == spec_parse_edges(v@),
        decreases v@.len() - i + (if more { 1int } else { 0int }),
    {
        let ghost pre = edges.deep_view();
        let e = match crate::text::find_ch(&v, i, '\n') {
            Option::Some(p) => p,
            Option::None => v.len(),
        };
        let line = crate::text::trim_vec(&crate::text::subvec(&v, i, e));
        match line_edges_exec(&line) {
            Option::Some(edge) => {
                edges.push(edge);
                proof {
                    assert(edges.deep_view() =~= pre.push(
                        spec_line_edges(spec_trim(v@.subrange(i as int, e as int)))[0],
                    ));
                }
            },
            Option::None => {},
        }
        proof {
            assert(edges.deep_view() =~= pre + spec_line_edges(
                spec_trim(v@.subrange(i as int, e as int)),
            ));
        }
        if e < v.len() {
            proof {
                assert(edges.deep_view() + spec_parse_edges_from(v@, e + 1) =~= pre
                    + spec_parse_edges_from(v@, i as int));
            }
            i = e + 1;
        } else {
            proof {
                assert(edges.deep_view() =~= pre + spec_parse_edges_from(v@, i as int));
            }
            more = false;
        }
    }
    Ok(edges)
}

/// Try a click reference at position `k`.
fn click_match_exec(v: &Vec<char>, k: usize) -> (r: Option<
    (Vec<char>, Vec<char>, Option<Vec<char>>, usize),
>)
    ensures
        match r {
            Option::Some((id, target, tooltip, next)) => click_match_at(v@, k as int)
                == Option::Some(
                (
                    id@,
                    target@,
                    match tooltip {
                        Option::Some(t) => Option::Some(t@),
                        Option::None => Option::None,
                    },
                    next as int,
                ),
            ) && k < next <= v@.len(),
            Option::None => click_match_at(v@, k as int) is None,
        },
{
    let n = v.len();
    let click_pat = crate::text::str_to_chars("click");
    proof {
        reveal_strlit("click");
    }
    if !crate::text::matches_at_exec(v, k, &click_pat) {
        return Option::None;
    }
    let w = ws_scan(v, k + 5);
    if !(w > k + 5) || w >= n || !crate::variable_resolver::is_word_char_exec(v[w]) {
        return Option::None;
    }
    let e = word_scan(v, w);
    let w2 = ws_scan(v, e);
    if !(w2 > e) || w2 >= n || v[w2] != '"' {
        return Option::None;
    }
    match crate::text::find_ch(v, w2 + 1, '"') {
        Option::None => Option::None,
        Option::Some(f) => {
            if !(f > w2 + 1) {
                return Option::None;
            }
            let id = crate::text::subvec(v, w, e);
            let target = crate::text::subvec(v, w2 + 1, f);
            let t = ws_scan(v, f + 1);
            if t < n && v[t] == '"' {
                match crate::text::find_ch(v, t + 1, '"') {
                    Option::Some(g) => {
                        if g > t + 1 {
                            let tooltip = crate::text::subvec(v, t + 1, g);
                            return Option::Some((id, target, Option::Some(tooltip), g + 1));
                        }
                        Option::Some((id, target, Option::None, f + 1))
                    },
                    Option::None => Option::Some((id, target, Option::None, f + 1)),
                }
            } else {
                Option::Some((id, target, Option::None, f + 1))
            }
        },
    }
}

/// Strip one leading `#`, if present.
fn drop_hash_exec(v: &Vec<char>) -> (r: Vec<char>)
    ensures
        r@ == drop_hash(v@),
{
    let a: usize = if v.len() > 0 && v[0] == '#' {
        1
    } else {
        0
    };
    let r = crate::text::subvec(v, a, v.len());
    proof {
        if a == 1 {
            assert(v@.skip(1) =~= v@.subrange(1, v@.len() as int));
        } else {
            assert(v@ =~= v@.subrange(0, v@.len() as int));
        }
    }
    r
}

/// Extract every `click <node> "<target>"` reference with its optional
/// tooltip; the section id is the target with one leading `#` stripped if
/// present, while the raw target is kept as the click action.  This step
/// never fails.
pub fn parse_click_actions(code: &str) -> (r: Result<Vec<NodeReference>, ContextError>)
    ensures
        r is Ok,
        r->Ok_0.deep_view() == spec_click_actions(code@, 0),
{
    let v = crate::text::str_to_chars(code);
    let mut refs: Vec<NodeReference> = Vec::new();
    let mut i: usize = 0;
    while i < v.len()
        invariant
            v@ == code@,
            i <= v@.len(),
            refs.deep_view() + spec_click_actions(v@, i as int) == spec_click_actions(v@, 0),
        decreases v@.len() - i,
    {
        let ghost pre = refs.deep_view();
        match click_match_exec(&v, i) {
            Option::Some((id, target, tooltip, next)) => {
                let section_id = drop_hash_exec(&target);
                refs.push(
                    NodeReference {
                        node_id: crate::text::string_from_chars(&id),
                        section_id: crate::text::string_from_chars(&section_id),
                        click_action: crate::text::string_from_chars(&target),
                        tooltip: match &tooltip {
                            Option::Some(t) => Option::Some(crate::text::string_from_chars(t)),
                            Option::None => Option::None,
                        },
                    },
                );
                proof {
                    let spec_tt = match tooltip {
                        Option::Some(t) => Option::Some(t@),
                        Option::None => Option::None,
                    };
                    assert(refs.deep_view() =~= pre.push(click_reference(id@, target@, spec_tt)));
                    assert(refs.deep_view() + spec_click_actions(v@, next as int) =~= pre
                        + spec_click_actions(v@, i as int));
                }
                i = next;
            },
            Option::None => {
                i = i + 1;
            },
        }
    }
    Ok(refs)
}

/// Parse diagram markup into its graph: extract the fenced source, then
/// nodes and edges.  This step never fails.
pub fn parse_mermaid(mermaid_code: &str) -> (r: Result<GraphStructure, ContextError>)
    ensures
        r is Ok,
        r->Ok_0@ == spec_parse_mermaid(mermaid_code@),
{
    let clean = match extract_mermaid_from_markdown(mermaid_code) {
        Ok(c) => c,
        Err(e) => {
            return Err(e);
        },
    };
    let nodes = match parse_nodes(clean.as_str()) {
        Ok(n) => n,
        Err(e) => {
            return Err(e);
        },
    };
    let edges = match parse_edges(clean.as_str()) {
        Ok(n) => n,
        Err(e) => {
            return Err(e);
        },
    };
    Ok(GraphStructure { nodes, edges })
}

/// Find the first node holding the id.
fn first_node_idx_exec(nodes: &Vec<GraphNode>, id: &Vec<char>) -> (r: Option<usize>)
    ensures
        match r {
            Option::Some(j) => first_node_idx(nodes.deep_view(), id@, 0) == Option::Some(j as int)
                && j < nodes@.len(),
            Option::None => first_node_idx(nodes.deep_view(), id@, 0) is None,
        },
{
    let mut j: usize = 0;
    while j < nodes.len()
        invariant
            j <= nodes@.len(),
            first_node_idx(nodes.deep_view(), id@, 0) == first_node_idx(
                nodes.deep_view(),
                id@,
                j as int,
            ),
        decreases nodes@.len() - j,
    {
        if crate::text::eq_str(id, nodes[j].id.as_str()) {
            proof {
                assert(nodes.deep_view()[j as int].id == id@);
            }
            return Option::Some(j);
        }
        j = j + 1;
    }
    Option::None
}

/// Recompute the derived state of a flow graph from its diagram source:
/// parse the graph, parse the click references, then give each referenced
/// node its section id.  References naming no parsed node stay unlinked;
/// nodes no reference names keep no section id.  Identity, title and the
/// diagram source are untouched.  This step never fails.
pub fn enrich_flow_graph(flow: &mut FlowGraph) -> (r: Result<(), ContextError>)
    ensures
        r is Ok,
        final(flow).id == old(flow).id,
        final(flow).version == old(flow).version,
        final(flow).title == old(flow).title,
        final(flow).mermaid_code == old(flow).mermaid_code,
        final(flow)@.parsed_graph.edges == spec_parse_mermaid(old(flow)@.mermaid_code).edges,
        final(flow)@.node_refs == spec_click_actions(
            spec_extract_mermaid(old(flow)@.mermaid_code),
            0,
        ),
        final(flow)@.parsed_graph.nodes == spec_link(
            spec_parse_mermaid(old(flow)@.mermaid_code).nodes,
            spec_click_actions(spec_extract_mermaid(old(flow)@.mermaid_code), 0),
        ),
{
    let parsed = match parse_mermaid(flow.mermaid_code.as_str()) {
        Ok(g) => g,
        Err(e) => {
            return Err(e);
        },
    };
    let clean = match extract_mermaid_from_markdown(flow.mermaid_code.as_str()) {
        Ok(c) => c,
        Err(e) => {
            return Err(e);
        },
    };
    let refs = match parse_click_actions(clean.as_str()) {
        Ok(rs) => rs,
        Err(e) => {
            return Err(e);
        },
    };
    let mut nodes = parsed.nodes;
    let ghost all_refs = refs.deep_view();
    proof {
        assert(all_refs.skip(0) =~= all_refs);
    }
    let mut k: usize = 0;
    while k < refs.len()
        invariant
            k <= refs@.len(),
            all_refs == refs.deep_view(),
            spec_link(nodes.deep_view(), all_refs.skip(k as int)) == spec_link(
                spec_parse_mermaid(flow.mermaid_code@).nodes,
                all_refs,
            ),
        decreases refs@.len() - k,
    {
        let ghost pre = nodes.deep_view();
        let node_id = crate::text::str_to_chars(refs[k].node_id.as_str());
        proof {
            assert(node_id@ == all_refs[k as int].node_id);
        }
        match first_node_idx_exec(&nodes, &node_id) {
            Option::Some(j) => {
                let updated = GraphNode {
                    id: nodes[j].id.clone(),
                    label: nodes[j].label.clone(),
                    node_type: nodes[j].node_type,
                    ref_section_id: Option::Some(refs[k].section_id.clone()),
                };
                nodes.set(j, updated);
                proof {
                    assert(nodes.deep_view() =~= spec_link_one(pre, all_refs[k as int]));
                }
            },
            Option::None => {
                proof {
                    assert(nodes.deep_view() =~= spec_link_one(pre, all_refs[k as int]));
                }
            },
        }
        proof {
            assert(all_refs.skip(k as int)[0] == all_refs[k as int]);
            assert(all_refs.skip(k as int).skip(1) =~= all_refs.skip(k + 1));
        }
        k = k + 1;
    }
    proof {
        assert(all_refs.skip(refs@.len() as int) =~= Seq::<SpecNodeReference>::empty());
    }
    flow.parsed_graph = GraphStructure { nodes, edges: parsed.edges };
    flow.node_refs = refs;
    Ok(())
}

} // verus!

verus! {

// ---------------------------------------------------------------------------
// Laws of extraction.
// ---------------------------------------------------------------------------

proof fn lemma_fence_scan_none(s: Seq<char>, i: int)
    requires
        0 <= i,
        find_at(s, i, "```mermaid"@) is None,
    ensures
        fence_scan(s, i) is None,
    decreases s.len() - i,
{
    reveal_strlit("```mermaid");
    if i < s.len() {
        assert(!matches_at(s, i, "```mermaid"@));
        lemma_fence_scan_none(s, i + 1);
    }
}

/// Text holding no fence marker is treated as already-bare diagram source:
/// extraction returns it unchanged.
pub proof fn lemma_extract_no_fence(s: Seq<char>)
    requires
        find_at(s, 0, "```mermaid"@) is None,
    ensures
        spec_extract_mermaid(s) == s,
{
    lemma_fence_scan_none(s, 0);
}

proof fn lemma_fence_scan_skip(s: Seq<char>, from: int, i: int)
    requires
        0 <= from <= i,
        forall|i2: int| from <= i2 < i ==> #[trigger] fence_match_at(s, i2) is None,
    ensures
        fence_scan(s, from) == fence_scan(s, i),
    decreases i - from,
{
    if from < i {
        lemma_fence_scan_skip(s, from + 1, i);
    }
}

proof fn lemma_last_char_in_props(s: Seq<char>, lo: int, hi: int, c: char)
    requires
        last_char_in(s, lo, hi, c) is Some,
    ensures
        lo <= last_char_in(s, lo, hi, c)->Some_0 < hi <= s.len(),
        s[last_char_in(s, lo, hi, c)->Some_0] == c,
    decreases hi - lo,
{
    if !(lo >= hi || hi > s.len() || lo < 0) && s[hi - 1] != c {
        lemma_last_char_in_props(s, lo, hi - 1, c);
    }
}

proof fn lemma_find_at_props(s: Seq<char>, from: int, pat: Seq<char>)
    requires
        find_at(s, from, pat) is Some,
    ensures
        from <= find_at(s, from, pat)->Some_0,
        find_at(s, from, pat)->Some_0 + pat.len() <= s.len(),
    decreases s.len() - from,
{
    if !(from < 0 || pat.len() == 0 || from + pat.len() > s.len()) && !matches_at(s, from, pat) {
        lemma_find_at_props(s, from + 1, pat);
    }
}

/// Text whose first complete fence opens at `i` extracts to exactly that
/// fence's interior: the content strictly between the newline closing the
/// opening fence line and the next newline-fence.
pub proof fn lemma_extract_fenced(s: Seq<char>, i: int, a: int, b: int)
    requires
        0 <= i,
        fence_match_at(s, i) == Option::Some((a, b)),
        forall|i2: int| 0 <= i2 < i ==> #[trigger] fence_match_at(s, i2) is None,
    ensures
        spec_extract_mermaid(s) == s.subrange(a, b),
{
    reveal_strlit("```mermaid");
    reveal_strlit("\n```");
    assert(matches_at(s, i, "```mermaid"@));
    assert(i < s.len());
    lemma_fence_scan_skip(s, 0, i);
    assert(fence_scan(s, i) == Option::Some((a, b)));
    let w = ws_run_end(s, i + 10);
    lemma_last_char_in_props(s, i + 10, w, '\n');
    lemma_find_at_props(s, a, "\n```"@);
    assert(0 <= a <= b <= s.len());
}

} // verus!

verus! {

// ---------------------------------------------------------------------------
// Laws of linking.
// ---------------------------------------------------------------------------

proof fn lemma_first_node_idx_props(nodes: Seq<SpecGraphNode>, id: Seq<char>, i: int)
    requires
        0 <= i,
        first_node_idx(nodes, id, i) is Some,
    ensures
        i <= first_node_idx(nodes, id, i)->Some_0 < nodes.len(),
        nodes[first_node_idx(nodes, id, i)->Some_0].id == id,
    decreases nodes.len() - i,
{
    if i < nodes.len() && nodes[i].id != id {
        lemma_first_node_idx_props(nodes, id, i + 1);
    }
}

/// Linking changes nothing but section references: it keeps the node list's
/// length and every node's id, label and shape; a node whose id no
/// reference names keeps its section reference untouched.  A reference
/// naming no node changes nothing at all.
pub proof fn lemma_link_preserves_nodes(nodes: Seq<SpecGraphNode>, refs: Seq<SpecNodeReference>)
    ensures
        spec_link(nodes, refs).len() == nodes.len(),
        forall|j: int|
            0 <= j < nodes.len() ==> {
                &&& (#[trigger] spec_link(nodes, refs)[j]).id == nodes[j].id
                &&& spec_link(nodes, refs)[j].label == nodes[j].label
                &&& spec_link(nodes, refs)[j].node_type == nodes[j].node_type
            },
        forall|j: int|
            0 <= j < nodes.len() && (forall|k: int|
                0 <= k < refs.len() ==> (#[trigger] refs[k]).node_id != nodes[j].id) ==> (
            #[trigger] spec_link(nodes, refs)[j]).ref_section_id == nodes[j].ref_section_id,
    decreases refs.len(),
{
    if refs.len() > 0 {
        let once = spec_link_one(nodes, refs[0]);
        match first_node_idx(nodes, refs[0].node_id, 0) {
            Option::None => {},
            Option::Some(m) => {
                lemma_first_node_idx_props(nodes, refs[0].node_id, 0);
            },
        }
        lemma_link_preserves_nodes(once, refs.skip(1));
        assert forall|j: int|
            0 <= j < nodes.len() && (forall|k: int|
                0 <= k < refs.len() ==> (#[trigger] refs[k]).node_id != nodes[j].id) implies (
        #[trigger] spec_link(nodes, refs)[j]).ref_section_id == nodes[j].ref_section_id by {
            assert(refs[0].node_id != nodes[j].id);
            assert(once[j] == nodes[j]);
            assert(forall|k: int|
                0 <= k < refs.skip(1).len() ==> (#[trigger] refs.skip(1)[k]).node_id
                    != once[j].id);
        }
    }
}

} // verus!
