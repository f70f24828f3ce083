use vstd::prelude::*;

use crate::errors::ContextError;
use crate::errors::SpecContextError;
use crate::xml_events::spec_lex;
use crate::xml_tree::SpecXmlElem;
use crate::xml_tree::XmlElem;
use crate::xml_tree::elem_view;
use crate::xml_tree::elems_view;
use crate::xml_tree::t_root;

verus! {

// ---------------------------------------------------------------------------
// Structural validation, independent of the document reader: a lightweight
// tree is built first, then a fixed series of checks runs, each
// short-circuiting on the first violation — root name, required blocks,
// metadata children and app attributes, and per-section rules: id and type
// attributes, a type from the fixed vocabulary, unique ids, a content
// child, and no nested section.
// ---------------------------------------------------------------------------

pub open spec fn sv_err(m: Seq<char>) -> SpecContextError {
    SpecContextError::SchemaValidationError(m)
}

pub open spec fn has_elem_child(kids: Seq<SpecXmlElem>, name: Seq<char>) -> bool {
    exists|k: int| 0 <= k < kids.len() && kids[k].name == name
}

/// Index of the first child element with the given name.
pub open spec fn first_child_from(kids: Seq<SpecXmlElem>, name: Seq<char>, i: int) -> Option<int>
    decreases kids.len() - i,
{
    if !(0 <= i < kids.len()) {
        Option::None
    } else if kids[i].name == name {
        Option::Some(i)
    } else {
        first_child_from(kids, name, i + 1)
    }
}

/// The first attribute with the given key decides, as a document-order
/// reader sees it.
pub open spec fn attr_first_from(
    attrs: Seq<(Seq<char>, Seq<char>)>,
    key: Seq<char>,
    i: int,
) -> Option<Seq<char>>
    decreases attrs.len() - i,
{
    if !(0 <= i < attrs.len()) {
        Option::None
    } else if attrs[i].0 == key {
        Option::Some(attrs[i].1)
    } else {
        attr_first_from(attrs, key, i + 1)
    }
}

pub open spec fn has_attr(attrs: Seq<(Seq<char>, Seq<char>)>, key: Seq<char>) -> bool {
    exists|k: int| 0 <= k < attrs.len() && attrs[k].0 == key
}

/// The fixed section-type vocabulary.
pub open spec fn is_valid_section_type(t: Seq<char>) -> bool {
    t == "intent"@ || t == "evaluation"@ || t == "process"@ || t == "alternatives"@
}

/// An earlier section child already carries this id.
pub open spec fn dup_id_before(kids: Seq<SpecXmlElem>, k: int, id: Seq<char>) -> bool {
    exists|j: int|
        0 <= j < k && kids[j].name == "section"@ && attr_first_from(kids[j].attrs, "id"@, 0)
            == Option::Some(id)
}

/// The per-section checks, in order, over the children of the sections
/// element; elements that are not sections are ignored.
pub open spec fn v_sections(kids: Seq<SpecXmlElem>, k: int) -> Result<(), SpecContextError>
    decreases kids.len() - k,
{
    if !(0 <= k < kids.len()) {
        Result::Ok(())
    } else if kids[k].name != "section"@ {
        v_sections(kids, k + 1)
    } else {
        match attr_first_from(kids[k].attrs, "id"@, 0) {
            Option::None => Result::Err(sv_err("Section must have 'id' attribute"@)),
            Option::Some(id) => match attr_first_from(kids[k].attrs, "type"@, 0) {
                Option::None => Result::Err(
                    sv_err("Section '"@ + id + "' must have 'type' attribute"@),
                ),
                Option::Some(t) => if !is_valid_section_type(t) {
                    Result::Err(
                        sv_err(
                            "Section '"@ + id + "' has invalid type '"@ + t
                                + "'. Allowed types: intent, evaluation, process, alternatives"@,
                        ),
                    )
                } else if dup_id_before(kids, k, id) {
                    Result::Err(
                        sv_err(
                            "Duplicate section ID '"@ + id
                                + "' found. Section IDs must be unique."@,
                        ),
                    )
                } else if !has_elem_child(kids[k].kids, "content"@) {
                    Result::Err(sv_err("Section '"@ + id + "' must have a 'content' element"@))
                } else if has_elem_child(kids[k].kids, "section"@) {
                    Result::Err(
                        sv_err(
                            "Section '"@ + id
                                + "' contains nested sections. Section nesting is not allowed - all sections must be direct children of <sections>."@,
                        ),
                    )
                } else {
                    v_sections(kids, k + 1)
                },
            },
        }
    }
}

/// The metadata checks: six required children, then the app element's two
/// required attributes.
pub open spec fn v_meta(meta: SpecXmlElem) -> Result<(), SpecContextError> {
    if !has_elem_child(meta.kids, "title"@) {
        Result::Err(sv_err("Required meta element 'title' is missing"@))
    } else if !has_elem_child(meta.kids, "author"@) {
        Result::Err(sv_err("Required meta element 'author' is missing"@))
    } else if !has_elem_child(meta.kids, "created"@) {
        Result::Err(sv_err("Required meta element 'created' is missing"@))
    } else if !has_elem_child(meta.kids, "app"@) {
        Result::Err(sv_err("Required meta element 'app' is missing"@))
    } else if !has_elem_child(meta.kids, "tags"@) {
        Result::Err(sv_err("Required meta element 'tags' is missing"@))
    } else if !has_elem_child(meta.kids, "description"@) {
        Result::Err(sv_err("Required meta element 'description' is missing"@))
    } else {
        match first_child_from(meta.kids, "app"@, 0) {
            Option::None => Result::Ok(()),
            Option::Some(ai) => if !has_attr(meta.kids[ai].attrs, "name"@) {
                Result::Err(sv_err("App element must have 'name' attribute"@))
            } else if !has_attr(meta.kids[ai].attrs, "version"@) {
                Result::Err(sv_err("App element must have 'version' attribute"@))
            } else {
                Result::Ok(())
            },
        }
    }
}

/// The root checks: the root must be the context element and hold the three
/// required blocks; then the metadata checks, then the section checks.
pub open spec fn v_root(root: SpecXmlElem) -> Result<(), SpecContextError> {
    if root.name != "context"@ {
        Result::Err(sv_err("Root element must be 'context'"@))
    } else if !has_elem_child(root.kids, "meta"@) {
        Result::Err(sv_err("Required element 'meta' is missing"@))
    } else if !has_elem_child(root.kids, "variables"@) {
        Result::Err(sv_err("Required element 'variables' is missing"@))
    } else if !has_elem_child(root.kids, "sections"@) {
        Result::Err(sv_err("Required element 'sections' is missing"@))
    } else {
        match first_child_from(root.kids, "meta"@, 0) {
            Option::None => v_root_sections(root),
            Option::Some(mi) => match v_meta(root.kids[mi]) {
                Result::Err(e) => Result::Err(e),
                Result::Ok(()) => v_root_sections(root),
            },
        }
    }
}

pub open spec fn v_root_sections(root: SpecXmlElem) -> Result<(), SpecContextError> {
    match first_child_from(root.kids, "sections"@, 0) {
        Option::None => Result::Ok(()),
        Option::Some(si) => v_sections(root.kids[si].kids, 0),
    }
}

/// Validation of raw markup: build the lightweight tree — any lexical or
/// well-formedness failure is reported as a parsing failure — then run the
/// structural checks.
pub open spec fn spec_validate_schema(s: Seq<char>) -> Result<(), SpecContextError> {
    match spec_lex(s) {
        Result::Err(m) => Result::Err(sv_err("XML parsing failed: "@ + m)),
        Result::Ok(evs) => match t_root(evs) {
            Result::Err(m) => Result::Err(sv_err("XML parsing failed: "@ + m)),
            Result::Ok(root) => v_root(root),
        },
    }
}

// ---------------------------------------------------------------------------
// Supporting lemmas.
// ---------------------------------------------------------------------------

pub proof fn lemma_elems_view_index(es: Seq<XmlElem>, j: int)
    requires
        0 <= j < es.len(),
    ensures
        elems_view(es).len() == es.len(),
        elems_view(es)[j] == elem_view(es[j]),
    decreases es.len(),
{
    lemma_elems_view_len(es);
    if j > 0 {
        lemma_elems_view_index(es.skip(1), j - 1);
    }
}

pub proof fn lemma_elems_view_len(es: Seq<XmlElem>)
    ensures
        elems_view(es).len() == es.len(),
    decreases es.len(),
{
    if es.len() > 0 {
        lemma_elems_view_len(es.skip(1));
    }
}

} // verus!

verus! {

// ---------------------------------------------------------------------------
// Executable validator.
// ---------------------------------------------------------------------------

fn has_child_exec(kids: &Vec<XmlElem>, name: &str) -> (r: bool)
    ensures
        r == has_elem_child(elems_view(kids@), name@),
{
    let mut k: usize = 0;
    while k < kids.len()
        invariant
            k <= kids@.len(),
            forall|j: int| 0 <= j < k ==> elems_view(kids@)[j].name != name@,
        decreases kids@.len() - k,
    {
        proof {
            lemma_elems_view_index(kids@, k as int);
        }
        if crate::text::str_eq(kids[k].name.as_str(), name) {
            proof {
                lemma_elems_view_len(kids@);
            }
            return true;
        }
        k = k + 1;
    }
    proof {
        lemma_elems_view_len(kids@);
    }
    false
}

fn first_child_exec(kids: &Vec<XmlElem>, name: &str) -> (r: Option<usize>)
    ensures
        match r {
            Option::Some(i) => first_child_from(elems_view(kids@), name@, 0) == Option::Some(
                i as int,
            ) && i < kids@.len(),
            Option::None => first_child_from(elems_view(kids@), name@, 0) is None,
        },
{
    let ghost kv = elems_view(kids@);
    proof {
        lemma_elems_view_len(kids@);
    }
    let mut k: usize = 0;
    while k < kids.len()
        invariant
            kv == elems_view(kids@),
            kv.len() == kids@.len(),
            k <= kids@.len(),
            first_child_from(kv, name@, 0) == first_child_from(kv, name@, k as int),
        decreases kids@.len() - k,
    {
        proof {
            lemma_elems_view_index(kids@, k as int);
        }
        if crate::text::str_eq(kids[k].name.as_str(), name) {
            return Option::Some(k);
        }
        k = k + 1;
    }
    Option::None
}

fn attr_first_exec(attrs: &Vec<(String, String)>, key: &str) -> (r: Option<String>)
    ensures
        match r {
            Option::Some(v) => attr_first_from(crate::xml_events::attrs_view(attrs@), key@, 0)
                == Option::Some(v@),
            Option::None => attr_first_from(crate::xml_events::attrs_view(attrs@), key@, 0)
                is None,
        },
{
    let ghost av = crate::xml_events::attrs_view(attrs@);
    let mut k: usize = 0;
    while k < attrs.len()
        invariant
            av == crate::xml_events::attrs_view(attrs@),
            k <= attrs@.len(),
            attr_first_from(av, key@, 0) == attr_first_from(av, key@, k as int),
        decreases attrs@.len() - k,
    {
        proof {
            assert(av[k as int] == (attrs@[k as int].0@, attrs@[k as int].1@));
        }
        if crate::text::str_eq(attrs[k].0.as_str(), key) {
            return Option::Some(attrs[k].1.clone());
        }
        k = k + 1;
    }
    Option::None
}

fn has_attr_exec(attrs: &Vec<(String, String)>, key: &str) -> (r: bool)
    ensures
        r == has_attr(crate::xml_events::attrs_view(attrs@), key@),
{
    let ghost av = crate::xml_events::attrs_view(attrs@);
    let mut k: usize = 0;
    while k < attrs.len()
        invariant
            av == crate::xml_events::attrs_view(attrs@),
            k <= attrs@.len(),
            forall|j: int| 0 <= j < k ==> av[j].0 != key@,
        decreases attrs@.len() - k,
    {
        proof {
            assert(av[k as int] == (attrs@[k as int].0@, attrs@[k as int].1@));
        }
        if crate::text::str_eq(attrs[k].0.as_str(), key) {
            return true;
        }
        k = k + 1;
    }
    proof {
        assert(av.len() == attrs@.len());
    }
    false
}

/// Run the per-section checks executably.
fn v_sections_exec(kids: &Vec<XmlElem>) -> (r: Result<(), ContextError>)
    ensures
        match r {
            Result::Ok(()) => v_sections(elems_view(kids@), 0) == Result::Ok::<
                (),
                SpecContextError,
            >(()),
            Result::Err(e) => v_sections(elems_view(kids@), 0) == Result::Err::<
                (),
                SpecContextError,
            >(e@),
        },
{
    let ghost kv = elems_view(kids@);
    proof {
        lemma_elems_view_len(kids@);
    }
    let mut k: usize = 0;
    while k < kids.len()
        invariant
            kv == elems_view(kids@),
            kv.len() == kids@.len(),
            k <= kids@.len(),
            v_sections(kv, 0) == v_sections(kv, k as int),
        decreases kids@.len() - k,
    {
        proof {
            lemma_elems_view_index(kids@, k as int);
        }
        if crate::text::str_eq(kids[k].name.as_str(), "section") {
            let id = match attr_first_exec(&kids[k].attrs, "id") {
                Option::Some(id) => id,
                Option::None => {
                    return Result::Err(
                        ContextError::SchemaValidationError(
                            String::from_str("Section must have 'id' attribute"),
                        ),
                    );
                },
            };
            let t = match attr_first_exec(&kids[k].attrs, "type") {
                Option::Some(t) => t,
                Option::None => {
                    return Result::Err(
                        ContextError::SchemaValidationError(
                            String::from_str("Section '").concat(id.as_str()).concat(
                                "' must have 'type' attribute",
                            ),
                        ),
                    );
                },
            };
            let valid = crate::text::str_eq(t.as_str(), "intent") || crate::text::str_eq(
                t.as_str(),
                "evaluation",
            ) || crate::text::str_eq(t.as_str(), "process") || crate::text::str_eq(
                t.as_str(),
                "alternatives",
            );
            if !valid {
                return Result::Err(
                    ContextError::SchemaValidationError(
                        String::from_str("Section '").concat(id.as_str()).concat(
                            "' has invalid type '",
                        ).concat(t.as_str()).concat(
                            "'. Allowed types: intent, evaluation, process, alternatives",
                        ),
                    ),
                );
            }
            let mut dup = false;
            let mut j: usize = 0;
            while j < k && !dup
                invariant
                    kv == elems_view(kids@),
                    kv.len() == kids@.len(),
                    j <= k <= kids@.len(),
                    id@ == attr_first_from(kv[k as int].attrs, "id"@, 0)->Some_0,
                    attr_first_from(kv[k as int].attrs, "id"@, 0) is Some,
                    !dup ==> forall|x: int|
                        0 <= x < j ==> !(kv[x].name == "section"@ && attr_first_from(
                            kv[x].attrs,
                            "id"@,
                            0,
                        ) == Option::Some(id@)),
                    dup ==> dup_id_before(kv, k as int, id@),
                decreases k - j + (if dup { 0int } else { 1int }),
            {
                proof {
                    lemma_elems_view_index(kids@, j as int);
                }
                if crate::text::str_eq(kids[j].name.as_str(), "section") {
                    match attr_first_exec(&kids[j].attrs, "id") {
                        Option::Some(other) => {
                            if crate::text::str_eq(other.as_str(), id.as_str()) {
                                dup = true;
                            } else {
                                j = j + 1;
                            }
                        },
                        Option::None => {
                            j = j + 1;
                        },
                    }
                } else {
                    j = j + 1;
                }
            }
            if dup {
                return Result::Err(
                    ContextError::SchemaValidationError(
                        String::from_str("Duplicate section ID '").concat(id.as_str()).concat(
                            "' found. Section IDs must be unique.",
                        ),
                    ),
                );
            }
            proof {
                assert(!dup_id_before(kv, k as int, id@));
            }
            if !has_child_exec(&kids[k].kids, "content") {
                return Result::Err(
                    ContextError::SchemaValidationError(
                        String::from_str("Section '").concat(id.as_str()).concat(
                            "' must have a 'content' element",
                        ),
                    ),
                );
            }
            if has_child_exec(&kids[k].kids, "section") {
                return Result::Err(
                    ContextError::SchemaValidationError(
                        String::from_str("Section '").concat(id.as_str()).concat(
                            "' contains nested sections. Section nesting is not allowed - all sections must be direct children of <sections>.",
                        ),
                    ),
                );
            }
        }
        k = k + 1;
    }
    Result::Ok(())
}

/// Run the metadata checks executably.
fn v_meta_exec(meta: &XmlElem) -> (r: Result<(), ContextError>)
    ensures
        match r {
            Result::Ok(()) => v_meta(elem_view(*meta)) == Result::Ok::<(), SpecContextError>(()),
            Result::Err(e) => v_meta(elem_view(*meta)) == Result::Err::<(), SpecContextError>(e@),
        },
{
    if !has_child_exec(&meta.kids, "title") {
        return Result::Err(
            ContextError::SchemaValidationError(
                String::from_str("Required meta element 'title' is missing"),
            ),
        );
    }
    if !has_child_exec(&meta.kids, "author") {
        return Result::Err(
            ContextError::SchemaValidationError(
                String::from_str("Required meta element 'author' is missing"),
            ),
        );
    }
    if !has_child_exec(&meta.kids, "created") {
        return Result::Err(
            ContextError::SchemaValidationError(
                String::from_str("Required meta element 'created' is missing"),
            ),
        );
    }
    if !has_child_exec(&meta.kids, "app") {
        return Result::Err(
            ContextError::SchemaValidationError(
                String::from_str("Required meta element 'app' is missing"),
            ),
        );
    }
    if !has_child_exec(&meta.kids, "tags") {
        return Result::Err(
            ContextError::SchemaValidationError(
                String::from_str("Required meta element 'tags' is missing"),
            ),
        );
    }
    if !has_child_exec(&meta.kids, "description") {
        return Result::Err(
            ContextError::SchemaValidationError(
                String::from_str("Required meta element 'description' is missing"),
            ),
        );
    }
    match first_child_exec(&meta.kids, "app") {
        Option::None => Result::Ok(()),
        Option::Some(ai) => {
            proof {
                lemma_elems_view_index(meta.kids@, ai as int);
            }
            if !has_attr_exec(&meta.kids[ai].attrs, "name") {
                return Result::Err(
                    ContextError::SchemaValidationError(
                        String::from_str("App element must have 'name' attribute"),
                    ),
                );
            }
            if !has_attr_exec(&meta.kids[ai].attrs, "version") {
                return Result::Err(
                    ContextError::SchemaValidationError(
                        String::from_str("App element must have 'version' attribute"),
                    ),
                );
            }
            Result::Ok(())
        },
    }
}

/// Validate raw markup against the document schema: build a lightweight
/// tree — failure is reported as an `XML parsing failed` schema error —
/// then check the root element, the required blocks, the metadata children
/// and app attributes, and every section's id, type, uniqueness, content
/// and flatness, failing fast with the message naming the first violation.
/// The input is never mutated and nothing is returned on success.
pub fn validate_schema(xml_content: &str) -> (r: Result<(), ContextError>)
    ensures
        match r {
            Result::Ok(()) => spec_validate_schema(xml_content@) == Result::Ok::<
                (),
                SpecContextError,
            >(()),
            Result::Err(e) => spec_validate_schema(xml_content@) == Result::Err::<
                (),
                SpecContextError,
            >(e@),
        },
{
    let evs = match crate::xml_events::lex_document(xml_content) {
        Result::Ok(evs) => evs,
        Result::Err(e) => {
            let detail = match e {
                ContextError::InvalidXml(m) => m,
                _ => String::new(),
            };
            return Result::Err(
                ContextError::SchemaValidationError(
                    String::from_str("XML parsing failed: ").concat(detail.as_str()),
                ),
            );
        },
    };
    let root = match crate::xml_tree::build_root(&evs) {
        Result::Ok(root) => root,
        Result::Err(m) => {
            return Result::Err(
                ContextError::SchemaValidationError(
                    String::from_str("XML parsing failed: ").concat(m.as_str()),
                ),
            );
        },
    };
    if !crate::text::str_eq(root.name.as_str(), "context") {
        return Result::Err(
            ContextError::SchemaValidationError(
                String::from_str("Root element must be 'context'"),
            ),
        );
    }
    if !has_child_exec(&root.kids, "meta") {
        return Result::Err(
            ContextError::SchemaValidationError(
                String::from_str("Required element 'meta' is missing"),
            ),
        );
    }
    if !has_child_exec(&root.kids, "variables") {
        return Result::Err(
            ContextError::SchemaValidationError(
                String::from_str("Required element 'variables' is missing"),
            ),
        );
    }
    if !has_child_exec(&root.kids, "sections") {
        return Result::Err(
            ContextError::SchemaValidationError(
                String::from_str("Required element 'sections' is missing"),
            ),
        );
    }
    match first_child_exec(&root.kids, "meta") {
        Option::None => {},
        Option::Some(mi) => {
            proof {
                lemma_elems_view_index(root.kids@, mi as int);
            }
            match v_meta_exec(&root.kids[mi]) {
                Result::Ok(()) => {},
                Result::Err(e) => {
                    return Result::Err(e);
                },
            }
        },
    }
    match first_child_exec(&root.kids, "sections") {
        Option::None => Result::Ok(()),
        Option::Some(si) => {
            proof {
                lemma_elems_view_index(root.kids@, si as int);
            }
            v_sections_exec(&root.kids[si].kids)
        },
    }
}

} // verus!

verus! {

// ---------------------------------------------------------------------------
// Law of acceptance.
// ---------------------------------------------------------------------------

/// A section child satisfying every per-section rule, its uniqueness
/// considered separately.
pub open spec fn section_child_ok(e: SpecXmlElem) -> bool {
    &&& attr_first_from(e.attrs, "id"@, 0) is Some
    &&& attr_first_from(e.attrs, "type"@, 0) is Some
    &&& is_valid_section_type(attr_first_from(e.attrs, "type"@, 0)->Some_0)
    &&& has_elem_child(e.kids, "content"@)
    &&& !has_elem_child(e.kids, "section"@)
}

proof fn lemma_v_sections_accepts(kids: Seq<SpecXmlElem>, k: int)
    requires
        0 <= k <= kids.len(),
        forall|x: int|
            0 <= x < kids.len() && kids[x].name == "section"@ ==> #[trigger] section_child_ok(
                kids[x],
            ),
        forall|x: int, y: int|
            0 <= x < y < kids.len() && kids[x].name == "section"@ && kids[y].name == "section"@
                ==> attr_first_from(kids[x].attrs, "id"@, 0) != attr_first_from(
                kids[y].attrs,
                "id"@,
                0,
            ),
    ensures
        v_sections(kids, k) == Result::Ok::<(), SpecContextError>(()),
    decreases kids.len() - k,
{
    if k < kids.len() {
        if kids[k].name == "section"@ {
            assert(section_child_ok(kids[k]));
            assert(!dup_id_before(kids, k, attr_first_from(kids[k].attrs, "id"@, 0)->Some_0));
        }
        lemma_v_sections_accepts(kids, k + 1);
    }
}

/// Any well-formed document tree is accepted: the root is the context
/// element holding the three required blocks, its first metadata block
/// holds the six required children and its first app child both required
/// attributes, and every section child of the first sections block carries
/// an id and a valid type, has content, nests nothing, and shares its id
/// with no other section.  Each rule violated instead fails with the
/// message naming it, as `v_root` states case by case.
pub proof fn lemma_validate_accepts_well_formed(root: SpecXmlElem)
    requires
        root.name == "context"@,
        has_elem_child(root.kids, "meta"@),
        has_elem_child(root.kids, "variables"@),
        has_elem_child(root.kids, "sections"@),
        forall|mi: int|
            first_child_from(root.kids, "meta"@, 0) == Option::Some(mi) ==> v_meta(
                #[trigger] root.kids[mi],
            ) == Result::Ok::<(), SpecContextError>(()),
        forall|si: int|
            first_child_from(root.kids, "sections"@, 0) == Option::Some(si) ==> {
                &&& (forall|x: int|
                    0 <= x < root.kids[si].kids.len() && (#[trigger] root.kids[si].kids[x]).name
                        == "section"@ ==> section_child_ok(root.kids[si].kids[x]))
                &&& (forall|x: int, y: int|
                    0 <= x < y < root.kids[si].kids.len() && root.kids[si].kids[x].name
                        == "section"@ && root.kids[si].kids[y].name == "section"@
                        ==> attr_first_from(#[trigger] root.kids[si].kids[x].attrs, "id"@, 0)
                        != attr_first_from(#[trigger] root.kids[si].kids[y].attrs, "id"@, 0))
            },
    ensures
        v_root(root) == Result::Ok::<(), SpecContextError>(()),
{
    match first_child_from(root.kids, "meta"@, 0) {
        Option::None => {},
        Option::Some(mi) => {
            assert(v_meta(root.kids[mi]) == Result::Ok::<(), SpecContextError>(()));
        },
    }
    match first_child_from(root.kids, "sections"@, 0) {
        Option::None => {},
        Option::Some(si) => {
            lemma_v_sections_accepts(root.kids[si].kids, 0);
        },
    }
}

} // verus!
