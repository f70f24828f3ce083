use vstd::prelude::*;

use crate::xml_events::SpecXmlEvent;
use crate::xml_events::XmlEvent;
use crate::xml_events::attrs_view;
use crate::xml_parser::advance;

verus! {

// ---------------------------------------------------------------------------
// A lightweight element tree for structural validation: element names,
// attributes and child elements only.  Unlike the permissive document
// reader, the tree builder demands well-formed markup: every start tag must
// meet its matching end tag, and exactly one root element may exist.
// ---------------------------------------------------------------------------

pub struct XmlElem {
    pub name: String,
    pub attrs: Vec<(String, String)>,
    pub kids: Vec<XmlElem>,
}

pub struct SpecXmlElem {
    pub name: Seq<char>,
    pub attrs: Seq<(Seq<char>, Seq<char>)>,
    pub kids: Seq<SpecXmlElem>,
}

pub open spec fn elem_view(e: XmlElem) -> SpecXmlElem
    decreases e,
{
    SpecXmlElem { name: e.name@, attrs: attrs_view(e.attrs@), kids: elems_view(e.kids@) }
}

pub open spec fn elems_view(es: Seq<XmlElem>) -> Seq<SpecXmlElem>
    decreases es,
{
    if es.len() == 0 {
        Seq::empty()
    } else {
        seq![elem_view(es[0])] + elems_view(es.skip(1))
    }
}

pub proof fn lemma_elems_view_push(es: Seq<XmlElem>, x: XmlElem)
    ensures
        elems_view(es.push(x)) == elems_view(es).push(elem_view(x)),
    decreases es.len(),
{
    let p = es.push(x);
    if es.len() == 0 {
        assert(p[0] == x);
        assert(p.skip(1) =~= Seq::<XmlElem>::empty());
        assert(elems_view(p.skip(1)) == Seq::<SpecXmlElem>::empty());
        assert(elems_view(p) =~= elems_view(es).push(elem_view(x)));
    } else {
        lemma_elems_view_push(es.skip(1), x);
        assert(p.skip(1) =~= es.skip(1).push(x));
        assert(p[0] == es[0]);
        assert(elems_view(p) == seq![elem_view(es[0])] + elems_view(es.skip(1)).push(elem_view(x)));
        assert(elems_view(es) == seq![elem_view(es[0])] + elems_view(es.skip(1)));
        assert(elems_view(p) =~= elems_view(es).push(elem_view(x)));
    }
}

/// One element whose start tag is already consumed: gather child elements
/// until the matching end tag; a mismatched end tag or the end of input is
/// an error.  Text and character data inside the element are ignored: the
/// validator never inspects them.
pub open spec fn t_elem_loop(
    evs: Seq<SpecXmlEvent>,
    i: int,
    name: Seq<char>,
    attrs: Seq<(Seq<char>, Seq<char>)>,
    kids: Seq<SpecXmlElem>,
) -> Result<(SpecXmlElem, int), Seq<char>>
    decreases evs.len() - i, 0nat,
{
    if !(0 <= i < evs.len()) {
        Result::Err("unexpected end of input inside an element"@)
    } else {
        match evs[i] {
            SpecXmlEvent::Start(n2, a2) => match t_elem(evs, i + 1, n2, a2) {
                Result::Err(m) => Result::Err(m),
                Result::Ok((kid, j)) => t_elem_loop(
                    evs,
                    advance(i, j, evs.len() as int),
                    name,
                    attrs,
                    kids.push(kid),
                ),
            },
            SpecXmlEvent::Empty(n2, a2) => t_elem_loop(
                evs,
                i + 1,
                name,
                attrs,
                kids.push(SpecXmlElem { name: n2, attrs: a2, kids: Seq::empty() }),
            ),
            SpecXmlEvent::End(n2) => if n2 == name {
                Result::Ok((SpecXmlElem { name, attrs, kids }, i + 1))
            } else {
                Result::Err("mismatched end tag"@)
            },
            _ => t_elem_loop(evs, i + 1, name, attrs, kids),
        }
    }
}

pub open spec fn t_elem(
    evs: Seq<SpecXmlEvent>,
    i: int,
    name: Seq<char>,
    attrs: Seq<(Seq<char>, Seq<char>)>,
) -> Result<(SpecXmlElem, int), Seq<char>>
    decreases evs.len() - i, 1nat,
{
    t_elem_loop(evs, i, name, attrs, Seq::empty())
}

/// The root element of the event stream: the stream must open with a start
/// or self-closing tag and hold nothing else after the root closes.
pub open spec fn t_root(evs: Seq<SpecXmlEvent>) -> Result<SpecXmlElem, Seq<char>> {
    if evs.len() == 0 {
        Result::Err("no root element"@)
    } else {
        match evs[0] {
            SpecXmlEvent::Start(n, a) => match t_elem(evs, 1, n, a) {
                Result::Err(m) => Result::Err(m),
                Result::Ok((root, j)) => if j == evs.len() {
                    Result::Ok(root)
                } else {
                    Result::Err("content after the root element"@)
                },
            },
            SpecXmlEvent::Empty(n, a) => if evs.len() == 1 {
                Result::Ok(SpecXmlElem { name: n, attrs: a, kids: Seq::empty() })
            } else {
                Result::Err("content after the root element"@)
            },
            _ => Result::Err("no root element"@),
        }
    }
}

/// Copy an attribute list, preserving its view.
fn clone_attrs(a: &Vec<(String, String)>) -> (r: Vec<(String, String)>)
    ensures
        attrs_view(r@) == attrs_view(a@),
{
    let mut r: Vec<(String, String)> = Vec::new();
    let mut i: usize = 0;
    while i < a.len()
        invariant
            i <= a@.len(),
            r@.len() == i,
            forall|k: int| 0 <= k < i ==> r@[k].0@ == a@[k].0@ && r@[k].1@ == a@[k].1@,
        decreases a@.len() - i,
    {
        r.push((a[i].0.clone(), a[i].1.clone()));
        i = i + 1;
    }
    proof {
        assert(attrs_view(r@) =~= attrs_view(a@));
    }
    r
}

/// Build one element executably, its start tag already consumed.
fn build_elem(evs: &Vec<XmlEvent>, i: usize, name: String, attrs: Vec<(String, String)>) -> (r:
    Result<(XmlElem, usize), String>)
    requires
        i <= evs@.len(),
    ensures
        match r {
            Result::Ok((el, j)) => t_elem(evs.deep_view(), i as int, name@, attrs_view(attrs@))
                == Result::Ok::<(SpecXmlElem, int), Seq<char>>((elem_view(el), j as int)) && i < j
                <= evs@.len(),
            Result::Err(m) => t_elem(evs.deep_view(), i as int, name@, attrs_view(attrs@))
                == Result::Err::<(SpecXmlElem, int), Seq<char>>(m@),
        },
    decreases evs@.len() - i,
{
    let ghost dv = evs.deep_view();
    let ghost name0 = name@;
    let ghost attrs0 = attrs_view(attrs@);
    let mut kids: Vec<XmlElem> = Vec::new();
    let mut cur: usize = i;
    while cur < evs.len()
        invariant
            dv == evs.deep_view(),
            name@ == name0,
            attrs_view(attrs@) == attrs0,
            i <= cur <= evs@.len(),
            t_elem(dv, i as int, name0, attrs0) == t_elem_loop(
                dv,
                cur as int,
                name0,
                attrs0,
                elems_view(kids@),
            ),
        decreases evs@.len() - cur,
    {
        proof {
            assert(dv[cur as int] == evs@[cur as int]@);
        }
        match &evs[cur] {
            XmlEvent::Start(n2, a2) => {
                match build_elem(evs, cur + 1, n2.clone(), clone_attrs(a2)) {
                    Result::Err(m) => {
                        return Result::Err(m);
                    },
                    Result::Ok((kid, j)) => {
                        proof {
                            lemma_elems_view_push(kids@, kid);
                        }
                        kids.push(kid);
                        cur = j;
                    },
                }
            },
            XmlEvent::Empty(n2, a2) => {
                let leaf = XmlElem { name: n2.clone(), attrs: clone_attrs(a2), kids: Vec::new() };
                proof {
                    lemma_elems_view_push(kids@, leaf);
                    assert(elem_view(leaf).kids =~= Seq::<SpecXmlElem>::empty());
                }
                kids.push(leaf);
                cur = cur + 1;
            },
            XmlEvent::End(n2) => {
                if crate::text::str_eq(n2.as_str(), name.as_str()) {
                    let el = XmlElem { name, attrs, kids };
                    return Result::Ok((el, cur + 1));
                }
                return Result::Err(String::from_str("mismatched end tag"));
            },
            _ => {
                cur = cur + 1;
            },
        }
    }
    Result::Err(String::from_str("unexpected end of input inside an element"))
}

/// Build the root element of an event stream executably.
pub fn build_root(evs: &Vec<XmlEvent>) -> (r: Result<XmlElem, String>)
    ensures
        match r {
            Result::Ok(el) => t_root(evs.deep_view()) == Result::Ok::<SpecXmlElem, Seq<char>>(
                elem_view(el),
            ),
            Result::Err(m) => t_root(evs.deep_view()) == Result::Err::<SpecXmlElem, Seq<char>>(m@),
        },
{
    let ghost dv = evs.deep_view();
    if evs.len() == 0 {
        return Result::Err(String::from_str("no root element"));
    }
    proof {
        assert(dv[0] == evs@[0]@);
    }
    match &evs[0] {
        XmlEvent::Start(n, a) => {
            match build_elem(evs, 1, n.clone(), clone_attrs(a)) {
                Result::Err(m) => Result::Err(m),
                Result::Ok((root, j)) => {
                    if j == evs.len() {
                        Result::Ok(root)
                    } else {
                        Result::Err(String::from_str("content after the root element"))
                    }
                },
            }
        },
        XmlEvent::Empty(n, a) => {
            if evs.len() == 1 {
                let el = XmlElem { name: n.clone(), attrs: clone_attrs(a), kids: Vec::new() };
                proof {
                    assert(elem_view(el).kids =~= Seq::<SpecXmlElem>::empty());
                }
                Result::Ok(el)
            } else {
                Result::Err(String::from_str("content after the root element"))
            }
        },
        _ => Result::Err(String::from_str("no root element")),
    }
}

} // verus!
