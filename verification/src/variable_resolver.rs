use vstd::prelude::*;

use crate::models::Section;
use crate::models::SpecSection;
use crate::models::SpecVariable;
use crate::models::Variable;
use crate::models::section_view;
use crate::models::sections_view;
use crate::text::is_alpha;
use crate::text::is_word_char;

verus! {

// ---------------------------------------------------------------------------
// Template-variable substitution: a name-to-value mapping built from the
// document's variables (later entries overwrite earlier ones), and the
// replacement of every `${identifier}` placeholder whose name the mapping
// holds.  Resolution never fails: an unknown placeholder stays verbatim.
// ---------------------------------------------------------------------------

/// The mapping denoted by a list of variables: later entries win.
pub open spec fn vars_map(vars: Seq<SpecVariable>) -> Map<Seq<char>, Seq<char>>
    decreases vars.len(),
{
    if vars.len() == 0 {
        Map::empty()
    } else {
        vars_map(vars.drop_last()).insert(vars.last().name, vars.last().value)
    }
}

/// A name-to-value mapping with one entry per distinct name.
pub struct VarMap {
    pub entries: Vec<Variable>,
}

impl View for VarMap {
    type V = Map<Seq<char>, Seq<char>>;

    open spec fn view(&self) -> Map<Seq<char>, Seq<char>> {
        vars_map(self.entries.deep_view())
    }
}

/// Names are pairwise distinct, so the entry list is in bijection with the
/// mapping it denotes.
pub open spec fn var_map_wf(m: VarMap) -> bool {
    forall|i: int, j: int|
        0 <= i < j < m.entries@.len() ==> m.entries@[i].name@ != m.entries@[j].name@
}

proof fn lemma_vars_map_last(vars: Seq<SpecVariable>, name: Seq<char>, j: int)
    requires
        0 <= j < vars.len(),
        vars[j].name == name,
        forall|k: int| j < k < vars.len() ==> vars[k].name != name,
    ensures
        vars_map(vars).contains_key(name),
        vars_map(vars)[name] == vars[j].value,
    decreases vars.len(),
{
    if j == vars.len() - 1 {
    } else {
        lemma_vars_map_last(vars.drop_last(), name, j);
    }
}

proof fn lemma_vars_map_absent(vars: Seq<SpecVariable>, name: Seq<char>)
    requires
        forall|k: int| 0 <= k < vars.len() ==> vars[k].name != name,
    ensures
        !vars_map(vars).contains_key(name),
    decreases vars.len(),
{
    if vars.len() > 0 {
        lemma_vars_map_absent(vars.drop_last(), name);
    }
}

proof fn lemma_vars_map_dom(vars: Seq<SpecVariable>)
    ensures
        vars_map(vars).dom().finite(),
        forall|n: Seq<char>|
            vars_map(vars).contains_key(n) <==> exists|k: int|
                0 <= k < vars.len() && vars[k].name == n,
    decreases vars.len(),
{
    if vars.len() > 0 {
        lemma_vars_map_dom(vars.drop_last());
        assert forall|n: Seq<char>| vars_map(vars).contains_key(n) implies exists|k: int|
            0 <= k < vars.len() && vars[k].name == n by {
            if n == vars.last().name {
                assert(vars[vars.len() - 1].name == n);
            } else {
                let k = choose|k: int| 0 <= k < vars.len() - 1 && vars.drop_last()[k].name == n;
                assert(vars[k].name == n);
            }
        }
        assert forall|n: Seq<char>|
            exists|k: int| 0 <= k < vars.len() && vars[k].name == n implies vars_map(
            vars,
        ).contains_key(n) by {
            let k = choose|k: int| 0 <= k < vars.len() && vars[k].name == n;
            if k < vars.len() - 1 {
                assert(vars.drop_last()[k].name == n);
            }
        }
    }
}

proof fn lemma_vars_map_len(vars: Seq<SpecVariable>)
    requires
        forall|i: int, j: int| 0 <= i < j < vars.len() ==> vars[i].name != vars[j].name,
    ensures
        vars_map(vars).dom().finite(),
        vars_map(vars).dom().len() == vars.len(),
    decreases vars.len(),
{
    lemma_vars_map_dom(vars);
    if vars.len() > 0 {
        let prior = vars.drop_last();
        lemma_vars_map_len(prior);
        lemma_vars_map_dom(prior);
        assert(forall|k: int| 0 <= k < prior.len() ==> prior[k].name != vars.last().name);
        lemma_vars_map_absent(prior, vars.last().name);
        assert(vars_map(vars).dom() =~= vars_map(prior).dom().insert(vars.last().name));
    }
}

impl VarMap {
    /// The value bound to `name`, if any; the entry latest in the underlying
    /// list decides.
    pub fn get(&self, name: &str) -> (r: Option<&String>)
        ensures
            match r {
                Option::Some(v) => self@.contains_key(name@) && v@ == self@[name@],
                Option::None => !self@.contains_key(name@),
            },
    {
        let n = crate::text::str_to_chars(name);
        let mut i: usize = self.entries.len();
        while i > 0
            invariant
                i <= self.entries@.len(),
                n@ == name@,
                forall|k: int| i <= k < self.entries@.len() ==> self.entries@[k].name@ != name@,
            decreases i,
        {
            i = i - 1;
            if crate::text::eq_str(&n, self.entries[i].name.as_str()) {
                proof {
                    assert(self.entries.deep_view()[i as int].name == name@);
                    lemma_vars_map_last(self.entries.deep_view(), name@, i as int);
                }
                return Option::Some(&self.entries[i].value);
            }
        }
        proof {
            lemma_vars_map_absent(self.entries.deep_view(), name@);
        }
        Option::None
    }

    /// How many distinct names the mapping holds.
    pub fn len(&self) -> (r: usize)
        requires
            var_map_wf(*self),
        ensures
            r == self@.dom().len(),
    {
        proof {
            lemma_vars_map_len(self.entries.deep_view());
        }
        self.entries.len()
    }
}

/// Reduce a variable list to its mapping, later duplicates overwriting
/// earlier entries.
pub fn build_variable_map(variables: &Vec<Variable>) -> (r: VarMap)
    ensures
        r@ == vars_map(variables.deep_view()),
        var_map_wf(r),
{
    let mut out: Vec<Variable> = Vec::new();
    let mut i: usize = 0;
    while i < variables.len()
        invariant
            i <= variables@.len(),
            vars_map(out.deep_view()) == vars_map(variables.deep_view().take(i as int)),
            forall|a: int, b: int| 0 <= a < b < out@.len() ==> out@[a].name@ != out@[b].name@,
        decreases variables@.len() - i,
    {
        let ghost prefix = variables.deep_view().take(i as int);
        let name_chars = crate::text::str_to_chars(variables[i].name.as_str());
        let mut j: usize = 0;
        let mut found = false;
        while j < out.len() && !found
            invariant
                i < variables@.len(),
                j <= out@.len(),
                name_chars@ == variables.deep_view()[i as int].name,
                !found ==> forall|k: int| 0 <= k < j ==> out@[k].name@ != name_chars@,
                found ==> j < out@.len() && out@[j as int].name@ == name_chars@,
            decreases out@.len() - j + (if found { 0int } else { 1int }),
        {
            if crate::text::eq_str(&name_chars, out[j].name.as_str()) {
                found = true;
            } else {
                j = j + 1;
            }
        }
        let entry = Variable {
            name: variables[i].name.clone(),
            value: variables[i].value.clone(),
        };
        if found {
            let ghost old_out = out.deep_view();
            out.set(j, entry);
            proof {
                lemma_vars_map_replace(old_out, j as int, out.deep_view()[j as int]);
                assert(out.deep_view() =~= old_out.update(
                    j as int,
                    out.deep_view()[j as int],
                ));
                assert(vars_map(out.deep_view()) =~= vars_map(prefix).insert(
                    variables.deep_view()[i as int].name,
                    variables.deep_view()[i as int].value,
                ));
            }
        } else {
            let ghost old_out = out.deep_view();
            out.push(entry);
            proof {
                assert(out.deep_view().drop_last() =~= old_out);
                assert(vars_map(out.deep_view()) =~= vars_map(prefix).insert(
                    variables.deep_view()[i as int].name,
                    variables.deep_view()[i as int].value,
                ));
            }
        }
        i = i + 1;
        proof {
            assert(variables.deep_view().take(i as int).drop_last() =~= prefix);
            assert(variables.deep_view().take(i as int).last() == variables.deep_view()[i - 1]);
        }
    }
    proof {
        assert(variables.deep_view().take(variables@.len() as int) =~= variables.deep_view());
    }
    VarMap { entries: out }
}

/// Replacing the unique entry holding a name with a new value denotes the
/// same mapping as inserting that binding.
proof fn lemma_vars_map_replace(vars: Seq<SpecVariable>, j: int, v: SpecVariable)
    requires
        0 <= j < vars.len(),
        vars[j].name == v.name,
        forall|a: int, b: int| 0 <= a < b < vars.len() ==> vars[a].name != vars[b].name,
    ensures
        vars_map(vars.update(j, v)) =~= vars_map(vars).insert(v.name, v.value),
    decreases vars.len(),
{
    let updated = vars.update(j, v);
    if j == vars.len() - 1 {
        assert(updated.drop_last() =~= vars.drop_last());
    } else {
        lemma_vars_map_replace(vars.drop_last(), j, v);
        assert(updated.drop_last() =~= vars.drop_last().update(j, v));
        assert(updated.last() == vars.last());
        assert(vars.last().name != v.name);
        assert(vars_map(updated) =~= vars_map(vars).insert(v.name, v.value));
    }
}

// ---------------------------------------------------------------------------
// Placeholder scanning and substitution.
// ---------------------------------------------------------------------------

/// First position at or after `i` whose character is not a word character.
pub open spec fn word_run_end(s: Seq<char>, i: int) -> int
    decreases s.len() - i,
{
    if 0 <= i < s.len() && is_word_char(s[i]) {
        word_run_end(s, i + 1)
    } else {
        i
    }
}

/// A placeholder `${name}` starting exactly at `i`: dollar, brace, a name
/// beginning with a letter or underscore, and the closing brace.  Yields the
/// name and the position just past the closing brace.
pub open spec fn placeholder_at(s: Seq<char>, i: int) -> Option<(Seq<char>, int)> {
    if 0 <= i && i + 3 <= s.len() && s[i] == '$' && s[i + 1] == '{' && (is_alpha(s[i + 2]) || s[i
        + 2] == '_') {
        let e = word_run_end(s, i + 3);
        if e < s.len() && s[e] == '}' {
            Option::Some((s.subrange(i + 2, e), e + 1))
        } else {
            Option::None
        }
    } else {
        Option::None
    }
}

/// The text from position `i` on with every placeholder whose name the
/// mapping holds replaced by its value; everything else is copied verbatim.
pub open spec fn spec_resolve_from(s: Seq<char>, i: int, m: Map<Seq<char>, Seq<char>>) -> Seq<char>
    decreases s.len() - i,
{
    if !(0 <= i < s.len()) {
        Seq::empty()
    } else {
        match placeholder_at(s, i) {
            Option::Some((name, end)) => if i < end <= s.len() {
                (if m.contains_key(name) {
                    m[name]
                } else {
                    s.subrange(i, end)
                }) + spec_resolve_from(s, end, m)
            } else {
                seq![s[i]] + spec_resolve_from(s, i + 1, m)
            },
            Option::None => seq![s[i]] + spec_resolve_from(s, i + 1, m),
        }
    }
}

pub open spec fn spec_resolve(s: Seq<char>, m: Map<Seq<char>, Seq<char>>) -> Seq<char> {
    spec_resolve_from(s, 0, m)
}

pub proof fn lemma_word_run_end(s: Seq<char>, i: int, k: int)
    requires
        0 <= i <= k <= s.len(),
        forall|j: int| i <= j < k ==> is_word_char(s[j]),
        k < s.len() ==> !is_word_char(s[k]),
    ensures
        word_run_end(s, i) == k,
    decreases k - i,
{
    if i < k {
        lemma_word_run_end(s, i + 1, k);
    }
}

/// Decide `is_word_char` executably.
pub fn is_word_char_exec(c: char) -> (r: bool)
    ensures
        r == is_word_char(c),
{
    let u = c as u32;
    (65 <= u && u <= 90) || (97 <= u && u <= 122) || (48 <= u && u <= 57) || c == '_'
}

/// Scan for a placeholder at position `i`.
fn placeholder_at_exec(v: &Vec<char>, i: usize) -> (r: Option<(Vec<char>, usize)>)
    ensures
        match r {
            Option::Some((name, end)) => placeholder_at(v@, i as int) == Option::Some(
                (name@, end as int),
            ) && i < end <= v@.len(),
            Option::None => placeholder_at(v@, i as int) is None,
        },
{
    let n = v.len();
    if i >= n || n - i < 3 {
        return Option::None;
    }
    if !(v[i] == '$' && v[i + 1] == '{') {
        return Option::None;
    }
    let c2 = v[i + 2] as u32;
    if !((65 <= c2 && c2 <= 90) || (97 <= c2 && c2 <= 122) || v[i + 2] == '_') {
        return Option::None;
    }
    let mut e: usize = i + 3;
    while e < n && is_word_char_exec(v[e])
        invariant
            i + 3 <= e <= n,
            n == v@.len(),
            forall|j: int| i + 3 <= j < e ==> is_word_char(v@[j]),
        decreases n - e,
    {
        e = e + 1;
    }
    proof {
        lemma_word_run_end(v@, i + 3, e as int);
    }
    if e < n && v[e] == '}' {
        let name = crate::text::subvec(v, i + 2, e);
        Option::Some((name, e + 1))
    } else {
        Option::None
    }
}

/// Replace every `${identifier}` placeholder bound in the mapping; unknown
/// placeholders and all other text are kept verbatim.  Substitution never
/// fails.
pub fn resolve_variables(content: &str, variables: &VarMap) -> (r: String)
    ensures
        r@ == spec_resolve(content@, variables@),
{
    let v = crate::text::str_to_chars(content);
    let mut out: Vec<char> = Vec::new();
    let mut i: usize = 0;
    while i < v.len()
        invariant
            i <= v@.len(),
            v@ == content@,
            spec_resolve(content@, variables@) == out@ + spec_resolve_from(
                v@,
                i as int,
                variables@,
            ),
        decreases v@.len() - i,
    {
        let ghost pre = out@;
        match placeholder_at_exec(&v, i) {
            Option::Some((name, end)) => {
                match variables.get(crate::text::string_from_chars(&name).as_str()) {
                    Option::Some(value) => {
                        crate::text::push_str_chars(&mut out, value.as_str());
                        proof {
                            assert(out@ == pre + variables@[name@]);
                        }
                    },
                    Option::None => {
                        let piece = crate::text::subvec(&v, i, end);
                        crate::text::push_vec_chars(&mut out, &piece);
                    },
                }
                proof {
                    assert(out@ + spec_resolve_from(v@, end as int, variables@)
                        =~= pre + spec_resolve_from(v@, i as int, variables@));
                }
                i = end;
            },
            Option::None => {
                out.push(v[i]);
                proof {
                    assert(out@ =~= pre + seq![v@[i as int]]);
                    assert(out@ + spec_resolve_from(v@, i + 1, variables@) =~= pre
                        + spec_resolve_from(v@, i as int, variables@));
                }
                i = i + 1;
            },
        }
    }
    crate::text::string_from_chars(&out)
}

// ---------------------------------------------------------------------------
// Substitution over a section tree.
// ---------------------------------------------------------------------------

/// A section with its content resolved, its descendants likewise, and
/// everything else untouched.
pub open spec fn spec_resolve_section(s: SpecSection, m: Map<Seq<char>, Seq<char>>) -> SpecSection
    decreases s,
{
    SpecSection {
        id: s.id,
        section_type: s.section_type,
        content: spec_resolve(s.content, m),
        ref_target: s.ref_target,
        children: spec_resolve_sections(s.children, m),
    }
}

pub open spec fn spec_resolve_sections(ss: Seq<SpecSection>, m: Map<Seq<char>, Seq<char>>) -> Seq<
    SpecSection,
>
    decreases ss,
{
    if ss.len() == 0 {
        Seq::empty()
    } else {
        seq![spec_resolve_section(ss[0], m)] + spec_resolve_sections(ss.skip(1), m)
    }
}

pub proof fn lemma_sections_view_push(ss: Seq<Section>, x: Section)
    ensures
        sections_view(ss.push(x)) == sections_view(ss).push(section_view(x)),
    decreases ss.len(),
{
    let p = ss.push(x);
    if ss.len() == 0 {
        assert(p[0] == x);
        assert(p.skip(1) =~= Seq::<Section>::empty());
        assert(sections_view(p.skip(1)) == Seq::<SpecSection>::empty());
        assert(sections_view(p) == seq![section_view(x)] + Seq::<SpecSection>::empty());
        assert(sections_view(p) =~= sections_view(ss).push(section_view(x)));
    } else {
        lemma_sections_view_push(ss.skip(1), x);
        assert(p.skip(1) =~= ss.skip(1).push(x));
        assert(p[0] == ss[0]);
        assert(sections_view(p) == seq![section_view(ss[0])] + sections_view(ss.skip(1)).push(
            section_view(x),
        ));
        assert(sections_view(ss) == seq![section_view(ss[0])] + sections_view(ss.skip(1)));
        assert(sections_view(p) =~= sections_view(ss).push(section_view(x)));
    }
}

pub proof fn lemma_resolve_sections_push(
    ss: Seq<SpecSection>,
    x: SpecSection,
    m: Map<Seq<char>, Seq<char>>,
)
    ensures
        spec_resolve_sections(ss.push(x), m) == spec_resolve_sections(ss, m).push(
            spec_resolve_section(x, m),
        ),
    decreases ss.len(),
{
    let p = ss.push(x);
    if ss.len() == 0 {
        assert(p[0] == x);
        assert(p.skip(1) =~= Seq::<SpecSection>::empty());
        assert(spec_resolve_sections(p.skip(1), m) == Seq::<SpecSection>::empty());
        assert(spec_resolve_sections(p, m) == seq![spec_resolve_section(x, m)] + Seq::<
            SpecSection,
        >::empty());
        assert(spec_resolve_sections(p, m) =~= spec_resolve_sections(ss, m).push(
            spec_resolve_section(x, m),
        ));
    } else {
        lemma_resolve_sections_push(ss.skip(1), x, m);
        assert(p.skip(1) =~= ss.skip(1).push(x));
        assert(p[0] == ss[0]);
        assert(spec_resolve_sections(p, m) == seq![spec_resolve_section(ss[0], m)]
            + spec_resolve_sections(ss.skip(1), m).push(spec_resolve_section(x, m)));
        assert(spec_resolve_sections(ss, m) == seq![spec_resolve_section(ss[0], m)]
            + spec_resolve_sections(ss.skip(1), m));
        assert(spec_resolve_sections(p, m) =~= spec_resolve_sections(ss, m).push(
            spec_resolve_section(x, m),
        ));
    }
}

fn resolve_section(s: &Section, var_map: &VarMap) -> (r: Section)
    ensures
        section_view(r) == spec_resolve_section(section_view(*s), var_map@),
    decreases *s,
{
    let content = resolve_variables(s.content.as_str(), var_map);
    let mut children: Vec<Section> = Vec::new();
    let mut i: usize = 0;
    while i < s.children.len()
        invariant
            i <= s.children@.len(),
            sections_view(children@) == spec_resolve_sections(
                sections_view(s.children@.take(i as int)),
                var_map@,
            ),
        decreases s.children@.len() - i,
    {
        let child = resolve_section(&s.children[i], var_map);
        proof {
            lemma_sections_view_push(s.children@.take(i as int), s.children@[i as int]);
            lemma_resolve_sections_push(
                sections_view(s.children@.take(i as int)),
                section_view(s.children@[i as int]),
                var_map@,
            );
            assert(s.children@.take(i + 1) =~= s.children@.take(i as int).push(
                s.children@[i as int],
            ));
            lemma_sections_view_push(children@, child);
        }
        children.push(child);
        i = i + 1;
    }
    proof {
        assert(s.children@.take(s.children@.len() as int) =~= s.children@);
    }
    Section {
        id: s.id.clone(),
        section_type: s.section_type.clone(),
        content,
        ref_target: match &s.ref_target {
            Option::Some(t) => Option::Some(t.clone()),
            Option::None => Option::None,
        },
        children,
    }
}

/// Apply substitution to the content of every section of the forest, all
/// descendants included; ids, types, reference targets and the tree shape
/// are untouched.
pub fn resolve_section_tree(sections: &mut Vec<Section>, var_map: &VarMap)
    ensures
        sections_view(final(sections)@) == spec_resolve_sections(
            sections_view(old(sections)@),
            var_map@,
        ),
{
    let mut out: Vec<Section> = Vec::new();
    let mut i: usize = 0;
    while i < sections.len()
        invariant
            i <= sections@.len(),
            sections@ == old(sections)@,
            sections_view(out@) == spec_resolve_sections(
                sections_view(sections@.take(i as int)),
                var_map@,
            ),
        decreases sections@.len() - i,
    {
        let r = resolve_section(&sections[i], var_map);
        proof {
            lemma_sections_view_push(sections@.take(i as int), sections@[i as int]);
            lemma_resolve_sections_push(
                sections_view(sections@.take(i as int)),
                section_view(sections@[i as int]),
                var_map@,
            );
            assert(sections@.take(i + 1) =~= sections@.take(i as int).push(sections@[i as int]));
            lemma_sections_view_push(out@, r);
        }
        out.push(r);
        i = i + 1;
    }
    proof {
        assert(sections@.take(sections@.len() as int) =~= sections@);
    }
    *sections = out;
}

} // verus!

verus! {

// ---------------------------------------------------------------------------
// Laws of substitution.
// ---------------------------------------------------------------------------

/// No placeholder of `s` names a variable the mapping holds, so substitution
/// has nothing to do anywhere in `s`.
pub open spec fn no_resolvable_placeholder(s: Seq<char>, m: Map<Seq<char>, Seq<char>>) -> bool {
    forall|i: int|
        #[trigger] placeholder_at(s, i) matches Option::Some(p) ==> !m.contains_key(p.0)
}

pub proof fn lemma_word_run_end_bounds(s: Seq<char>, i: int)
    requires
        0 <= i <= s.len(),
    ensures
        i <= word_run_end(s, i) <= s.len(),
    decreases s.len() - i,
{
    if i < s.len() && is_word_char(s[i]) {
        lemma_word_run_end_bounds(s, i + 1);
    }
}

/// A placeholder found at `i` spans at least four characters and ends within
/// the text.
pub proof fn lemma_placeholder_at_bounds(s: Seq<char>, i: int)
    requires
        placeholder_at(s, i) is Some,
    ensures
        i + 4 <= placeholder_at(s, i)->Some_0.1 <= s.len(),
{
    lemma_word_run_end_bounds(s, i + 3);
}

proof fn lemma_resolve_from_fixed(s: Seq<char>, i: int, m: Map<Seq<char>, Seq<char>>)
    requires
        0 <= i <= s.len(),
        no_resolvable_placeholder(s, m),
    ensures
        spec_resolve_from(s, i, m) == s.skip(i),
    decreases s.len() - i,
{
    if i == s.len() {
        assert(spec_resolve_from(s, i, m) =~= s.skip(i));
    } else {
        match placeholder_at(s, i) {
            Option::Some((name, end)) => {
                lemma_placeholder_at_bounds(s, i);
                lemma_resolve_from_fixed(s, end, m);
                assert(!m.contains_key(name));
                assert(s.subrange(i, end) + s.skip(end) =~= s.skip(i));
            },
            Option::None => {
                lemma_resolve_from_fixed(s, i + 1, m);
                assert(seq![s[i]] + s.skip(i + 1) =~= s.skip(i));
            },
        }
    }
}

/// Text in which every placeholder names an absent variable is a fixed point
/// of resolution; in particular a placeholder for an absent name round-trips
/// unchanged.
pub proof fn lemma_resolve_fixed_point(s: Seq<char>, m: Map<Seq<char>, Seq<char>>)
    requires
        no_resolvable_placeholder(s, m),
    ensures
        spec_resolve(s, m) == s,
{
    lemma_resolve_from_fixed(s, 0, m);
    assert(s.skip(0) =~= s);
}

/// Resolution is idempotent once one pass leaves no resolvable placeholder
/// behind — as it does when every referenced name is bound and no value
/// introduces further placeholder syntax: a second application is a no-op.
pub proof fn lemma_resolve_idempotent(s: Seq<char>, m: Map<Seq<char>, Seq<char>>)
    requires
        no_resolvable_placeholder(spec_resolve(s, m), m),
    ensures
        spec_resolve(spec_resolve(s, m), m) == spec_resolve(s, m),
{
    lemma_resolve_fixed_point(spec_resolve(s, m), m);
}

} // verus!
