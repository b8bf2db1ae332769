//! Managing prompt templates: registering new versions, rendering the
//! current version, an older version or the active A/B variant, and
//! chaining templates so that each step can use the outputs of earlier
//! steps.
use vstd::prelude::*;
use std::sync::{Arc, RwLock};
use crate::text::{chars_of, string_of, chars_eq, decimal, decimal_chars, push_chars, push_str, is_prefix, slice_chars};
use crate::template_render::{lookup, lookup_exec, rendered, render_template, vars_view};
use crate::prompt_store::{
    PromptTemplate, TemplateVariable, TemplateView, VarType, VarView, clone_template, find_key, pairs_view, template_view,
    templates_of, texts_of,
};
use crate::circuit_breaker::{guard_mut, lock_write, shared_lock};

verus! {

/// Errors from rendering and variant selection.
#[derive(Debug, Clone, PartialEq, Eq)]
pub enum PromptError {
    /// No template has this id.
    TemplateNotFound(String),
    /// The template has no version with this number.
    VersionNotFound(String, u32),
    /// A required variable has neither a value nor a default.
    MissingVariable(String),
    /// The template has no variant with this name.
    VariantNotFound(String, String),
}

/// The message of an error.
pub open spec fn error_text(e: PromptError) -> Seq<char> {
    match e {
        PromptError::TemplateNotFound(id) => "template not found: "@ + id@,
        PromptError::VersionNotFound(id, v) => "version "@ + decimal(v as nat) + " not found for template "@ + id@,
        PromptError::MissingVariable(n) => "missing required variable: "@ + n@,
        PromptError::VariantNotFound(id, v) => "variant '"@ + v@ + "' not found on template "@ + id@,
    }
}

/// An error as plain values: its kind (0 to 3 in declaration order), its
/// first text, its second text and its version.
pub open spec fn error_view(e: PromptError) -> (int, Seq<char>, Seq<char>, u32) {
    match e {
        PromptError::TemplateNotFound(id) => (0, id@, Seq::empty(), 0),
        PromptError::VersionNotFound(id, v) => (1, id@, Seq::empty(), v),
        PromptError::MissingVariable(n) => (2, n@, Seq::empty(), 0),
        PromptError::VariantNotFound(id, v) => (3, id@, v@, 0),
    }
}

impl PromptError {
    /// The error's message (see [`error_text`]).
    pub fn to_string(&self) -> (r: String)
        ensures
            r@ == error_text(*self),
    {
        let mut v: Vec<char>;
        match self {
            PromptError::TemplateNotFound(id) => {
                v = chars_of("template not found: ");
                push_str(&mut v, id.as_str());
            },
            PromptError::VersionNotFound(id, n) => {
                v = chars_of("version ");
                push_chars(&mut v, &decimal_chars(*n as usize));
                push_str(&mut v, " not found for template ");
                push_str(&mut v, id.as_str());
            },
            PromptError::MissingVariable(n) => {
                v = chars_of("missing required variable: ");
                push_str(&mut v, n.as_str());
            },
            PromptError::VariantNotFound(id, n) => {
                v = chars_of("variant '");
                push_str(&mut v, n.as_str());
                push_str(&mut v, "' not found on template ");
                push_str(&mut v, id.as_str());
            },
        }
        string_of(&v)
    }
}

/// Lightweight summary of a template.
#[derive(Debug, Clone)]
pub struct TemplateSummary {
    /// Template id.
    pub id: String,
    /// Template name.
    pub name: String,
    /// Current version.
    pub version: u32,
    /// Tags.
    pub tags: Vec<String>,
    /// Number of variants available.
    pub variant_count: usize,
}

/// A summary describes a template: same id, name, version and tags, and
/// as many variants.
pub open spec fn summarizes(s: TemplateSummary, t: TemplateView) -> bool {
    &&& s.id@ == t.id
    &&& s.name@ == t.name
    &&& s.version == t.version
    &&& texts_of(s.tags@) == t.tags
    &&& s.variant_count == t.variants.len()
}

fn copy_text(s: &String) -> (r: String)
    ensures
        r@ == s@,
{
    string_of(&chars_of(s.as_str()))
}

fn copy_texts(v: &Vec<String>) -> (r: Vec<String>)
    ensures
        texts_of(r@) == texts_of(v@),
{
    let mut out: Vec<String> = Vec::new();
    let mut i: usize = 0;
    while i < v.len()
        invariant
            i <= v.len(),
            texts_of(out@) == texts_of(v@).take(i as int),
        decreases v.len() - i,
    {
        let ghost before = texts_of(out@);
        out.push(copy_text(&v[i]));
        assert(texts_of(out@) =~= before.push(v@[i as int]@));
        assert(texts_of(v@).take(i + 1) =~= texts_of(v@).take(i as int).push(v@[i as int]@));
        i += 1;
    }
    assert(texts_of(v@).take(v.len() as int) =~= texts_of(v@));
    out
}

impl TemplateSummary {
    /// The summary of a template.
    pub fn of(t: &PromptTemplate) -> (r: Self)
        ensures
            summarizes(r, template_view(*t)),
    {
        TemplateSummary {
            id: copy_text(&t.id),
            name: copy_text(&t.name),
            version: t.version,
            tags: copy_texts(&t.tags),
            variant_count: t.variants.len(),
        }
    }
}

/// The first template from index `i` on with this id.
pub open spec fn find_template_from(ts: Seq<PromptTemplate>, id: Seq<char>, i: int) -> Option<int>
    decreases ts.len() - i,
{
    if i < 0 || i >= ts.len() {
        None
    } else if ts[i].id@ == id {
        Some(i)
    } else {
        find_template_from(ts, id, i + 1)
    }
}

/// The first template with this id.
pub open spec fn find_template(ts: Seq<PromptTemplate>, id: Seq<char>) -> Option<int> {
    find_template_from(ts, id, 0)
}

/// The first template from index `i` on with this version.
pub open spec fn find_version_from(ts: Seq<PromptTemplate>, v: u32, i: int) -> Option<int>
    decreases ts.len() - i,
{
    if i < 0 || i >= ts.len() {
        None
    } else if ts[i].version == v {
        Some(i)
    } else {
        find_version_from(ts, v, i + 1)
    }
}

/// A version history as plain values: each id with its earlier versions.
pub open spec fn history_view(h: Seq<(String, Vec<PromptTemplate>)>) -> Seq<(Seq<char>, Seq<PromptTemplate>)> {
    h.map_values(|e: (String, Vec<PromptTemplate>)| (e.0@, e.1@))
}

/// The first history entry from index `i` on for this id.
pub open spec fn find_history_from(h: Seq<(Seq<char>, Seq<PromptTemplate>)>, id: Seq<char>, i: int) -> Option<int>
    decreases h.len() - i,
{
    if i < 0 || i >= h.len() {
        None
    } else if h[i].0 == id {
        Some(i)
    } else {
        find_history_from(h, id, i + 1)
    }
}

/// The history with `t` archived under `id`.
pub open spec fn archive(h: Seq<(Seq<char>, Seq<PromptTemplate>)>, id: Seq<char>, t: PromptTemplate) -> Seq<(Seq<char>, Seq<PromptTemplate>)> {
    match find_history_from(h, id, 0) {
        Some(k) => h.update(k, (h[k].0, h[k].1.push(t))),
        None => h.push((id, seq![t])),
    }
}

/// The defaults of variables, as (name, default) pairs in order.
pub open spec fn defaults_of(vs: Seq<TemplateVariable>) -> Seq<(Seq<char>, Seq<char>)>
    decreases vs.len(),
{
    if vs.len() == 0 {
        Seq::empty()
    } else {
        let prev = defaults_of(vs.drop_last());
        match vs.last().default {
            Some(d) => prev.push((vs.last().name@, d@)),
            None => prev,
        }
    }
}

/// The first variable from index `i` on that is required, has no default
/// and is not supplied.
pub open spec fn missing_from(vs: Seq<TemplateVariable>, vars: Seq<(Seq<char>, Seq<char>)>, i: int) -> Option<Seq<char>>
    decreases vs.len() - i,
{
    if i < 0 || i >= vs.len() {
        None
    } else if vs[i].required && lookup(vars, vs[i].name@) is None && vs[i].default is None {
        Some(vs[i].name@)
    } else {
        missing_from(vs, vars, i + 1)
    }
}

/// The variables a template renders with: its defaults, overridden by the
/// caller's values.
pub open spec fn effective(vs: Seq<TemplateVariable>, vars: Seq<(Seq<char>, Seq<char>)>) -> Seq<(Seq<char>, Seq<char>)> {
    defaults_of(vs) + vars
}

/// The prompt template store: the current version of each template, the
/// earlier versions of each, and the active variant of each.
#[derive(Debug)]
pub struct PromptStore {
    /// Current version of each template, by id (each id once).
    pub templates: Vec<PromptTemplate>,
    /// Earlier versions of each template, by id (each id once).
    pub history: Vec<(String, Vec<PromptTemplate>)>,
    /// Active variant of each template, by id (each id once).
    pub active_variants: Vec<(String, String)>,
}

/// The content a template renders from: its active variant when one is set
/// and the template has it, else its own content.
pub open spec fn chosen_content(active: Seq<(Seq<char>, Seq<char>)>, t: PromptTemplate) -> Seq<char> {
    match find_key(active, t.id@) {
        Some(a) => match find_key(pairs_view(t.variants@), active[a].1) {
            Some(j) => pairs_view(t.variants@)[j].1,
            None => t.content@,
        },
        None => t.content@,
    }
}

/// What rendering template `id` of a store with `vars` gives: not found,
/// a missing variable, or the chosen content rendered with the effective
/// variables.
pub open spec fn render_result(st: PromptStore, id: Seq<char>, vars: Seq<(Seq<char>, Seq<char>)>, r: Result<String, PromptError>) -> bool {
    match find_template(st.templates@, id) {
        None => r matches Err(e) && error_view(e) == (0int, id, Seq::<char>::empty(), 0u32),
        Some(i) => {
            let t = st.templates@[i];
            match missing_from(t.variables@, vars, 0) {
                Some(n) => r matches Err(e) && error_view(e) == (2int, n, Seq::<char>::empty(), 0u32),
                None => r matches Ok(out) && rendered(
                    chosen_content(pairs_view(st.active_variants@), t),
                    effective(t.variables@, vars),
                    out@,
                ),
            }
        },
    }
}

/// What rendering an archived version gives: that version's own content
/// with its defaults and the caller's values, or an error when the version
/// is not in the history.
pub open spec fn archived_result(
    st: PromptStore,
    id: Seq<char>,
    version: u32,
    vars: Seq<(Seq<char>, Seq<char>)>,
    r: Result<String, PromptError>,
) -> bool {
    match find_history_from(history_view(st.history@), id, 0) {
        None => r matches Err(e) && error_view(e) == (1int, id, Seq::<char>::empty(), version),
        Some(k) => {
            let vs = history_view(st.history@)[k].1;
            match find_version_from(vs, version, 0) {
                None => r matches Err(e) && error_view(e) == (1int, id, Seq::<char>::empty(), version),
                Some(j) => r matches Ok(out) && rendered(vs[j].content@, effective(vs[j].variables@, vars), out@),
            }
        },
    }
}

/// `new` is `old` after registering `t`: a new id is added at the end as
/// given; a known id is replaced by `t` with the old version bumped (and a
/// fresh update time), the old version going to the end of that id's
/// history. Active variants are kept.
pub open spec fn registered_store(old: PromptStore, new: PromptStore, t: PromptTemplate) -> bool {
    &&& new.active_variants@ == old.active_variants@
    &&& match find_template(old.templates@, t.id@) {
        None => new.templates@ == old.templates@.push(t) && new.history@ == old.history@,
        Some(i) => new.templates@ == old.templates@.update(
            i,
            PromptTemplate { version: bumped(old.templates@[i].version), updated_at: new.templates@[i].updated_at, ..t },
        ) && history_view(new.history@) == archive(history_view(old.history@), t.id@, old.templates@[i]),
    }
}

/// The version that a template's re-registration gets: one more, wrapping
/// as `u32` addition does.
pub open spec fn bumped(v: u32) -> u32 {
    if v == u32::MAX {
        0
    } else {
        (v + 1) as u32
    }
}

fn find_template_exec(ts: &Vec<PromptTemplate>, id: &[char]) -> (r: Option<usize>)
    ensures
        match find_template(ts@, id@) {
            Some(i) => (r matches Some(j) && j as int == i) && 0 <= i < ts.len(),
            None => r is None,
        },
{
    let mut i: usize = 0;
    while i < ts.len()
        invariant
            i <= ts.len(),
            find_template_from(ts@, id@, 0) == find_template_from(ts@, id@, i as int),
        decreases ts.len() - i,
    {
        if chars_eq(&chars_of(ts[i].id.as_str()), id) {
            return Some(i);
        }
        i += 1;
    }
    None
}

fn find_version_exec(ts: &Vec<PromptTemplate>, v: u32) -> (r: Option<usize>)
    ensures
        match find_version_from(ts@, v, 0) {
            Some(i) => (r matches Some(j) && j as int == i) && 0 <= i < ts.len(),
            None => r is None,
        },
{
    let mut i: usize = 0;
    while i < ts.len()
        invariant
            i <= ts.len(),
            find_version_from(ts@, v, 0) == find_version_from(ts@, v, i as int),
        decreases ts.len() - i,
    {
        if ts[i].version == v {
            return Some(i);
        }
        i += 1;
    }
    None
}

fn find_history_exec(h: &Vec<(String, Vec<PromptTemplate>)>, id: &[char]) -> (r: Option<usize>)
    ensures
        match find_history_from(history_view(h@), id@, 0) {
            Some(i) => (r matches Some(j) && j as int == i) && 0 <= i < h.len(),
            None => r is None,
        },
{
    let ghost hv = history_view(h@);
    let mut i: usize = 0;
    while i < h.len()
        invariant
            i <= h.len(),
            hv == history_view(h@),
            find_history_from(hv, id@, 0) == find_history_from(hv, id@, i as int),
        decreases h.len() - i,
    {
        if chars_eq(&chars_of(h[i].0.as_str()), id) {
            return Some(i);
        }
        i += 1;
    }
    None
}

fn find_pair_exec(v: &Vec<(String, String)>, k: &[char]) -> (r: Option<usize>)
    ensures
        match find_key(pairs_view(v@), k@) {
            Some(i) => (r matches Some(j) && j as int == i) && 0 <= i < v.len(),
            None => r is None,
        },
{
    let ghost pv = pairs_view(v@);
    let mut i: usize = 0;
    while i < v.len()
        invariant
            i <= v.len(),
            pv == pairs_view(v@),
            crate::prompt_store::find_key_from(pv, k@, 0) == crate::prompt_store::find_key_from(pv, k@, i as int),
        decreases v.len() - i,
    {
        if chars_eq(&chars_of(v[i].0.as_str()), k) {
            return Some(i);
        }
        i += 1;
    }
    None
}

/// The effective variables (see [`effective`]).
fn effective_exec(vs: &Vec<TemplateVariable>, vars: &[(String, String)]) -> (r: Vec<(String, String)>)
    ensures
        vars_view(r@) == effective(vs@, vars_view(vars@)),
{
    let mut out: Vec<(String, String)> = Vec::new();
    let mut i: usize = 0;
    while i < vs.len()
        invariant
            i <= vs.len(),
            vars_view(out@) == defaults_of(vs@.take(i as int)),
        decreases vs.len() - i,
    {
        assert(vs@.take(i + 1).drop_last() =~= vs@.take(i as int));
        match &vs[i].default {
            Some(d) => {
                let ghost before = vars_view(out@);
                out.push((copy_text(&vs[i].name), copy_text(d)));
                assert(vars_view(out@) =~= before.push((vs@[i as int].name@, d@)));
            },
            None => {},
        }
        i += 1;
    }
    assert(vs@.take(vs.len() as int) =~= vs@);
    let ghost base = vars_view(out@);
    let mut j: usize = 0;
    while j < vars.len()
        invariant
            j <= vars.len(),
            vars_view(out@) == base + vars_view(vars@).take(j as int),
        decreases vars.len() - j,
    {
        let ghost before = vars_view(out@);
        out.push((copy_text(&vars[j].0), copy_text(&vars[j].1)));
        assert(vars_view(out@) =~= before.push(vars_view(vars@)[j as int]));
        assert(vars_view(vars@).take(j + 1) =~= vars_view(vars@).take(j as int).push(vars_view(vars@)[j as int]));
        j += 1;
    }
    assert(vars_view(vars@).take(vars.len() as int) =~= vars_view(vars@));
    out
}

/// The first missing variable (see [`missing_from`]).
fn missing_exec(vs: &Vec<TemplateVariable>, vars: &[(String, String)]) -> (r: Option<String>)
    ensures
        match missing_from(vs@, vars_view(vars@), 0) {
            Some(n) => r matches Some(s) && s@ == n,
            None => r is None,
        },
{
    let mut i: usize = 0;
    while i < vs.len()
        invariant
            i <= vs.len(),
            missing_from(vs@, vars_view(vars@), 0) == missing_from(vs@, vars_view(vars@), i as int),
        decreases vs.len() - i,
    {
        let v = &vs[i];
        if v.required && v.default.is_none() && lookup_is_none(vars, &chars_of(v.name.as_str())) {
            return Some(copy_text(&v.name));
        }
        i += 1;
    }
    None
}

fn lookup_is_none(vars: &[(String, String)], name: &[char]) -> (r: bool)
    ensures
        r == (lookup(vars_view(vars@), name@) is None),
{
    let ghost vv = vars_view(vars@);
    let mut i: usize = vars.len();
    assert(vv.take(i as int) =~= vv);
    while i > 0
        invariant
            i <= vars.len(),
            vv == vars_view(vars@),
            lookup(vv, name@) == lookup(vv.take(i as int), name@),
        decreases i,
    {
        i -= 1;
        assert(vv.take(i + 1).drop_last() =~= vv.take(i as int));
        if chars_eq(&chars_of(vars[i].0.as_str()), name) {
            return false;
        }
    }
    true
}

impl PromptStore {
    /// An empty store.
    pub fn new() -> (r: Self)
        ensures
            r.templates@.len() == 0,
            r.history@.len() == 0,
            r.active_variants@.len() == 0,
    {
        PromptStore { templates: Vec::new(), history: Vec::new(), active_variants: Vec::new() }
    }

    /// Register a template. A new id is added; an id already present gets
    /// the next version of the current template, updated now, and the
    /// current template is archived in its history.
    pub fn register_template(&mut self, template: PromptTemplate)
        ensures
            registered_store(*old(self), *final(self), template),
    {
        let id = chars_of(template.id.as_str());
        match find_template_exec(&self.templates, &id) {
            None => {
                self.templates.push(template);
            },
            Some(i) => {
                let ghost before = self.templates@;
                let existing = self.templates.remove(i);
                let mut t = template;
                t.version = existing.version.wrapping_add(1);
                t.updated_at = crate::prompt_store::utc_now_millis();
                self.templates.insert(i, t);
                assert(self.templates@ =~= before.update(i as int, t));
                let ghost hbefore = history_view(self.history@);
                match find_history_exec(&self.history, &id) {
                    Some(k) => {
                        let (key, mut versions) = self.history.remove(k);
                        versions.push(existing);
                        self.history.insert(k, (key, versions));
                        assert(history_view(self.history@) =~= archive(hbefore, id@, existing));
                    },
                    None => {
                        let mut versions: Vec<PromptTemplate> = Vec::new();
                        versions.push(existing);
                        self.history.push((string_of(&id), versions));
                        assert(history_view(self.history@) =~= archive(hbefore, id@, existing));
                    },
                }
            },
        }
    }

    /// Render the current version of a template (see [`render_result`]).
    pub fn render(&self, template_id: &str, variables: &[(String, String)]) -> (r: Result<String, PromptError>)
        ensures
            render_result(*self, template_id@, vars_view(variables@), r),
    {
        let id = chars_of(template_id);
        let i = match find_template_exec(&self.templates, &id) {
            None => {
                return Err(PromptError::TemplateNotFound(string_of(&id)));
            },
            Some(i) => i,
        };
        let t = &self.templates[i];
        match missing_exec(&t.variables, variables) {
            Some(n) => {
                return Err(PromptError::MissingVariable(n));
            },
            None => {},
        }
        let eff = effective_exec(&t.variables, variables);
        let content = self.chosen_content_exec(t);
        Ok(render_template(content.as_str(), eff.as_slice()))
    }

    fn chosen_content_exec(&self, t: &PromptTemplate) -> (r: String)
        ensures
            r@ == chosen_content(pairs_view(self.active_variants@), *t),
    {
        match find_pair_exec(&self.active_variants, &chars_of(t.id.as_str())) {
            Some(a) => match find_pair_exec(&t.variants, &chars_of(self.active_variants[a].1.as_str())) {
                Some(j) => copy_text(&t.variants[j].1),
                None => copy_text(&t.content),
            },
            None => copy_text(&t.content),
        }
    }

    /// Render a given version of a template: the current version renders as
    /// [`PromptStore::render`] does; an archived one renders its own content
    /// with its defaults and the caller's values, without checking required
    /// variables.
    pub fn render_version(&self, template_id: &str, version: u32, variables: &[(String, String)]) -> (r: Result<String, PromptError>)
        ensures
            match find_template(self.templates@, template_id@) {
                Some(i) => if self.templates@[i].version == version {
                    render_result(*self, template_id@, vars_view(variables@), r)
                } else {
                    archived_result(*self, template_id@, version, vars_view(variables@), r)
                },
                None => archived_result(*self, template_id@, version, vars_view(variables@), r),
            },
    {
        let id = chars_of(template_id);
        match find_template_exec(&self.templates, &id) {
            Some(i) => {
                if self.templates[i].version == version {
                    return self.render(template_id, variables);
                }
            },
            None => {},
        }
        let k = match find_history_exec(&self.history, &id) {
            None => {
                return Err(PromptError::VersionNotFound(string_of(&id), version));
            },
            Some(k) => k,
        };
        let vs = &self.history[k].1;
        let j = match find_version_exec(vs, version) {
            None => {
                return Err(PromptError::VersionNotFound(string_of(&id), version));
            },
            Some(j) => j,
        };
        let t = &vs[j];
        let eff = effective_exec(&t.variables, variables);
        Ok(render_template(t.content.as_str(), eff.as_slice()))
    }

    /// Summaries of the current templates, in the order they were first
    /// registered.
    pub fn list_templates(&self) -> (r: Vec<TemplateSummary>)
        ensures
            r.len() == self.templates.len(),
            forall|i: int| 0 <= i < r.len() ==> summarizes(#[trigger] r@[i], template_view(self.templates@[i])),
    {
        let mut out: Vec<TemplateSummary> = Vec::new();
        let mut i: usize = 0;
        while i < self.templates.len()
            invariant
                i <= self.templates.len(),
                out.len() == i,
                forall|j: int| 0 <= j < i ==> summarizes(#[trigger] out@[j], template_view(self.templates@[j])),
            decreases self.templates.len() - i,
        {
            out.push(TemplateSummary::of(&self.templates[i]));
            i += 1;
        }
        out
    }

    /// A copy of the current version of a template.
    pub fn get_template(&self, id: &str) -> (r: Option<PromptTemplate>)
        ensures
            match find_template(self.templates@, id@) {
                Some(i) => r matches Some(t) && template_view(t) == template_view(self.templates@[i]),
                None => r is None,
            },
    {
        match find_template_exec(&self.templates, &chars_of(id)) {
            Some(i) => Some(clone_template(&self.templates[i])),
            None => None,
        }
    }

    /// Copies of the earlier versions of a template, oldest first (none
    /// for an unknown id).
    pub fn get_history(&self, id: &str) -> (r: Vec<PromptTemplate>)
        ensures
            templates_of(r@) == match find_history_from(history_view(self.history@), id@, 0) {
                Some(k) => templates_of(history_view(self.history@)[k].1),
                None => Seq::<TemplateView>::empty(),
            },
    {
        match find_history_exec(&self.history, &chars_of(id)) {
            Some(k) => {
                let vs = &self.history[k].1;
                let mut out: Vec<PromptTemplate> = Vec::new();
                let mut i: usize = 0;
                while i < vs.len()
                    invariant
                        i <= vs.len(),
                        templates_of(out@) == templates_of(vs@).take(i as int),
                    decreases vs.len() - i,
                {
                    let ghost before = templates_of(out@);
                    out.push(clone_template(&vs[i]));
                    assert(templates_of(out@) =~= before.push(template_view(vs@[i as int])));
                    assert(templates_of(vs@).take(i + 1) =~= templates_of(vs@).take(i as int).push(template_view(vs@[i as int])));
                    i += 1;
                }
                assert(templates_of(vs@).take(vs.len() as int) =~= templates_of(vs@));
                out
            },
            None => Vec::new(),
        }
    }

    /// Choose the variant a template renders from, or go back to its own
    /// content with `None`. Fails for an unknown template or a variant the
    /// template does not have.
    pub fn set_active_variant(&mut self, template_id: &str, variant: Option<&str>) -> (r: Result<(), PromptError>)
        ensures
            final(self).templates@ == old(self).templates@,
            final(self).history@ == old(self).history@,
            match find_template(old(self).templates@, template_id@) {
                None => r matches Err(e) && error_view(e) == (0int, template_id@, Seq::<char>::empty(), 0u32)
                    && final(self).active_variants@ == old(self).active_variants@,
                Some(i) => match variant {
                    Some(v) => if find_key(pairs_view(old(self).templates@[i].variants@), v@) is None {
                        r matches Err(e) && error_view(e) == (3int, template_id@, v@, 0u32)
                            && final(self).active_variants@ == old(self).active_variants@
                    } else {
                        r is Ok && pairs_view(final(self).active_variants@) == crate::prompt_store::put_pair(
                            pairs_view(old(self).active_variants@),
                            template_id@,
                            v@,
                        )
                    },
                    None => r is Ok && pairs_view(final(self).active_variants@) == crate::prompt_store::drop_pair(
                        pairs_view(old(self).active_variants@),
                        template_id@,
                    ),
                },
            },
    {
        let id = chars_of(template_id);
        let i = match find_template_exec(&self.templates, &id) {
            None => {
                return Err(PromptError::TemplateNotFound(string_of(&id)));
            },
            Some(i) => i,
        };
        let ghost before = pairs_view(self.active_variants@);
        match variant {
            Some(v) => {
                if find_pair_exec(&self.templates[i].variants, &chars_of(v)).is_none() {
                    return Err(PromptError::VariantNotFound(string_of(&id), string_of(&chars_of(v))));
                }
                match find_pair_exec(&self.active_variants, &id) {
                    Some(a) => {
                        self.active_variants.set(a, (string_of(&id), string_of(&chars_of(v))));
                        assert(pairs_view(self.active_variants@) =~= before.update(a as int, (id@, v@)));
                    },
                    None => {
                        self.active_variants.push((string_of(&id), string_of(&chars_of(v))));
                        assert(pairs_view(self.active_variants@) =~= before.push((id@, v@)));
                    },
                }
            },
            None => {
                match find_pair_exec(&self.active_variants, &id) {
                    Some(a) => {
                        self.active_variants.remove(a);
                        assert(pairs_view(self.active_variants@) =~= before.remove(a as int));
                    },
                    None => {},
                }
            },
        }
        Ok(())
    }
}

/// A step of a prompt chain: a template and where its variables come from.
#[derive(Debug, Clone)]
pub struct ChainStep {
    /// Template to render.
    pub template_id: String,
    /// Template variable name to its source: `literal:text` for a fixed
    /// value, otherwise the name of an initial variable or of an earlier
    /// step's output `step_<index>_output`.
    pub variable_mapping: Vec<(String, String)>,
}

/// A sequence of templates rendered in turn.
#[derive(Debug, Clone)]
pub struct PromptChain {
    /// Chain name.
    pub name: String,
    /// The steps, in order.
    pub steps: Vec<ChainStep>,
}

/// The key under which step `i`'s output joins the context.
pub open spec fn step_key(i: nat) -> Seq<char> {
    "step_"@ + decimal(i) + "_output"@
}

/// The context after some steps: the initial variables, then each step's
/// output under its key.
pub open spec fn chain_context(initial: Seq<(Seq<char>, Seq<char>)>, outs: Seq<Seq<char>>) -> Seq<(Seq<char>, Seq<char>)> {
    initial + Seq::new(outs.len(), |j: int| (step_key(j as nat), outs[j]))
}

/// The variables of a step: for each mapping entry, the literal after
/// `literal:`, or the source's value in the context (entries whose source
/// has no value are left out).
pub open spec fn step_vars(mapping: Seq<(Seq<char>, Seq<char>)>, ctx: Seq<(Seq<char>, Seq<char>)>) -> Seq<(Seq<char>, Seq<char>)>
    decreases mapping.len(),
{
    if mapping.len() == 0 {
        Seq::empty()
    } else {
        let prev = step_vars(mapping.drop_last(), ctx);
        let (tv, src) = mapping.last();
        if is_prefix("literal:"@, src) {
            prev.push((tv, src.skip(8)))
        } else {
            match lookup(ctx, src) {
                Some(v) => prev.push((tv, v)),
                None => prev,
            }
        }
    }
}

/// Step `i` of a chain renders to `r` after the outputs `outs` of the steps
/// before it.
pub open spec fn chain_step_result(
    st: PromptStore,
    steps: Seq<ChainStep>,
    initial: Seq<(Seq<char>, Seq<char>)>,
    outs: Seq<Seq<char>>,
    i: int,
    r: Result<String, PromptError>,
) -> bool {
    render_result(
        st,
        steps[i].template_id@,
        step_vars(pairs_view(steps[i].variable_mapping@), chain_context(initial, outs)),
        r,
    )
}

fn step_key_exec(i: usize) -> (r: String)
    ensures
        r@ == step_key(i as nat),
{
    let mut v = chars_of("step_");
    push_chars(&mut v, &decimal_chars(i));
    push_str(&mut v, "_output");
    string_of(&v)
}

fn step_vars_exec(mapping: &Vec<(String, String)>, ctx: &Vec<(String, String)>) -> (r: Vec<(String, String)>)
    ensures
        vars_view(r@) == step_vars(pairs_view(mapping@), vars_view(ctx@)),
{
    proof {
        reveal_strlit("literal:");
        assert("literal:"@.len() == 8);
    }
    let ghost mv = pairs_view(mapping@);
    let mut out: Vec<(String, String)> = Vec::new();
    let mut i: usize = 0;
    while i < mapping.len()
        invariant
            i <= mapping.len(),
            mv == pairs_view(mapping@),
            "literal:"@.len() == 8,
            vars_view(out@) == step_vars(mv.take(i as int), vars_view(ctx@)),
        decreases mapping.len() - i,
    {
        assert(mv.take(i + 1).drop_last() =~= mv.take(i as int));
        assert(mv.take(i + 1).last() == mv[i as int]);
        let src = chars_of(mapping[i].1.as_str());
        let ghost before = vars_view(out@);
        if crate::text::starts_with_str(&src, "literal:") {
            let lit = slice_chars(&src, 8, src.len());
            assert(lit@ =~= src@.skip(8));
            out.push((copy_text(&mapping[i].0), string_of(&lit)));
            assert(vars_view(out@) =~= before.push((mv[i as int].0, src@.skip(8))));
        } else {
            match lookup_exec(ctx.as_slice(), &src) {
                Some(v) => {
                    out.push((copy_text(&mapping[i].0), string_of(&v)));
                    assert(vars_view(out@) =~= before.push((mv[i as int].0, v@)));
                },
                None => {},
            }
        }
        i += 1;
    }
    assert(mv.take(mapping.len() as int) =~= mv);
    out
}

impl PromptStore {
    /// Render a chain: each step in turn, with variables from its mapping
    /// over the initial variables and the earlier outputs; the first failing
    /// step's error stops the chain.
    #[verifier::spinoff_prover]
    #[verifier::rlimit(60)]
    pub fn render_chain(&self, chain: &PromptChain, initial: &[(String, String)]) -> (r: Result<Vec<String>, PromptError>)
        ensures
            match r {
                Ok(outs) => outs.len() == chain.steps.len() && forall|i: int|
                    0 <= i < outs.len() ==> chain_step_result(
                        *self,
                        chain.steps@,
                        vars_view(initial@),
                        texts_of(outs@).take(i),
                        i,
                        Ok(#[trigger] outs@[i]),
                    ),
                Err(e) => exists|k: int, prev: Seq<String>|
                    0 <= k < chain.steps.len() && prev.len() == k && (forall|i: int|
                        0 <= i < k ==> chain_step_result(
                            *self,
                            chain.steps@,
                            vars_view(initial@),
                            texts_of(prev).take(i),
                            i,
                            Ok(#[trigger] prev[i]),
                        )) && chain_step_result(*self, chain.steps@, vars_view(initial@), texts_of(prev), k, Err(e)),
            },
    {
        let ghost init = vars_view(initial@);
        let mut context: Vec<(String, String)> = Vec::new();
        let mut j: usize = 0;
        while j < initial.len()
            invariant
                j <= initial.len(),
                init == vars_view(initial@),
                vars_view(context@) == init.take(j as int),
            decreases initial.len() - j,
        {
            let ghost before = vars_view(context@);
            context.push((copy_text(&initial[j].0), copy_text(&initial[j].1)));
            assert(vars_view(context@) =~= before.push(init[j as int]));
            assert(init.take(j + 1) =~= init.take(j as int).push(init[j as int]));
            j += 1;
        }
        assert(init.take(initial.len() as int) =~= init);
        assert(vars_view(context@) =~= chain_context(init, Seq::empty()));
        let mut outputs: Vec<String> = Vec::new();
        let mut idx: usize = 0;
        while idx < chain.steps.len()
            invariant
                idx <= chain.steps.len(),
                outputs.len() == idx,
                init == vars_view(initial@),
                vars_view(context@) == chain_context(init, texts_of(outputs@)),
                forall|i: int|
                    0 <= i < idx ==> chain_step_result(
                        *self,
                        chain.steps@,
                        init,
                        texts_of(outputs@).take(i),
                        i,
                        Ok(#[trigger] outputs@[i]),
                    ),
            decreases chain.steps.len() - idx,
        {
            let step = &chain.steps[idx];
            let vars = step_vars_exec(&step.variable_mapping, &context);
            let res = self.render(step.template_id.as_str(), vars.as_slice());
            match res {
                Err(e) => {
                    assert(texts_of(outputs@).take(idx as int) =~= texts_of(outputs@));
                    assert(chain_step_result(*self, chain.steps@, init, texts_of(outputs@), idx as int, Err(e)));
                    assert forall|i: int| 0 <= i < idx implies chain_step_result(
                        *self,
                        chain.steps@,
                        init,
                        texts_of(outputs@).take(i),
                        i,
                        Ok(#[trigger] outputs@[i]),
                    ) by {}
                    return Err(e);
                },
                Ok(out) => {
                    let ghost prev = outputs@;
                    let ghost ov = texts_of(prev);
                    assert(chain_step_result(*self, chain.steps@, init, ov, idx as int, Ok(out)));
                    let key = step_key_exec(idx);
                    let ghost cbefore = vars_view(context@);
                    context.push((key, copy_text(&out)));
                    outputs.push(out);
                    assert(texts_of(outputs@) =~= ov.push(outputs@[idx as int]@));
                    assert(vars_view(context@) =~= cbefore.push((step_key(idx as nat), outputs@[idx as int]@)));
                    assert(vars_view(context@) =~= chain_context(init, texts_of(outputs@)));
                    assert forall|i: int| 0 <= i < idx + 1 implies chain_step_result(
                        *self,
                        chain.steps@,
                        init,
                        texts_of(outputs@).take(i),
                        i,
                        Ok(#[trigger] outputs@[i]),
                    ) by {
                        assert(texts_of(outputs@).take(i) =~= ov.take(i));
                        if i < idx {
                            assert(outputs@[i] == prev[i]);
                        } else {
                            assert(ov.take(i) =~= ov);
                        }
                    }
                },
            }
            idx += 1;
        }
        Ok(outputs)
    }
}

impl PromptChain {
    /// An empty chain.
    pub fn new(name: &str) -> (r: Self)
        ensures
            r.name@ == name@,
            r.steps@.len() == 0,
    {
        PromptChain { name: string_of(&chars_of(name)), steps: Vec::new() }
    }

    /// Append a step.
    pub fn add_step(&mut self, template_id: &str, variable_mapping: Vec<(String, String)>)
        ensures
            final(self).name == old(self).name,
            final(self).steps@.len() == old(self).steps@.len() + 1,
            forall|i: int| 0 <= i < old(self).steps@.len() ==> final(self).steps@[i] == old(self).steps@[i],
            final(self).steps@.last().template_id@ == template_id@,
            final(self).steps@.last().variable_mapping == variable_mapping,
    {
        self.steps.push(ChainStep { template_id: string_of(&chars_of(template_id)), variable_mapping });
    }

    /// Render the chain against a manager's templates (see
    /// [`PromptStore::render_chain`]).
    /// The outputs are those that the store held by the manager's lock at
    /// the call gives (see [`chain_outcome`]).
    pub fn render(&self, manager: &PromptManager, initial_vars: &[(String, String)]) -> (r: Result<Vec<String>, PromptError>)
        ensures
            exists|st: PromptStore| #[trigger] chain_outcome(st, self.steps@, vars_view(initial_vars@), r),
    {
        let mut g = lock_write(&*manager.inner);
        let st = guard_mut(&mut g);
        let r = st.render_chain(self, initial_vars);
        assert(chain_outcome(*st, self.steps@, vars_view(initial_vars@), r));
        r
    }
}

/// Thread-safe manager for versioned prompt templates.
///
/// Clones share the same store (it lives behind `Arc<RwLock<..>>`). What a
/// shared store holds is not known in advance, so each method hands its
/// arguments to the store, whose own methods carry the exact contracts.
#[derive(Debug, Clone)]
pub struct PromptManager {
    inner: Arc<RwLock<PromptStore>>,
}

impl Default for PromptManager {
    fn default() -> (r: Self) {
        Self::new()
    }
}

impl PromptManager {
    /// A manager with an empty store.
    pub fn new() -> (r: Self) {
        PromptManager { inner: shared_lock(PromptStore::new()) }
    }

    /// Register a template (see [`PromptStore::register_template`]).
    pub fn register_template(&self, template: PromptTemplate) {
        let mut g = lock_write(&*self.inner);
        let st = guard_mut(&mut g);
        st.register_template(template);
    }

    /// Render the current version of a template (see [`PromptStore::render`])
    /// in the store held by the lock at the call.
    pub fn render(&self, template_id: &str, variables: &[(String, String)]) -> (r: Result<String, PromptError>)
        ensures
            exists|st: PromptStore| #[trigger] render_result(st, template_id@, vars_view(variables@), r),
    {
        let mut g = lock_write(&*self.inner);
        let st = guard_mut(&mut g);
        let r = st.render(template_id, variables);
        assert(render_result(*st, template_id@, vars_view(variables@), r));
        r
    }

    /// Render a given version of a template (see
    /// [`PromptStore::render_version`]) in the store held by the lock at the
    /// call.
    pub fn render_version(&self, template_id: &str, version: u32, variables: &[(String, String)]) -> (r: Result<String, PromptError>)
        ensures
            exists|st: PromptStore| #[trigger] version_outcome(st, template_id@, version, vars_view(variables@), r),
    {
        let mut g = lock_write(&*self.inner);
        let st = guard_mut(&mut g);
        let r = st.render_version(template_id, version, variables);
        assert(version_outcome(*st, template_id@, version, vars_view(variables@), r));
        r
    }

    /// Summaries of all templates (see [`PromptStore::list_templates`]) in
    /// the store held by the lock at the call.
    pub fn list_templates(&self) -> (r: Vec<TemplateSummary>)
        ensures
            exists|st: PromptStore| #[trigger] list_outcome(st, r@),
    {
        let mut g = lock_write(&*self.inner);
        let st = guard_mut(&mut g);
        let r = st.list_templates();
        assert(list_outcome(*st, r@));
        r
    }

    /// A copy of the current version of a template (see
    /// [`PromptStore::get_template`]) in the store held by the lock at the
    /// call.
    pub fn get_template(&self, id: &str) -> (r: Option<PromptTemplate>)
        ensures
            exists|st: PromptStore| #[trigger] template_outcome(st, id@, r),
    {
        let mut g = lock_write(&*self.inner);
        let st = guard_mut(&mut g);
        let r = st.get_template(id);
        assert(template_outcome(*st, id@, r));
        r
    }

    /// The earlier versions of a template (see [`PromptStore::get_history`])
    /// in the store held by the lock at the call.
    pub fn get_history(&self, id: &str) -> (r: Vec<PromptTemplate>)
        ensures
            exists|st: PromptStore| #[trigger] history_outcome(st, id@, r@),
    {
        let mut g = lock_write(&*self.inner);
        let st = guard_mut(&mut g);
        let r = st.get_history(id);
        assert(history_outcome(*st, id@, r@));
        r
    }

    /// Choose or clear a template's active variant (see
    /// [`PromptStore::set_active_variant`]) in the store held by the lock
    /// at the call.
    pub fn set_active_variant(&self, template_id: &str, variant: Option<&str>) -> (r: Result<(), PromptError>)
        ensures
            exists|st: PromptStore| #[trigger] variant_outcome(st, template_id@, opt_text(variant), r),
    {
        let mut g = lock_write(&*self.inner);
        let st = guard_mut(&mut g);
        let ghost before = *st;
        let r = st.set_active_variant(template_id, variant);
        assert(variant_outcome(before, template_id@, opt_text(variant), r));
        r
    }
}

/// The text of an optional string.
pub open spec fn opt_text(v: Option<&str>) -> Option<Seq<char>> {
    match v {
        Some(t) => Some(t@),
        None => None,
    }
}

/// What rendering version `version` of template `id` of store `st` gives
/// (see [`PromptStore::render_version`]).
pub open spec fn version_outcome(
    st: PromptStore,
    id: Seq<char>,
    version: u32,
    vars: Seq<(Seq<char>, Seq<char>)>,
    r: Result<String, PromptError>,
) -> bool {
    match find_template(st.templates@, id) {
        Some(i) => if st.templates@[i].version == version {
            render_result(st, id, vars, r)
        } else {
            archived_result(st, id, version, vars, r)
        },
        None => archived_result(st, id, version, vars, r),
    }
}

/// The summaries of the templates of store `st`, in order.
pub open spec fn list_outcome(st: PromptStore, r: Seq<TemplateSummary>) -> bool {
    &&& r.len() == st.templates@.len()
    &&& forall|i: int| 0 <= i < r.len() ==> summarizes(#[trigger] r[i], template_view(st.templates@[i]))
}

/// A copy of template `id` of store `st`, or none.
pub open spec fn template_outcome(st: PromptStore, id: Seq<char>, r: Option<PromptTemplate>) -> bool {
    match find_template(st.templates@, id) {
        Some(i) => r matches Some(t) && template_view(t) == template_view(st.templates@[i]),
        None => r is None,
    }
}

/// Copies of the earlier versions of template `id` of store `st`, oldest
/// first (none for an unknown id).
pub open spec fn history_outcome(st: PromptStore, id: Seq<char>, r: Seq<PromptTemplate>) -> bool {
    templates_of(r) == match find_history_from(history_view(st.history@), id, 0) {
        Some(k) => templates_of(history_view(st.history@)[k].1),
        None => Seq::<TemplateView>::empty(),
    }
}

/// What choosing `variant` for template `id` of store `st` answers: an
/// unknown template or variant fails with its error; otherwise it succeeds.
pub open spec fn variant_outcome(
    st: PromptStore,
    id: Seq<char>,
    variant: Option<Seq<char>>,
    r: Result<(), PromptError>,
) -> bool {
    match find_template(st.templates@, id) {
        None => r matches Err(e) && error_view(e) == (0int, id, Seq::<char>::empty(), 0u32),
        Some(i) => match variant {
            Some(v) => if find_key(pairs_view(st.templates@[i].variants@), v) is None {
                r matches Err(e) && error_view(e) == (3int, id, v, 0u32)
            } else {
                r is Ok
            },
            None => r is Ok,
        },
    }
}

/// What rendering a chain of `steps` with initial variables `init` against
/// store `st` gives (see [`PromptStore::render_chain`]): every step's output
/// in order, or the error of the first failing step after the outputs of
/// those before it.
pub open spec fn chain_outcome(
    st: PromptStore,
    steps: Seq<ChainStep>,
    init: Seq<(Seq<char>, Seq<char>)>,
    r: Result<Vec<String>, PromptError>,
) -> bool {
    match r {
        Ok(outs) => outs.len() == steps.len() && forall|i: int|
            0 <= i < outs.len() ==> chain_step_result(
                st,
                steps,
                init,
                texts_of(outs@).take(i),
                i,
                Ok(#[trigger] outs@[i]),
            ),
        Err(e) => exists|k: int, prev: Seq<String>|
            0 <= k < steps.len() && prev.len() == k && (forall|i: int|
                0 <= i < k ==> chain_step_result(
                    st,
                    steps,
                    init,
                    texts_of(prev).take(i),
                    i,
                    Ok(#[trigger] prev[i]),
                )) && chain_step_result(st, steps, init, texts_of(prev), k, Err(e)),
    }
}

/// The content of the sales qualification template.
pub const SALES_QUALIFIER_CONTENT: &'static str = "You are a sales qualification assistant for the {{region|upper}} region.\n\nEvaluate the following lead:\n- Company: {{company}}\n- Contact title: {{title}}\n- Lead score: {{score}}\n- Affinity index: {{affinity|default:unknown}}\n\n{{#if score}}Based on the score of {{score}}, classify this lead as hot, warm, or cold.{{/if}}\n\nProvide a concise qualification summary and recommended next steps.";

/// The content of the outreach template.
pub const OUTREACH_COMPOSER_CONTENT: &'static str = "Compose a {{channel|lower}} outreach message for:\n\nCompany: {{company}}\nContact: {{contact}}\nRegion: {{region}}\nScore class: {{score_class}}\n\n{{#if score_class}}Tailor the tone and urgency to a {{score_class}} lead.{{/if}}\n\nKeep it under 200 words.";

/// The formal variant of the outreach template.
pub const OUTREACH_FORMAL_CONTENT: &'static str = "Dear {{contact}},\n\nI am writing on behalf of our {{region}} team regarding {{company}}.\nAs a {{score_class}} prospect, we believe there is significant opportunity for collaboration.\n\nChannel: {{channel|upper}}\n\nBest regards.";

/// The casual variant of the outreach template.
pub const OUTREACH_CASUAL_CONTENT: &'static str = "Hey {{contact}}!\n\nQuick note about {{company}} — you're flagged as {{score_class}} in {{region}}.\nLet's connect on {{channel|lower}}!\n\nCheers!";

/// The content of the support template.
pub const SUPPORT_RESPONDER_CONTENT: &'static str = "You are a customer support agent.\n\nTicket category: {{ticket_category}}\nPriority: {{priority|upper}}\nCustomer message:\n{{customer_message}}\n\n{{#if kb_context}}Relevant knowledge base context:\n{{kb_context}}\n\n{{/if}}Draft a helpful, empathetic response that addresses the customer's concern.\nIf the priority is HIGH or CRITICAL, escalate appropriately.";

/// The content of the ticket routing template.
pub const TICKET_ROUTER_CONTENT: &'static str = "Analyze the following customer message and classify it.\n\nMessage:\n{{message}}\n\nRespond with a JSON object containing:\n- \"category\": one of [billing, technical, account, general]\n- \"priority\": one of [low, medium, high, critical]\n- \"summary\": a one-sentence summary\n- \"suggested_team\": the team that should handle this";

/// The names and required flags of a template's variables.
pub open spec fn declared(t: TemplateView) -> Seq<(Seq<char>, bool)> {
    t.variables.map_values(|v: VarView| (v.name, v.required))
}

/// The sales qualification template.
pub fn sales_qualifier_v1() -> (r: PromptTemplate)
    ensures
        r.id@ == "sales_qualifier_v1"@,
        r.name@ == "Sales Qualifier"@,
        r.content@ == SALES_QUALIFIER_CONTENT@,
        r.version == 1,
        declared(template_view(r)) == seq![
            ("company"@, true),
            ("region"@, true),
            ("title"@, true),
            ("score"@, true),
            ("affinity"@, false),
        ],
        texts_of(r.tags@) == seq!["sales"@, "xcapit-sff"@],
{
    let r = PromptTemplate::new("sales_qualifier_v1", "Sales Qualifier", SALES_QUALIFIER_CONTENT)
        .with_description("Qualifies inbound leads based on company, region, title, score, and affinity.")
        .with_variable(TemplateVariable::required("company").with_description("Company name"))
        .with_variable(TemplateVariable::required("region").with_description("Geographic region"))
        .with_variable(TemplateVariable::required("title").with_description("Contact's job title"))
        .with_variable(
            TemplateVariable::required("score").with_type(VarType::Integer).with_description("Lead score (0-100)"),
        )
        .with_variable(
            TemplateVariable::optional("affinity", "unknown").with_type(VarType::Float).with_description(
                "Affinity index",
            ),
        )
        .with_tag("sales")
        .with_tag("xcapit-sff")
        .with_metadata("domain", "sales");
    assert(declared(template_view(r)) =~= seq![
        ("company"@, true),
        ("region"@, true),
        ("title"@, true),
        ("score"@, true),
        ("affinity"@, false),
    ]);
    r
}

/// The outreach template, with formal and casual variants.
pub fn outreach_composer_v1() -> (r: PromptTemplate)
    ensures
        r.id@ == "outreach_composer_v1"@,
        r.name@ == "Outreach Composer"@,
        r.content@ == OUTREACH_COMPOSER_CONTENT@,
        r.version == 1,
        declared(template_view(r)) == seq![
            ("company"@, true),
            ("contact"@, true),
            ("channel"@, true),
            ("region"@, true),
            ("score_class"@, true),
        ],
        pairs_view(r.variants@) == seq![("formal"@, OUTREACH_FORMAL_CONTENT@), ("casual"@, OUTREACH_CASUAL_CONTENT@)],
        texts_of(r.tags@) == seq!["outreach"@, "xcapit-sff"@],
{
    proof {
        reveal_strlit("formal");
        reveal_strlit("casual");
    }
    let t = PromptTemplate::new("outreach_composer_v1", "Outreach Composer", OUTREACH_COMPOSER_CONTENT)
        .with_description("Generates personalised outreach messages across channels.")
        .with_variable(TemplateVariable::required("company"))
        .with_variable(TemplateVariable::required("contact"))
        .with_variable(
            TemplateVariable::required("channel").with_description("Communication channel (email, linkedin, phone)"),
        )
        .with_variable(TemplateVariable::required("region"))
        .with_variable(TemplateVariable::required("score_class").with_description("hot, warm, or cold"));
    assert(template_view(t).variants =~= Seq::<(Seq<char>, Seq<char>)>::empty());
    let r = t
        .with_variant("formal", OUTREACH_FORMAL_CONTENT)
        .with_variant("casual", OUTREACH_CASUAL_CONTENT)
        .with_tag("outreach")
        .with_tag("xcapit-sff");
    assert(declared(template_view(r)) =~= seq![
        ("company"@, true),
        ("contact"@, true),
        ("channel"@, true),
        ("region"@, true),
        ("score_class"@, true),
    ]);
    proof {
        let one = seq![("formal"@, OUTREACH_FORMAL_CONTENT@)];
        assert(crate::prompt_store::find_key_from(Seq::<(Seq<char>, Seq<char>)>::empty(), "formal"@, 0) is None);
        assert(crate::prompt_store::put_pair(Seq::empty(), "formal"@, OUTREACH_FORMAL_CONTENT@) =~= one);
        assert("formal"@[0] != "casual"@[0]);
        assert(crate::prompt_store::find_key_from(one, "casual"@, 1) is None);
        assert(crate::prompt_store::find_key_from(one, "casual"@, 0) is None);
        assert(crate::prompt_store::put_pair(one, "casual"@, OUTREACH_CASUAL_CONTENT@) =~= one.push(
            ("casual"@, OUTREACH_CASUAL_CONTENT@),
        ));
    }
    assert(pairs_view(r.variants@) =~= seq![("formal"@, OUTREACH_FORMAL_CONTENT@), ("casual"@, OUTREACH_CASUAL_CONTENT@)]);
    r
}

/// The support template.
pub fn support_responder_v1() -> (r: PromptTemplate)
    ensures
        r.id@ == "support_responder_v1"@,
        r.name@ == "Support Responder"@,
        r.content@ == SUPPORT_RESPONDER_CONTENT@,
        r.version == 1,
        declared(template_view(r)) == seq![
            ("ticket_category"@, true),
            ("priority"@, true),
            ("customer_message"@, true),
            ("kb_context"@, false),
        ],
        texts_of(r.tags@) == seq!["support"@, "xcapit-sff"@],
{
    let r = PromptTemplate::new("support_responder_v1", "Support Responder", SUPPORT_RESPONDER_CONTENT)
        .with_description("Generates support responses using ticket context and KB articles.")
        .with_variable(TemplateVariable::required("ticket_category").with_description("Category of the support ticket"))
        .with_variable(
            TemplateVariable::required("priority").with_description("Ticket priority (low, medium, high, critical)"),
        )
        .with_variable(
            TemplateVariable::required("customer_message").with_description("The customer's original message"),
        )
        .with_variable(
            TemplateVariable::optional("kb_context", "").with_description("Relevant knowledge base excerpts"),
        )
        .with_tag("support")
        .with_tag("xcapit-sff");
    assert(declared(template_view(r)) =~= seq![
        ("ticket_category"@, true),
        ("priority"@, true),
        ("customer_message"@, true),
        ("kb_context"@, false),
    ]);
    r
}

/// The ticket routing template.
pub fn ticket_router_v1() -> (r: PromptTemplate)
    ensures
        r.id@ == "ticket_router_v1"@,
        r.name@ == "Ticket Router"@,
        r.content@ == TICKET_ROUTER_CONTENT@,
        r.version == 1,
        declared(template_view(r)) == seq![("message"@, true)],
        texts_of(r.tags@) == seq!["routing"@, "xcapit-sff"@],
{
    let r = PromptTemplate::new("ticket_router_v1", "Ticket Router", TICKET_ROUTER_CONTENT)
        .with_description("Routes incoming messages to the correct support category and priority.")
        .with_variable(TemplateVariable::required("message").with_description("Raw customer message to classify"))
        .with_tag("routing")
        .with_tag("xcapit-sff");
    assert(declared(template_view(r)) =~= seq![("message"@, true)]);
    r
}

/// Register the four built-in templates with a manager.
pub fn register_xcapit_templates(manager: &PromptManager) {
    manager.register_template(sales_qualifier_v1());
    manager.register_template(outreach_composer_v1());
    manager.register_template(support_responder_v1());
    manager.register_template(ticket_router_v1());
}

} // verus!
