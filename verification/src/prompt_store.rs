//! Versioned prompt templates: their variables, and a store that keeps the
//! current version of each template, the versions it replaced and the
//! variant chosen for A/B testing.
use vstd::prelude::*;
use chrono::Utc;
use crate::text::{chars_of, string_of, chars_eq};
use crate::test_oracle::opt_view;
use crate::template_render::vars_view;

verus! {

/// `chrono::Utc::now().timestamp_millis()`: the current time, in
/// milliseconds since the Unix epoch. Nothing is stated of it.
#[verifier::external_body]
pub(crate) fn utc_now_millis() -> (r: i64) {
    Utc::now().timestamp_millis()
}

/// The expected type of a template variable.
#[derive(Debug, Clone, Copy, PartialEq, Eq, Structural)]
pub enum VarType {
    /// Plain text (default).
    String,
    /// Integer value.
    Integer,
    /// Floating-point value.
    Float,
    /// Boolean (`true` / `false`).
    Boolean,
    /// Arbitrary JSON.
    Json,
    /// Comma-separated list.
    List,
}

/// A variable declared by a template.
#[derive(Debug, Clone)]
pub struct TemplateVariable {
    /// Variable name (used as `{{name}}` in the template).
    pub name: String,
    /// Expected type.
    pub var_type: VarType,
    /// Whether the caller must supply this variable.
    pub required: bool,
    /// Default value when not supplied.
    pub default: Option<String>,
    /// Human-readable description.
    pub description: Option<String>,
}

/// A template variable as plain values.
pub struct VarView {
    pub name: Seq<char>,
    pub var_type: VarType,
    pub required: bool,
    pub default: Option<Seq<char>>,
    pub description: Option<Seq<char>>,
}

/// The plain values of a variable.
pub open spec fn var_view(v: TemplateVariable) -> VarView {
    VarView {
        name: v.name@,
        var_type: v.var_type,
        required: v.required,
        default: opt_view(v.default),
        description: opt_view(v.description),
    }
}

/// The plain values of variables.
pub open spec fn vars_of(v: Seq<TemplateVariable>) -> Seq<VarView> {
    v.map_values(|x: TemplateVariable| var_view(x))
}

fn owned(s: &str) -> (r: String)
    ensures
        r@ == s@,
{
    string_of(&chars_of(s))
}

fn copy_text(s: &String) -> (r: String)
    ensures
        r@ == s@,
{
    string_of(&chars_of(s.as_str()))
}

fn copy_opt(o: &Option<String>) -> (r: Option<String>)
    ensures
        opt_view(r) == opt_view(*o),
{
    match o {
        Some(s) => Some(copy_text(s)),
        None => None,
    }
}

impl TemplateVariable {
    /// A required string variable.
    pub fn required(name: &str) -> (r: Self)
        ensures
            var_view(r) == (VarView { name: name@, var_type: VarType::String, required: true, default: None, description: None }),
    {
        TemplateVariable { name: owned(name), var_type: VarType::String, required: true, default: None, description: None }
    }

    /// An optional string variable with a default value.
    pub fn optional(name: &str, default: &str) -> (r: Self)
        ensures
            var_view(r) == (VarView {
                name: name@,
                var_type: VarType::String,
                required: false,
                default: Some(default@),
                description: None,
            }),
    {
        TemplateVariable {
            name: owned(name),
            var_type: VarType::String,
            required: false,
            default: Some(owned(default)),
            description: None,
        }
    }

    /// The variable with another expected type.
    pub fn with_type(self, var_type: VarType) -> (r: Self)
        ensures
            var_view(r) == (VarView { var_type, ..var_view(self) }),
    {
        let mut s = self;
        s.var_type = var_type;
        s
    }

    /// The variable with a description.
    pub fn with_description(self, desc: &str) -> (r: Self)
        ensures
            var_view(r) == (VarView { description: Some(desc@), ..var_view(self) }),
    {
        let mut s = self;
        s.description = Some(owned(desc));
        s
    }
}

fn clone_var(v: &TemplateVariable) -> (r: TemplateVariable)
    ensures
        var_view(r) == var_view(*v),
{
    TemplateVariable {
        name: copy_text(&v.name),
        var_type: v.var_type,
        required: v.required,
        default: copy_opt(&v.default),
        description: copy_opt(&v.description),
    }
}

/// A versioned prompt template.
#[derive(Debug, Clone)]
pub struct PromptTemplate {
    /// Unique template id.
    pub id: String,
    /// Human-readable name.
    pub name: String,
    /// Description of what this template does.
    pub description: String,
    /// The template content with `{{variable}}` placeholders.
    pub content: String,
    /// Declared variables.
    pub variables: Vec<TemplateVariable>,
    /// Version number (starts at 1, bumped on each re-registration).
    pub version: u32,
    /// When the template was created, in milliseconds since the Unix epoch
    /// (UTC).
    pub created_at: i64,
    /// When the template was last updated, in milliseconds since the Unix
    /// epoch (UTC).
    pub updated_at: i64,
    /// Free-form tags.
    pub tags: Vec<String>,
    /// A/B variants: variant name to alternative content, each name once.
    pub variants: Vec<(String, String)>,
    /// Arbitrary metadata, each key once.
    pub metadata: Vec<(String, String)>,
}

/// Pairs of strings as plain values.
pub open spec fn pairs_view(v: Seq<(String, String)>) -> Seq<(Seq<char>, Seq<char>)> {
    vars_view(v)
}

/// Texts as plain values.
pub open spec fn texts_of(v: Seq<String>) -> Seq<Seq<char>> {
    v.map_values(|s: String| s@)
}

/// A template as plain values.
pub struct TemplateView {
    pub id: Seq<char>,
    pub name: Seq<char>,
    pub description: Seq<char>,
    pub content: Seq<char>,
    pub variables: Seq<VarView>,
    pub version: u32,
    pub created_at: i64,
    pub updated_at: i64,
    pub tags: Seq<Seq<char>>,
    pub variants: Seq<(Seq<char>, Seq<char>)>,
    pub metadata: Seq<(Seq<char>, Seq<char>)>,
}

/// The plain values of a template.
pub open spec fn template_view(t: PromptTemplate) -> TemplateView {
    TemplateView {
        id: t.id@,
        name: t.name@,
        description: t.description@,
        content: t.content@,
        variables: vars_of(t.variables@),
        version: t.version,
        created_at: t.created_at,
        updated_at: t.updated_at,
        tags: texts_of(t.tags@),
        variants: pairs_view(t.variants@),
        metadata: pairs_view(t.metadata@),
    }
}

/// The plain values of templates.
pub open spec fn templates_of(v: Seq<PromptTemplate>) -> Seq<TemplateView> {
    v.map_values(|t: PromptTemplate| template_view(t))
}

/// The first pair from index `i` on whose key is `k`.
pub open spec fn find_key_from(v: Seq<(Seq<char>, Seq<char>)>, k: Seq<char>, i: int) -> Option<int>
    decreases v.len() - i,
{
    if i < 0 || i >= v.len() {
        None
    } else if v[i].0 == k {
        Some(i)
    } else {
        find_key_from(v, k, i + 1)
    }
}

/// The first pair whose key is `k`.
pub open spec fn find_key(v: Seq<(Seq<char>, Seq<char>)>, k: Seq<char>) -> Option<int> {
    find_key_from(v, k, 0)
}

/// The pairs with `(k, val)` put in: replacing the value of the first pair
/// with key `k`, else added at the end.
pub open spec fn put_pair(v: Seq<(Seq<char>, Seq<char>)>, k: Seq<char>, val: Seq<char>) -> Seq<(Seq<char>, Seq<char>)> {
    match find_key(v, k) {
        Some(i) => v.update(i, (k, val)),
        None => v.push((k, val)),
    }
}

/// The pairs without the first pair with key `k`.
pub open spec fn drop_pair(v: Seq<(Seq<char>, Seq<char>)>, k: Seq<char>) -> Seq<(Seq<char>, Seq<char>)> {
    match find_key(v, k) {
        Some(i) => v.remove(i),
        None => v,
    }
}

proof fn lemma_find_key_from(v: Seq<(Seq<char>, Seq<char>)>, k: Seq<char>, i: int)
    requires
        0 <= i,
    ensures
        find_key_from(v, k, i) matches Some(j) ==> i <= j < v.len() && v[j].0 == k,
    decreases v.len() - i,
{
    if i < v.len() && v[i].0 != k {
        lemma_find_key_from(v, k, i + 1);
    }
}

/// The position of the first pair with key `k` (see [`find_key`]).
fn find_key_exec(v: &Vec<(String, String)>, k: &[char]) -> (r: Option<usize>)
    ensures
        match find_key(pairs_view(v@), k@) {
            Some(i) => (r matches Some(j) && j as int == i) && 0 <= i < v.len(),
            None => r is None,
        },
{
    let ghost pv = pairs_view(v@);
    proof {
        lemma_find_key_from(pv, k@, 0);
    }
    let mut i: usize = 0;
    while i < v.len()
        invariant
            i <= v.len(),
            pv == pairs_view(v@),
            find_key_from(pv, k@, 0) == find_key_from(pv, k@, i as int),
        decreases v.len() - i,
    {
        if chars_eq(&chars_of(v[i].0.as_str()), k) {
            assert(pv[i as int].0 == k@);
            return Some(i);
        }
        assert(pv[i as int].0 != k@);
        i += 1;
    }
    None
}

/// Put `(k, val)` into string pairs (see [`put_pair`]).
fn put_pair_exec(v: &mut Vec<(String, String)>, k: &str, val: &str)
    ensures
        pairs_view(final(v)@) == put_pair(pairs_view(old(v)@), k@, val@),
{
    let ghost before = pairs_view(v@);
    match find_key_exec(v, &chars_of(k)) {
        Some(i) => {
            v.set(i, (owned(k), owned(val)));
            assert(pairs_view(v@) =~= before.update(i as int, (k@, val@)));
        },
        None => {
            v.push((owned(k), owned(val)));
            assert(pairs_view(v@) =~= before.push((k@, val@)));
        },
    }
}

fn copy_pairs(v: &Vec<(String, String)>) -> (r: Vec<(String, String)>)
    ensures
        pairs_view(r@) == pairs_view(v@),
{
    let mut out: Vec<(String, String)> = Vec::new();
    let mut i: usize = 0;
    while i < v.len()
        invariant
            i <= v.len(),
            pairs_view(out@) == pairs_view(v@).take(i as int),
        decreases v.len() - i,
    {
        let ghost before = pairs_view(out@);
        out.push((copy_text(&v[i].0), copy_text(&v[i].1)));
        assert(pairs_view(out@) =~= before.push(pairs_view(v@)[i as int]));
        assert(pairs_view(v@).take(i + 1) =~= pairs_view(v@).take(i as int).push(pairs_view(v@)[i as int]));
        i += 1;
    }
    assert(pairs_view(v@).take(v.len() as int) =~= pairs_view(v@));
    out
}

fn copy_texts(v: &Vec<String>) -> (r: Vec<String>)
    ensures
        texts_of(r@) == texts_of(v@),
{
    let mut out: Vec<String> = Vec::new();
    let mut i: usize = 0;
    while i < v.len()
        invariant
            i <= v.len(),
            texts_of(out@) == texts_of(v@).take(i as int),
        decreases v.len() - i,
    {
        let ghost before = texts_of(out@);
        out.push(copy_text(&v[i]));
        assert(texts_of(out@) =~= before.push(v@[i as int]@));
        assert(texts_of(v@).take(i + 1) =~= texts_of(v@).take(i as int).push(v@[i as int]@));
        i += 1;
    }
    assert(texts_of(v@).take(v.len() as int) =~= texts_of(v@));
    out
}

fn copy_vars(v: &Vec<TemplateVariable>) -> (r: Vec<TemplateVariable>)
    ensures
        vars_of(r@) == vars_of(v@),
{
    let mut out: Vec<TemplateVariable> = Vec::new();
    let mut i: usize = 0;
    while i < v.len()
        invariant
            i <= v.len(),
            vars_of(out@) == vars_of(v@).take(i as int),
        decreases v.len() - i,
    {
        let ghost before = vars_of(out@);
        out.push(clone_var(&v[i]));
        assert(vars_of(out@) =~= before.push(var_view(v@[i as int])));
        assert(vars_of(v@).take(i + 1) =~= vars_of(v@).take(i as int).push(var_view(v@[i as int])));
        i += 1;
    }
    assert(vars_of(v@).take(v.len() as int) =~= vars_of(v@));
    out
}

/// A copy of a template.
pub fn clone_template(t: &PromptTemplate) -> (r: PromptTemplate)
    ensures
        template_view(r) == template_view(*t),
{
    PromptTemplate {
        id: copy_text(&t.id),
        name: copy_text(&t.name),
        description: copy_text(&t.description),
        content: copy_text(&t.content),
        variables: copy_vars(&t.variables),
        version: t.version,
        created_at: t.created_at,
        updated_at: t.updated_at,
        tags: copy_texts(&t.tags),
        variants: copy_pairs(&t.variants),
        metadata: copy_pairs(&t.metadata),
    }
}

impl PromptTemplate {
    /// A new template at version 1, created and updated now, with no
    /// description, variables, tags, variants or metadata.
    pub fn new(id: &str, name: &str, content: &str) -> (r: Self)
        ensures
            r.id@ == id@,
            r.name@ == name@,
            r.description@ == Seq::<char>::empty(),
            r.content@ == content@,
            r.variables@.len() == 0,
            r.version == 1,
            r.created_at == r.updated_at,
            r.tags@.len() == 0,
            r.variants@.len() == 0,
            r.metadata@.len() == 0,
    {
        let now = utc_now_millis();
        PromptTemplate {
            id: owned(id),
            name: owned(name),
            description: String::new(),
            content: owned(content),
            variables: Vec::new(),
            version: 1,
            created_at: now,
            updated_at: now,
            tags: Vec::new(),
            variants: Vec::new(),
            metadata: Vec::new(),
        }
    }

    /// The template with a description.
    pub fn with_description(self, desc: &str) -> (r: Self)
        ensures
            template_view(r) == (TemplateView { description: desc@, ..template_view(self) }),
    {
        let mut s = self;
        s.description = owned(desc);
        s
    }

    /// The template with one more variable.
    pub fn with_variable(self, var: TemplateVariable) -> (r: Self)
        ensures
            template_view(r) == (TemplateView {
                variables: vars_of(self.variables@).push(var_view(var)),
                ..template_view(self)
            }),
    {
        let mut s = self;
        let ghost before = vars_of(s.variables@);
        let ghost vv = var_view(var);
        s.variables.push(var);
        assert(vars_of(s.variables@) =~= before.push(vv));
        s
    }

    /// The template with more variables, in order.
    pub fn with_variables(self, vars: Vec<TemplateVariable>) -> (r: Self)
        ensures
            template_view(r) == (TemplateView {
                variables: vars_of(self.variables@) + vars_of(vars@),
                ..template_view(self)
            }),
    {
        let mut s = self;
        let ghost base = vars_of(s.variables@);
        let ghost add = vars_of(vars@);
        let mut vars = vars;
        let mut rest: Vec<TemplateVariable> = Vec::new();
        while vars.len() > 0
            invariant
                vars_of(vars@) + vars_of(rest@).reverse() == add,
            decreases vars.len(),
        {
            let ghost b1 = vars_of(vars@);
            let ghost b2 = vars_of(rest@);
            let v = vars.pop().unwrap();
            rest.push(v);
            assert(b1 =~= vars_of(vars@).push(var_view(v)));
            assert(vars_of(rest@) =~= b2.push(var_view(v)));
            assert(vars_of(rest@).reverse() =~= seq![var_view(v)] + b2.reverse());
            assert(vars_of(vars@) + vars_of(rest@).reverse() =~= b1 + b2.reverse());
        }
        assert(vars_of(vars@) =~= Seq::<VarView>::empty());
        while rest.len() > 0
            invariant
                vars_of(s.variables@) + vars_of(rest@).reverse() == base + add,
                s.id == self.id,
                s.name == self.name,
                s.description == self.description,
                s.content == self.content,
                s.version == self.version,
                s.created_at == self.created_at,
                s.updated_at == self.updated_at,
                s.tags == self.tags,
                s.variants == self.variants,
                s.metadata == self.metadata,
            decreases rest.len(),
        {
            let ghost b1 = vars_of(s.variables@);
            let ghost b2 = vars_of(rest@);
            let v = rest.pop().unwrap();
            s.variables.push(v);
            assert(b2 =~= vars_of(rest@).push(var_view(v)));
            assert(b2.reverse() =~= seq![var_view(v)] + vars_of(rest@).reverse());
            assert(vars_of(s.variables@) =~= b1.push(var_view(v)));
            assert(vars_of(s.variables@) + vars_of(rest@).reverse() =~= b1 + b2.reverse());
        }
        assert(vars_of(rest@).reverse() =~= Seq::<VarView>::empty());
        assert(vars_of(s.variables@) =~= base + add);
        s
    }

    /// The template with one more tag.
    pub fn with_tag(self, tag: &str) -> (r: Self)
        ensures
            template_view(r) == (TemplateView { tags: texts_of(self.tags@).push(tag@), ..template_view(self) }),
    {
        let mut s = self;
        let ghost before = texts_of(s.tags@);
        s.tags.push(owned(tag));
        assert(texts_of(s.tags@) =~= before.push(tag@));
        s
    }

    /// The template with a variant's content set (see [`put_pair`]).
    pub fn with_variant(self, name: &str, content: &str) -> (r: Self)
        ensures
            template_view(r) == (TemplateView {
                variants: put_pair(pairs_view(self.variants@), name@, content@),
                ..template_view(self)
            }),
    {
        let mut s = self;
        put_pair_exec(&mut s.variants, name, content);
        s
    }

    /// The template with a metadata entry set (see [`put_pair`]).
    pub fn with_metadata(self, key: &str, value: &str) -> (r: Self)
        ensures
            template_view(r) == (TemplateView {
                metadata: put_pair(pairs_view(self.metadata@), key@, value@),
                ..template_view(self)
            }),
    {
        let mut s = self;
        put_pair_exec(&mut s.metadata, key, value);
        s
    }
}

} // verus!
