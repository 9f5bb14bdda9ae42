use vstd::prelude::*;

use crate::aggregate::{Aggregate, AggregateKind, Field};
use crate::bound::{
    auto_bounds, deref_all, infer_bounds, infer_spec, lemma_auto_bounds_exact, lemma_auto_bounds_no_types, mentions, views,
    BoundMode, BoundsView, TypeRef, WhereBounds,
};
use crate::capability::{name_is, Trait};
use crate::meta::{entry_at, Decoder, find_entry, find_entry_index, Error, Features, Lit, Meta, MetaKind, NestedMeta, Pos};

verus! {

/// What a field's annotations say for the default-value capability.
#[derive(Clone, Debug, PartialEq, Eq)]
pub enum Selection {
    /// The field is not selected.
    Unset,
    /// The field is selected and built by its own default capability.
    Flag,
    /// The field is selected and built by this expression.
    Expression(String),
}

/// Resolves a field's annotations for the default-value capability.
#[derive(Clone, Copy, Debug, PartialEq, Eq, Structural)]
pub struct DefaultFieldAttributeBuilder {
    /// Whether the bare `Default` marker is accepted.
    pub enable_flag: bool,
    /// Whether `Default = "expr"` and `Default(expression = "expr")` are accepted.
    pub enable_expression: bool,
}

/// Type-wide directives for the default-value capability.
#[derive(Clone, Debug, PartialEq, Eq)]
pub struct DefaultTypeAttribute {
    pub flag: bool,
    /// Also generate a zero-argument `new` constructor.
    pub new: bool,
    /// An expression that builds the whole value.
    pub expression: Option<String>,
    pub bound: BoundMode,
}

/// Resolves the type-level `Default` entry.
#[derive(Clone, Copy, Debug, PartialEq, Eq, Structural)]
pub struct DefaultTypeAttributeBuilder {
    pub enable_flag: bool,
    pub enable_new: bool,
    pub enable_expression: bool,
    pub enable_bound: bool,
}

pub open spec fn field_format_error(b: DefaultFieldAttributeBuilder) -> Error {
    Error::IncorrectAttributeFormat {
        capability: Trait::Default,
        usage: Features { flag: b.enable_flag, new: false, expression: b.enable_expression, bound: false },
    }
}

/// The string of an `expression = "..."` entry.
pub open spec fn expression_entry(n: NestedMeta) -> Option<String> {
    match n {
        NestedMeta::Meta(m) => if m.name@ == "expression"@ {
            match m.kind {
                MetaKind::NameValue(Lit::Str(s)) => Some(s),
                _ => None,
            }
        } else {
            None
        },
        _ => None,
    }
}

/// The selection that one field-level `Default` entry gives: a bare marker,
/// `Default = "expr"`, or `Default(expression = "expr")`, each where enabled.
pub open spec fn field_meta_spec(b: DefaultFieldAttributeBuilder, m: Meta) -> Result<Selection, Error> {
    match m.kind {
        MetaKind::Word => if b.enable_flag {
            Ok(Selection::Flag)
        } else {
            Err(field_format_error(b))
        },
        MetaKind::NameValue(Lit::Str(s)) => if b.enable_expression {
            Ok(Selection::Expression(s))
        } else {
            Err(field_format_error(b))
        },
        MetaKind::NameValue(_) => Err(field_format_error(b)),
        MetaKind::List(ns) => if b.enable_expression && ns@.len() == 1 && expression_entry(ns@[0]) is Some {
            Ok(Selection::Expression(expression_entry(ns@[0]).unwrap()))
        } else {
            Err(field_format_error(b))
        },
    }
}

/// The selection that a field's annotations give; with no `Default` entry
/// the field is not selected.
pub open spec fn field_attributes_spec(
    b: DefaultFieldAttributeBuilder,
    attrs: Seq<Meta>,
    traits: Seq<Trait>,
) -> Result<Selection, Error> {
    match find_entry(traits, Decoder::Default(b), attrs) {
        Err(e) => Err(e),
        Ok(None) => Ok(Selection::Unset),
        Ok(Some(at)) => match entry_at(attrs, at) {
            Some(m) => field_meta_spec(b, m),
            None => Ok(Selection::Unset),
        },
    }
}

fn expression_of(n: &NestedMeta) -> (r: Option<String>)
    ensures
        r == expression_entry(*n),
{
    match n {
        NestedMeta::Meta(m) => {
            if name_is(&m.name, "expression") {
                match &m.kind {
                    MetaKind::NameValue(Lit::Str(s)) => Some(s.clone()),
                    _ => None,
                }
            } else {
                None
            }
        },
        _ => None,
    }
}

impl DefaultFieldAttributeBuilder {
    /// Decodes one field-level `Default` entry.
    pub fn from_default_meta(&self, meta: &Meta) -> (r: Result<Selection, Error>)
        ensures
            r == field_meta_spec(*self, *meta),
    {
        let usage = Features { flag: self.enable_flag, new: false, expression: self.enable_expression, bound: false };
        let fail = Error::IncorrectAttributeFormat { capability: Trait::Default, usage };
        match &meta.kind {
            MetaKind::Word => if self.enable_flag {
                Ok(Selection::Flag)
            } else {
                Err(fail)
            },
            MetaKind::NameValue(Lit::Str(s)) => if self.enable_expression {
                Ok(Selection::Expression(s.clone()))
            } else {
                Err(fail)
            },
            MetaKind::NameValue(_) => Err(fail),
            MetaKind::List(ns) => {
                if self.enable_expression && ns.len() == 1 {
                    match expression_of(&ns[0]) {
                        Some(s) => Ok(Selection::Expression(s)),
                        None => Err(fail),
                    }
                } else {
                    Err(fail)
                }
            },
        }
    }

    /// Resolves the annotations of one field against the capabilities being
    /// derived (`traits`).
    pub fn from_attributes(&self, attributes: &[Meta], traits: &[Trait]) -> (r: Result<Selection, Error>)
        ensures
            r == field_attributes_spec(*self, attributes@, traits@),
    {
        match find_entry_index(attributes, traits, Decoder::Default(*self)) {
            Err(e) => Err(e),
            Ok(None) => Ok(Selection::Unset),
            Ok(Some(at)) => {
                let a = &attributes[at.0];
                match &a.kind {
                    MetaKind::List(ns) => match &ns[at.1] {
                        NestedMeta::Meta(m) => self.from_default_meta(m),
                        _ => Ok(Selection::Unset),
                    },
                    _ => Ok(Selection::Unset),
                }
            },
        }
    }
}

pub open spec fn type_format_error(b: DefaultTypeAttributeBuilder) -> Error {
    Error::IncorrectAttributeFormat {
        capability: Trait::Default,
        usage: Features { flag: b.enable_flag, new: b.enable_new, expression: b.enable_expression, bound: b.enable_bound },
    }
}

/// The attribute of a `Default(...)` list before any of its entries.
pub open spec fn empty_type_attribute() -> DefaultTypeAttribute {
    DefaultTypeAttribute { flag: false, new: false, expression: None, bound: BoundMode::Auto }
}

/// The bound mode that a `bound` entry asks for: `bound`, `bound = true`,
/// `bound = false` or `bound = "predicates"`.
pub open spec fn bound_entry(k: MetaKind) -> Option<BoundMode> {
    match k {
        MetaKind::Word => Some(BoundMode::Auto),
        MetaKind::NameValue(Lit::Bool(v)) => Some(if v { BoundMode::Auto } else { BoundMode::Disabled }),
        MetaKind::NameValue(Lit::Str(s)) => Some(BoundMode::Explicit(s)),
        _ => None,
    }
}

/// One entry of a type-level `Default(...)` list; the flag beside the
/// attribute records that a `bound` entry was seen. Each key may appear once.
pub open spec fn type_entry(
    b: DefaultTypeAttributeBuilder,
    acc: Result<(DefaultTypeAttribute, bool), Error>,
    n: NestedMeta,
) -> Result<(DefaultTypeAttribute, bool), Error> {
    match acc {
        Err(_) => acc,
        Ok((a, bound_seen)) => match n {
            NestedMeta::Literal(_) => Err(type_format_error(b)),
            NestedMeta::Meta(m) => if m.name@ == "new"@ {
                if b.enable_new && m.kind is Word && !a.new {
                    Ok((DefaultTypeAttribute { new: true, ..a }, bound_seen))
                } else {
                    Err(type_format_error(b))
                }
            } else if m.name@ == "expression"@ {
                if b.enable_expression && a.expression is None && expression_entry(n) is Some {
                    Ok((DefaultTypeAttribute { expression: expression_entry(n), ..a }, bound_seen))
                } else {
                    Err(type_format_error(b))
                }
            } else if m.name@ == "bound"@ {
                if b.enable_bound && !bound_seen && bound_entry(m.kind) is Some {
                    Ok((DefaultTypeAttribute { bound: bound_entry(m.kind).unwrap(), ..a }, true))
                } else {
                    Err(type_format_error(b))
                }
            } else {
                Err(type_format_error(b))
            },
        },
    }
}

pub open spec fn type_entries(
    b: DefaultTypeAttributeBuilder,
    acc: Result<(DefaultTypeAttribute, bool), Error>,
    ns: Seq<NestedMeta>,
    j: int,
) -> Result<(DefaultTypeAttribute, bool), Error>
    decreases ns.len() - j,
{
    if j < 0 || j >= ns.len() {
        acc
    } else {
        type_entries(b, type_entry(b, acc, ns[j]), ns, j + 1)
    }
}

/// The type attribute that the type-level `Default` entry gives: a bare
/// marker, `Default = "expr"`, or a list of `new`, `expression = "expr"` and
/// `bound` entries, each where enabled.
pub open spec fn type_meta_spec(b: DefaultTypeAttributeBuilder, m: Meta) -> Result<DefaultTypeAttribute, Error> {
    match m.kind {
        MetaKind::Word => if b.enable_flag {
            Ok(DefaultTypeAttribute { flag: true, ..empty_type_attribute() })
        } else {
            Err(type_format_error(b))
        },
        MetaKind::NameValue(Lit::Str(s)) => if b.enable_expression {
            Ok(DefaultTypeAttribute { expression: Some(s), ..empty_type_attribute() })
        } else {
            Err(type_format_error(b))
        },
        MetaKind::NameValue(_) => Err(type_format_error(b)),
        MetaKind::List(ns) => match type_entries(b, Ok((empty_type_attribute(), false)), ns@, 0) {
            Err(e) => Err(e),
            Ok((a, _)) => Ok(a),
        },
    }
}

proof fn lemma_type_entries_keep_error(b: DefaultTypeAttributeBuilder, e: Error, ns: Seq<NestedMeta>, j: int)
    ensures
        type_entries(b, Err(e), ns, j) == Err::<(DefaultTypeAttribute, bool), Error>(e),
    decreases ns.len() - j,
{
    if 0 <= j < ns.len() {
        lemma_type_entries_keep_error(b, e, ns, j + 1);
    }
}

fn bound_of(k: &MetaKind) -> (r: Option<BoundMode>)
    ensures
        r == bound_entry(*k),
{
    match k {
        MetaKind::Word => Some(BoundMode::Auto),
        MetaKind::NameValue(Lit::Bool(v)) => Some(if *v { BoundMode::Auto } else { BoundMode::Disabled }),
        MetaKind::NameValue(Lit::Str(s)) => Some(BoundMode::Explicit(s.clone())),
        _ => None,
    }
}

impl DefaultTypeAttributeBuilder {
    /// Decodes the type-level `Default` entry.
    pub fn from_default_meta(&self, meta: &Meta) -> (r: Result<DefaultTypeAttribute, Error>)
        ensures
            r == type_meta_spec(*self, *meta),
    {
        let usage = Features {
            flag: self.enable_flag,
            new: self.enable_new,
            expression: self.enable_expression,
            bound: self.enable_bound,
        };
        let fail = Error::IncorrectAttributeFormat { capability: Trait::Default, usage };
        let mut attr = DefaultTypeAttribute { flag: false, new: false, expression: None, bound: BoundMode::Auto };
        match &meta.kind {
            MetaKind::Word => if self.enable_flag {
                attr.flag = true;
                Ok(attr)
            } else {
                Err(fail)
            },
            MetaKind::NameValue(Lit::Str(s)) => if self.enable_expression {
                attr.expression = Some(s.clone());
                Ok(attr)
            } else {
                Err(fail)
            },
            MetaKind::NameValue(_) => Err(fail),
            MetaKind::List(ns) => {
                let mut bound_seen = false;
                let mut j: usize = 0;
                while j < ns.len()
                    invariant
                        0 <= j <= ns@.len(),
                        fail == type_format_error(*self),
                        meta.kind == MetaKind::List(*ns),
                        type_entries(*self, Ok((attr, bound_seen)), ns@, j as int) == type_entries(
                            *self,
                            Ok((empty_type_attribute(), false)),
                            ns@,
                            0,
                        ),
                    decreases ns@.len() - j,
                {
                    let ok = match &ns[j] {
                        NestedMeta::Literal(_) => false,
                        NestedMeta::Meta(m) => {
                            if name_is(&m.name, "new") {
                                if self.enable_new && matches!(m.kind, MetaKind::Word) && !attr.new {
                                    attr.new = true;
                                    true
                                } else {
                                    false
                                }
                            } else if name_is(&m.name, "expression") {
                                let x = expression_of(&ns[j]);
                                if self.enable_expression && attr.expression.is_none() && x.is_some() {
                                    attr.expression = x;
                                    true
                                } else {
                                    false
                                }
                            } else if name_is(&m.name, "bound") {
                                let x = bound_of(&m.kind);
                                match x {
                                    Some(mode) => if self.enable_bound && !bound_seen {
                                        attr.bound = mode;
                                        bound_seen = true;
                                        true
                                    } else {
                                        false
                                    },
                                    None => false,
                                }
                            } else {
                                false
                            }
                        },
                    };
                    if !ok {
                        proof {
                            lemma_type_entries_keep_error(*self, fail, ns@, j + 1);
                        }
                        return Err(fail);
                    }
                    j = j + 1;
                }
                Ok(attr)
            },
        }
    }
}

} // verus!

verus! {

/// How the selected field is built.
#[derive(Clone, Debug, PartialEq, Eq)]
pub enum Init {
    /// By this expression.
    Expression(String),
    /// By the field type's own default capability.
    Fallback,
}

/// The body of a generated `default`.
#[derive(Clone, Debug, PartialEq, Eq)]
pub enum Body {
    /// The type-level expression, verbatim.
    Expression(String),
    /// A value built field by field: the selected field by `init`; in a
    /// record every other field by its own default capability, in a union
    /// no other field.
    Construct { selected: usize, init: Init },
}

/// The implementation to generate for the default-value capability.
#[derive(Clone, Debug, PartialEq, Eq)]
pub struct DefaultImpl {
    pub body: Body,
    /// Each constrained parameter must implement the default-value capability.
    pub bounds: WhereBounds,
    /// Also generate `new`, which forwards to `default`.
    pub new: bool,
}

pub struct DefaultImplView {
    pub body: Body,
    pub bounds: BoundsView,
    pub new: bool,
}

impl DefaultImpl {
    pub open spec fn view(&self) -> DefaultImplView {
        DefaultImplView { body: self.body, bounds: self.bounds@, new: self.new }
    }
}

pub open spec fn result_view(r: Result<DefaultImpl, Error>) -> Result<DefaultImplView, Error> {
    match r {
        Ok(d) => Ok(d@),
        Err(e) => Err(e),
    }
}

/// The fields a `Construct` body initialises, each with how: in a record
/// every field in order, the selected one by `init` and every other one by
/// fallback; in a union only the selected one. An expression body
/// initialises no field separately.
pub open spec fn field_inits_spec(kind: AggregateKind, field_count: nat, body: Body) -> Seq<(usize, Init)> {
    match body {
        Body::Expression(_) => seq![],
        Body::Construct { selected, init } => match kind {
            AggregateKind::Record => Seq::new(
                field_count,
                |k: int|
                    (
                        k as usize,
                        if k == selected as int {
                            init
                        } else {
                            Init::Fallback
                        },
                    ),
            ),
            AggregateKind::Union => seq![(selected, init)],
        },
    }
}

fn copy_init(init: &Init) -> (r: Init)
    ensures
        r == *init,
{
    match init {
        Init::Expression(x) => Init::Expression(x.clone()),
        Init::Fallback => Init::Fallback,
    }
}

impl DefaultImpl {
    /// The fields that the generated body initialises, in order, each with
    /// how it is built, for an aggregate of `kind` with `field_count` fields.
    pub fn field_inits(&self, kind: AggregateKind, field_count: usize) -> (r: Vec<(usize, Init)>)
        ensures
            r@ == field_inits_spec(kind, field_count as nat, self.body),
    {
        let mut out: Vec<(usize, Init)> = Vec::new();
        match &self.body {
            Body::Expression(_) => {
                assert(out@ =~= field_inits_spec(kind, field_count as nat, self.body));
            },
            Body::Construct { selected, init } => match kind {
                AggregateKind::Union => {
                    out.push((*selected, copy_init(init)));
                    assert(out@ =~= field_inits_spec(kind, field_count as nat, self.body));
                },
                AggregateKind::Record => {
                    let mut k: usize = 0;
                    while k < field_count
                        invariant
                            0 <= k <= field_count,
                            kind == AggregateKind::Record,
                            self.body == (Body::Construct { selected: *selected, init: *init }),
                            out@ =~= field_inits_spec(kind, field_count as nat, self.body).take(k as int),
                        decreases field_count - k,
                    {
                        let how = if k == *selected {
                            copy_init(init)
                        } else {
                            Init::Fallback
                        };
                        out.push((k, how));
                        k = k + 1;
                    }
                    assert(out@ =~= field_inits_spec(kind, field_count as nat, self.body));
                },
            },
        }
        out
    }
}

/// Field annotations when a field may be selected.
pub open spec fn select_builder() -> DefaultFieldAttributeBuilder {
    DefaultFieldAttributeBuilder { enable_flag: true, enable_expression: true }
}

/// Field annotations when a type-level expression decides the body: only
/// checked.
pub open spec fn check_builder() -> DefaultFieldAttributeBuilder {
    DefaultFieldAttributeBuilder { enable_flag: false, enable_expression: false }
}

/// The type-level entry accepts every form.
pub open spec fn type_builder() -> DefaultTypeAttributeBuilder {
    DefaultTypeAttributeBuilder { enable_flag: true, enable_new: true, enable_expression: true, enable_bound: true }
}

/// Field `i` seen by the selection scan.
pub open spec fn select_step(
    traits: Seq<Trait>,
    fields: Seq<Field>,
    acc: Result<Option<(usize, Selection)>, Error>,
    i: int,
) -> Result<Option<(usize, Selection)>, Error> {
    match acc {
        Err(_) => acc,
        Ok(found) => match field_attributes_spec(select_builder(), fields[i].attrs@, traits) {
            Err(e) => Err(e),
            Ok(s) => if s is Unset {
                acc
            } else if found is Some {
                Err(Error::MultipleDefaultFields(fields[i].pos))
            } else {
                Ok(Some((i as usize, s)))
            },
        },
    }
}

/// The selection scan over `fields[i..]`, starting from `acc`.
pub open spec fn select_from(
    traits: Seq<Trait>,
    fields: Seq<Field>,
    acc: Result<Option<(usize, Selection)>, Error>,
    i: int,
) -> Result<Option<(usize, Selection)>, Error>
    decreases fields.len() - i,
{
    if i < 0 || i >= fields.len() {
        acc
    } else {
        select_from(traits, fields, select_step(traits, fields, acc, i), i + 1)
    }
}

/// The check of the annotations of `fields[i..]`, starting from `acc`.
pub open spec fn check_from(traits: Seq<Trait>, fields: Seq<Field>, acc: Result<(), Error>, i: int) -> Result<
    (),
    Error,
>
    decreases fields.len() - i,
{
    if i < 0 || i >= fields.len() {
        acc
    } else {
        let next = match acc {
            Err(_) => acc,
            Ok(_) => match field_attributes_spec(check_builder(), fields[i].attrs@, traits) {
                Err(e) => Err(e),
                Ok(_) => acc,
            },
        };
        check_from(traits, fields, next, i + 1)
    }
}

/// The field that the default value is built around, and its selection: a
/// lone field is selected whatever its annotations; otherwise exactly one
/// field must be selected.
pub open spec fn chosen_field(ast: Aggregate, traits: Seq<Trait>) -> Result<(usize, Selection), Error> {
    if ast.fields@.len() == 1 {
        match field_attributes_spec(select_builder(), ast.fields@[0].attrs@, traits) {
            Err(e) => Err(e),
            Ok(s) => Ok((0usize, s)),
        }
    } else {
        match select_from(traits, ast.fields@, Ok(None), 0) {
            Err(e) => Err(e),
            Ok(None) => Err(Error::NoDefaultField(ast.pos)),
            Ok(Some(p)) => Ok(p),
        }
    }
}

pub open spec fn init_of(s: Selection) -> Init {
    match s {
        Selection::Expression(x) => Init::Expression(x),
        _ => Init::Fallback,
    }
}

/// The types of the fields `fields[..n]` of a record that are built by
/// their own default capability: all but the selected one, unless it is
/// built by fallback too.
pub open spec fn record_fallback(fields: Seq<Field>, selected: int, selected_falls_back: bool, n: int) -> Seq<
    TypeRef,
>
    decreases n,
{
    if n <= 0 {
        seq![]
    } else {
        let prev = record_fallback(fields, selected, selected_falls_back, n - 1);
        if n - 1 != selected || selected_falls_back {
            prev.push(fields[n - 1].ty)
        } else {
            prev
        }
    }
}

/// The types of the fields built by their own default capability.
pub open spec fn fallback_types(kind: AggregateKind, fields: Seq<Field>, selected: int, init: Init) -> Seq<TypeRef> {
    match kind {
        AggregateKind::Record => record_fallback(fields, selected, init is Fallback, fields.len() as int),
        AggregateKind::Union => if init is Fallback {
            seq![fields[selected].ty]
        } else {
            seq![]
        },
    }
}

/// The default-value implementation for `ast`, given the type-level
/// `Default` entry `meta` and the capabilities being derived.
pub open spec fn derive_default_spec(ast: Aggregate, traits: Seq<Trait>, meta: Meta) -> Result<DefaultImplView, Error> {
    match type_meta_spec(type_builder(), meta) {
        Err(e) => Err(e),
        Ok(ta) => match ta.expression {
            Some(x) => match check_from(traits, ast.fields@, Ok(()), 0) {
                Err(e) => Err(e),
                Ok(_) => Ok(
                    DefaultImplView {
                        body: Body::Expression(x),
                        bounds: infer_spec(ta.bound, views(ast.generics@), seq![]),
                        new: ta.new,
                    },
                ),
            },
            None => match chosen_field(ast, traits) {
                Err(e) => Err(e),
                Ok((sel, s)) => Ok(
                    DefaultImplView {
                        body: Body::Construct { selected: sel, init: init_of(s) },
                        bounds: infer_spec(
                            ta.bound,
                            views(ast.generics@),
                            fallback_types(ast.kind, ast.fields@, sel as int, init_of(s)),
                        ),
                        new: ta.new,
                    },
                ),
            },
        },
    }
}

proof fn lemma_select_keeps_error(traits: Seq<Trait>, fields: Seq<Field>, e: Error, i: int)
    ensures
        select_from(traits, fields, Err(e), i) == Err::<Option<(usize, Selection)>, Error>(e),
    decreases fields.len() - i,
{
    if 0 <= i < fields.len() {
        lemma_select_keeps_error(traits, fields, e, i + 1);
    }
}

proof fn lemma_check_keeps_error(traits: Seq<Trait>, fields: Seq<Field>, e: Error, i: int)
    ensures
        check_from(traits, fields, Err(e), i) == Err::<(), Error>(e),
    decreases fields.len() - i,
{
    if 0 <= i < fields.len() {
        lemma_check_keeps_error(traits, fields, e, i + 1);
    }
}

fn check_fields(fields: &Vec<Field>, traits: &[Trait]) -> (r: Result<(), Error>)
    ensures
        r == check_from(traits@, fields@, Ok(()), 0),
{
    let b = DefaultFieldAttributeBuilder { enable_flag: false, enable_expression: false };
    let mut i: usize = 0;
    while i < fields.len()
        invariant
            0 <= i <= fields@.len(),
            b == check_builder(),
            check_from(traits@, fields@, Ok(()), i as int) == check_from(traits@, fields@, Ok(()), 0),
        decreases fields@.len() - i,
    {
        match b.from_attributes(fields[i].attrs.as_slice(), traits) {
            Err(e) => {
                proof {
                    lemma_check_keeps_error(traits@, fields@, e, i + 1);
                }
                return Err(e);
            },
            Ok(_) => {},
        }
        i = i + 1;
    }
    Ok(())
}

fn choose_field(ast: &Aggregate, traits: &[Trait]) -> (r: Result<(usize, Selection), Error>)
    ensures
        r == chosen_field(*ast, traits@),
        r matches Ok((sel, _)) ==> sel < ast.fields@.len(),
{
    let b = DefaultFieldAttributeBuilder { enable_flag: true, enable_expression: true };
    let fields = &ast.fields;
    if fields.len() == 1 {
        return match b.from_attributes(fields[0].attrs.as_slice(), traits) {
            Err(e) => Err(e),
            Ok(s) => Ok((0, s)),
        };
    }
    let mut found: Option<(usize, Selection)> = None;
    let mut i: usize = 0;
    while i < fields.len()
        invariant
            0 <= i <= fields@.len(),
            b == select_builder(),
            fields@.len() != 1,
            fields@ == ast.fields@,
            found matches Some((k, _)) ==> k < fields@.len(),
            select_from(traits@, fields@, Ok(found), i as int) == select_from(traits@, fields@, Ok(None), 0),
        decreases fields@.len() - i,
    {
        match b.from_attributes(fields[i].attrs.as_slice(), traits) {
            Err(e) => {
                proof {
                    lemma_select_keeps_error(traits@, fields@, e, i + 1);
                }
                return Err(e);
            },
            Ok(s) => {
                if !matches!(s, Selection::Unset) {
                    if found.is_some() {
                        let e = Error::MultipleDefaultFields(fields[i].pos);
                        proof {
                            lemma_select_keeps_error(traits@, fields@, e, i + 1);
                        }
                        return Err(e);
                    }
                    found = Some((i, s));
                }
            },
        }
        i = i + 1;
    }
    match found {
        Some(p) => Ok(p),
        None => Err(Error::NoDefaultField(ast.pos)),
    }
}

fn collect_fallback_types<'a>(ast: &'a Aggregate, selected: usize, init: &Init) -> (r: Vec<&'a TypeRef>)
    requires
        selected < ast.fields@.len(),
    ensures
        deref_all(r@) == fallback_types(ast.kind, ast.fields@, selected as int, *init),
{
    let falls_back = matches!(init, Init::Fallback);
    let mut tys: Vec<&'a TypeRef> = Vec::new();
    match ast.kind {
        AggregateKind::Union => {
            if falls_back {
                tys.push(&ast.fields[selected].ty);
            }
            assert(deref_all(tys@) =~= fallback_types(ast.kind, ast.fields@, selected as int, *init));
        },
        AggregateKind::Record => {
            let mut k: usize = 0;
            assert(deref_all(tys@) =~= seq![]);
            while k < ast.fields.len()
                invariant
                    0 <= k <= ast.fields@.len(),
                    falls_back == init is Fallback,
                    deref_all(tys@) == record_fallback(ast.fields@, selected as int, falls_back, k as int),
                decreases ast.fields@.len() - k,
            {
                if k != selected || falls_back {
                    let ghost before = tys@;
                    tys.push(&ast.fields[k].ty);
                    assert(deref_all(tys@) =~= deref_all(before).push(ast.fields@[k as int].ty));
                }
                k = k + 1;
            }
        },
    }
    tys
}

/// Derives the default-value capability for `ast`, given its type-level
/// `Default` entry `meta` and the capabilities being derived (`traits`).
pub fn derive_default(ast: &Aggregate, traits: &[Trait], meta: &Meta) -> (r: Result<DefaultImpl, Error>)
    ensures
        result_view(r) == derive_default_spec(*ast, traits@, *meta),
{
    let tb = DefaultTypeAttributeBuilder { enable_flag: true, enable_new: true, enable_expression: true, enable_bound: true };
    let ta = match tb.from_default_meta(meta) {
        Err(e) => return Err(e),
        Ok(ta) => ta,
    };
    match &ta.expression {
        Some(x) => {
            match check_fields(&ast.fields, traits) {
                Err(e) => return Err(e),
                Ok(_) => {},
            }
            let tys: Vec<&TypeRef> = Vec::new();
            let bounds = infer_bounds(&ta.bound, &ast.generics, tys.as_slice());
            assert(deref_all(tys@) =~= seq![]);
            Ok(DefaultImpl { body: Body::Expression(x.clone()), bounds, new: ta.new })
        },
        None => {
            let (selected, s) = match choose_field(ast, traits) {
                Err(e) => return Err(e),
                Ok(p) => p,
            };
            let init = match s {
                Selection::Expression(x) => Init::Expression(x),
                _ => Init::Fallback,
            };
            let tys = collect_fallback_types(ast, selected, &init);
            let bounds = infer_bounds(&ta.bound, &ast.generics, tys.as_slice());
            Ok(DefaultImpl { body: Body::Construct { selected, init }, bounds, new: ta.new })
        },
    }
}

/// A lone field with no annotations, under a bare type-level `Default`, is
/// built by its own default capability, and the bounds are exactly the
/// generic parameters that its type mentions.
pub proof fn lemma_single_field_rule(ast: Aggregate, traits: Seq<Trait>, meta: Meta)
    requires
        ast.fields@.len() == 1,
        ast.fields@[0].attrs@.len() == 0,
        meta.kind is Word,
    ensures
        derive_default_spec(ast, traits, meta) matches Ok(v) && v.body == (Body::Construct {
            selected: 0,
            init: Init::Fallback,
        }) && v.bounds == BoundsView::Params(auto_bounds(views(ast.generics@), seq![ast.fields@[0].ty])),
        forall|p: Seq<char>|
            #[trigger] auto_bounds(views(ast.generics@), seq![ast.fields@[0].ty]).contains(p) <==> (views(
                ast.generics@,
            ).contains(p) && views(ast.fields@[0].ty.idents@).contains(p)),
{
    let fields = ast.fields@;
    let ty = fields[0].ty;
    assert(fallback_types(ast.kind, fields, 0, Init::Fallback) =~= seq![ty]) by {
        assert(record_fallback(fields, 0, true, 0) =~= seq![]);
    }
    lemma_auto_bounds_exact(views(ast.generics@), seq![ty]);
    assert forall|p: Seq<char>| mentions(seq![ty], p) <==> views(ty.idents@).contains(p) by {
        if views(ty.idents@).contains(p) {
            assert(views(seq![ty][0].idents@).contains(p));
        }
    }
}

proof fn lemma_select_one(traits: Seq<Trait>, fields: Seq<Field>, s: int, sel: Selection, i: int)
    requires
        0 <= s < fields.len(),
        0 <= i <= fields.len(),
        field_attributes_spec(select_builder(), fields[s].attrs@, traits) == Ok::<Selection, Error>(sel),
        !(sel is Unset),
        forall|k: int|
            0 <= k < fields.len() && k != s ==> field_attributes_spec(select_builder(), #[trigger] fields[k].attrs@, traits)
                == Ok::<Selection, Error>(Selection::Unset),
    ensures
        select_from(
            traits,
            fields,
            if i <= s {
                Ok(None)
            } else {
                Ok(Some((s as usize, sel)))
            },
            i,
        ) == Ok::<Option<(usize, Selection)>, Error>(Some((s as usize, sel))),
    decreases fields.len() - i,
{
    if i < fields.len() {
        lemma_select_one(traits, fields, s, sel, i + 1);
    }
}

/// With several fields of which exactly one is selected, and no type-level
/// expression, that field is built by its expression (or by its own default
/// capability where it has none), and every other field by fallback.
pub proof fn lemma_selection_exclusive(ast: Aggregate, traits: Seq<Trait>, meta: Meta, s: usize, sel: Selection)
    requires
        ast.fields@.len() > 1,
        s < ast.fields@.len(),
        type_meta_spec(type_builder(), meta) matches Ok(ta) && ta.expression is None,
        field_attributes_spec(select_builder(), ast.fields@[s as int].attrs@, traits) == Ok::<Selection, Error>(sel),
        !(sel is Unset),
        forall|k: int|
            0 <= k < ast.fields@.len() && k != s ==> field_attributes_spec(
                select_builder(),
                #[trigger] ast.fields@[k].attrs@,
                traits,
            ) == Ok::<Selection, Error>(Selection::Unset),
    ensures
        derive_default_spec(ast, traits, meta) matches Ok(v) && v.body == (Body::Construct {
            selected: s,
            init: init_of(sel),
        }) && v.bounds == infer_spec(
            type_meta_spec(type_builder(), meta).unwrap().bound,
            views(ast.generics@),
            fallback_types(ast.kind, ast.fields@, s as int, init_of(sel)),
        ),
        forall|k: int|
            0 <= k < ast.fields@.len() && ast.kind is Record ==> #[trigger] field_inits_spec(
                ast.kind,
                ast.fields@.len(),
                Body::Construct { selected: s, init: init_of(sel) },
            )[k] == (k as usize, if k == s as int {
                init_of(sel)
            } else {
                Init::Fallback
            }),
        ast.kind is Union ==> field_inits_spec(
            ast.kind,
            ast.fields@.len(),
            Body::Construct { selected: s, init: init_of(sel) },
        ) == seq![(s, init_of(sel))],
        sel is Expression ==> init_of(sel) == Init::Expression(sel->Expression_0),
        sel is Flag ==> init_of(sel) == Init::Fallback,
{
    lemma_select_one(traits, ast.fields@, s as int, sel, 0);
}

proof fn lemma_select_two(
    traits: Seq<Trait>,
    fields: Seq<Field>,
    a: int,
    sa: Selection,
    b: int,
    i: int,
)
    requires
        0 <= a < b < fields.len(),
        0 <= i <= b,
        field_attributes_spec(select_builder(), fields[a].attrs@, traits) == Ok::<Selection, Error>(sa),
        !(sa is Unset),
        field_attributes_spec(select_builder(), fields[b].attrs@, traits) matches Ok(sb) && !(sb is Unset),
        forall|k: int|
            0 <= k < b && k != a ==> field_attributes_spec(select_builder(), #[trigger] fields[k].attrs@, traits)
                == Ok::<Selection, Error>(Selection::Unset),
    ensures
        select_from(
            traits,
            fields,
            if i <= a {
                Ok(None)
            } else {
                Ok(Some((a as usize, sa)))
            },
            i,
        ) == Err::<Option<(usize, Selection)>, Error>(Error::MultipleDefaultFields(fields[b].pos)),
    decreases fields.len() - i,
{
    if i < b {
        lemma_select_two(traits, fields, a, sa, b, i + 1);
    } else {
        lemma_select_keeps_error(traits, fields, Error::MultipleDefaultFields(fields[b].pos), i + 1);
    }
}

/// Two selected fields of a multi-field aggregate, with no type-level
/// expression, fail with `MultipleDefaultFields` at the second of them.
pub proof fn lemma_conflict_detection(ast: Aggregate, traits: Seq<Trait>, meta: Meta, a: int, b: int)
    requires
        0 <= a < b < ast.fields@.len(),
        type_meta_spec(type_builder(), meta) matches Ok(ta) && ta.expression is None,
        field_attributes_spec(select_builder(), ast.fields@[a].attrs@, traits) matches Ok(sa) && !(sa is Unset),
        field_attributes_spec(select_builder(), ast.fields@[b].attrs@, traits) matches Ok(sb) && !(sb is Unset),
        forall|k: int|
            0 <= k < b && k != a ==> field_attributes_spec(select_builder(), #[trigger] ast.fields@[k].attrs@, traits)
                == Ok::<Selection, Error>(Selection::Unset),
    ensures
        derive_default_spec(ast, traits, meta) == Err::<DefaultImplView, Error>(
            Error::MultipleDefaultFields(ast.fields@[b].pos),
        ),
{
    let sa = field_attributes_spec(select_builder(), ast.fields@[a].attrs@, traits).unwrap();
    lemma_select_two(traits, ast.fields@, a, sa, b, 0);
}

proof fn lemma_select_none(traits: Seq<Trait>, fields: Seq<Field>, i: int)
    requires
        0 <= i <= fields.len(),
        forall|k: int|
            0 <= k < fields.len() ==> field_attributes_spec(select_builder(), #[trigger] fields[k].attrs@, traits)
                == Ok::<Selection, Error>(Selection::Unset),
    ensures
        select_from(traits, fields, Ok(None), i) == Ok::<Option<(usize, Selection)>, Error>(None),
    decreases fields.len() - i,
{
    if i < fields.len() {
        lemma_select_none(traits, fields, i + 1);
    }
}

/// Where no field is selected, there is not exactly one field, and no
/// type-level expression exists, derivation fails with `NoDefaultField` at
/// the type's position.
pub proof fn lemma_absence_detection(ast: Aggregate, traits: Seq<Trait>, meta: Meta)
    requires
        ast.fields@.len() != 1,
        type_meta_spec(type_builder(), meta) matches Ok(ta) && ta.expression is None,
        forall|k: int|
            0 <= k < ast.fields@.len() ==> field_attributes_spec(
                select_builder(),
                #[trigger] ast.fields@[k].attrs@,
                traits,
            ) == Ok::<Selection, Error>(Selection::Unset),
    ensures
        derive_default_spec(ast, traits, meta) == Err::<DefaultImplView, Error>(Error::NoDefaultField(ast.pos)),
{
    lemma_select_none(traits, ast.fields@, 0);
}

proof fn lemma_check_finds_error(traits: Seq<Trait>, fields: Seq<Field>, k: int, i: int)
    requires
        0 <= i <= k < fields.len(),
        field_attributes_spec(check_builder(), fields[k].attrs@, traits) is Err,
    ensures
        check_from(traits, fields, Ok(()), i) is Err,
    decreases k - i,
{
    match field_attributes_spec(check_builder(), fields[i].attrs@, traits) {
        Err(e) => lemma_check_keeps_error(traits, fields, e, i + 1),
        Ok(_) => lemma_check_finds_error(traits, fields, k, i + 1),
    }
}

/// A type-level expression decides the body verbatim; the field annotations
/// are still checked, and any of them that is malformed fails the
/// derivation; unless explicit bounds are written, no bound is emitted.
pub proof fn lemma_expression_precedence(ast: Aggregate, traits: Seq<Trait>, meta: Meta, x: String)
    requires
        type_meta_spec(type_builder(), meta) matches Ok(ta) && ta.expression == Some(x),
    ensures
        derive_default_spec(ast, traits, meta) matches Ok(v) ==> v.body == Body::Expression(x) && (!(type_meta_spec(
            type_builder(),
            meta,
        ).unwrap().bound is Explicit) ==> v.bounds == BoundsView::Params(seq![])),
        check_from(traits, ast.fields@, Ok(()), 0) is Ok ==> derive_default_spec(ast, traits, meta) is Ok,
        forall|k: int|
            0 <= k < ast.fields@.len() && #[trigger] field_attributes_spec(
                check_builder(),
                ast.fields@[k].attrs@,
                traits,
            ) is Err ==> derive_default_spec(ast, traits, meta) is Err,
{
    lemma_auto_bounds_no_types(views(ast.generics@));
    assert forall|k: int|
        0 <= k < ast.fields@.len() && #[trigger] field_attributes_spec(
            check_builder(),
            ast.fields@[k].attrs@,
            traits,
        ) is Err implies derive_default_spec(ast, traits, meta) is Err by {
        lemma_check_finds_error(traits, ast.fields@, k, 0);
    }
}

} // verus!
