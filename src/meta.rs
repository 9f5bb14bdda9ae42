use vstd::prelude::*;

use vstd::string::StringExecFns;

use crate::bound::views;
use crate::capability::{is_active, name_is, trait_name, trait_named, Trait};
use crate::default::{field_attributes_spec, field_meta_spec, DefaultFieldAttributeBuilder};
use crate::deref_mut::{deref_mut_attributes_spec, deref_mut_meta_spec, FieldAttributeBuilder};

verus! {

/// A place in the source text, for diagnostics.
#[derive(Clone, Copy, Debug, PartialEq, Eq, Structural)]
pub struct Pos {
    pub line: u32,
    pub column: u32,
}

/// A literal value inside an annotation.
#[derive(Clone, Debug, PartialEq, Eq)]
pub enum Lit {
    Str(String),
    Bool(bool),
    /// Any other literal, as its source text.
    Other(String),
}

/// An entry of an annotation list: a named entry or a bare literal.
#[derive(Debug, PartialEq, Eq)]
pub enum NestedMeta {
    Meta(Meta),
    Literal(Lit),
}

/// The shape of a named annotation entry.
#[derive(Debug, PartialEq, Eq)]
pub enum MetaKind {
    /// A bare marker: `name`.
    Word,
    /// A list of nested entries: `name(a, b = "c")`.
    List(Vec<NestedMeta>),
    /// A key-value pair: `name = "value"`.
    NameValue(Lit),
}

/// A named annotation entry; an attribute on a type or field is one of these.
#[derive(Debug, PartialEq, Eq)]
pub struct Meta {
    pub name: String,
    pub kind: MetaKind,
    pub pos: Pos,
}

/// The annotation forms a resolver accepts; carried by format errors so that
/// a diagnostic can show correct usages.
#[derive(Clone, Copy, Debug, PartialEq, Eq, Structural)]
pub struct Features {
    pub flag: bool,
    pub new: bool,
    pub expression: bool,
    pub bound: bool,
}

/// Why an annotation could not be resolved.
#[derive(Clone, Debug, PartialEq, Eq)]
pub enum Error {
    /// An entry for the capability does not have one of the accepted forms.
    IncorrectAttributeFormat { capability: Trait, usage: Features },
    /// An entry names a capability that is not being derived.
    CapabilityNotInUse(Trait),
    /// The same capability is annotated twice on one entity.
    CapabilityReused(Trait),
    /// An entry names no known capability.
    UnsupportedCapability(String),
    /// A second field is selected; the position is that field's.
    MultipleDefaultFields(Pos),
    /// No field is selected; the position is the type's.
    NoDefaultField(Pos),
    /// An `educe` attribute is not a list of named entries.
    MalformedAnnotationTree,
}

/// A correct usage of `capability`, with `inner` after its name.
pub open spec fn usage_line(capability: Trait, inner: Seq<char>) -> Seq<char> {
    "#[educe("@ + trait_name(capability) + inner + ")]"@
}

pub open spec fn usage_if(on: bool, capability: Trait, inner: Seq<char>) -> Seq<Seq<char>> {
    if on {
        seq![usage_line(capability, inner)]
    } else {
        seq![]
    }
}

/// The correct usages of `capability` under the accepted forms `f`: the
/// bare marker, then `new`, `expression` and `bound`, each where accepted.
pub open spec fn usage_examples_spec(capability: Trait, f: Features) -> Seq<Seq<char>> {
    usage_if(f.flag, capability, ""@) + usage_if(f.new, capability, "(new)"@) + usage_if(
        f.expression,
        capability,
        "(expression = \"value\")"@,
    ) + usage_if(f.bound, capability, "(bound = \"T: Trait\")"@)
}

fn push_usage(v: &mut Vec<String>, on: bool, capability: Trait, inner: &str)
    ensures
        views(final(v)@) == views(old(v)@) + usage_if(on, capability, inner@),
{
    if on {
        let mut line = "#[educe(".to_owned();
        line.append(capability.name());
        line.append(inner);
        line.append(")]");
        let ghost before = v@;
        v.push(line);
        assert(views(v@) =~= views(before) + usage_if(on, capability, inner@));
    } else {
        assert(views(v@) =~= views(v@) + usage_if(on, capability, inner@));
    }
}

impl Error {
    /// Correct usages to show beside a format error; none for other errors.
    pub fn usage_examples(&self) -> (r: Vec<String>)
        ensures
            views(r@) == match *self {
                Error::IncorrectAttributeFormat { capability, usage } => usage_examples_spec(capability, usage),
                _ => seq![],
            },
    {
        let mut v: Vec<String> = Vec::new();
        assert(views(v@) =~= seq![]);
        match self {
            Error::IncorrectAttributeFormat { capability, usage } => {
                push_usage(&mut v, usage.flag, *capability, "");
                push_usage(&mut v, usage.new, *capability, "(new)");
                push_usage(&mut v, usage.expression, *capability, "(expression = \"value\")");
                push_usage(&mut v, usage.bound, *capability, "(bound = \"T: Trait\")");
                assert(views(v@) =~= usage_examples_spec(*capability, *usage));
            },
            _ => {},
        }
        v
    }
}

/// The resolver of one field-level capability, which decodes its entries.
#[derive(Clone, Copy, Debug, PartialEq, Eq, Structural)]
pub enum Decoder {
    DerefMut(FieldAttributeBuilder),
    Default(DefaultFieldAttributeBuilder),
}

pub open spec fn decoder_target(d: Decoder) -> Trait {
    match d {
        Decoder::DerefMut(_) => Trait::DerefMut,
        Decoder::Default(_) => Trait::Default,
    }
}

/// The error that decoding entry `m` gives, if any.
pub open spec fn decode_error(d: Decoder, m: Meta) -> Option<Error> {
    match d {
        Decoder::DerefMut(b) => match deref_mut_meta_spec(b, m) {
            Err(e) => Some(e),
            Ok(_) => None,
        },
        Decoder::Default(b) => match field_meta_spec(b, m) {
            Err(e) => Some(e),
            Ok(_) => None,
        },
    }
}

impl Decoder {
    /// The capability whose entries this resolver decodes.
    pub fn target(&self) -> (r: Trait)
        ensures
            r == decoder_target(*self),
    {
        match self {
            Decoder::DerefMut(_) => Trait::DerefMut,
            Decoder::Default(_) => Trait::Default,
        }
    }

    /// The error that decoding entry `m` gives, if any.
    pub fn decode_error(&self, m: &Meta) -> (r: Option<Error>)
        ensures
            r == decode_error(*self, *m),
    {
        match self {
            Decoder::DerefMut(b) => match b.from_deref_mut_meta(m) {
                Err(e) => Some(e),
                Ok(_) => None,
            },
            Decoder::Default(b) => match b.from_default_meta(m) {
                Err(e) => Some(e),
                Ok(_) => None,
            },
        }
    }
}

/// Where an entry stands: the index of the attribute, and of the entry in its list.
pub type EntryIndex = (usize, usize);

pub open spec fn is_educe(m: Meta) -> bool {
    m.name@ == "educe"@
}

/// One entry of an `educe` list seen by the scan for the capability of
/// `d`: the first entry of that capability is decoded where it stands, and
/// its decoding error, if any, ends the scan.
pub open spec fn scan_entry(
    traits: Seq<Trait>,
    d: Decoder,
    acc: Result<Option<EntryIndex>, Error>,
    n: NestedMeta,
    at: EntryIndex,
) -> Result<Option<EntryIndex>, Error> {
    match acc {
        Err(_) => acc,
        Ok(found) => match n {
            NestedMeta::Literal(_) => Err(Error::MalformedAnnotationTree),
            NestedMeta::Meta(m) => match trait_named(m.name@) {
                None => Err(Error::UnsupportedCapability(m.name)),
                Some(t) => if !traits.contains(t) {
                    Err(Error::CapabilityNotInUse(t))
                } else if t == decoder_target(d) {
                    if found is Some {
                        Err(Error::CapabilityReused(t))
                    } else {
                        match decode_error(d, m) {
                            Some(e) => Err(e),
                            None => Ok(Some(at)),
                        }
                    }
                } else {
                    acc
                },
            },
        },
    }
}

/// The scan of the entries `ns[j..]` of attribute `i`, starting from `acc`.
pub open spec fn scan_entries(
    traits: Seq<Trait>,
    d: Decoder,
    acc: Result<Option<EntryIndex>, Error>,
    ns: Seq<NestedMeta>,
    i: usize,
    j: int,
) -> Result<Option<EntryIndex>, Error>
    decreases ns.len() - j,
{
    if j < 0 || j >= ns.len() {
        acc
    } else {
        scan_entries(traits, d, scan_entry(traits, d, acc, ns[j], (i, j as usize)), ns, i, j + 1)
    }
}

/// One attribute seen by the scan: only `educe` attributes count, and each
/// must be a list.
pub open spec fn scan_attribute(
    traits: Seq<Trait>,
    d: Decoder,
    acc: Result<Option<EntryIndex>, Error>,
    a: Meta,
    i: usize,
) -> Result<Option<EntryIndex>, Error> {
    match acc {
        Err(_) => acc,
        Ok(_) => if is_educe(a) {
            match a.kind {
                MetaKind::List(ns) => scan_entries(traits, d, acc, ns@, i, 0),
                _ => Err(Error::MalformedAnnotationTree),
            }
        } else {
            acc
        },
    }
}

/// The scan of the attributes `attrs[i..]`, starting from `acc`.
pub open spec fn scan_attributes(
    traits: Seq<Trait>,
    d: Decoder,
    acc: Result<Option<EntryIndex>, Error>,
    attrs: Seq<Meta>,
    i: int,
) -> Result<Option<EntryIndex>, Error>
    decreases attrs.len() - i,
{
    if i < 0 || i >= attrs.len() {
        acc
    } else {
        scan_attributes(traits, d, scan_attribute(traits, d, acc, attrs[i], i as usize), attrs, i + 1)
    }
}

/// The entry for the capability of `d` among the `educe` attributes
/// `attrs`: every entry must name a capability being derived, that
/// capability may appear once, and its entry must decode where it stands.
pub open spec fn find_entry(traits: Seq<Trait>, d: Decoder, attrs: Seq<Meta>) -> Result<
    Option<EntryIndex>,
    Error,
> {
    scan_attributes(traits, d, Ok(None), attrs, 0)
}

/// The named entry at `at`, where one stands there.
pub open spec fn entry_at(attrs: Seq<Meta>, at: EntryIndex) -> Option<Meta> {
    if at.0 < attrs.len() {
        match attrs[at.0 as int].kind {
            MetaKind::List(ns) => if at.1 < ns@.len() {
                match ns@[at.1 as int] {
                    NestedMeta::Meta(m) => Some(m),
                    _ => None,
                }
            } else {
                None
            },
            _ => None,
        }
    } else {
        None
    }
}

pub proof fn lemma_entries_keep_error(
    traits: Seq<Trait>,
    d: Decoder,
    e: Error,
    ns: Seq<NestedMeta>,
    i: usize,
    j: int,
)
    ensures
        scan_entries(traits, d, Err(e), ns, i, j) == Err::<Option<EntryIndex>, Error>(e),
    decreases ns.len() - j,
{
    if 0 <= j < ns.len() {
        lemma_entries_keep_error(traits, d, e, ns, i, j + 1);
    }
}

pub proof fn lemma_attributes_keep_error(
    traits: Seq<Trait>,
    d: Decoder,
    e: Error,
    attrs: Seq<Meta>,
    i: int,
)
    ensures
        scan_attributes(traits, d, Err(e), attrs, i) == Err::<Option<EntryIndex>, Error>(e),
    decreases attrs.len() - i,
{
    if 0 <= i < attrs.len() {
        lemma_attributes_keep_error(traits, d, e, attrs, i + 1);
    }
}

proof fn lemma_entries_split(
    traits: Seq<Trait>,
    d: Decoder,
    acc: Result<Option<EntryIndex>, Error>,
    ns: Seq<NestedMeta>,
    i: usize,
    j: int,
    k: int,
)
    requires
        0 <= k <= j <= ns.len(),
    ensures
        scan_entries(traits, d, acc, ns, i, k) == scan_entries(
            traits,
            d,
            scan_entries(traits, d, acc, ns.take(j), i, k),
            ns,
            i,
            j,
        ),
    decreases j - k,
{
    if k < j {
        assert(ns.take(j)[k] == ns[k]);
        lemma_entries_split(traits, d, scan_entry(traits, d, acc, ns[k], (i, k as usize)), ns, i, j, k + 1);
    }
}

proof fn lemma_attributes_split(
    traits: Seq<Trait>,
    d: Decoder,
    acc: Result<Option<EntryIndex>, Error>,
    attrs: Seq<Meta>,
    i: int,
    k: int,
)
    requires
        0 <= k <= i <= attrs.len(),
    ensures
        scan_attributes(traits, d, acc, attrs, k) == scan_attributes(
            traits,
            d,
            scan_attributes(traits, d, acc, attrs.take(i), k),
            attrs,
            i,
        ),
    decreases i - k,
{
    if k < i {
        assert(attrs.take(i)[k] == attrs[k]);
        lemma_attributes_split(traits, d, scan_attribute(traits, d, acc, attrs[k], k as usize), attrs, i, k + 1);
    }
}

/// An `educe` entry that names a capability not being derived fails
/// resolution with `CapabilityNotInUse`, whatever that entry's shape and
/// whatever follows it, wherever it stands, once the entries before it
/// have passed.
pub proof fn lemma_capability_gating(traits: Seq<Trait>, d: Decoder, attrs: Seq<Meta>, i: usize, j: usize, t: Trait)
    requires
        i < attrs.len(),
        is_educe(attrs[i as int]),
        attrs[i as int].kind matches MetaKind::List(ns) && j < ns@.len() && (ns@[j as int] matches NestedMeta::Meta(
            m,
        ) && trait_named(m.name@) == Some(t)) && scan_entries(
            traits,
            d,
            scan_attributes(traits, d, Ok(None), attrs.take(i as int), 0),
            ns@.take(j as int),
            i,
            0,
        ) is Ok,
        !traits.contains(t),
    ensures
        find_entry(traits, d, attrs) == Err::<Option<EntryIndex>, Error>(Error::CapabilityNotInUse(t)),
        d matches Decoder::DerefMut(b) ==> deref_mut_attributes_spec(b, attrs, traits) == Err::<
            crate::deref_mut::FieldAttribute,
            Error,
        >(Error::CapabilityNotInUse(t)),
        d matches Decoder::Default(b) ==> field_attributes_spec(b, attrs, traits) == Err::<
            crate::default::Selection,
            Error,
        >(Error::CapabilityNotInUse(t)),
{
    let e = Error::CapabilityNotInUse(t);
    let pre = scan_attributes(traits, d, Ok(None), attrs.take(i as int), 0);
    lemma_attributes_split(traits, d, Ok(None), attrs, i as int, 0);
    if let MetaKind::List(ns) = attrs[i as int].kind {
        if let Err(x) = pre {
            lemma_entries_keep_error(traits, d, x, ns@.take(j as int), i, 0);
        }
        let mid = scan_entries(traits, d, pre, ns@.take(j as int), i, 0);
        lemma_entries_split(traits, d, pre, ns@, i, j as int, 0);
        lemma_entries_keep_error(traits, d, e, ns@, i, j + 1);
        assert(scan_entry(traits, d, mid, ns@[j as int], (i, j)) == Err::<Option<EntryIndex>, Error>(e));
        assert(scan_attribute(traits, d, pre, attrs[i as int], i) == Err::<Option<EntryIndex>, Error>(e));
    }
    lemma_attributes_keep_error(traits, d, e, attrs, i + 1);
}

/// Scans the `educe` attributes of an entity for the entry of the
/// capability of `d`, decoding that entry where it stands.
pub fn find_entry_index(attrs: &[Meta], traits: &[Trait], d: Decoder) -> (r: Result<
    Option<EntryIndex>,
    Error,
>)
    ensures
        r == find_entry(traits@, d, attrs@),
        r matches Ok(Some(at)) ==> entry_at(attrs@, at) is Some,
{
    let mut found: Option<EntryIndex> = None;
    let mut i: usize = 0;
    while i < attrs.len()
        invariant
            0 <= i <= attrs@.len(),
            found matches Some(at) ==> entry_at(attrs@, at) is Some,
            scan_attributes(traits@, d, Ok(found), attrs@, i as int) == find_entry(
                traits@,
                d,
                attrs@,
            ),
        decreases attrs@.len() - i,
    {
        let a = &attrs[i];
        if name_is(&a.name, "educe") {
            match &a.kind {
                MetaKind::List(ns) => {
                    let mut j: usize = 0;
                    while j < ns.len()
                        invariant
                            0 <= j <= ns@.len(),
                            i < attrs@.len(),
                            found matches Some(at) ==> entry_at(attrs@, at) is Some,
                            attrs@[i as int].kind == MetaKind::List(*ns),
                            scan_attributes(
                                traits@,
                                d,
                                scan_entries(traits@, d, Ok(found), ns@, i, j as int),
                                attrs@,
                                i + 1,
                            ) == find_entry(traits@, d, attrs@),
                        decreases ns@.len() - j,
                    {
                        let ghost before = Ok::<Option<EntryIndex>, Error>(found);
                        match &ns[j] {
                            NestedMeta::Literal(_) => {
                                proof {
                                    lemma_entries_keep_error(traits@, d, Error::MalformedAnnotationTree, ns@, i, j + 1);
                                    lemma_attributes_keep_error(traits@, d, Error::MalformedAnnotationTree, attrs@, i + 1);
                                }
                                return Err(Error::MalformedAnnotationTree);
                            },
                            NestedMeta::Meta(m) => {
                                match Trait::from_name(&m.name) {
                                    None => {
                                        let e = Error::UnsupportedCapability(m.name.clone());
                                        proof {
                                            lemma_entries_keep_error(traits@, d, e, ns@, i, j + 1);
                                            lemma_attributes_keep_error(traits@, d, e, attrs@, i + 1);
                                        }
                                        return Err(e);
                                    },
                                    Some(t) => {
                                        if !is_active(traits, t) {
                                            let e = Error::CapabilityNotInUse(t);
                                            proof {
                                                lemma_entries_keep_error(traits@, d, e, ns@, i, j + 1);
                                                lemma_attributes_keep_error(traits@, d, e, attrs@, i + 1);
                                            }
                                            return Err(e);
                                        }
                                        if t == d.target() {
                                            if found.is_some() {
                                                let e = Error::CapabilityReused(t);
                                                proof {
                                                    lemma_entries_keep_error(traits@, d, e, ns@, i, j + 1);
                                                    lemma_attributes_keep_error(traits@, d, e, attrs@, i + 1);
                                                }
                                                return Err(e);
                                            }
                                            if let Some(e) = d.decode_error(m) {
                                                proof {
                                                    lemma_entries_keep_error(traits@, d, e, ns@, i, j + 1);
                                                    lemma_attributes_keep_error(traits@, d, e, attrs@, i + 1);
                                                }
                                                return Err(e);
                                            }
                                            found = Some((i, j));
                                        }
                                    },
                                }
                            },
                        }
                        j = j + 1;
                    }
                },
                _ => {
                    proof {
                        lemma_attributes_keep_error(traits@, d, Error::MalformedAnnotationTree, attrs@, i + 1);
                    }
                    return Err(Error::MalformedAnnotationTree);
                },
            }
        }
        i = i + 1;
    }
    Ok(found)
}

} // verus!
