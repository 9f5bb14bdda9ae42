use vstd::prelude::*;

use crate::aggregate::Field;
use crate::capability::Trait;
use crate::meta::{entry_at, Decoder, find_entry, find_entry_index, Error, Features, Meta, MetaKind, NestedMeta};

verus! {

/// What a field's annotations say for the mutable-access capability.
#[derive(Clone, Copy, Debug, PartialEq, Eq, Structural)]
pub struct FieldAttribute {
    /// The field is the one that mutable access goes to.
    pub flag: bool,
}

/// Resolves a field's annotations for the mutable-access capability.
#[derive(Clone, Copy, Debug, PartialEq, Eq, Structural)]
pub struct FieldAttributeBuilder {
    /// Whether the bare `DerefMut` marker is accepted.
    pub enable_flag: bool,
}

/// The forms the mutable-access resolver accepts.
pub open spec fn deref_mut_usage(enable_flag: bool) -> Features {
    Features { flag: enable_flag, new: false, expression: false, bound: false }
}

/// The attribute that one `DerefMut` entry gives: only a bare marker is
/// accepted, and only where the flag is enabled.
pub open spec fn deref_mut_meta_spec(b: FieldAttributeBuilder, m: Meta) -> Result<FieldAttribute, Error> {
    if m.kind is Word && b.enable_flag {
        Ok(FieldAttribute { flag: true })
    } else {
        Err(Error::IncorrectAttributeFormat { capability: Trait::DerefMut, usage: deref_mut_usage(b.enable_flag) })
    }
}

/// The attribute that a field's annotations give: the `DerefMut` entry, if
/// there is one, decides; with none the field is not selected.
pub open spec fn deref_mut_attributes_spec(
    b: FieldAttributeBuilder,
    attrs: Seq<Meta>,
    traits: Seq<Trait>,
) -> Result<FieldAttribute, Error> {
    match find_entry(traits, Decoder::DerefMut(b), attrs) {
        Err(e) => Err(e),
        Ok(None) => Ok(FieldAttribute { flag: false }),
        Ok(Some(at)) => match entry_at(attrs, at) {
            Some(m) => deref_mut_meta_spec(b, m),
            None => Ok(FieldAttribute { flag: false }),
        },
    }
}

impl FieldAttributeBuilder {
    /// Decodes one `DerefMut` entry.
    pub fn from_deref_mut_meta(&self, meta: &Meta) -> (r: Result<FieldAttribute, Error>)
        ensures
            r == deref_mut_meta_spec(*self, *meta),
    {
        let usage = Features { flag: self.enable_flag, new: false, expression: false, bound: false };
        match &meta.kind {
            MetaKind::Word => {
                if !self.enable_flag {
                    return Err(Error::IncorrectAttributeFormat { capability: Trait::DerefMut, usage });
                }
                Ok(FieldAttribute { flag: true })
            },
            _ => Err(Error::IncorrectAttributeFormat { capability: Trait::DerefMut, usage }),
        }
    }

    /// Resolves the annotations of one field against the capabilities being
    /// derived (`traits`).
    pub fn from_attributes(self, attributes: &[Meta], traits: &[Trait]) -> (r: Result<FieldAttribute, Error>)
        ensures
            r == deref_mut_attributes_spec(self, attributes@, traits@),
    {
        match find_entry_index(attributes, traits, Decoder::DerefMut(self)) {
            Err(e) => Err(e),
            Ok(None) => Ok(FieldAttribute { flag: false }),
            Ok(Some(at)) => {
                let a = &attributes[at.0];
                match &a.kind {
                    MetaKind::List(ns) => match &ns[at.1] {
                        NestedMeta::Meta(m) => self.from_deref_mut_meta(m),
                        _ => Ok(FieldAttribute { flag: false }),
                    },
                    _ => Ok(FieldAttribute { flag: false }),
                }
            },
        }
    }
}

/// The selection scan over `fields[i..]`, starting from `acc`: a second
/// selected field reuses the capability.
pub open spec fn deref_mut_select_from(
    traits: Seq<Trait>,
    fields: Seq<Field>,
    acc: Result<Option<usize>, Error>,
    i: int,
) -> Result<Option<usize>, Error>
    decreases fields.len() - i,
{
    if i < 0 || i >= fields.len() {
        acc
    } else {
        let next = match acc {
            Err(_) => acc,
            Ok(found) => match deref_mut_attributes_spec(
                FieldAttributeBuilder { enable_flag: true },
                fields[i].attrs@,
                traits,
            ) {
                Err(e) => Err(e),
                Ok(a) => if !a.flag {
                    acc
                } else if found is Some {
                    Err(Error::CapabilityReused(Trait::DerefMut))
                } else {
                    Ok(Some(i as usize))
                },
            },
        };
        deref_mut_select_from(traits, fields, next, i + 1)
    }
}

proof fn lemma_deref_mut_select_keeps_error(traits: Seq<Trait>, fields: Seq<Field>, e: Error, i: int)
    ensures
        deref_mut_select_from(traits, fields, Err(e), i) == Err::<Option<usize>, Error>(e),
    decreases fields.len() - i,
{
    if 0 <= i < fields.len() {
        lemma_deref_mut_select_keeps_error(traits, fields, e, i + 1);
    }
}

/// Picks the field that mutable access goes to: the one field whose
/// annotations select it, or none; what to do with none is the caller's
/// choice.
pub fn select_deref_mut_field(fields: &[Field], traits: &[Trait]) -> (r: Result<Option<usize>, Error>)
    ensures
        r == deref_mut_select_from(traits@, fields@, Ok(None), 0),
        r matches Ok(Some(k)) ==> k < fields@.len(),
{
    let b = FieldAttributeBuilder { enable_flag: true };
    let mut found: Option<usize> = None;
    let mut i: usize = 0;
    while i < fields.len()
        invariant
            0 <= i <= fields@.len(),
            b.enable_flag,
            found matches Some(k) ==> k < fields@.len(),
            deref_mut_select_from(traits@, fields@, Ok(found), i as int) == deref_mut_select_from(
                traits@,
                fields@,
                Ok(None),
                0,
            ),
        decreases fields@.len() - i,
    {
        match b.from_attributes(fields[i].attrs.as_slice(), traits) {
            Err(e) => {
                proof {
                    lemma_deref_mut_select_keeps_error(traits@, fields@, e, i + 1);
                }
                return Err(e);
            },
            Ok(a) => {
                if a.flag {
                    if found.is_some() {
                        let e = Error::CapabilityReused(Trait::DerefMut);
                        proof {
                            lemma_deref_mut_select_keeps_error(traits@, fields@, e, i + 1);
                        }
                        return Err(e);
                    }
                    found = Some(i);
                }
            },
        }
        i = i + 1;
    }
    Ok(found)
}

} // verus!
