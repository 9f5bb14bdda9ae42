use vstd::prelude::*;

verus! {

/// A capability that can be derived for a type.
#[derive(Clone, Copy, Debug, PartialEq, Eq, Structural)]
pub enum Trait {
    Debug,
    PartialEq,
    Eq,
    PartialOrd,
    Ord,
    Hash,
    Default,
    Clone,
    Copy,
    Deref,
    DerefMut,
}

/// The capability that an annotation entry names, if the name is one.
pub open spec fn trait_named(name: Seq<char>) -> Option<Trait> {
    if name == "Debug"@ {
        Some(Trait::Debug)
    } else if name == "PartialEq"@ {
        Some(Trait::PartialEq)
    } else if name == "Eq"@ {
        Some(Trait::Eq)
    } else if name == "PartialOrd"@ {
        Some(Trait::PartialOrd)
    } else if name == "Ord"@ {
        Some(Trait::Ord)
    } else if name == "Hash"@ {
        Some(Trait::Hash)
    } else if name == "Default"@ {
        Some(Trait::Default)
    } else if name == "Clone"@ {
        Some(Trait::Clone)
    } else if name == "Copy"@ {
        Some(Trait::Copy)
    } else if name == "Deref"@ {
        Some(Trait::Deref)
    } else if name == "DerefMut"@ {
        Some(Trait::DerefMut)
    } else {
        None
    }
}

/// Whether an entry's name is `word`.
pub(crate) fn name_is(name: &String, word: &str) -> (r: bool)
    ensures
        r == (name@ == word@),
{
    let w = word.to_owned();
    *name == w
}

/// The name an annotation entry uses for a capability.
pub open spec fn trait_name(t: Trait) -> Seq<char> {
    match t {
        Trait::Debug => "Debug"@,
        Trait::PartialEq => "PartialEq"@,
        Trait::Eq => "Eq"@,
        Trait::PartialOrd => "PartialOrd"@,
        Trait::Ord => "Ord"@,
        Trait::Hash => "Hash"@,
        Trait::Default => "Default"@,
        Trait::Clone => "Clone"@,
        Trait::Copy => "Copy"@,
        Trait::Deref => "Deref"@,
        Trait::DerefMut => "DerefMut"@,
    }
}

impl Trait {
    /// The name an annotation entry uses for this capability.
    pub fn name(&self) -> (r: &'static str)
        ensures
            r@ == trait_name(*self),
    {
        match self {
            Trait::Debug => "Debug",
            Trait::PartialEq => "PartialEq",
            Trait::Eq => "Eq",
            Trait::PartialOrd => "PartialOrd",
            Trait::Ord => "Ord",
            Trait::Hash => "Hash",
            Trait::Default => "Default",
            Trait::Clone => "Clone",
            Trait::Copy => "Copy",
            Trait::Deref => "Deref",
            Trait::DerefMut => "DerefMut",
        }
    }

    /// Looks up the capability with the given name.
    pub fn from_name(name: &String) -> (r: Option<Trait>)
        ensures
            r == trait_named(name@),
    {
        if name_is(name, "Debug") {
            Some(Trait::Debug)
        } else if name_is(name, "PartialEq") {
            Some(Trait::PartialEq)
        } else if name_is(name, "Eq") {
            Some(Trait::Eq)
        } else if name_is(name, "PartialOrd") {
            Some(Trait::PartialOrd)
        } else if name_is(name, "Ord") {
            Some(Trait::Ord)
        } else if name_is(name, "Hash") {
            Some(Trait::Hash)
        } else if name_is(name, "Default") {
            Some(Trait::Default)
        } else if name_is(name, "Clone") {
            Some(Trait::Clone)
        } else if name_is(name, "Copy") {
            Some(Trait::Copy)
        } else if name_is(name, "Deref") {
            Some(Trait::Deref)
        } else if name_is(name, "DerefMut") {
            Some(Trait::DerefMut)
        } else {
            None
        }
    }
}

/// Whether `t` is among the capabilities being derived.
pub fn is_active(traits: &[Trait], t: Trait) -> (r: bool)
    ensures
        r == traits@.contains(t),
{
    let mut i: usize = 0;
    while i < traits.len()
        invariant
            0 <= i <= traits@.len(),
            forall|k: int| 0 <= k < i ==> traits@[k] != t,
        decreases traits@.len() - i,
    {
        if traits[i] == t {
            return true;
        }
        i = i + 1;
    }
    false
}

} // verus!
