use vstd::prelude::*;

verus! {

/// A field's type as bound inference sees it: its source text, and every
/// identifier that appears anywhere in it (`Vec<Option<T>>` holds `Vec`,
/// `Option` and `T`).
#[derive(Clone, Debug, PartialEq, Eq)]
pub struct TypeRef {
    pub text: String,
    pub idents: Vec<String>,
}

/// How the generic bounds of a generated implementation are chosen.
#[derive(Clone, Debug, PartialEq, Eq)]
pub enum BoundMode {
    /// Constrain each generic parameter that a fallback-used field type mentions.
    Auto,
    /// Use the predicates the user wrote, unchanged.
    Explicit(String),
    /// Add no bounds.
    Disabled,
}

/// The bounds to add to a generated implementation.
#[derive(Clone, Debug, PartialEq, Eq)]
pub enum WhereBounds {
    /// Each named generic parameter must implement the derived capability.
    Params(Vec<String>),
    /// Predicates written by the user.
    Written(String),
}

/// What `WhereBounds` holds, as text.
pub enum BoundsView {
    Params(Seq<Seq<char>>),
    Written(Seq<char>),
}

pub open spec fn views(v: Seq<String>) -> Seq<Seq<char>> {
    v.map_values(|s: String| s@)
}

impl WhereBounds {
    pub open spec fn view(&self) -> BoundsView {
        match self {
            WhereBounds::Params(v) => BoundsView::Params(views(v@)),
            WhereBounds::Written(s) => BoundsView::Written(s@),
        }
    }
}

pub open spec fn deref_all(types: Seq<&TypeRef>) -> Seq<TypeRef> {
    types.map_values(|t: &TypeRef| *t)
}

/// Whether parameter `p` appears in one of `types`.
pub open spec fn mentions(types: Seq<TypeRef>, p: Seq<char>) -> bool {
    exists|k: int| 0 <= k < types.len() && #[trigger] views(types[k].idents@).contains(p)
}

/// The parameters of `params` that some type of `types` mentions, each once,
/// in the order of their first appearance.
pub open spec fn auto_bounds(params: Seq<Seq<char>>, types: Seq<TypeRef>) -> Seq<Seq<char>>
    decreases params.len(),
{
    if params.len() == 0 {
        seq![]
    } else {
        let prev = auto_bounds(params.drop_last(), types);
        let p = params.last();
        if mentions(types, p) && !prev.contains(p) {
            prev.push(p)
        } else {
            prev
        }
    }
}

/// The bounds for `mode`, given the generic parameters and the types of the
/// fields that are built through their own default capability.
pub open spec fn infer_spec(mode: BoundMode, params: Seq<Seq<char>>, types: Seq<TypeRef>) -> BoundsView {
    match mode {
        BoundMode::Auto => BoundsView::Params(auto_bounds(params, types)),
        BoundMode::Explicit(s) => BoundsView::Written(s@),
        BoundMode::Disabled => BoundsView::Params(seq![]),
    }
}

/// Automatic bounds never constrain a parameter twice, and never constrain
/// a parameter that no fallback-used field type mentions.
pub proof fn lemma_auto_bounds_minimal(params: Seq<Seq<char>>, types: Seq<TypeRef>)
    ensures
        auto_bounds(params, types).no_duplicates(),
        forall|k: int|
            0 <= k < auto_bounds(params, types).len() ==> mentions(
                types,
                #[trigger] auto_bounds(params, types)[k],
            ) && params.contains(auto_bounds(params, types)[k]),
    decreases params.len(),
{
    if params.len() > 0 {
        let prev = auto_bounds(params.drop_last(), types);
        lemma_auto_bounds_minimal(params.drop_last(), types);
        let p = params.last();
        assert(params.contains(p)) by {
            assert(params[params.len() - 1] == p);
        }
        assert forall|x: Seq<char>| params.drop_last().contains(x) implies params.contains(x) by {
            let k = choose|k: int| 0 <= k < params.drop_last().len() && params.drop_last()[k] == x;
            assert(params[k] == x);
        }
        if mentions(types, p) && !prev.contains(p) {
            let cur = prev.push(p);
            assert forall|a: int, b: int| 0 <= a < cur.len() && 0 <= b < cur.len() && a != b implies cur[a]
                != cur[b] by {
                if a < prev.len() && b < prev.len() {
                } else if a == prev.len() {
                    assert(prev[b] == cur[b]);
                } else {
                    assert(prev[a] == cur[a]);
                }
            }
            assert forall|k: int| 0 <= k < cur.len() implies mentions(types, #[trigger] cur[k]) && params.contains(cur[k]) by {
                if k < prev.len() {
                    assert(cur[k] == prev[k]);
                }
            }
        }
    }
}

/// Automatic bounds name exactly the parameters that some fallback-used
/// field type mentions.
pub proof fn lemma_auto_bounds_exact(params: Seq<Seq<char>>, types: Seq<TypeRef>)
    ensures
        forall|p: Seq<char>|
            #[trigger] auto_bounds(params, types).contains(p) <==> (params.contains(p) && mentions(types, p)),
    decreases params.len(),
{
    if params.len() > 0 {
        let prev = auto_bounds(params.drop_last(), types);
        let last = params.last();
        lemma_auto_bounds_exact(params.drop_last(), types);
        assert forall|p: Seq<char>| #[trigger] auto_bounds(params, types).contains(p) <==> (params.contains(p) && mentions(types, p)) by {
            if params.contains(p) && mentions(types, p) {
                let k = choose|k: int| 0 <= k < params.len() && params[k] == p;
                if k < params.len() - 1 {
                    assert(params.drop_last()[k] == p);
                    assert(prev.contains(p));
                    if mentions(types, last) && !prev.contains(last) {
                        let j = choose|j: int| 0 <= j < prev.len() && prev[j] == p;
                        assert(prev.push(last)[j] == p);
                    }
                } else {
                    if !prev.contains(p) {
                        assert(prev.push(last)[prev.len() as int] == p);
                    }
                }
            }
            if auto_bounds(params, types).contains(p) {
                if mentions(types, last) && !prev.contains(last) && !prev.contains(p) {
                    let j = choose|j: int| 0 <= j < prev.push(last).len() && prev.push(last)[j] == p;
                    assert(j == prev.len());
                    assert(params[params.len() - 1] == p);
                }
                if prev.contains(p) {
                    let k = choose|k: int| 0 <= k < params.drop_last().len() && params.drop_last()[k] == p;
                    assert(params[k] == p);
                }
            }
        }
    }
}

/// With no fallback-used field type, automatic bounds are empty.
pub proof fn lemma_auto_bounds_no_types(params: Seq<Seq<char>>)
    ensures
        auto_bounds(params, seq![]) == Seq::<Seq<char>>::empty(),
    decreases params.len(),
{
    if params.len() > 0 {
        lemma_auto_bounds_no_types(params.drop_last());
    }
}

fn string_eq(a: &String, b: &String) -> (r: bool)
    ensures
        r == (a@ == b@),
{
    *a == *b
}

fn contains_string(v: &Vec<String>, p: &String) -> (r: bool)
    ensures
        r == views(v@).contains(p@),
{
    let mut j: usize = 0;
    while j < v.len()
        invariant
            0 <= j <= v@.len(),
            forall|k: int| 0 <= k < j ==> views(v@)[k] != p@,
        decreases v@.len() - j,
    {
        if string_eq(&v[j], p) {
            assert(views(v@)[j as int] == p@);
            return true;
        }
        j = j + 1;
    }
    false
}

fn mentioned_in(types: &[&TypeRef], p: &String) -> (r: bool)
    ensures
        r == mentions(deref_all(types@), p@),
{
    let mut i: usize = 0;
    while i < types.len()
        invariant
            0 <= i <= types@.len(),
            forall|k: int| 0 <= k < i ==> !#[trigger] views(deref_all(types@)[k].idents@).contains(p@),
        decreases types@.len() - i,
    {
        if contains_string(&types[i].idents, p) {
            assert(views(deref_all(types@)[i as int].idents@).contains(p@));
            return true;
        }
        i = i + 1;
    }
    false
}

/// Infers the bounds of a generated implementation from the bound mode, the
/// generic parameters, and the types of the fields built by fallback.
pub fn infer_bounds(mode: &BoundMode, params: &Vec<String>, types: &[&TypeRef]) -> (r: WhereBounds)
    ensures
        r@ == infer_spec(*mode, views(params@), deref_all(types@)),
{
    match mode {
        BoundMode::Explicit(s) => WhereBounds::Written(s.clone()),
        BoundMode::Disabled => {
            let out: Vec<String> = Vec::new();
            assert(views(out@) =~= seq![]);
            WhereBounds::Params(out)
        },
        BoundMode::Auto => {
            let mut out: Vec<String> = Vec::new();
            let mut i: usize = 0;
            assert(views(params@).take(0) =~= seq![]);
            assert(views(out@) =~= seq![]);
            while i < params.len()
                invariant
                    0 <= i <= params@.len(),
                    views(out@) == auto_bounds(views(params@).take(i as int), deref_all(types@)),
                decreases params@.len() - i,
            {
                let p = &params[i];
                let ghost pre = views(params@).take(i as int);
                assert(views(params@).take(i + 1).drop_last() =~= pre);
                assert(views(params@).take(i + 1).last() == p@);
                if mentioned_in(types, p) && !contains_string(&out, p) {
                    let ghost before = out@;
                    out.push(p.clone());
                    assert(views(out@) =~= views(before).push(p@));
                }
                i = i + 1;
            }
            assert(views(params@).take(params@.len() as int) =~= views(params@));
            WhereBounds::Params(out)
        },
    }
}

} // verus!
