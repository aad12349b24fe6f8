//! The table of enumerated values of a signal: a bijection between value names
//! and raw values, held in a `bimap::BiMap`.

use vstd::prelude::*;

verus! {

#[verifier::external_type_specification]
#[verifier::external_body]
#[verifier::reject_recursive_types(L)]
#[verifier::reject_recursive_types(R)]
#[verifier::reject_recursive_types(LS)]
#[verifier::reject_recursive_types(RS)]
pub struct ExBiHashMap<L, R, LS, RS>(bimap::BiHashMap<L, R, LS, RS>);

/// The table type of enumerated values.
pub type EnumMap = bimap::BiMap<String, u64>;

/// The name/value pairs that a `BiMap<String, u64>` holds, names taken by their text.
pub uninterp spec fn enum_pairs(m: EnumMap) -> Map<Seq<char>, u64>;

/// No two names share a raw value.
pub open spec fn injective(m: Map<Seq<char>, u64>) -> bool {
    forall|a: Seq<char>, b: Seq<char>|
        #![trigger m[a], m[b]]
        m.dom().contains(a) && m.dom().contains(b) && m[a] == m[b] ==> a == b
}

/// Some name is mapped to `v`.
pub open spec fn has_value(m: Map<Seq<char>, u64>, v: u64) -> bool {
    exists|k: Seq<char>| m.dom().contains(k) && #[trigger] m[k] == v
}

/// A name that `m` maps to `v`; where no two names share a value, the only one.
pub open spec fn name_of_value(m: Map<Seq<char>, u64>, v: u64) -> Seq<char> {
    choose|k: Seq<char>| m.dom().contains(k) && #[trigger] m[k] == v
}

/// With no two names sharing a value, a name mapped to `v` is [`name_of_value`].
pub proof fn lemma_name_of_value(m: Map<Seq<char>, u64>, v: u64, n: Seq<char>)
    requires
        injective(m),
        m.dom().contains(n),
        m[n] == v,
    ensures
        name_of_value(m, v) == n,
{
    let k = name_of_value(m, v);
    assert(m.dom().contains(k) && m[k] == v);
}

/// `bimap::BiMap::new`: a map that holds no pair.
#[verifier::external_body]
pub(crate) fn table_new() -> (r: EnumMap)
    ensures
        enum_pairs(r) =~= Map::empty(),
{
    bimap::BiMap::new()
}

/// `bimap::BiHashMap::clone`: a map that holds the same pairs.
#[verifier::external_body]
pub(crate) fn table_clone(m: &EnumMap) -> (r: EnumMap)
    ensures
        enum_pairs(r) == enum_pairs(*m),
{
    m.clone()
}

/// `bimap::BiHashMap::get_by_left`: the raw value named `name`, if any.
#[verifier::external_body]
pub(crate) fn table_get_by_left(m: &EnumMap, name: &String) -> (r: Option<u64>)
    ensures
        r == (if enum_pairs(*m).dom().contains(name@) {
            Some(enum_pairs(*m)[name@])
        } else {
            None
        }),
{
    m.get_by_left(name).copied()
}

/// `bimap::BiHashMap::get_by_right`: a name of the raw value `val`, if any.
#[verifier::external_body]
pub(crate) fn table_get_by_right(m: &EnumMap, val: u64) -> (r: Option<String>)
    ensures
        match r {
            Some(n) => enum_pairs(*m).dom().contains(n@) && enum_pairs(*m)[n@] == val,
            None => !has_value(enum_pairs(*m), val),
        },
{
    m.get_by_right(&val).cloned()
}

/// `bimap::BiHashMap::insert` of a pair whose name and value are both new:
/// the map then holds that pair in addition to the old ones.
#[verifier::external_body]
pub(crate) fn table_insert(m: &mut EnumMap, name: String, val: u64)
    requires
        !enum_pairs(*old(m)).dom().contains(name@),
        !has_value(enum_pairs(*old(m)), val),
    ensures
        enum_pairs(*final(m)) == enum_pairs(*old(m)).insert(name@, val),
{
    m.insert(name, val);
}

/// `bimap::BiHashMap::is_empty`: whether the map holds no pair.
#[verifier::external_body]
pub(crate) fn table_is_empty(m: &EnumMap) -> (r: bool)
    ensures
        r == (enum_pairs(*m).dom() =~= Set::<Seq<char>>::empty()),
{
    m.is_empty()
}

/// `bimap::BiHashMap::iter`, each pair copied out: every pair of the map exactly
/// once, in the map's own (unspecified) order.
#[verifier::external_body]
pub(crate) fn table_pairs(m: &EnumMap) -> (r: Vec<(String, u64)>)
    ensures
        forall|i: int|
            0 <= i < r.len() ==> enum_pairs(*m).dom().contains(#[trigger] r@[i].0@)
                && enum_pairs(*m)[r@[i].0@] == r@[i].1,
        forall|k: Seq<char>|
            enum_pairs(*m).dom().contains(k) ==> exists|i: int|
                0 <= i < r.len() && #[trigger] r@[i].0@ == k,
        forall|i: int, j: int| 0 <= i < j < r.len() ==> r@[i].0@ != r@[j].0@ && r@[i].1 != r@[j].1,
{
    m.iter().map(|(l, r)| (l.clone(), *r)).collect()
}

} // verus!
