//! Names and what is stored under them, as two sequences side by side, read
//! as a map.

use vstd::prelude::*;

verus! {

/// Whether `name` is among `names`.
pub open spec fn holds(names: Seq<String>, name: Seq<char>) -> bool {
    exists|i: int| 0 <= i < names.len() && #[trigger] names[i]@ == name
}

/// A position of `name` among `names`; the only one where no name occurs
/// twice.
pub open spec fn slot(names: Seq<String>, name: Seq<char>) -> int {
    choose|i: int| 0 <= i < names.len() && #[trigger] names[i]@ == name
}

/// Whether no name occurs twice among `names`.
pub open spec fn distinct(names: Seq<String>) -> bool {
    forall|i: int, j: int|
        0 <= i < j < names.len() ==> #[trigger] names[i]@ != #[trigger] names[j]@
}

/// The map that takes each of `names` to the item at its position.
pub open spec fn registry<T>(names: Seq<String>, items: Seq<T>) -> Map<Seq<char>, T> {
    Map::new(|name: Seq<char>| holds(names, name), |name: Seq<char>| items[slot(names, name)])
}

/// The name at a position is held, and that position is its slot.
pub proof fn lemma_slot(names: Seq<String>, i: int)
    requires
        distinct(names),
        0 <= i < names.len(),
    ensures
        holds(names, names[i]@),
        slot(names, names[i]@) == i,
{
    let name = names[i]@;
    assert(names[i]@ == name);
    let k = slot(names, name);
    assert(0 <= k < names.len() && names[k]@ == name);
}

/// The slot of a name that is held is a position of it.
pub proof fn lemma_held(names: Seq<String>, name: Seq<char>)
    requires
        holds(names, name),
    ensures
        0 <= slot(names, name) < names.len(),
        names[slot(names, name)]@ == name,
{
}

/// The registry takes the name at a position to the item there.
pub proof fn lemma_registry_at<T>(names: Seq<String>, items: Seq<T>, i: int)
    requires
        distinct(names),
        0 <= i < names.len(),
    ensures
        registry(names, items).contains_key(names[i]@),
        registry(names, items)[names[i]@] == items[i],
{
    lemma_slot(names, i);
}

/// Replacing the item at a position is an insertion under the name there,
/// and changes nothing else.
pub proof fn lemma_registry_update<T>(names: Seq<String>, items: Seq<T>, i: int, item: T)
    requires
        distinct(names),
        names.len() == items.len(),
        0 <= i < names.len(),
    ensures
        items.update(i, item).len() == items.len(),
        registry(names, items.update(i, item)) == registry(names, items).insert(names[i]@, item),
        registry(names, items.update(i, item)).dom() == registry(names, items).dom(),
        forall|other: Seq<char>|
            holds(names, other) && other != names[i]@ ==> #[trigger] registry(
                names,
                items.update(i, item),
            )[other] == registry(names, items)[other],
{
    let after = registry(names, items.update(i, item));
    let before = registry(names, items);
    lemma_slot(names, i);
    assert forall|other: Seq<char>| holds(names, other) && other != names[i]@ implies #[trigger]
        after[other] == before[other] by {
        lemma_held(names, other);
    }
    assert(after.dom() =~= before.dom());
    assert(after =~= before.insert(names[i]@, item));
}

/// Adding a new name with its item at the end is an insertion under that
/// name, and keeps the names distinct.
pub proof fn lemma_registry_push<T>(names: Seq<String>, items: Seq<T>, name: String, item: T)
    requires
        distinct(names),
        names.len() == items.len(),
        !holds(names, name@),
    ensures
        distinct(names.push(name)),
        items.push(item).len() == items.len() + 1,
        registry(names.push(name), items.push(item)) == registry(names, items).insert(
            name@,
            item,
        ),
        forall|other: Seq<char>|
            holds(names, other) ==> #[trigger] holds(names.push(name), other) && slot(
                names.push(name),
                other,
            ) == slot(names, other),
{
    let names2 = names.push(name);
    let last = names.len() as int;
    assert forall|i: int, j: int| 0 <= i < j < names2.len() implies #[trigger] names2[i]@
        != #[trigger] names2[j]@ by {
        if j == last {
            if names[i]@ == name@ {
                assert(holds(names, name@));
            }
        }
    }
    lemma_slot(names2, last);
    assert forall|other: Seq<char>| holds(names, other) implies #[trigger] holds(names2, other)
        && slot(names2, other) == slot(names, other) by {
        lemma_held(names, other);
        let k = slot(names, other);
        assert(names2[k]@ == other);
        lemma_slot(names2, k);
    }
    let after = registry(names2, items.push(item));
    let before = registry(names, items);
    assert forall|other: Seq<char>| after.contains_key(other) && other != name@ implies holds(
        names,
        other,
    ) by {
        lemma_held(names2, other);
        let k = slot(names2, other);
        assert(k != last);
        assert(names[k]@ == other);
    }
    assert(after =~= before.insert(name@, item));
}

} // verus!
