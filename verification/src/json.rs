//! Merge patches on JSON values (RFC 7396).
use vstd::prelude::*;

verus! {

/// An object of a JSON value: its members by name.
#[verifier::external_type_specification]
#[verifier::external_body]
#[verifier::reject_recursive_types(K)]
#[verifier::reject_recursive_types(V)]
pub struct ExMembers<K, V>(serde_json::Map<K, V>);

/// What a JSON value holds, as far as merge patches look into it: arrays and scalars
/// other than null are taken whole.
pub enum Json {
    Null,
    Leaf(serde_json::Value),
    Object(Map<Seq<char>, Json>),
}

/// What a JSON value holds.
pub uninterp spec fn json(value: serde_json::Value) -> Json;

/// What the members of an object hold, by name.
pub uninterp spec fn members(
    object: serde_json::Map<String, serde_json::Value>,
) -> Map<Seq<char>, Json>;

/// A JSON value opened.
pub enum Shape {
    Null,
    Leaf(serde_json::Value),
    Object(serde_json::Map<String, serde_json::Value>),
}

/// The variants of `serde_json::Value`: null, an object with its members, or
/// anything else, which is kept as it is.
#[verifier::external_body]
fn open_value(value: serde_json::Value) -> (r: Shape)
    ensures
        match r {
            Shape::Null => json(value) == Json::Null,
            Shape::Leaf(leaf) => leaf == value && json(value) == Json::Leaf(value),
            Shape::Object(object) => json(value) == Json::Object(members(object)),
        },
{
    match value {
        serde_json::Value::Null => Shape::Null,
        serde_json::Value::Object(object) => Shape::Object(object),
        leaf => Shape::Leaf(leaf),
    }
}

/// `serde_json::Value::Object` makes a value of an object, and
/// `serde_json::Value::Null` is the value that holds nothing.
#[verifier::external_body]
fn close_value(shape: Shape) -> (r: serde_json::Value)
    ensures
        match shape {
            Shape::Null => json(r) == Json::Null,
            Shape::Leaf(leaf) => r == leaf,
            Shape::Object(object) => json(r) == Json::Object(members(object)),
        },
{
    match shape {
        Shape::Null => serde_json::Value::Null,
        Shape::Leaf(leaf) => leaf,
        Shape::Object(object) => serde_json::Value::Object(object),
    }
}

/// `serde_json::Value::take` hands a value out and leaves null in its place.
#[verifier::external_body]
fn take_value(value: &mut serde_json::Value) -> (r: serde_json::Value)
    ensures
        r == *old(value),
        json(*final(value)) == Json::Null,
{
    value.take()
}

/// `serde_json::Value::is_null` tells whether a value is null.
#[verifier::external_body]
fn is_null(value: &serde_json::Value) -> (r: bool)
    ensures
        r == (json(*value) is Null),
{
    value.is_null()
}

/// `serde_json::Map::new` is an object without members.
#[verifier::external_body]
fn no_members() -> (r: serde_json::Map<String, serde_json::Value>)
    ensures
        forall|name: Seq<char>| !(#[trigger] members(r).contains_key(name)),
{
    serde_json::Map::new()
}

/// `serde_json::Map::remove` takes the member of that name out of the object and
/// returns it, if there is one.
#[verifier::external_body]
fn remove_member(
    object: &mut serde_json::Map<String, serde_json::Value>,
    name: &str,
) -> (r: Option<serde_json::Value>)
    ensures
        members(*final(object)) == members(*old(object)).remove(name@),
        match r {
            Some(value) => members(*old(object)).contains_key(name@) && members(*old(object))[name@]
                == json(value),
            None => !members(*old(object)).contains_key(name@),
        },
{
    object.remove(name)
}

/// `serde_json::Map::insert` puts a member into the object, in place of one of that
/// name.
#[verifier::external_body]
fn insert_member(
    object: &mut serde_json::Map<String, serde_json::Value>,
    name: String,
    value: serde_json::Value,
)
    ensures
        members(*final(object)) == members(*old(object)).insert(name@, json(value)),
{
    object.insert(name, value);
}

/// Whether the list holds the members, each once.
pub open spec fn are_members(
    list: Seq<(String, serde_json::Value)>,
    held: Map<Seq<char>, Json>,
) -> bool {
    &&& forall|i: int, j: int|
        0 <= i < list.len() && 0 <= j < list.len() && (#[trigger] list[i]).0@ == (
        #[trigger] list[j]).0@ ==> i == j
    &&& forall|i: int|
        0 <= i < list.len() ==> held.contains_key((#[trigger] list[i]).0@) && held[list[i].0@]
            == json(list[i].1)
    &&& forall|name: Seq<char>| #[trigger]
        held.contains_key(name) ==> exists|i: int|
            0 <= i < list.len() && (#[trigger] list[i]).0@ == name
}

/// `serde_json::Map::into_iter` gives the members of an object, each once.
#[verifier::external_body]
fn list_members(object: serde_json::Map<String, serde_json::Value>) -> (r: Vec<
    (String, serde_json::Value),
>)
    ensures
        are_members(r@, members(object)),
{
    object.into_iter().collect()
}

/// The members of an object; a value that is none has none.
pub open spec fn members_of(value: Json) -> Map<Seq<char>, Json> {
    match value {
        Json::Object(held) => held,
        _ => Map::empty(),
    }
}

/// The member of that name, or null where there is none.
pub open spec fn member_or_null(held: Map<Seq<char>, Json>, name: Seq<char>) -> Json {
    if held.contains_key(name) {
        held[name]
    } else {
        Json::Null
    }
}

/// A value after a merge patch. A patch that is no object takes the place of the
/// value. An object changes the members that it names, removes those for which it has
/// null, and leaves the others.
pub open spec fn patched(target: Json, patch: Json) -> Json
    decreases patch,
{
    match patch {
        Json::Object(changes) => {
            let held = members_of(target);
            Json::Object(
                Map::new(
                    |name: Seq<char>|
                        if changes.contains_key(name) {
                            !(changes[name] is Null)
                        } else {
                            held.contains_key(name)
                        },
                    |name: Seq<char>|
                        if changes.contains_key(name) {
                            patched(member_or_null(held, name), changes[name])
                        } else {
                            held[name]
                        },
                ),
            )
        },
        _ => patch,
    }
}

/// Merges the patch into the value.
pub fn merge_patch(target: &mut serde_json::Value, patch: serde_json::Value)
    ensures
        json(*final(target)) == patched(json(*old(target)), json(patch)),
{
    let value = take_value(target);
    *target = merged(value, patch);
}

/// Whether a member of that name stands in the list from that place on.
pub open spec fn is_listed(
    list: Seq<(String, serde_json::Value)>,
    from: int,
    name: Seq<char>,
) -> bool {
    exists|i: int| from <= i < list.len() && (#[trigger] list[i]).0@ == name
}

/// The members of an object after the changes that stand in the list from that place
/// on.
pub open spec fn partly_patched(
    held: Map<Seq<char>, Json>,
    changes: Map<Seq<char>, Json>,
    list: Seq<(String, serde_json::Value)>,
    from: int,
) -> Map<Seq<char>, Json> {
    Map::new(
        |name: Seq<char>|
            if is_listed(list, from, name) {
                !(changes[name] is Null)
            } else {
                held.contains_key(name)
            },
        |name: Seq<char>|
            if is_listed(list, from, name) {
                patched(member_or_null(held, name), changes[name])
            } else {
                held[name]
            },
    )
}

fn merged(target: serde_json::Value, patch: serde_json::Value) -> (r: serde_json::Value)
    ensures
        json(r) == patched(json(target), json(patch)),
    decreases json(patch),
{
    let ghost before = json(target);
    let changes = match open_value(patch) {
        Shape::Object(changes) => changes,
        Shape::Leaf(leaf) => {
            return leaf;
        },
        Shape::Null => {
            return close_value(Shape::Null);
        },
    };
    let ghost named = members(changes);
    let mut object = match open_value(target) {
        Shape::Object(object) => object,
        _ => no_members(),
    };
    let ghost held = members(object);
    proof {
        assert(held =~= members_of(before));
    }
    let mut list = list_members(changes);
    let ghost all = list@;
    let count: usize = list.len();
    proof {
        lemma_members_are_finite(all, named);
        assert(members(object) =~= partly_patched(held, named, all, count as int));
        assert(all.take(count as int) =~= all);
    }
    for n in 0..count
        invariant
            are_members(all, named),
            named.dom().finite(),
            json(patch) == Json::Object(named),
            count == all.len(),
            list@ == all.take(count - n),
            members(object) == partly_patched(held, named, all, count - n),
    {
        if let Some((name, value)) = list.pop() {
            let ghost place = count - n - 1;
            let ghost key = name@;
            let ghost earlier = members(object);
            proof {
                assert(all[place] == (name, value));
                assert(named.contains_key(all[place].0@));
                assert(all.take(count - n).drop_last() =~= all.take(place));
                assert(!is_listed(all, count - n, key));
            }
            let prior = remove_member(&mut object, &name);
            if !is_null(&value) {
                let base = match prior {
                    Some(prior) => prior,
                    None => close_value(Shape::Null),
                };
                proof {
                    assert(json(base) == member_or_null(held, key));
                    let whole = Json::Object(named);
                    assert(decreases_to!(whole => whole->Object_0));
                    assert(decreases_to!(whole => whole->Object_0[key]));
                    assert(json(value) == named[key]);
                    assert(json(patch) == whole);
                }
                let changed = merged(base, value);
                insert_member(&mut object, name, changed);
            }
            proof {
                assert(is_listed(all, place, key));
                assert forall|other: Seq<char>| other != key implies #[trigger] is_listed(
                    all,
                    place,
                    other,
                ) == is_listed(all, place + 1, other) by {
                    if is_listed(all, place, other) {
                        let i = choose|i: int|
                            place <= i < all.len() && (#[trigger] all[i]).0@ == other;
                        assert(i != place);
                    }
                }
                assert(members(object) =~= partly_patched(held, named, all, place));
            }
        }
    }
    proof {
        assert forall|name: Seq<char>| #[trigger] is_listed(all, 0, name)
            == named.contains_key(name) by {}
        assert(Json::Object(members(object)) == patched(before, json(patch))) by {
            assert(members(object) =~= members_of(patched(before, json(patch))));
        }
    }
    close_value(Shape::Object(object))
}

proof fn lemma_members_are_finite(
    list: Seq<(String, serde_json::Value)>,
    held: Map<Seq<char>, Json>,
)
    requires
        are_members(list, held),
    ensures
        held.dom().finite(),
{
    let names = list.map_values(|entry: (String, serde_json::Value)| entry.0@);
    assert forall|name: Seq<char>| held.dom().contains(name) implies names.to_set().contains(
        name,
    ) by {
        let i = choose|i: int| 0 <= i < list.len() && (#[trigger] list[i]).0@ == name;
        assert(names[i] == name);
    }
    assert(held.dom().subset_of(names.to_set()));
    vstd::seq_lib::seq_to_set_is_finite(names);
    vstd::set_lib::lemma_len_subset(held.dom(), names.to_set());
}

/// A patch leaves alone the members that it does not name, and removes those for
/// which it has null.
pub proof fn law_patch_touches_what_it_names(
    held: Map<Seq<char>, Json>,
    changes: Map<Seq<char>, Json>,
    name: Seq<char>,
)
    ensures
        ({
            let after = members_of(patched(Json::Object(held), Json::Object(changes)));
            &&& !changes.contains_key(name) ==> after.contains_key(name) == held.contains_key(name)
            &&& !changes.contains_key(name) && held.contains_key(name) ==> after[name]
                == held[name]
            &&& changes.contains_key(name) && changes[name] is Null ==> !after.contains_key(name)
            &&& changes.contains_key(name) && !(changes[name] is Null) ==> after.contains_key(name)
                && after[name] == patched(member_or_null(held, name), changes[name])
        }),
{
}

/// A patch without members changes no object.
pub proof fn law_empty_patch_changes_nothing(held: Map<Seq<char>, Json>)
    ensures
        patched(Json::Object(held), Json::Object(Map::empty())) == Json::Object(held),
{
    assert(members_of(patched(Json::Object(held), Json::Object(Map::empty()))) =~= held);
}

/// A patch applied twice does what it does once.
pub proof fn law_patch_is_idempotent(target: Json, patch: Json)
    ensures
        patched(patched(target, patch), patch) == patched(target, patch),
    decreases patch,
{
    match patch {
        Json::Object(changes) => {
            let held = members_of(target);
            let once = members_of(patched(target, patch));
            let twice = members_of(patched(patched(target, patch), patch));
            assert forall|name: Seq<char>| #[trigger] once.contains_key(name) implies twice[name]
                == once[name] by {
                if changes.contains_key(name) {
                    law_patch_is_idempotent(member_or_null(held, name), changes[name]);
                }
            }
            assert(twice =~= once);
        },
        _ => {},
    }
}

/// A patch that is no object takes the place of the value. One that is changes the members it
/// names: it removes those that it gives as null, sets those that it gives otherwise, object
/// members by patching them in turn, and leaves all others; what is no object counts as one
/// without members.
pub proof fn law_patch_merges_by_member(
    target: &mut serde_json::Value,
    patch: serde_json::Value,
    name: Seq<char>,
)
    requires
        call_ensures(merge_patch, (target, patch), ()),
    ensures
        !(json(patch) is Object) ==> json(*final(target)) == json(patch),
        json(patch) is Object ==> json(*final(target)) is Object && {
            let changes = json(patch)->Object_0;
            let after = json(*final(target))->Object_0;
            let was = json(*old(target));
            let held = was is Object && was->Object_0.contains_key(name);
            &&& !changes.contains_key(name) ==> (after.contains_key(name) <==> held)
            &&& !changes.contains_key(name) && held ==> after[name] == was->Object_0[name]
            &&& changes.contains_key(name) ==> (after.contains_key(name) <==> !(
            changes[name] is Null))
            &&& changes.contains_key(name) && changes[name] is Leaf ==> after[name]
                == changes[name]
            &&& changes.contains_key(name) && changes[name] is Object && held ==> after[name]
                == patched(was->Object_0[name], changes[name])
            &&& changes.contains_key(name) && changes[name] is Object && !held ==> after[name]
                == patched(Json::Null, changes[name])
        },
{
}

} // verus!
