//! Merging of keyed documents: the members of a supplementary section are
//! laid over those of the section of the same name in the root document.
//!
//! The documents stay in the maps of `serde_json`. What a map holds after a
//! merge is stated through the answers that it gives to lookups: two objects
//! are alike where every name gives the same value in both.
use vstd::prelude::*;
use crate::json::{
    entries_of, map_members, object_of, spec_entry_trees, spec_lookup, value_tree, JsonView,
};

verus! {

/// The index of the first member named `key`, or the number of members where
/// none has that name.
pub open spec fn spec_first_index(members: Seq<(Seq<char>, JsonView)>, key: Seq<char>) -> int
    decreases members.len(),
{
    if members.len() == 0 {
        0
    } else if members[0].0 == key {
        0
    } else {
        1 + spec_first_index(members.drop_first(), key)
    }
}

/// `members` with `value` under `key`: in the place of the first member of
/// that name, or as a new last member where there is none.
pub open spec fn spec_upsert(
    members: Seq<(Seq<char>, JsonView)>,
    key: Seq<char>,
    value: JsonView,
) -> Seq<(Seq<char>, JsonView)> {
    let at = spec_first_index(members, key);
    if at < members.len() {
        members.update(at, (key, value))
    } else {
        members.push((key, value))
    }
}

/// `members` with every member of `fields` laid over it, one after the
/// other: a later field of the same name wins.
pub open spec fn spec_extend(
    members: Seq<(Seq<char>, JsonView)>,
    fields: Seq<(Seq<char>, JsonView)>,
) -> Seq<(Seq<char>, JsonView)>
    decreases fields.len(),
{
    if fields.len() == 0 {
        members
    } else {
        spec_upsert(spec_extend(members, fields.drop_last()), fields.last().0, fields.last().1)
    }
}

/// The root with one supplementary section laid over it: where the root has
/// a section named `key` that is an object, and `value` is an object too, the
/// members of `value` are laid over those of the section; in every other case
/// the root stays as it is.
pub open spec fn spec_lay_over(
    root: Seq<(Seq<char>, JsonView)>,
    key: Seq<char>,
    value: JsonView,
) -> Seq<(Seq<char>, JsonView)> {
    let at = spec_first_index(root, key);
    if at < root.len() {
        match (root[at].1, value) {
            (JsonView::Object(members), JsonView::Object(fields)) => root.update(
                at,
                (key, JsonView::Object(spec_extend(members, fields))),
            ),
            _ => root,
        }
    } else {
        root
    }
}

/// The root document with `extra` merged in: each section of `extra` is laid
/// over the root, one after the other.
pub open spec fn spec_merge(
    root: Seq<(Seq<char>, JsonView)>,
    extra: Seq<(Seq<char>, JsonView)>,
) -> Seq<(Seq<char>, JsonView)>
    decreases extra.len(),
{
    if extra.len() == 0 {
        root
    } else {
        spec_lay_over(spec_merge(root, extra.drop_last()), extra.last().0, extra.last().1)
    }
}

/// Whether every name gives the same value in both lists of members.
pub open spec fn spec_same_answers(
    a: Seq<(Seq<char>, JsonView)>,
    b: Seq<(Seq<char>, JsonView)>,
) -> bool {
    forall|key: Seq<char>|
        #![trigger spec_lookup(a, key)]
        #![trigger spec_lookup(b, key)]
        spec_lookup(a, key) == spec_lookup(b, key)
}

/// Whether two values are alike: two objects in which every name gives the
/// same value, or the same value.
pub open spec fn spec_alike(a: JsonView, b: JsonView) -> bool {
    match (a, b) {
        (JsonView::Object(x), JsonView::Object(y)) => spec_same_answers(x, y),
        _ => a == b,
    }
}

/// Whether two roots are alike: the same names in the same order, each with
/// values that are alike.
pub open spec fn spec_roots_alike(
    a: Seq<(Seq<char>, JsonView)>,
    b: Seq<(Seq<char>, JsonView)>,
) -> bool {
    &&& a.len() == b.len()
    &&& forall|i: int|
        0 <= i < a.len() ==> (#[trigger] a[i]).0 == b[i].0 && spec_alike(a[i].1, b[i].1)
}

/// The first index is a valid place, and no member before it has the name.
pub proof fn lemma_first_index(members: Seq<(Seq<char>, JsonView)>, key: Seq<char>)
    ensures
        0 <= spec_first_index(members, key) <= members.len(),
        spec_first_index(members, key) < members.len() ==> members[spec_first_index(
            members,
            key,
        )].0 == key,
        forall|k: int| 0 <= k < spec_first_index(members, key) ==> (#[trigger] members[k]).0 != key,
    decreases members.len(),
{
    if members.len() > 0 && members[0].0 != key {
        let rest = members.drop_first();
        lemma_first_index(rest, key);
        assert forall|k: int| 0 <= k < spec_first_index(members, key) implies (
        #[trigger] members[k]).0 != key by {
            if k > 0 {
                assert(members[k] == rest[k - 1]);
            }
        }
    }
}

/// An index with the name, before which no member has it, is the first index.
pub proof fn lemma_first_index_is(members: Seq<(Seq<char>, JsonView)>, key: Seq<char>, at: int)
    requires
        0 <= at <= members.len(),
        at < members.len() ==> members[at].0 == key,
        forall|k: int| 0 <= k < at ==> (#[trigger] members[k]).0 != key,
    ensures
        spec_first_index(members, key) == at,
    decreases members.len(),
{
    if members.len() > 0 {
        if at == 0 {
        } else {
            assert(members[0].0 != key);
            let rest = members.drop_first();
            assert forall|k: int| 0 <= k < at - 1 implies (#[trigger] rest[k]).0 != key by {
                assert(rest[k] == members[k + 1]);
            }
            lemma_first_index_is(rest, key, at - 1);
        }
    }
}

/// Looking a name up gives the value at its first index.
pub proof fn lemma_lookup_at_first_index(members: Seq<(Seq<char>, JsonView)>, key: Seq<char>)
    ensures
        spec_lookup(members, key) == if spec_first_index(members, key) < members.len() {
            Some(members[spec_first_index(members, key)].1)
        } else {
            None
        },
    decreases members.len(),
{
    if members.len() > 0 && members[0].0 != key {
        let rest = members.drop_first();
        lemma_lookup_at_first_index(rest, key);
        lemma_first_index(rest, key);
        let at = spec_first_index(rest, key);
        if at < rest.len() {
            assert(rest[at] == members[at + 1]);
        }
    }
}

/// After `value` is put under `key`, looking `key` up gives `value`, and
/// every other name gives what it gave before.
pub proof fn lemma_upsert_lookup(
    members: Seq<(Seq<char>, JsonView)>,
    key: Seq<char>,
    value: JsonView,
    other: Seq<char>,
)
    ensures
        spec_lookup(spec_upsert(members, key, value), key) == Some(value),
        other != key ==> spec_lookup(spec_upsert(members, key, value), other) == spec_lookup(
            members,
            other,
        ),
{
    let after = spec_upsert(members, key, value);
    let at = spec_first_index(members, key);
    lemma_first_index(members, key);
    assert(after[at] == (key, value));
    assert forall|k: int| 0 <= k < at implies (#[trigger] after[k]).0 != key by {
        assert(after[k] == members[k]);
    }
    lemma_first_index_is(after, key, at);
    lemma_lookup_at_first_index(after, key);
    if other != key {
        let was = spec_first_index(members, other);
        lemma_first_index(members, other);
        lemma_lookup_at_first_index(members, other);
        lemma_lookup_at_first_index(after, other);
        if was < members.len() {
            assert(was != at);
            assert(after[was] == members[was]);
            assert forall|k: int| 0 <= k < was implies (#[trigger] after[k]).0 != other by {
                if k != at {
                    assert(after[k] == members[k]);
                }
            }
            lemma_first_index_is(after, other, was);
        } else {
            assert forall|k: int| 0 <= k < after.len() implies (#[trigger] after[k]).0
                != other by {
                if k != at {
                    assert(after[k] == members[k]);
                }
            }
            lemma_first_index_is(after, other, after.len() as int);
        }
    }
}

/// After `fields` are laid over `members`, a name gives what `fields` hold
/// under it last, or, where `fields` do not have it, what it gave before.
pub proof fn lemma_extend_lookup(
    members: Seq<(Seq<char>, JsonView)>,
    fields: Seq<(Seq<char>, JsonView)>,
    key: Seq<char>,
)
    ensures
        spec_lookup(spec_extend(members, fields), key) == match spec_lookup(
            fields.reverse(),
            key,
        ) {
            Some(value) => Some(value),
            None => spec_lookup(members, key),
        },
    decreases fields.len(),
{
    if fields.len() == 0 {
        assert(fields.reverse() =~= Seq::empty());
    } else {
        let before = spec_extend(members, fields.drop_last());
        lemma_extend_lookup(members, fields.drop_last(), key);
        lemma_upsert_lookup(before, fields.last().0, fields.last().1, key);
        assert(fields.reverse()[0] == fields.last());
        assert(fields.reverse().drop_first() =~= fields.drop_last().reverse());
    }
}

/// The first index of a name depends on the names alone.
pub proof fn lemma_first_index_by_names(
    a: Seq<(Seq<char>, JsonView)>,
    b: Seq<(Seq<char>, JsonView)>,
    key: Seq<char>,
)
    requires
        a.len() == b.len(),
        forall|i: int| 0 <= i < a.len() ==> (#[trigger] a[i]).0 == b[i].0,
    ensures
        spec_first_index(a, key) == spec_first_index(b, key),
{
    lemma_first_index(a, key);
    let at = spec_first_index(a, key);
    assert forall|k: int| 0 <= k < at implies (#[trigger] b[k]).0 != key by {
        assert(a[k].0 == b[k].0);
    }
    if at < a.len() {
        assert(a[at].0 == b[at].0);
    }
    lemma_first_index_is(b, key, at);
}

/// Laying the same fields over two lists of members that give the same
/// answers gives two lists that give the same answers.
pub proof fn lemma_extend_same_answers(
    a: Seq<(Seq<char>, JsonView)>,
    b: Seq<(Seq<char>, JsonView)>,
    fields: Seq<(Seq<char>, JsonView)>,
)
    requires
        spec_same_answers(a, b),
    ensures
        spec_same_answers(spec_extend(a, fields), spec_extend(b, fields)),
{
    assert forall|key: Seq<char>|
        spec_lookup(spec_extend(a, fields), key) == spec_lookup(spec_extend(b, fields), key) by {
        lemma_extend_lookup(a, fields, key);
        lemma_extend_lookup(b, fields, key);
        assert(spec_lookup(a, key) == spec_lookup(b, key));
    }
}

/// Every root is alike to itself.
pub proof fn lemma_roots_alike_reflexive(a: Seq<(Seq<char>, JsonView)>)
    ensures
        spec_roots_alike(a, a),
{
}

/// Roots that are alike to the same root are alike to each other.
pub proof fn lemma_roots_alike_transitive(
    a: Seq<(Seq<char>, JsonView)>,
    b: Seq<(Seq<char>, JsonView)>,
    c: Seq<(Seq<char>, JsonView)>,
)
    requires
        spec_roots_alike(a, b),
        spec_roots_alike(b, c),
    ensures
        spec_roots_alike(a, c),
{
    assert forall|i: int| 0 <= i < a.len() implies (#[trigger] a[i]).0 == c[i].0 && spec_alike(
        a[i].1,
        c[i].1,
    ) by {
        assert(a[i].0 == b[i].0 && spec_alike(a[i].1, b[i].1));
        assert(b[i].0 == c[i].0 && spec_alike(b[i].1, c[i].1));
        match (a[i].1, b[i].1, c[i].1) {
            (JsonView::Object(x), JsonView::Object(y), JsonView::Object(z)) => {
                assert forall|key: Seq<char>| spec_lookup(x, key) == spec_lookup(z, key) by {
                    assert(spec_lookup(x, key) == spec_lookup(y, key));
                    assert(spec_lookup(y, key) == spec_lookup(z, key));
                }
            },
            _ => {},
        }
    }
}

/// Laying the same section over two roots that are alike gives two roots that
/// are alike.
pub proof fn lemma_lay_over_alike(
    a: Seq<(Seq<char>, JsonView)>,
    b: Seq<(Seq<char>, JsonView)>,
    key: Seq<char>,
    value: JsonView,
)
    requires
        spec_roots_alike(a, b),
    ensures
        spec_roots_alike(spec_lay_over(a, key, value), spec_lay_over(b, key, value)),
{
    lemma_first_index_by_names(a, b, key);
    let at = spec_first_index(a, key);
    lemma_first_index(a, key);
    if at < a.len() {
        assert(a[at].0 == b[at].0 && spec_alike(a[at].1, b[at].1));
        match (a[at].1, b[at].1, value) {
            (JsonView::Object(x), JsonView::Object(y), JsonView::Object(fields)) => {
                lemma_extend_same_answers(x, y, fields);
                let a2 = spec_lay_over(a, key, value);
                let b2 = spec_lay_over(b, key, value);
                assert forall|i: int| 0 <= i < a2.len() implies (#[trigger] a2[i]).0 == b2[i].0
                    && spec_alike(a2[i].1, b2[i].1) by {
                    if i != at {
                        assert(a[i].0 == b[i].0 && spec_alike(a[i].1, b[i].1));
                    }
                }
            },
            _ => {},
        }
    }
}

/// Merging the same document into two roots that are alike gives two roots
/// that are alike.
pub proof fn lemma_merge_alike(
    a: Seq<(Seq<char>, JsonView)>,
    b: Seq<(Seq<char>, JsonView)>,
    extra: Seq<(Seq<char>, JsonView)>,
)
    requires
        spec_roots_alike(a, b),
    ensures
        spec_roots_alike(spec_merge(a, extra), spec_merge(b, extra)),
    decreases extra.len(),
{
    if extra.len() > 0 {
        lemma_merge_alike(a, b, extra.drop_last());
        lemma_lay_over_alike(
            spec_merge(a, extra.drop_last()),
            spec_merge(b, extra.drop_last()),
            extra.last().0,
            extra.last().1,
        );
    }
}

/// Merging a document without members into a root leaves every section of
/// the root as it is.
pub proof fn lemma_merge_empty(root: Seq<(Seq<char>, JsonView)>)
    ensures
        spec_merge(root, Seq::empty()) == root,
{
}

/// Merging keeps the names of the root and their order, and adds none.
pub proof fn lemma_merge_keeps_names(
    root: Seq<(Seq<char>, JsonView)>,
    extra: Seq<(Seq<char>, JsonView)>,
)
    ensures
        spec_merge(root, extra).len() == root.len(),
        forall|i: int| 0 <= i < root.len() ==> (#[trigger] spec_merge(root, extra)[i]).0 == root[i].0,
    decreases extra.len(),
{
    if extra.len() > 0 {
        let before = spec_merge(root, extra.drop_last());
        lemma_merge_keeps_names(root, extra.drop_last());
        lemma_first_index(before, extra.last().0);
        assert forall|i: int| 0 <= i < root.len() implies (#[trigger] spec_merge(root, extra)[i]).0
            == root[i].0 by {
            assert(before[i].0 == root[i].0);
        }
    }
}

/// A section that is no object, or whose name the root does not have as an
/// object, changes nothing.
pub proof fn lemma_lay_over_leaves(root: Seq<(Seq<char>, JsonView)>, key: Seq<char>, value: JsonView)
    requires
        !(value is Object) || !(spec_lookup(root, key) matches Some(JsonView::Object(_))),
    ensures
        spec_lay_over(root, key, value) == root,
{
    lemma_lookup_at_first_index(root, key);
}

/// Hands out the value under `key` with `Map::get_mut`. A value comes back
/// exactly when the map has the name; it holds the tree that the name gives,
/// and what is written to it takes the place of that tree, with every other
/// member and the order left as they were.
#[verifier::external_body]
fn map_get_mut<'a>(
    root: &'a mut serde_json::Map<String, serde_json::Value>,
    key: &String,
) -> (r: Option<&'a mut serde_json::Value>)
    ensures
        r is Some <==> spec_lookup(map_members(*old(root)), key@) is Some,
        r matches Some(slot) ==> spec_lookup(map_members(*old(root)), key@) == Some(
            value_tree(*slot),
        ) && map_members(*final(root)) == map_members(*old(root)).update(
            spec_first_index(map_members(*old(root)), key@),
            (key@, value_tree(*final(slot))),
        ),
        r is None ==> map_members(*final(root)) == map_members(*old(root)),
{
    root.get_mut(key)
}

/// Hands out the map of a value that is an object with
/// `Value::as_object_mut`. A map comes back exactly when the value is an
/// object; it holds the members of the object, and the value is afterwards
/// the object of what the map then holds.
#[verifier::external_body]
fn value_as_object_mut<'a>(value: &'a mut serde_json::Value) -> (r: Option<
    &'a mut serde_json::Map<String, serde_json::Value>,
>)
    ensures
        r is Some <==> value_tree(*old(value)) is Object,
        r matches Some(map) ==> value_tree(*old(value)) == JsonView::Object(map_members(*map))
            && value_tree(*final(value)) == JsonView::Object(map_members(*final(map))),
        r is None ==> value_tree(*final(value)) == value_tree(*old(value)),
{
    value.as_object_mut()
}

/// Puts every member of `fields` into `target` with `Extend::extend`, which
/// inserts them one after the other. Afterwards every name gives in `target`
/// what it gives in the members of before with those of `fields` laid over
/// them. Nothing is said of the order of the members.
#[verifier::external_body]
fn map_extend(
    target: &mut serde_json::Map<String, serde_json::Value>,
    fields: serde_json::Map<String, serde_json::Value>,
)
    ensures
        spec_same_answers(
            map_members(*final(target)),
            spec_extend(map_members(*old(target)), map_members(fields)),
        ),
{
    target.extend(fields)
}

/// Lays the members of `fields` over the section named `key`, if the root
/// has one and it is an object.
pub fn lay_over(
    root: &mut serde_json::Map<String, serde_json::Value>,
    key: &String,
    fields: serde_json::Map<String, serde_json::Value>,
)
    ensures
        spec_roots_alike(
            map_members(*final(root)),
            spec_lay_over(
                map_members(*old(root)),
                key@,
                JsonView::Object(map_members(fields)),
            ),
        ),
{
    let ghost before = map_members(*root);
    let ghost over = map_members(fields);
    proof {
        lemma_lookup_at_first_index(before, key@);
        lemma_first_index(before, key@);
        lemma_roots_alike_reflexive(before);
    }
    match map_get_mut(root, key) {
        Some(slot) => match value_as_object_mut(slot) {
            Some(target) => {
                map_extend(target, fields);
            },
            None => {},
        },
        None => {},
    }
    proof {
        let after = map_members(*root);
        let model = spec_lay_over(before, key@, JsonView::Object(over));
        let at = spec_first_index(before, key@);
        assert forall|i: int| 0 <= i < after.len() implies (#[trigger] after[i]).0 == model[i].0
            && spec_alike(after[i].1, model[i].1) by {
            if i != at {
                assert(spec_alike(before[i].1, before[i].1));
            }
        }
    }
}

/// Merges `extra` into `root`: each section of `extra` that is an object is
/// laid over the section of the same name.
pub fn merge_into(
    root: &mut serde_json::Map<String, serde_json::Value>,
    extra: &serde_json::Map<String, serde_json::Value>,
)
    ensures
        spec_roots_alike(
            map_members(*final(root)),
            spec_merge(map_members(*old(root)), map_members(*extra)),
        ),
        map_members(*extra).len() == 0 ==> map_members(*final(root)) == map_members(*old(root)),
{
    let ghost start = map_members(*root);
    let ghost all = map_members(*extra);
    let entries = entries_of(extra);
    proof {
        lemma_roots_alike_reflexive(start);
        assert(all.take(0) == Seq::<(Seq<char>, JsonView)>::empty());
    }
    for entry in it: entries
        invariant
            spec_entry_trees(it.seq()) == all,
            spec_roots_alike(map_members(*root), spec_merge(start, all.take(it.index() as int))),
            it.index() == 0 ==> map_members(*root) == start,
    {
        let ghost i = it.index() as int;
        let ghost held = map_members(*root);
        let ghost model = spec_merge(start, all.take(i));
        let (key, value) = entry;
        proof {
            assert(all[i] == (key@, value_tree(value)));
            assert(all.take(i + 1).drop_last() == all.take(i));
            assert(all.take(i + 1).last() == all[i]);
            lemma_lay_over_alike(held, model, key@, value_tree(value));
        }
        match object_of(value) {
            Some(fields) => {
                lay_over(root, &key, fields);
                proof {
                    lemma_roots_alike_transitive(
                        map_members(*root),
                        spec_lay_over(held, key@, value_tree(value)),
                        spec_lay_over(model, key@, value_tree(value)),
                    );
                }
            },
            None => {
                proof {
                    lemma_lay_over_leaves(held, key@, value_tree(value));
                    lemma_lay_over_leaves(model, key@, value_tree(value));
                }
            },
        }
    }
    proof {
        assert(all.take(all.len() as int) == all);
    }
}

} // verus!
