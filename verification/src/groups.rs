//! Grouping by resource.
//!
//! Events of one resource go into one group. The groups come in the order in which their resources
//! came first, and the events in a group in the order in which they came.
use vstd::prelude::*;
use crate::proto::{KeyValue, SpecKeyValue};
use crate::same::same_attributes;
use crate::views::{group_views, views};

verus! {

broadcast use group_views;

/// An item with the attributes of its resource.
pub struct Told<V> {
    /// Whether the item makes a group of its own, whatever its resource.
    pub alone: bool,
    pub attributes: Seq<SpecKeyValue>,
    pub item: V,
}

/// Items of one resource.
#[verifier::ext_equal]
pub struct SpecGroup<V> {
    /// Whether the group is for one item alone.
    pub alone: bool,
    pub attributes: Seq<SpecKeyValue>,
    pub items: Seq<V>,
}

/// Whether an item goes into the group for these attributes.
pub open spec fn belongs<V>(told: Told<V>, attributes: Seq<SpecKeyValue>) -> bool {
    !told.alone && told.attributes == attributes
}

/// The items that go into the group for these attributes, in their order.
pub open spec fn members<V>(told: Seq<Told<V>>, attributes: Seq<SpecKeyValue>) -> Seq<V>
    decreases told.len(),
{
    if told.len() == 0 {
        Seq::empty()
    } else if belongs(told.last(), attributes) {
        members(told.drop_last(), attributes).push(told.last().item)
    } else {
        members(told.drop_last(), attributes)
    }
}

/// Whether there is a group for these attributes.
pub open spec fn grouped<V>(told: Seq<Told<V>>, attributes: Seq<SpecKeyValue>) -> bool {
    exists|i: int| 0 <= i < told.len() && belongs(#[trigger] told[i], attributes)
}

/// The places of the items that come first in their groups.
pub open spec fn leaders<V>(told: Seq<Told<V>>) -> Seq<int>
    decreases told.len(),
{
    if told.len() == 0 {
        Seq::empty()
    } else {
        let before = leaders(told.drop_last());
        if told.last().alone || !grouped(told.drop_last(), told.last().attributes) {
            before.push(told.len() - 1)
        } else {
            before
        }
    }
}

/// The group that an item comes first in.
pub open spec fn group_led_by<V>(told: Seq<Told<V>>, leader: int) -> SpecGroup<V> {
    SpecGroup {
        alone: told[leader].alone,
        attributes: told[leader].attributes,
        items: if told[leader].alone {
            seq![told[leader].item]
        } else {
            members(told, told[leader].attributes)
        },
    }
}

/// All groups.
pub open spec fn groups<V>(told: Seq<Told<V>>) -> Seq<SpecGroup<V>> {
    Seq::new(leaders(told).len(), |i: int| group_led_by(told, leaders(told)[i]))
}

/// A leader is an item.
proof fn lemma_leader_place<V>(told: Seq<Told<V>>, i: int)
    requires
        0 <= i < leaders(told).len(),
    ensures
        0 <= leaders(told)[i] < told.len(),
    decreases told.len(),
{
    let rest = told.drop_last();
    if i < leaders(rest).len() {
        lemma_leader_place(rest, i);
    }
}

/// Groups that are not for one item alone have different attributes.
proof fn lemma_leaders_differ<V>(told: Seq<Told<V>>, i: int, j: int)
    requires
        0 <= i < j < leaders(told).len(),
        !told[leaders(told)[i]].alone,
        !told[leaders(told)[j]].alone,
    ensures
        told[leaders(told)[i]].attributes != told[leaders(told)[j]].attributes,
    decreases told.len(),
{
    let rest = told.drop_last();
    lemma_leader_place(rest, i);
    let first = leaders(rest)[i];
    assert(rest[first] == told[first]);
    if j < leaders(rest).len() {
        lemma_leader_place(rest, j);
        let second = leaders(rest)[j];
        assert(rest[second] == told[second]);
        lemma_leaders_differ(rest, i, j);
    } else if told[first].attributes == told.last().attributes {
        assert(belongs(rest[first], told.last().attributes));
    }
}

/// An item that is not alone has a group with a leader.
proof fn lemma_has_leader<V>(told: Seq<Told<V>>, k: int) -> (i: int)
    requires
        0 <= k < told.len(),
        !told[k].alone,
    ensures
        0 <= i < leaders(told).len(),
        0 <= leaders(told)[i] < told.len(),
        belongs(told[leaders(told)[i]], told[k].attributes),
    decreases told.len(),
{
    let rest = told.drop_last();
    let attributes = told[k].attributes;
    if k < rest.len() {
        assert(rest[k] == told[k]);
        let i = lemma_has_leader(rest, k);
        assert(rest[leaders(rest)[i]] == told[leaders(rest)[i]]);
        i
    } else if grouped(rest, attributes) {
        let m = choose|m: int| 0 <= m < rest.len() && belongs(#[trigger] rest[m], attributes);
        let i = lemma_has_leader(rest, m);
        assert(rest[leaders(rest)[i]] == told[leaders(rest)[i]]);
        i
    } else {
        leaders(rest).len() as int
    }
}

proof fn lemma_members_of_none<V>(told: Seq<Told<V>>, attributes: Seq<SpecKeyValue>)
    requires
        !grouped(told, attributes),
    ensures
        members(told, attributes) == Seq::<V>::empty(),
    decreases told.len(),
{
    if told.len() > 0 {
        let rest = told.drop_last();
        if grouped(rest, attributes) {
            let i = choose|i: int| 0 <= i < rest.len() && belongs(#[trigger] rest[i], attributes);
            assert(belongs(told[i], attributes));
        }
        lemma_members_of_none(rest, attributes);
        assert(!belongs(told[told.len() - 1], attributes));
    }
}

/// The group for these attributes has place `at`.
pub open spec fn group_at<V>(
    all: Seq<SpecGroup<V>>,
    attributes: Seq<SpecKeyValue>,
    at: int,
) -> bool {
    0 <= at < all.len() && !all[at].alone && all[at].attributes == attributes
}

/// An item that comes first in its group makes a new one.
proof fn lemma_groups_new<V>(told: Seq<Told<V>>, last: Told<V>)
    requires
        last.alone || !grouped(told, last.attributes),
    ensures
        groups(told.push(last)) == groups(told).push(
            (SpecGroup { alone: last.alone, attributes: last.attributes, items: seq![last.item] }),
        ),
{
    let all = told.push(last);
    assert(all.drop_last() =~= told);
    let added = SpecGroup {
        alone: last.alone,
        attributes: last.attributes,
        items: seq![last.item],
    };
    let grown = groups(told).push(added);
    assert(leaders(all) == leaders(told).push(told.len() as int));
    assert forall|i: int| 0 <= i < grown.len() implies groups(all)[i] == grown[i] by {
        if i < leaders(told).len() {
            lemma_leader_place(told, i);
            let leader = leaders(told)[i];
            assert(all[leader] == told[leader]);
            if !told[leader].alone && belongs(last, told[leader].attributes) {
                assert(belongs(told[leader], last.attributes));
            }
        } else if !last.alone {
            lemma_members_of_none(told, last.attributes);
            assert(Seq::<V>::empty().push(last.item) =~= seq![last.item]);
        }
    }
    assert(groups(all) =~= grown);
}

/// An item that does not come first in its group is put at the end of the group.
proof fn lemma_groups_grow<V>(told: Seq<Told<V>>, last: Told<V>, at: int)
    requires
        !last.alone,
        group_at(groups(told), last.attributes, at),
    ensures
        groups(told.push(last)) == groups(told).update(
            at,
            (SpecGroup {
                alone: false,
                attributes: last.attributes,
                items: groups(told)[at].items.push(last.item),
            }),
        ),
{
    let all = told.push(last);
    assert(all.drop_last() =~= told);
    lemma_leader_place(told, at);
    assert(belongs(told[leaders(told)[at]], last.attributes));
    assert(leaders(all) == leaders(told));
    let grown = groups(told).update(
        at,
        SpecGroup {
            alone: false,
            attributes: last.attributes,
            items: groups(told)[at].items.push(last.item),
        },
    );
    assert forall|i: int| 0 <= i < grown.len() implies groups(all)[i] == grown[i] by {
        lemma_leader_place(told, i);
        let leader = leaders(told)[i];
        assert(all[leader] == told[leader]);
        if i != at && !told[leader].alone {
            if i < at {
                lemma_leaders_differ(told, i, at);
            } else {
                lemma_leaders_differ(told, at, i);
            }
        }
    }
    assert(groups(all) =~= grown);
}

/// Where no group is for these attributes, no item belongs into one.
proof fn lemma_no_group<V>(told: Seq<Told<V>>, attributes: Seq<SpecKeyValue>)
    requires
        forall|at: int| !#[trigger] group_at(groups(told), attributes, at),
    ensures
        !grouped(told, attributes),
{
    if grouped(told, attributes) {
        let k = choose|k: int| 0 <= k < told.len() && belongs(#[trigger] told[k], attributes);
        let i = lemma_has_leader(told, k);
        assert(group_at(groups(told), attributes, i));
    }
}

/// Messages of one resource.
pub struct Group<T> {
    /// Whether the group is for one message alone.
    pub alone: bool,
    pub attributes: Vec<KeyValue>,
    pub items: Vec<T>,
}

impl<T: View> View for Group<T> {
    type V = SpecGroup<T::V>;

    open spec fn view(&self) -> SpecGroup<T::V> {
        SpecGroup {
            alone: self.alone,
            attributes: views(self.attributes@),
            items: views(self.items@),
        }
    }
}

/// Finds the group for these attributes.
fn find_group<T: View>(all: &Vec<Group<T>>, attributes: &Vec<KeyValue>) -> (at: Option<usize>)
    ensures
        at matches Some(i) ==> group_at(views(all@), views(attributes@), i as int),
        at is None ==> forall|i: int| !#[trigger] group_at(views(all@), views(attributes@), i),
{
    let ghost model = views(all@);
    let mut i: usize = 0;
    while i < all.len()
        invariant
            i <= all@.len(),
            model == views(all@),
            forall|j: int| 0 <= j < i ==> !#[trigger] group_at(model, views(attributes@), j),
        decreases all@.len() - i,
    {
        assert(model[i as int] == all@[i as int]@);
        if !all[i].alone && same_attributes(&all[i].attributes, attributes) {
            return Some(i);
        }
        i = i + 1;
    }
    None
}

/// Puts a message into its group.
pub(crate) fn add_to_groups<T: View>(
    all: Vec<Group<T>>,
    alone: bool,
    attributes: Vec<KeyValue>,
    item: T,
    Ghost(told): Ghost<Seq<Told<T::V>>>,
) -> (grown: Vec<Group<T>>)
    requires
        views(all@) == groups(told),
    ensures
        views(grown@) == groups(
            told.push((Told { alone, attributes: views(attributes@), item: item@ })),
        ),
{
    let ghost last = Told { alone, attributes: views(attributes@), item: item@ };
    let mut all = all;
    let ghost before = all@;
    if !alone {
        if let Some(at) = find_group(&all, &attributes) {
            let mut group = all.remove(at);
            group.items.push(item);
            all.insert(at, group);
            proof {
                assert(views(all@) =~= views(before).update(at as int, group@));
                lemma_groups_grow(told, last, at as int);
            }
            return all;
        }
        proof {
            lemma_no_group(told, last.attributes);
        }
    }
    proof {
        lemma_groups_new(told, last);
    }
    let mut items: Vec<T> = Vec::new();
    items.push(item);
    assert(views(items@) =~= seq![item@]);
    all.push(Group { alone, attributes, items });
    all
}

/// Every group has an item that comes first in it.
pub proof fn lemma_group_has_a_leader<V>(told: Seq<Told<V>>, g: int)
    requires
        0 <= g < groups(told).len(),
    ensures
        exists|k: int|
            0 <= k < told.len() && (#[trigger] told[k]).alone == groups(told)[g].alone
                && told[k].attributes == groups(told)[g].attributes,
{
    lemma_leader_place(told, g);
    assert(told[leaders(told)[g]].alone == groups(told)[g].alone);
}

/// No two groups are for one resource, but for those of one item alone.
pub proof fn law_groups_are_for_different_resources<V>(told: Seq<Told<V>>, i: int, j: int)
    requires
        0 <= i < j < groups(told).len(),
        !groups(told)[i].alone,
        !groups(told)[j].alone,
    ensures
        groups(told)[i].attributes != groups(told)[j].attributes,
{
    lemma_leaders_differ(told, i, j);
}

/// The item of one place is in the group for its resource.
pub proof fn law_item_is_in_its_group<V>(told: Seq<Told<V>>, k: int)
    requires
        0 <= k < told.len(),
    ensures
        exists|g: int|
            0 <= g < groups(told).len() && (#[trigger] groups(told)[g]).alone == told[k].alone
                && groups(told)[g].attributes == told[k].attributes
                && groups(told)[g].items.contains(told[k].item),
{
    if told[k].alone {
        let g = lemma_leads_alone(told, k);
        assert(groups(told)[g].items[0] == told[k].item);
    } else {
        let g = lemma_has_leader(told, k);
        lemma_member(told, k);
        assert(groups(told)[g].attributes == told[k].attributes);
    }
}

proof fn lemma_leads_alone<V>(told: Seq<Told<V>>, k: int) -> (i: int)
    requires
        0 <= k < told.len(),
        told[k].alone,
    ensures
        0 <= i < leaders(told).len(),
        leaders(told)[i] == k,
    decreases told.len(),
{
    let rest = told.drop_last();
    if k < rest.len() {
        lemma_leads_alone(rest, k)
    } else {
        leaders(rest).len() as int
    }
}

proof fn lemma_member<V>(told: Seq<Told<V>>, k: int)
    requires
        0 <= k < told.len(),
        !told[k].alone,
    ensures
        members(told, told[k].attributes).contains(told[k].item),
    decreases told.len(),
{
    let rest = told.drop_last();
    let attributes = told[k].attributes;
    let all = members(told, attributes);
    if k < rest.len() {
        lemma_member(rest, k);
        let i = choose|i: int|
            0 <= i < members(rest, attributes).len() && members(rest, attributes)[i]
                == told[k].item;
        assert(all[i] == told[k].item);
    } else {
        assert(all[all.len() - 1] == told[k].item);
    }
}

/// The items of groups are items that there are, with the attributes of the group.
pub proof fn law_group_holds_items_of_its_resource<V>(told: Seq<Told<V>>, g: int, i: int)
    requires
        0 <= g < groups(told).len(),
        0 <= i < groups(told)[g].items.len(),
    ensures
        exists|k: int|
            0 <= k < told.len() && (#[trigger] told[k]).item == groups(told)[g].items[i]
                && told[k].attributes == groups(told)[g].attributes,
{
    lemma_leader_place(told, g);
    let leader = leaders(told)[g];
    if told[leader].alone {
        assert(told[leader].item == groups(told)[g].items[i]);
    } else {
        lemma_member_is_told(told, told[leader].attributes, i);
    }
}

proof fn lemma_member_is_told<V>(told: Seq<Told<V>>, attributes: Seq<SpecKeyValue>, i: int)
    requires
        0 <= i < members(told, attributes).len(),
    ensures
        exists|k: int|
            0 <= k < told.len() && (#[trigger] told[k]).item == members(told, attributes)[i]
                && told[k].attributes == attributes,
    decreases told.len(),
{
    let rest = told.drop_last();
    if i < members(rest, attributes).len() {
        lemma_member_is_told(rest, attributes, i);
        let k = choose|k: int|
            0 <= k < rest.len() && (#[trigger] rest[k]).item == members(rest, attributes)[i]
                && rest[k].attributes == attributes;
        assert(told[k] == rest[k]);
    } else {
        assert(told[told.len() - 1].item == members(told, attributes)[i]);
    }
}

/// How many items groups hold.
pub open spec fn items_in<V>(all: Seq<SpecGroup<V>>) -> nat
    decreases all.len(),
{
    if all.len() == 0 {
        0
    } else {
        items_in(all.drop_last()) + all.last().items.len()
    }
}

proof fn lemma_items_in_update<V>(all: Seq<SpecGroup<V>>, at: int, group: SpecGroup<V>)
    requires
        0 <= at < all.len(),
    ensures
        items_in(all.update(at, group)) == items_in(all) - all[at].items.len() + group.items.len(),
    decreases all.len(),
{
    let changed = all.update(at, group);
    if at == all.len() - 1 {
        assert(changed.drop_last() =~= all.drop_last());
    } else {
        assert(changed.drop_last() =~= all.drop_last().update(at, group));
        lemma_items_in_update(all.drop_last(), at, group);
    }
}

/// Nothing is lost and nothing comes twice: the groups hold as many items as there are.
pub proof fn law_groups_hold_all_items<V>(told: Seq<Told<V>>)
    ensures
        items_in(groups(told)) == told.len(),
    decreases told.len(),
{
    if told.len() > 0 {
        let rest = told.drop_last();
        let last = told.last();
        law_groups_hold_all_items(rest);
        assert(told =~= rest.push(last));
        if last.alone || !grouped(rest, last.attributes) {
            lemma_groups_new(rest, last);
            assert(groups(told).drop_last() =~= groups(rest));
        } else {
            let k = choose|k: int|
                0 <= k < rest.len() && belongs(#[trigger] rest[k], last.attributes);
            let at = lemma_has_leader(rest, k);
            lemma_groups_grow(rest, last, at);
            lemma_items_in_update(groups(rest), at, groups(told)[at]);
        }
    } else {
        assert(groups(told) =~= Seq::empty());
    }
}

/// The groups of items that share no resource with those before them come after the groups of
/// those.
pub proof fn law_groups_of_other_resources<V>(a: Seq<Told<V>>, b: Seq<Told<V>>)
    requires
        forall|i: int|
            0 <= i < b.len() && !(#[trigger] b[i]).alone ==> !grouped(a, b[i].attributes),
    ensures
        groups(a + b) == groups(a) + groups(b),
    decreases b.len(),
{
    if b.len() == 0 {
        assert(a + b =~= a);
        assert(groups(a) + groups(b) =~= groups(a));
    } else {
        let rest = b.drop_last();
        let last = b.last();
        let before = a + rest;
        assert forall|i: int| 0 <= i < rest.len() && !(#[trigger] rest[i]).alone implies !grouped(
            a,
            rest[i].attributes,
        ) by {
            assert(rest[i] == b[i]);
        }
        law_groups_of_other_resources(a, rest);
        assert(a + b =~= before.push(last));
        assert(b =~= rest.push(last));
        assert(b[b.len() - 1] == last);
        if last.alone || !grouped(rest, last.attributes) {
            if !last.alone && grouped(before, last.attributes) {
                let k = choose|k: int|
                    0 <= k < before.len() && belongs(#[trigger] before[k], last.attributes);
                if k < a.len() {
                    assert(belongs(a[k], last.attributes));
                } else {
                    assert(belongs(rest[k - a.len()], last.attributes));
                }
            }
            lemma_groups_new(before, last);
            lemma_groups_new(rest, last);
            assert(groups(a + b) =~= groups(a) + groups(b));
        } else {
            let k = choose|k: int|
                0 <= k < rest.len() && belongs(#[trigger] rest[k], last.attributes);
            let at = lemma_has_leader(rest, k);
            assert(group_at(groups(rest), last.attributes, at));
            assert(group_at(groups(before), last.attributes, groups(a).len() + at));
            lemma_groups_grow(rest, last, at);
            lemma_groups_grow(before, last, groups(a).len() + at);
            assert(groups(a + b) =~= groups(a) + groups(b));
        }
    }
}

}
