//! Laws of profiles and the list of them.

use crate::profile;
use crate::profile::{IProfiles, PrfItem, PrfOption};
use vstd::prelude::*;
use vstd::string::*;

verus! {

/// A list of profiles with one of them in use.
pub open spec fn profiles(
    current: Option<Seq<char>>,
    list: Seq<profile::ItemModel>,
) -> profile::ProfilesModel {
    profile::ProfilesModel { current, items: Some(list) }
}

/// Each field of merged options is that of the options on top where they set it, and that of the
/// options below where they do not.
pub proof fn options_on_top_win_field_by_field(one: PrfOption, other: PrfOption)
    ensures
        ({
            let merged = profile::merged_options(one, other);
            &&& other.with_proxy is Some ==> merged.with_proxy == other.with_proxy
            &&& other.with_proxy is None ==> merged.with_proxy == one.with_proxy
            &&& other.self_proxy is Some ==> merged.self_proxy == other.self_proxy
            &&& other.self_proxy is None ==> merged.self_proxy == one.self_proxy
            &&& other.update_interval is Some ==> merged.update_interval == other.update_interval
            &&& other.update_interval is None ==> merged.update_interval == one.update_interval
            &&& other.allow_auto_update is Some ==> merged.allow_auto_update
                == other.allow_auto_update
            &&& other.allow_auto_update is None ==> merged.allow_auto_update
                == one.allow_auto_update
        }),
{
}

/// The options that say nothing set no field.
pub proof fn empty_options_set_nothing()
    ensures
        profile::no_options().with_proxy is None,
        profile::no_options().self_proxy is None,
        profile::no_options().update_interval is None,
        profile::no_options().allow_auto_update is None,
{
}

/// A profile is found by its UID where no profile before it has the same.
pub proof fn first_profile_with_the_uid_is_found(
    before: Seq<profile::ItemModel>,
    item: profile::ItemModel,
    after: Seq<profile::ItemModel>,
    uid: Seq<char>,
)
    requires
        item.uid == Some(uid),
        forall|i: int| 0 <= i < before.len() ==> (#[trigger] before[i]).uid != Some(uid),
    ensures
        profile::item_of(before + seq![item] + after, uid) == Some(item),
        profile::position_of(before + seq![item] + after, uid) == before.len(),
{
    let list = before + seq![item] + after;
    assert forall|i: int| 0 <= i < before.len() implies (#[trigger] list[i]).uid != Some(uid) by {
        assert(list[i] == before[i]);
    }
    profile::lemma_position_of_unique(list, uid, before.len());
}

/// A profile is found if and only if one in the list has the UID.
pub proof fn unknown_uid_is_not_found(list: Seq<profile::ItemModel>, uid: Seq<char>)
    ensures
        profile::item_of(list, uid) is None <==> forall|i: int|
            0 <= i < list.len() ==> (#[trigger] list[i]).uid != Some(uid),
{
    profile::lemma_position_of(list, uid);
}

/// The list with one more profile lists that profile last if its kind is exactly `remote`, and
/// otherwise lists what it listed before.
pub proof fn one_more_profile_is_listed_if_remote(
    current: Option<Seq<char>>,
    list: Seq<profile::ItemModel>,
    item: profile::ItemModel,
)
    ensures
        item.itype == Some("remote"@) ==> profiles(current, list.push(item)).remotes() == profiles(
            current,
            list,
        ).remotes().push(item),
        item.itype != Some("remote"@) ==> profiles(current, list.push(item)).remotes() == profiles(
            current,
            list,
        ).remotes(),
        profiles(current, Seq::empty()).remotes() == Seq::<profile::ItemModel>::empty(),
{
    reveal(Seq::filter);
    assert(list.push(item).drop_last() =~= list);
}

proof fn lemma_listed(current: Option<Seq<char>>, list: Seq<profile::ItemModel>)
    ensures
        forall|i: int|
            0 <= i < profiles(current, list).remotes().len() ==> {
                &&& (#[trigger] profiles(current, list).remotes()[i]).itype == Some("remote"@)
                &&& list.contains(profiles(current, list).remotes()[i])
            },
        forall|j: int|
            0 <= j < list.len() && (#[trigger] list[j]).itype == Some("remote"@) ==> profiles(
                current,
                list,
            ).remotes().contains(list[j]),
    decreases list.len(),
{
    let listed = profiles(current, list).remotes();
    if list.len() == 0 {
        one_more_profile_is_listed_if_remote(current, list, arbitrary());
        assert(list =~= Seq::<profile::ItemModel>::empty());
    } else {
        let front = list.drop_last();
        let item = list.last();
        let front_listed = profiles(current, front).remotes();
        lemma_listed(current, front);
        one_more_profile_is_listed_if_remote(current, front, item);
        assert(list =~= front.push(item));
        assert(list[list.len() - 1] == item);
        assert forall|i: int| 0 <= i < listed.len() implies {
            &&& (#[trigger] listed[i]).itype == Some("remote"@)
            &&& list.contains(listed[i])
        } by {
            if i < front_listed.len() {
                assert(listed[i] == front_listed[i]);
                assert(front.contains(front_listed[i]));
                let k = choose|k: int| 0 <= k < front.len() && front[k] == front_listed[i];
                assert(list[k] == listed[i]);
            } else {
                assert(listed[i] == item);
            }
        }
        assert forall|j: int| 0 <= j < list.len() && (#[trigger] list[j]).itype == Some(
            "remote"@,
        ) implies listed.contains(list[j]) by {
            if j < front.len() {
                assert(front[j] == list[j]);
                assert(front_listed.contains(front[j]));
                let k = choose|k: int| 0 <= k < front_listed.len() && front_listed[k] == front[j];
                assert(listed[k] == list[j]);
            } else {
                assert(listed[listed.len() - 1] == item);
            }
        }
    }
}

/// A profile is among those that a user can select if and only if it is in the list and its kind
/// is exactly `remote`.
pub proof fn listed_profiles_are_the_remote_ones(
    current: Option<Seq<char>>,
    list: Seq<profile::ItemModel>,
    item: profile::ItemModel,
)
    ensures
        profiles(current, list).remotes().contains(item) <==> list.contains(item) && item.itype
            == Some("remote"@),
{
    lemma_listed(current, list);
    let listed = profiles(current, list).remotes();
    if listed.contains(item) {
        let i = choose|i: int| 0 <= i < listed.len() && listed[i] == item;
        assert(listed[i].itype == Some("remote"@));
    }
    if list.contains(item) && item.itype == Some("remote"@) {
        let j = choose|j: int| 0 <= j < list.len() && list[j] == item;
        assert(list[j].itype == Some("remote"@));
    }
}

/// No fragment can be selected, of whichever kind, nor a profile without a kind.
pub proof fn fragments_are_not_listed(
    current: Option<Seq<char>>,
    list: Seq<profile::ItemModel>,
    item: profile::ItemModel,
)
    requires
        item.itype is None || item.itype == Some("merge"@) || item.itype == Some("script"@)
            || item.itype == Some("rules"@) || item.itype == Some("proxies"@) || item.itype == Some(
            "groups"@,
        ),
    ensures
        !profiles(current, list).remotes().contains(item),
        !item.is_remote(),
{
    listed_profiles_are_the_remote_ones(current, list, item);
    reveal_strlit("remote");
    reveal_strlit("merge");
    reveal_strlit("script");
    reveal_strlit("rules");
    reveal_strlit("proxies");
    reveal_strlit("groups");
    assert("remote"@[0] == 'r' && "remote"@.len() == 6);
    assert("merge"@.len() == 5 && "rules"@.len() == 5 && "proxies"@.len() == 7);
    assert("script"@[0] == 's' && "groups"@[0] == 'g');
}

/// The kind of a profile alone decides whether it is a subscription.
pub proof fn kind_alone_decides(item: profile::ItemModel)
    ensures
        item.is_remote() <==> item.itype == Some("remote"@),
{
}

/// What two lists together list is what the one lists and then what the other lists.
pub proof fn lists_are_listed_in_order(
    current: Option<Seq<char>>,
    one: Seq<profile::ItemModel>,
    other: Seq<profile::ItemModel>,
)
    ensures
        profiles(current, one + other).remotes() == profiles(current, one).remotes() + profiles(
            current,
            other,
        ).remotes(),
{
    Seq::filter_distributes_over_add(one, other, |item: profile::ItemModel| item.is_remote());
}

/// A profile list that is not there is an empty one, and one that is there has all its profiles.
pub proof fn missing_list_is_empty(current: Option<Seq<char>>, list: Seq<profile::ItemModel>)
    ensures
        profiles(current, list).all() == list,
        (profile::ProfilesModel { current, items: None }).all() == Seq::<
            profile::ItemModel,
        >::empty(),
        (profile::ProfilesModel { current, items: None }).remotes() == Seq::<
            profile::ItemModel,
        >::empty(),
{
    reveal(Seq::filter);
}

/// The views of a profile and of a list show every field.
pub proof fn views_of_profiles_show_every_field(item: PrfItem, list: IProfiles)
    ensures
        item.uid matches Some(uid) ==> item@.uid == Some(uid@),
        item.uid is None ==> item@.uid is None,
        item.itype matches Some(itype) ==> item@.itype == Some(itype@),
        item.itype is None ==> item@.itype is None,
        item.name matches Some(name) ==> item@.name == Some(name@),
        item.name is None ==> item@.name is None,
        item.url matches Some(url) ==> item@.url == Some(url@),
        item.url is None ==> item@.url is None,
        item.file matches Some(file) ==> item@.file == Some(file@),
        item.file is None ==> item@.file is None,
        item.file_data matches Some(data) ==> item@.file_data == Some(data@),
        item.file_data is None ==> item@.file_data is None,
        item@.updated == item.updated,
        list.current matches Some(uid) ==> list@.current == Some(uid@),
        list.current is None ==> list@.current is None,
        list.items is None ==> list@.items is None,
        list.items matches Some(items) ==> {
            &&& list@.items is Some
            &&& list@.items->0.len() == items@.len()
            &&& forall|i: int|
                0 <= i < items@.len() ==> #[trigger] list@.items->0[i] == items@[i]@
        },
{
}

/// A list of profiles is viewed profile by profile.
pub proof fn models_are_those_of_the_profiles(list: Seq<PrfItem>)
    ensures
        profile::models(list).len() == list.len(),
        forall|i: int| 0 <= i < list.len() ==> #[trigger] profile::models(list)[i] == list[i]@,
{
}

} // verus!
