//! Laws of the profile store.

use crate::laws;
use crate::profile;
use crate::profile::{IProfiles, PrfItem};
use crate::store;
use crate::store::{ImportStep, ProfileStore, StoreError, SwitchStep};
use vstd::prelude::*;
use vstd::string::*;

verus! {

/// The selection is the first subscription with the UID in use, counted among the subscriptions:
/// as many stand before it as are subscriptions among the profiles before it.
pub proof fn selection_counts_the_subscriptions_before(
    before: Seq<profile::ItemModel>,
    item: profile::ItemModel,
    after: Seq<profile::ItemModel>,
    uid: Seq<char>,
)
    requires
        item.itype == Some("remote"@),
        item.uid == Some(uid),
        forall|i: int|
            0 <= i < before.len() ==> (#[trigger] before[i]).uid != Some(uid) || before[i].itype
                != Some("remote"@),
    ensures
        ({
            let current = Some(uid);
            let all = laws::profile::profiles(current, before + seq![item] + after);
            &&& store::selected(all) == laws::profile::profiles(current, before).remotes().len()
            &&& store::selected(all) < all.remotes().len()
            &&& all.remotes()[store::selected(all) as int] == item
        }),
{
    let current = Some(uid);
    let first = laws::profile::profiles(current, before).remotes();
    let last = laws::profile::profiles(current, after).remotes();
    laws::profile::lists_are_listed_in_order(current, before + seq![item], after);
    laws::profile::one_more_profile_is_listed_if_remote(current, before, item);
    assert(before + seq![item] =~= before.push(item));
    assert forall|i: int| 0 <= i < first.len() implies (#[trigger] first[i]).uid != Some(uid) by {
        assert(first.contains(first[i]));
        laws::profile::listed_profiles_are_the_remote_ones(current, before, first[i]);
        let k = choose|k: int| 0 <= k < before.len() && before[k] == first[i];
        assert(before[k].uid != Some(uid) || before[k].itype != Some("remote"@));
    }
    assert(first.push(item) + last =~= first + seq![item] + last);
    laws::profile::first_profile_with_the_uid_is_found(first, item, last, uid);
}

/// Where no subscription has the UID in use, or none is in use, the selection is the first entry.
pub proof fn selection_falls_back_to_the_first(store: profile::ProfilesModel)
    requires
        store.current matches Some(uid) ==> store.items is Some ==> forall|i: int|
            0 <= i < store.items->0.len() ==> (#[trigger] store.items->0[i]).uid != Some(uid)
                || store.items->0[i].itype != Some("remote"@),
    ensures
        store::selected(store) == 0,
{
    if store.current is Some {
        let uid = store.current->0;
        let list = store.items->0;
        profile::lemma_position_of(store.remotes(), uid);
        let at = profile::position_of(store.remotes(), uid) as int;
        if at < store.remotes().len() {
            let item = store.remotes()[at];
            assert(store.remotes().contains(item));
            if store.items is Some {
                assert(store == laws::profile::profiles(store.current, list));
                laws::profile::listed_profiles_are_the_remote_ones(store.current, list, item);
                let k = choose|k: int| 0 <= k < list.len() && list[k] == item;
                assert(list[k].uid != Some(uid) || list[k].itype != Some("remote"@));
            } else {
                laws::profile::missing_list_is_empty(store.current, Seq::empty());
            }
        }
    }
}

/// A profile whose kind is not `remote`, put anywhere into the list, changes neither what can be
/// selected nor what is selected.
pub proof fn other_kinds_do_not_shift_the_selection(
    current: Option<Seq<char>>,
    before: Seq<profile::ItemModel>,
    fragment: profile::ItemModel,
    after: Seq<profile::ItemModel>,
)
    requires
        fragment.itype != Some("remote"@),
    ensures
        ({
            let with = laws::profile::profiles(current, before + seq![fragment] + after);
            let without = laws::profile::profiles(current, before + after);
            &&& with.remotes() == without.remotes()
            &&& store::selected(with) == store::selected(without)
        }),
{
    laws::profile::lists_are_listed_in_order(current, before + seq![fragment], after);
    laws::profile::lists_are_listed_in_order(current, before, after);
    laws::profile::one_more_profile_is_listed_if_remote(current, before, fragment);
    assert(before + seq![fragment] =~= before.push(fragment));
}

/// A switch asks for the UID in use to be changed to the new one and for nothing else, and is
/// answered with the UID that was in use.
pub proof fn switch_installs_its_uid_and_answers_the_old(
    before: profile::ProfilesModel,
    uid: Seq<char>,
    cause: Seq<char>,
)
    ensures
        ({
            let patch = profile::ProfilesModel { current: Some(uid), items: None };
            let step = store::replacing(before, uid);
            &&& store::current_patch(uid) == patch
            &&& step == (store::SwitchModel::Install { patch, previous: before.current })
            &&& store::after_save(step, Ok(())) == store::SwitchModel::Done(Ok(before.current))
            &&& store::after_save(step, Err(cause)) == store::SwitchModel::Done(
                Err(store::StoreErrorModel::SaveCurrentFailed(cause)),
            )
        }),
{
}

/// Whatever is to be installed, it is done once it is saved, a failure to save is reported with
/// its cause, and what is done stays done.
pub proof fn saving_ends_a_switch(
    patch: profile::ProfilesModel,
    previous: Option<Seq<char>>,
    outcome: Result<Option<Seq<char>>, store::StoreErrorModel>,
    saved: Result<(), Seq<char>>,
    cause: Seq<char>,
)
    ensures
        store::after_save(store::SwitchModel::Install { patch, previous }, Ok(()))
            == store::SwitchModel::Done(Ok(previous)),
        store::after_save(store::SwitchModel::Install { patch, previous }, Err(cause))
            == store::SwitchModel::Done(Err(store::StoreErrorModel::SaveCurrentFailed(cause))),
        store::after_save(store::SwitchModel::Done(outcome), saved) == store::SwitchModel::Done(
            outcome,
        ),
{
}

/// A predecessor is put back if and only if there is one and the profile of the failed switch
/// still is in use.
pub proof fn predecessor_comes_back_only_for_its_own_switch(
    now: profile::ProfilesModel,
    expected: Seq<char>,
    previous: Seq<char>,
)
    ensures
        now.current == Some(expected) ==> store::restoring(now, expected, Some(previous)) == (
        store::SwitchModel::Install {
            patch: profile::ProfilesModel { current: Some(previous), items: None },
            previous: None,
        }),
        now.current != Some(expected) ==> store::restoring(now, expected, Some(previous))
            == store::SwitchModel::Done(Ok(None)),
        store::restoring(now, expected, None) == store::SwitchModel::Done(Ok(None)),
{
}

/// An import gets a profile, makes storage ready, appends the profile, and saves. The first of
/// these that fails ends it with an error of its own.
pub proof fn import_goes_step_by_step(
    url: Seq<char>,
    name: Seq<char>,
    item: profile::ItemModel,
    report: Seq<char>,
)
    ensures
        ({
            let fetch = store::ImportModel::Fetch { url, name };
            let ensure = store::ImportModel::EnsureStorage(item);
            let append = store::ImportModel::AppendItem(item);
            let save = store::ImportModel::Save(item);
            &&& store::after_fetch(fetch, Ok(item)) == ensure
            &&& store::after_fetch(fetch, Err(report)) == store::ImportModel::Done(
                Err(store::StoreErrorModel::FromUrl(report)),
            )
            &&& store::after_work(ensure, Ok(())) == append
            &&& store::after_work(ensure, Err(report)) == store::ImportModel::Done(
                Err(store::StoreErrorModel::Storage(report)),
            )
            &&& store::after_work(append, Ok(())) == save
            &&& store::after_work(append, Err(report)) == store::ImportModel::Done(
                Err(store::StoreErrorModel::AppendFailed(report)),
            )
            &&& store::after_work(save, Ok(())) == store::ImportModel::Done(Ok(item))
            &&& store::after_work(save, Err(report)) == store::ImportModel::Done(
                Err(store::StoreErrorModel::SaveFailed(report)),
            )
        }),
{
}

/// An outcome that an import did not wait for changes nothing, and one that is done stays done.
pub proof fn unasked_outcomes_change_no_import(
    step: store::ImportModel,
    fetched: Result<profile::ItemModel, Seq<char>>,
    worked: Result<(), Seq<char>>,
)
    ensures
        !(step is Fetch) ==> store::after_fetch(step, fetched) == step,
        step is Fetch || step is Done ==> store::after_work(step, worked) == step,
{
}

/// Every error is reported in its own words, with the UID or the report that it has.
pub proof fn store_errors_are_told_in_words(text: Seq<char>)
    ensures
        store::error_message(store::StoreErrorModel::NotFound) == "profile not found"@,
        store::error_message(store::StoreErrorModel::NotRemote(text)) == "profile "@ + text
            + " is not a remote subscription"@,
        store::error_message(store::StoreErrorModel::MissingUrl) == "remote profile is missing url"@,
        store::error_message(store::StoreErrorModel::FromUrl(text)) == text,
        store::error_message(store::StoreErrorModel::Storage(text)) == text,
        store::error_message(store::StoreErrorModel::UpdatesFailed(text)) == text,
        store::error_message(store::StoreErrorModel::UpdateFailed(text))
            == "failed to update remote profile"@,
        store::error_message(store::StoreErrorModel::AppendFailed(text))
            == "failed to append profile"@,
        store::error_message(store::StoreErrorModel::SaveFailed(text))
            == "failed to save profiles.yaml"@,
        store::error_message(store::StoreErrorModel::SaveCurrentFailed(text))
            == "failed to save profiles.yaml after set_current"@,
{
}

/// An error that covers another keeps what that one reported, and the others cover none.
pub proof fn covered_errors_are_kept(text: Seq<char>)
    ensures
        store::error_cause(store::StoreErrorModel::UpdateFailed(text)) == Some(text),
        store::error_cause(store::StoreErrorModel::AppendFailed(text)) == Some(text),
        store::error_cause(store::StoreErrorModel::SaveFailed(text)) == Some(text),
        store::error_cause(store::StoreErrorModel::SaveCurrentFailed(text)) == Some(text),
        store::error_cause(store::StoreErrorModel::NotFound) is None,
        store::error_cause(store::StoreErrorModel::NotRemote(text)) is None,
        store::error_cause(store::StoreErrorModel::MissingUrl) is None,
        store::error_cause(store::StoreErrorModel::FromUrl(text)) is None,
        store::error_cause(store::StoreErrorModel::Storage(text)) is None,
        store::error_cause(store::StoreErrorModel::UpdatesFailed(text)) is None,
{
}

/// The views of errors show which they are and what they hold.
pub proof fn views_of_errors_show_them(text: String)
    ensures
        StoreError::NotFound@ == store::StoreErrorModel::NotFound,
        StoreError::NotRemote(text)@ == store::StoreErrorModel::NotRemote(text@),
        StoreError::MissingUrl@ == store::StoreErrorModel::MissingUrl,
        StoreError::FromUrl(text)@ == store::StoreErrorModel::FromUrl(text@),
        StoreError::Storage(text)@ == store::StoreErrorModel::Storage(text@),
        StoreError::UpdateFailed(text)@ == store::StoreErrorModel::UpdateFailed(text@),
        StoreError::AppendFailed(text)@ == store::StoreErrorModel::AppendFailed(text@),
        StoreError::SaveFailed(text)@ == store::StoreErrorModel::SaveFailed(text@),
        StoreError::SaveCurrentFailed(text)@ == store::StoreErrorModel::SaveCurrentFailed(text@),
        StoreError::UpdatesFailed(text)@ == store::StoreErrorModel::UpdatesFailed(text@),
{
}

/// The views of steps show which they are and what they hold.
pub proof fn views_of_steps_show_them(
    profiles: IProfiles,
    item: PrfItem,
    text: String,
    name: String,
    error: StoreError,
)
    ensures
        (ProfileStore { profiles })@ == profiles@,
        (SwitchStep::Install { patch: profiles, previous: Some(text) })@ == (
        store::SwitchModel::Install { patch: profiles@, previous: Some(text@) }),
        (SwitchStep::Install { patch: profiles, previous: None })@ == (
        store::SwitchModel::Install { patch: profiles@, previous: None }),
        SwitchStep::Done(Ok(Some(text)))@ == store::SwitchModel::Done(Ok(Some(text@))),
        SwitchStep::Done(Ok(None))@ == store::SwitchModel::Done(Ok(None)),
        SwitchStep::Done(Err(error))@ == store::SwitchModel::Done(Err(error@)),
        (ImportStep::Fetch { url: text, name })@ == (store::ImportModel::Fetch {
            url: text@,
            name: name@,
        }),
        ImportStep::EnsureStorage(item)@ == store::ImportModel::EnsureStorage(item@),
        ImportStep::AppendItem(item)@ == store::ImportModel::AppendItem(item@),
        ImportStep::Save(item)@ == store::ImportModel::Save(item@),
        ImportStep::Done(Ok(item))@ == store::ImportModel::Done(Ok(item@)),
        ImportStep::Done(Err(error))@ == store::ImportModel::Done(Err(error@)),
        store::outcome_model(Ok(())) == Ok::<(), Seq<char>>(()),
        store::outcome_model(Err(text)) == Err::<(), Seq<char>>(text@),
        store::fetched_model(Ok(item)) == Ok::<profile::ItemModel, Seq<char>>(item@),
        store::fetched_model(Err(text)) == Err::<profile::ItemModel, Seq<char>>(text@),
{
}

} // verus!
