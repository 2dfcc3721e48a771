//! Laws of updates, of one subscription and of several in a row.

use crate::laws;
use crate::profile;
use crate::profile::PrfItem;
use crate::store;
use crate::store::StoreError;
use crate::update;
use crate::update::{Batch, BatchStep, UpdateEvent, UpdateOutcome, UpdateStep};
use vstd::prelude::*;
use vstd::string::*;

verus! {

/// The profiles of a store, as they stand in its list.
pub open spec fn list_of(store: profile::ProfilesModel) -> Seq<profile::ItemModel> {
    if store.items is Some {
        store.items->0
    } else {
        Seq::empty()
    }
}

/// The profile at `at` is the first with this UID.
pub open spec fn first_with_uid(
    list: Seq<profile::ItemModel>,
    uid: Seq<char>,
    at: int,
) -> bool {
    &&& 0 <= at < list.len()
    &&& list[at].uid == Some(uid)
    &&& forall|i: int| 0 <= i < at ==> (#[trigger] list[i]).uid != Some(uid)
}

/// No profile has this UID.
pub open spec fn unknown(list: Seq<profile::ItemModel>, uid: Seq<char>) -> bool {
    forall|i: int| 0 <= i < list.len() ==> (#[trigger] list[i]).uid != Some(uid)
}

/// The first profile with this UID is a subscription that has an address.
pub open spec fn at_hand(store: profile::ProfilesModel, uid: Seq<char>) -> bool {
    exists|at: int|
        #![trigger list_of(store)[at]]
        first_with_uid(list_of(store), uid, at) && list_of(store)[at].itype == Some("remote"@)
            && list_of(store)[at].url is Some
}

proof fn lemma_first_is_found(store: profile::ProfilesModel, uid: Seq<char>, at: int)
    requires
        first_with_uid(list_of(store), uid, at),
    ensures
        profile::item_of(store.all(), uid) == Some(list_of(store)[at]),
{
    assert(store.all() == list_of(store));
    profile::lemma_position_of_unique(list_of(store), uid, at as nat);
}

/// An update starts by fetching the address of the first profile with the UID, whatever else that
/// profile holds, if it is a subscription and has one. Otherwise it ends with an error that says
/// what is wrong.
pub proof fn update_fetches_the_address(
    store: profile::ProfilesModel,
    uid: Seq<char>,
    at: int,
)
    requires
        first_with_uid(list_of(store), uid, at),
    ensures
        ({
            let item = list_of(store)[at];
            update::first_step(store, uid) == if item.itype != Some("remote"@) {
                update::UpdateModel::Done(Err(store::StoreErrorModel::NotRemote(uid)))
            } else if item.url is None {
                update::UpdateModel::Done(Err(store::StoreErrorModel::MissingUrl))
            } else {
                update::UpdateModel::Fetch { uid, url: item.url->0 }
            }
        }),
{
    lemma_first_is_found(store, uid, at);
}

/// An update of a profile that is not in the list ends as not found, and no other does.
pub proof fn unknown_profile_is_not_updated(store: profile::ProfilesModel, uid: Seq<char>)
    ensures
        update::first_step(store, uid) == update::UpdateModel::Done(
            Err(store::StoreErrorModel::NotFound),
        ) <==> unknown(list_of(store), uid),
{
    assert(store.all() == list_of(store));
    laws::profile::unknown_uid_is_not_found(list_of(store), uid);
    profile::lemma_position_of(list_of(store), uid);
}

/// Two stores whose first profile with the UID has the same kind and the same address start the
/// same update of it.
pub proof fn only_kind_and_address_decide(
    one: profile::ProfilesModel,
    other: profile::ProfilesModel,
    uid: Seq<char>,
    i: int,
    j: int,
)
    requires
        first_with_uid(list_of(one), uid, i),
        first_with_uid(list_of(other), uid, j),
        list_of(one)[i].itype == list_of(other)[j].itype,
        list_of(one)[i].url == list_of(other)[j].url,
    ensures
        update::first_step(one, uid) == update::first_step(other, uid),
{
    update_fetches_the_address(one, uid, i);
    update_fetches_the_address(other, uid, j);
}

/// The profile that was fetched replaces the one with the UID: it keeps that UID and is otherwise
/// as it was made. Whether it is in use is what the store says of the UID.
pub proof fn fetched_profile_replaces_the_old(
    store: profile::ProfilesModel,
    uid: Seq<char>,
    url: Seq<char>,
    item: profile::ItemModel,
)
    ensures
        update::next_step(
            store,
            update::UpdateModel::Fetch { uid, url },
            update::EventModel::Fetched(Ok(item)),
        ) == (update::UpdateModel::UpdateItem {
            uid,
            item: profile::ItemModel {
                uid: Some(uid),
                itype: item.itype,
                name: item.name,
                url: item.url,
                file: item.file,
                file_data: item.file_data,
                updated: item.updated,
            },
            is_current: store.current == Some(uid),
        }),
{
}

/// An update ends with what was found out on the way: whether the profile is in use, or what
/// failed and why.
pub proof fn update_ends_with_what_happened(
    store: profile::ProfilesModel,
    uid: Seq<char>,
    url: Seq<char>,
    item: profile::ItemModel,
    is_current: bool,
    report: Seq<char>,
)
    ensures
        update::next_step(
            store,
            update::UpdateModel::Fetch { uid, url },
            update::EventModel::Fetched(Err(report)),
        ) == update::UpdateModel::Done(Err(store::StoreErrorModel::FromUrl(report))),
        update::next_step(
            store,
            update::UpdateModel::UpdateItem { uid, item, is_current },
            update::EventModel::Updated(Ok(())),
        ) == update::UpdateModel::Done(Ok(is_current)),
        update::next_step(
            store,
            update::UpdateModel::UpdateItem { uid, item, is_current },
            update::EventModel::Updated(Err(report)),
        ) == update::UpdateModel::Done(Err(store::StoreErrorModel::UpdateFailed(report))),
{
}

/// An event that an update did not wait for changes nothing, and what is done stays done.
pub proof fn unasked_events_change_no_update(
    store: profile::ProfilesModel,
    step: update::UpdateModel,
    event: update::EventModel,
)
    requires
        step is Done || (step is Fetch && event is Updated) || (step is UpdateItem
            && event is Fetched),
    ensures
        update::next_step(store, step, event) == step,
{
}

/// When its turn comes, a subscription with an address is fetched, whatever became of the updates
/// before it.
pub proof fn every_subscription_is_fetched_at_its_turn(
    store: profile::ProfilesModel,
    done: Seq<update::OutcomeModel>,
    uid: Seq<char>,
    rest: Seq<Seq<char>>,
    at: int,
)
    requires
        first_with_uid(list_of(store), uid, at),
        list_of(store)[at].itype == Some("remote"@),
        list_of(store)[at].url is Some,
    ensures
        update::advanced(store, done, seq![uid] + rest) == (update::BatchModel::Running {
            done,
            uid,
            step: update::UpdateModel::Fetch { uid, url: list_of(store)[at].url->0 },
            rest,
        }),
{
    update_fetches_the_address(store, uid, at);
    assert((seq![uid] + rest).drop_first() =~= rest);
    assert((seq![uid] + rest)[0] == uid);
}

/// A UID that cannot be updated gets the error that says why as its outcome, and the row goes on
/// with the next. A row with no UID left is finished.
pub proof fn row_goes_on_behind_what_cannot_be_updated(
    store: profile::ProfilesModel,
    done: Seq<update::OutcomeModel>,
    uid: Seq<char>,
    rest: Seq<Seq<char>>,
)
    ensures
        ({
            let row = update::advanced(store, done, seq![uid] + rest);
            &&& unknown(list_of(store), uid) ==> row == update::advanced(
                store,
                done.push(
                    update::OutcomeModel { uid, result: Err(store::StoreErrorModel::NotFound) },
                ),
                rest,
            )
            &&& forall|at: int| #[trigger]
                first_with_uid(list_of(store), uid, at) && list_of(store)[at].itype != Some(
                    "remote"@,
                ) ==> row == update::advanced(
                    store,
                    done.push(
                        update::OutcomeModel {
                            uid,
                            result: Err(store::StoreErrorModel::NotRemote(uid)),
                        },
                    ),
                    rest,
                )
            &&& forall|at: int| #[trigger]
                first_with_uid(list_of(store), uid, at) && list_of(store)[at].itype == Some(
                    "remote"@,
                ) && list_of(store)[at].url is None ==> row == update::advanced(
                    store,
                    done.push(
                        update::OutcomeModel { uid, result: Err(store::StoreErrorModel::MissingUrl) },
                    ),
                    rest,
                )
        }),
        update::advanced(store, done, Seq::empty()) == update::BatchModel::Finished(done),
{
    let row = seq![uid] + rest;
    assert(row.drop_first() =~= rest);
    assert(row[0] == uid);
    unknown_profile_is_not_updated(store, uid);
    assert forall|at: int| #[trigger] first_with_uid(list_of(store), uid, at) implies profile::item_of(
        store.all(),
        uid,
    ) == Some(list_of(store)[at]) by {
        lemma_first_is_found(store, uid, at);
    }
}

/// What an event does to the update under way in a row: the row waits on, or notes the outcome of
/// this update and goes on with the next UID, whether it succeeded or failed.
pub proof fn row_goes_on_whatever_happened(
    store: profile::ProfilesModel,
    done: Seq<update::OutcomeModel>,
    uid: Seq<char>,
    rest: Seq<Seq<char>>,
    url: Seq<char>,
    item: profile::ItemModel,
    is_current: bool,
    report: Seq<char>,
)
    ensures
        ({
            let fetching = update::BatchModel::Running {
                done,
                uid,
                step: update::UpdateModel::Fetch { uid, url },
                rest,
            };
            let writing = update::BatchModel::Running {
                done,
                uid,
                step: update::UpdateModel::UpdateItem { uid, item, is_current },
                rest,
            };
            &&& update::batch_next(store, fetching, update::EventModel::Fetched(Ok(item))) == (
            update::BatchModel::Running {
                done,
                uid,
                step: update::UpdateModel::UpdateItem {
                    uid,
                    item: profile::ItemModel { uid: Some(uid), ..item },
                    is_current: store.current == Some(uid),
                },
                rest,
            })
            &&& update::batch_next(store, fetching, update::EventModel::Fetched(Err(report)))
                == update::advanced(
                store,
                done.push(
                    update::OutcomeModel {
                        uid,
                        result: Err(store::StoreErrorModel::FromUrl(report)),
                    },
                ),
                rest,
            )
            &&& update::batch_next(store, writing, update::EventModel::Updated(Ok(())))
                == update::advanced(
                store,
                done.push(update::OutcomeModel { uid, result: Ok(is_current) }),
                rest,
            )
            &&& update::batch_next(store, writing, update::EventModel::Updated(Err(report)))
                == update::advanced(
                store,
                done.push(
                    update::OutcomeModel {
                        uid,
                        result: Err(store::StoreErrorModel::UpdateFailed(report)),
                    },
                ),
                rest,
            )
        }),
{
}

/// A row that is finished stays as it is, and one under way does where an event comes that its
/// update did not wait for.
pub proof fn unasked_events_change_no_row(
    store: profile::ProfilesModel,
    done: Seq<update::OutcomeModel>,
    uid: Seq<char>,
    step: update::UpdateModel,
    rest: Seq<Seq<char>>,
    event: update::EventModel,
)
    requires
        (step is Fetch && event is Updated) || (step is UpdateItem && event is Fetched),
    ensures
        update::batch_next(store, update::BatchModel::Running { done, uid, step, rest }, event) == (
        update::BatchModel::Running { done, uid, step, rest }),
        update::batch_next(store, update::BatchModel::Finished(done), event)
            == update::BatchModel::Finished(done),
{
}

/// A row with other outcomes in front of its own.
pub open spec fn behind(
    front: Seq<update::OutcomeModel>,
    row: update::BatchModel,
) -> update::BatchModel {
    match row {
        update::BatchModel::Running { done, uid, step, rest } => update::BatchModel::Running {
            done: front + done,
            uid,
            step,
            rest,
        },
        update::BatchModel::Finished(done) => update::BatchModel::Finished(front + done),
    }
}

proof fn lemma_start_ignores_outcomes(
    store: profile::ProfilesModel,
    front: Seq<update::OutcomeModel>,
    done: Seq<update::OutcomeModel>,
    rest: Seq<Seq<char>>,
)
    ensures
        update::advanced(store, front + done, rest) == behind(
            front,
            update::advanced(store, done, rest),
        ),
    decreases rest.len(),
{
    if rest.len() > 0 {
        match update::first_step(store, rest[0]) {
            update::UpdateModel::Done(result) => {
                let outcome = update::OutcomeModel { uid: rest[0], result };
                assert((front + done).push(outcome) =~= front + done.push(outcome));
                lemma_start_ignores_outcomes(
                    store,
                    front,
                    done.push(outcome),
                    rest.drop_first(),
                );
            },
            _ => {},
        }
    }
}

/// What became of earlier updates changes nothing of the later ones: a row with other outcomes in
/// front goes through the same steps and ends with the same outcomes behind them.
pub proof fn earlier_outcomes_do_not_matter(
    front: Seq<update::OutcomeModel>,
    row: update::BatchModel,
    events: Seq<(profile::ProfilesModel, update::EventModel)>,
)
    ensures
        update::batch_run(behind(front, row), events) == behind(
            front,
            update::batch_run(row, events),
        ),
    decreases events.len(),
{
    if events.len() > 0 {
        earlier_outcomes_do_not_matter(front, row, events.drop_last());
        let store = events.last().0;
        match update::batch_run(row, events.drop_last()) {
            update::BatchModel::Running { done, uid, step, rest } => {
                match update::next_step(store, step, events.last().1) {
                    update::UpdateModel::Done(result) => {
                        let outcome = update::OutcomeModel { uid, result };
                        assert((front + done).push(outcome) =~= front + done.push(outcome));
                        lemma_start_ignores_outcomes(store, front, done.push(outcome), rest);
                    },
                    _ => {},
                }
            },
            update::BatchModel::Finished(_) => {},
        }
    }
}

/// Starting a row behind some outcomes is starting it with none and putting them in front.
pub proof fn row_starts_the_same_behind_any_outcomes(
    store: profile::ProfilesModel,
    front: Seq<update::OutcomeModel>,
    uids: Seq<Seq<char>>,
)
    ensures
        update::advanced(store, front, uids) == behind(
            front,
            update::advanced(store, Seq::empty(), uids),
        ),
{
    lemma_start_ignores_outcomes(store, front, Seq::empty(), uids);
    assert(front + Seq::<update::OutcomeModel>::empty() =~= front);
}

/// A row of updates is its updates one after the other: each starts and goes on as it would alone,
/// and when it ends, its outcome is what it would be alone, and the next one starts.
pub proof fn row_is_its_updates_one_by_one(
    store: profile::ProfilesModel,
    done: Seq<update::OutcomeModel>,
    uid: Seq<char>,
    step: update::UpdateModel,
    rest: Seq<Seq<char>>,
    event: update::EventModel,
)
    ensures
        update::advanced(store, done, seq![uid] + rest) == match update::first_step(store, uid) {
            update::UpdateModel::Done(result) => update::advanced(
                store,
                done.push(update::OutcomeModel { uid, result }),
                rest,
            ),
            first => update::BatchModel::Running { done, uid, step: first, rest },
        },
        update::batch_next(store, update::BatchModel::Running { done, uid, step, rest }, event)
            == match update::next_step(store, step, event) {
            update::UpdateModel::Done(result) => update::advanced(
                store,
                done.push(update::OutcomeModel { uid, result }),
                rest,
            ),
            next => update::BatchModel::Running { done, uid, step: next, rest },
        },
{
    assert((seq![uid] + rest).drop_first() =~= rest);
    assert((seq![uid] + rest)[0] == uid);
}

/// The outcome of an update that got as far as fetching.
pub open spec fn was_fetched(result: Result<bool, store::StoreErrorModel>) -> bool {
    match result {
        Ok(_) => true,
        Err(store::StoreErrorModel::FromUrl(_)) => true,
        Err(store::StoreErrorModel::UpdateFailed(_)) => true,
        Err(_) => false,
    }
}

spec fn all_fetched(row: update::BatchModel, uid: Seq<char>) -> bool {
    match row {
        update::BatchModel::Running { done, uid: under_way, step, rest } => {
            &&& !(step is Done)
            &&& forall|i: int|
                0 <= i < done.len() && (#[trigger] done[i]).uid == uid ==> was_fetched(
                    done[i].result,
                )
        },
        update::BatchModel::Finished(done) => forall|i: int|
            0 <= i < done.len() && (#[trigger] done[i]).uid == uid ==> was_fetched(done[i].result),
    }
}

proof fn lemma_start_fetches(
    store: profile::ProfilesModel,
    done: Seq<update::OutcomeModel>,
    rest: Seq<Seq<char>>,
    uid: Seq<char>,
)
    requires
        at_hand(store, uid),
        forall|i: int|
            0 <= i < done.len() && (#[trigger] done[i]).uid == uid ==> was_fetched(done[i].result),
    ensures
        all_fetched(update::advanced(store, done, rest), uid),
    decreases rest.len(),
{
    if rest.len() > 0 {
        if rest[0] == uid {
            let at = choose|at: int|
                #![trigger list_of(store)[at]]
                first_with_uid(list_of(store), uid, at) && list_of(store)[at].itype == Some(
                    "remote"@,
                ) && list_of(store)[at].url is Some;
            update_fetches_the_address(store, uid, at);
        }
        match update::first_step(store, rest[0]) {
            update::UpdateModel::Done(result) => {
                lemma_start_fetches(
                    store,
                    done.push(update::OutcomeModel { uid: rest[0], result }),
                    rest.drop_first(),
                    uid,
                );
            },
            _ => {},
        }
    }
}

proof fn lemma_run_fetches(
    row: update::BatchModel,
    events: Seq<(profile::ProfilesModel, update::EventModel)>,
    uid: Seq<char>,
)
    requires
        all_fetched(row, uid),
        forall|i: int| 0 <= i < events.len() ==> at_hand((#[trigger] events[i]).0, uid),
    ensures
        all_fetched(update::batch_run(row, events), uid),
    decreases events.len(),
{
    if events.len() > 0 {
        lemma_run_fetches(row, events.drop_last(), uid);
        let store = events.last().0;
        assert(at_hand(events[events.len() - 1].0, uid));
        match update::batch_run(row, events.drop_last()) {
            update::BatchModel::Running { done, uid: under_way, step, rest } => {
                match update::next_step(store, step, events.last().1) {
                    update::UpdateModel::Done(result) => {
                        assert(was_fetched(result));
                        lemma_start_fetches(
                            store,
                            done.push(update::OutcomeModel { uid: under_way, result }),
                            rest,
                            uid,
                        );
                    },
                    _ => {},
                }
            },
            update::BatchModel::Finished(_) => {},
        }
    }
}

/// A subscription with an address that stays in the list is fetched in every row that its UID is
/// in, whatever becomes of the others: its outcome is a success, or says what failed about
/// fetching or writing it.
pub proof fn subscription_at_hand_is_never_passed_over(
    store: profile::ProfilesModel,
    uids: Seq<Seq<char>>,
    events: Seq<(profile::ProfilesModel, update::EventModel)>,
    at: int,
)
    requires
        0 <= at < uids.len(),
        at_hand(store, uids[at]),
        forall|i: int| 0 <= i < events.len() ==> at_hand((#[trigger] events[i]).0, uids[at]),
    ensures
        update::batch_run(update::advanced(store, Seq::empty(), uids), events) matches
            update::BatchModel::Finished(done) ==> done.len() == uids.len() && done[at].uid
            == uids[at] && was_fetched(done[at].result),
{
    let uid = uids[at];
    lemma_start_fetches(store, Seq::empty(), uids, uid);
    lemma_run_fetches(update::advanced(store, Seq::empty(), uids), events, uid);
    update::every_uid_has_its_outcome(store, uids, events);
    match update::batch_run(update::advanced(store, Seq::empty(), uids), events) {
        update::BatchModel::Finished(done) => {
            assert(update::outcome_uids(done) == uids);
            assert(update::outcome_uids(done)[at] == done[at].uid);
        },
        _ => {},
    }
}

/// A row that starts is about the UIDs that it was given, in their order.
pub proof fn row_is_about_its_uids(store: profile::ProfilesModel, uids: Seq<Seq<char>>)
    ensures
        update::batch_uids(update::advanced(store, Seq::empty(), uids)) == uids,
{
    lemma_row_keeps_uids(store, Seq::empty(), uids);
    assert(update::outcome_uids(Seq::empty()) + uids =~= uids);
}

proof fn lemma_row_keeps_uids(
    store: profile::ProfilesModel,
    done: Seq<update::OutcomeModel>,
    rest: Seq<Seq<char>>,
)
    ensures
        update::batch_uids(update::advanced(store, done, rest)) == update::outcome_uids(done) + rest,
    decreases rest.len(),
{
    if rest.len() == 0 {
        assert(update::outcome_uids(done) + rest =~= update::outcome_uids(done));
    } else {
        match update::first_step(store, rest[0]) {
            update::UpdateModel::Done(result) => {
                let more = done.push(update::OutcomeModel { uid: rest[0], result });
                lemma_row_keeps_uids(store, more, rest.drop_first());
                assert(update::outcome_uids(more) + rest.drop_first() =~= update::outcome_uids(done)
                    + rest);
            },
            _ => {
                assert(update::outcome_uids(done).push(rest[0]) + rest.drop_first()
                    =~= update::outcome_uids(done) + rest);
            },
        }
    }
}

/// What is updated when all subscriptions are: with one more profile in the list its UID comes
/// last if its kind is `remote` and it has one, and otherwise nothing changes.
pub proof fn all_subscriptions_with_a_uid_are_updated(
    current: Option<Seq<char>>,
    list: Seq<profile::ItemModel>,
    item: profile::ItemModel,
)
    ensures
        ({
            let before = update::remote_uids(laws::profile::profiles(current, list));
            update::remote_uids(laws::profile::profiles(current, list.push(item))) == if item.itype
                == Some("remote"@) && item.uid is Some {
                before.push(item.uid->0)
            } else {
                before
            }
        }),
        update::remote_uids(laws::profile::profiles(current, Seq::empty())) == Seq::<
            Seq<char>,
        >::empty(),
        update::remote_uids(profile::ProfilesModel { current, items: None }) == Seq::<
            Seq<char>,
        >::empty(),
{
    reveal(Seq::filter_map);
    laws::profile::one_more_profile_is_listed_if_remote(current, list, item);
    laws::profile::missing_list_is_empty(current, list);
    let listed = laws::profile::profiles(current, list).remotes();
    assert(listed.push(item).drop_last() =~= listed);
}

/// Every outcome is reported where it belongs and in order: a success with its flag among those
/// that succeeded, a failure with its report among those that failed, and the UID of a success in
/// use among those that are in use.
pub proof fn outcomes_are_reported_where_they_belong(
    list: Seq<update::OutcomeModel>,
    uid: Seq<char>,
    flag: bool,
    error: store::StoreErrorModel,
)
    ensures
        ({
            let good = list.push(update::OutcomeModel { uid, result: Ok(flag) });
            let bad = list.push(update::OutcomeModel { uid, result: Err(error) });
            let none = Seq::<update::OutcomeModel>::empty();
            &&& update::succeeded(good) == update::succeeded(list).push((uid, flag))
            &&& update::succeeded(bad) == update::succeeded(list)
            &&& update::failed(good) == update::failed(list)
            &&& update::failed(bad) == update::failed(list).push(
                (uid, store::error_message(error)),
            )
            &&& update::refreshed(good) == if flag {
                update::refreshed(list).push(uid)
            } else {
                update::refreshed(list)
            }
            &&& update::refreshed(bad) == update::refreshed(list)
            &&& update::failure_lines(good) == update::failure_lines(list)
            &&& update::failure_lines(bad) == update::failure_lines(list).push(
                uid + seq![':', ' '] + store::error_message(error),
            )
            &&& update::succeeded(none).len() == 0
            &&& update::failed(none).len() == 0
            &&& update::refreshed(none).len() == 0
            &&& update::failure_lines(none).len() == 0
        }),
{
    reveal(Seq::filter_map);
    reveal_strlit(": ");
    assert(": "@ =~= seq![':', ' ']);
    let good = list.push(update::OutcomeModel { uid, result: Ok(flag) });
    let bad = list.push(update::OutcomeModel { uid, result: Err(error) });
    assert(good.drop_last() =~= list);
    assert(bad.drop_last() =~= list);
    assert(update::failed(bad) =~= update::failed(list).push((uid, store::error_message(error))));
    assert(update::failed(good) =~= update::failed(list));
    assert(update::failure_lines(bad) =~= update::failure_lines(list).push(
        uid + seq![':', ' '] + store::error_message(error),
    ));
    assert(update::succeeded(good) =~= update::succeeded(list).push((uid, flag)));
}

/// Nothing is reported as failed if and only if every update succeeded.
pub proof fn failures_are_reported_if_there_are_any(list: Seq<update::OutcomeModel>)
    ensures
        update::failed(list).len() == 0 <==> forall|i: int|
            0 <= i < list.len() ==> (#[trigger] list[i]).result is Ok,
    decreases list.len(),
{
    if list.len() == 0 {
        outcomes_are_reported_where_they_belong(list, arbitrary(), arbitrary(), arbitrary());
        assert(list =~= Seq::<update::OutcomeModel>::empty());
    } else {
        let front = list.drop_last();
        let last = list.last();
        failures_are_reported_if_there_are_any(front);
        assert(list =~= front.push(last));
        assert(list[list.len() - 1] == last);
        assert(forall|i: int| 0 <= i < front.len() ==> #[trigger] front[i] == list[i]);
        match last.result {
            Ok(flag) => {
                outcomes_are_reported_where_they_belong(front, last.uid, flag, arbitrary());
                if forall|i: int| 0 <= i < list.len() ==> (#[trigger] list[i]).result is Ok {
                    assert forall|i: int| 0 <= i < front.len() implies (
                    #[trigger] front[i]).result is Ok by {
                        assert(list[i].result is Ok);
                    }
                }
                if forall|i: int| 0 <= i < front.len() ==> (#[trigger] front[i]).result is Ok {
                    assert forall|i: int| 0 <= i < list.len() implies (
                    #[trigger] list[i]).result is Ok by {
                        if i < front.len() {
                            assert(front[i].result is Ok);
                        }
                    }
                }
            },
            Err(error) => {
                outcomes_are_reported_where_they_belong(front, last.uid, true, error);
            },
        }
    }
}

/// The views of steps, events and outcomes show which they are and what they hold.
pub proof fn views_of_updates_show_them(
    uid: String,
    url: String,
    item: PrfItem,
    flag: bool,
    error: StoreError,
    result: Result<bool, StoreError>,
)
    ensures
        (UpdateStep::Fetch { uid, url })@ == (update::UpdateModel::Fetch { uid: uid@, url: url@ }),
        (UpdateStep::UpdateItem { uid, item, is_current: flag })@ == (
        update::UpdateModel::UpdateItem { uid: uid@, item: item@, is_current: flag }),
        UpdateStep::Done(Ok(flag))@ == update::UpdateModel::Done(Ok(flag)),
        UpdateStep::Done(Err(error))@ == update::UpdateModel::Done(Err(error@)),
        UpdateEvent::Fetched(Ok(item))@ == update::EventModel::Fetched(Ok(item@)),
        UpdateEvent::Fetched(Err(url))@ == update::EventModel::Fetched(Err(url@)),
        UpdateEvent::Updated(Ok(()))@ == update::EventModel::Updated(Ok(())),
        UpdateEvent::Updated(Err(url))@ == update::EventModel::Updated(Err(url@)),
        (UpdateOutcome { uid, result })@.uid == uid@,
        update::result_model(Ok(flag)) == Ok::<bool, store::StoreErrorModel>(flag),
        update::result_model(Err(error)) == Err::<bool, store::StoreErrorModel>(error@),
        (UpdateOutcome { uid, result: Ok(flag) })@.result == Ok::<bool, store::StoreErrorModel>(
            flag,
        ),
        (UpdateOutcome { uid, result: Err(error) })@.result == Err::<bool, store::StoreErrorModel>(
            error@,
        ),
{
}

/// The view of a row shows its outcomes, the update under way and the UIDs to come, each in order.
pub proof fn views_of_rows_show_them(
    batch: Batch,
    done: Vec<UpdateOutcome>,
    good: Seq<(String, bool)>,
    bad: Seq<(String, String)>,
)
    ensures
        batch@ matches update::BatchModel::Running { done: ended, uid, step, rest } && {
            &&& ended.len() == batch.done@.len()
            &&& forall|i: int| 0 <= i < ended.len() ==> #[trigger] ended[i] == batch.done@[i]@
            &&& uid == batch.uid@
            &&& step == batch.step@
            &&& rest.len() == batch.rest@.len()
            &&& forall|i: int| 0 <= i < rest.len() ==> #[trigger] rest[i] == batch.rest@[i]@
        },
        BatchStep::Running(batch)@ == batch@,
        BatchStep::Finished(done)@ matches update::BatchModel::Finished(ended) && {
            &&& ended.len() == done@.len()
            &&& forall|i: int| 0 <= i < ended.len() ==> #[trigger] ended[i] == done@[i]@
        },
        update::outcomes(done@).len() == done@.len(),
        forall|i: int| 0 <= i < done@.len() ==> #[trigger] update::outcomes(done@)[i] == done@[i]@,
        update::flags(good).len() == good.len(),
        forall|i: int|
            0 <= i < good.len() ==> #[trigger] update::flags(good)[i] == (good[i].0@, good[i].1),
        update::reports(bad).len() == bad.len(),
        forall|i: int|
            0 <= i < bad.len() ==> #[trigger] update::reports(bad)[i] == (bad[i].0@, bad[i].1@),
{
    laws::text::views_of_text_are_the_text(batch.uid, batch.rest@);
}

} // verus!
