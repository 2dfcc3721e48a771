//! Updates of subscriptions, one and several in a row.
//!
//! As in `store`, the caller fetches and writes: a step names the next thing to do, and the
//! store as it stands afterwards decides what follows.

use crate::from_url;
use crate::profile;
use crate::profile::{PrfItem, PrfOption};
use crate::store;
use crate::store::{ProfileStore, StoreError};
use crate::text;
use vstd::prelude::*;
use vstd::string::*;

verus! {

/// What to do to update one subscription.
#[derive(Debug, PartialEq, Eq)]
pub enum UpdateStep {
    /// Fetch the subscription and make a profile of it that is named after its address.
    Fetch { uid: String, url: String },
    /// Write the profile over the one in the list that has this UID.
    UpdateItem { uid: String, item: PrfItem, is_current: bool },
    /// Nothing is left to do; whether the profile is the one in use.
    Done(Result<bool, StoreError>),
}

/// How the thing to do went.
#[derive(Debug, PartialEq, Eq)]
pub enum UpdateEvent {
    Fetched(Result<PrfItem, String>),
    Updated(Result<(), String>),
}

/// What a step says.
#[verifier::ext_equal]
pub enum UpdateModel {
    Fetch { uid: Seq<char>, url: Seq<char> },
    UpdateItem { uid: Seq<char>, item: profile::ItemModel, is_current: bool },
    Done(Result<bool, store::StoreErrorModel>),
}

/// What an event says.
#[verifier::ext_equal]
pub enum EventModel {
    Fetched(Result<profile::ItemModel, Seq<char>>),
    Updated(Result<(), Seq<char>>),
}

/// The result of an update by what it says.
pub open spec fn result_model(result: Result<bool, StoreError>) -> Result<
    bool,
    store::StoreErrorModel,
> {
    match result {
        Ok(is_current) => Ok(is_current),
        Err(error) => Err(error@),
    }
}

impl View for UpdateStep {
    type V = UpdateModel;

    open spec fn view(&self) -> UpdateModel {
        match self {
            UpdateStep::Fetch { uid, url } => UpdateModel::Fetch { uid: uid@, url: url@ },
            UpdateStep::UpdateItem { uid, item, is_current } => UpdateModel::UpdateItem {
                uid: uid@,
                item: item@,
                is_current: *is_current,
            },
            UpdateStep::Done(result) => UpdateModel::Done(result_model(*result)),
        }
    }
}

impl View for UpdateEvent {
    type V = EventModel;

    open spec fn view(&self) -> EventModel {
        match self {
            UpdateEvent::Fetched(outcome) => EventModel::Fetched(store::fetched_model(*outcome)),
            UpdateEvent::Updated(outcome) => EventModel::Updated(store::outcome_model(*outcome)),
        }
    }
}

/// The first step of the update of one profile: it has to be in the list, to be a subscription
/// and to have an address.
pub open spec fn first_step(store: profile::ProfilesModel, uid: Seq<char>) -> UpdateModel {
    match profile::item_of(store.all(), uid) {
        None => UpdateModel::Done(Err(store::StoreErrorModel::NotFound)),
        Some(item) => if !item.is_remote() {
            UpdateModel::Done(Err(store::StoreErrorModel::NotRemote(uid)))
        } else {
            match item.url {
                None => UpdateModel::Done(Err(store::StoreErrorModel::MissingUrl)),
                Some(url) => UpdateModel::Fetch { uid, url },
            }
        },
    }
}

/// What follows an event. The new profile takes the UID of the one that it replaces. An event
/// that the step did not ask for changes nothing.
pub open spec fn next_step(
    store: profile::ProfilesModel,
    step: UpdateModel,
    event: EventModel,
) -> UpdateModel {
    match (step, event) {
        (UpdateModel::Fetch { uid, url }, EventModel::Fetched(Ok(item))) => UpdateModel::UpdateItem {
            uid,
            item: profile::ItemModel { uid: Some(uid), ..item },
            is_current: store.current == Some(uid),
        },
        (UpdateModel::Fetch { uid, url }, EventModel::Fetched(Err(report))) => UpdateModel::Done(
            Err(store::StoreErrorModel::FromUrl(report)),
        ),
        (
            UpdateModel::UpdateItem { uid, item, is_current },
            EventModel::Updated(Ok(_)),
        ) => UpdateModel::Done(Ok(is_current)),
        (
            UpdateModel::UpdateItem { uid, item, is_current },
            EventModel::Updated(Err(cause)),
        ) => UpdateModel::Done(Err(store::StoreErrorModel::UpdateFailed(cause))),
        _ => step,
    }
}

/// Whether the event is the one that the step waits for.
pub open spec fn awaited(step: UpdateModel, event: EventModel) -> bool {
    ||| step is Fetch && event is Fetched
    ||| step is UpdateItem && event is Updated
}

impl ProfileStore {
    /// Updates the subscription with this UID. The result says whether it is the one in use.
    pub fn update_remote(&self, uid: &str, _option_override: Option<&PrfOption>) -> (res:
        UpdateStep)
        ensures
            res@ == first_step(self@, uid@),
    {
        match self.profiles.get_item(uid) {
            None => UpdateStep::Done(Err(StoreError::NotFound)),
            Some(item) => if !item.is_remote() {
                UpdateStep::Done(Err(StoreError::NotRemote(uid.to_owned())))
            } else {
                match &item.url {
                    None => UpdateStep::Done(Err(StoreError::MissingUrl)),
                    Some(url) => UpdateStep::Fetch { uid: uid.to_owned(), url: url.clone() },
                }
            },
        }
    }

    /// Tells how the step went.
    pub fn resume_update(&self, step: UpdateStep, event: UpdateEvent) -> (res: UpdateStep)
        ensures
            res@ == next_step(self@, step@, event@),
    {
        match (step, event) {
            (UpdateStep::Fetch { uid, url: _ }, UpdateEvent::Fetched(Ok(item))) => {
                let is_current: bool = text::is_text(&self.profiles.current, uid.as_str());
                let item: PrfItem = PrfItem { uid: Some(uid.clone()), ..item };
                UpdateStep::UpdateItem { uid, item, is_current }
            },
            (UpdateStep::Fetch { uid: _, url: _ }, UpdateEvent::Fetched(Err(report))) => {
                UpdateStep::Done(Err(StoreError::FromUrl(report)))
            },
            (
                UpdateStep::UpdateItem { uid: _, item: _, is_current },
                UpdateEvent::Updated(Ok(_)),
            ) => UpdateStep::Done(Ok(is_current)),
            (
                UpdateStep::UpdateItem { uid: _, item: _, is_current: _ },
                UpdateEvent::Updated(Err(cause)),
            ) => UpdateStep::Done(Err(StoreError::UpdateFailed(cause))),
            (step, _) => step,
        }
    }
}

/// How the update of one profile ended.
#[derive(Debug, PartialEq, Eq)]
pub struct UpdateOutcome {
    pub uid: String,
    pub result: Result<bool, StoreError>,
}

/// What an outcome says.
#[verifier::ext_equal]
pub struct OutcomeModel {
    pub uid: Seq<char>,
    pub result: Result<bool, store::StoreErrorModel>,
}

impl View for UpdateOutcome {
    type V = OutcomeModel;

    open spec fn view(&self) -> OutcomeModel {
        OutcomeModel { uid: self.uid@, result: result_model(self.result) }
    }
}

/// What every outcome of a list says.
pub open spec fn outcomes(list: Seq<UpdateOutcome>) -> Seq<OutcomeModel> {
    list.map_values(|outcome: UpdateOutcome| outcome@)
}

/// Several updates in a row: those that ended, the one that is under way, and the UIDs whose
/// turn is still to come.
#[derive(Debug, PartialEq, Eq)]
pub struct Batch {
    pub done: Vec<UpdateOutcome>,
    pub uid: String,
    pub step: UpdateStep,
    pub rest: Vec<String>,
}

/// Where a row of updates stands.
#[derive(Debug, PartialEq, Eq)]
pub enum BatchStep {
    /// Do what `step` says, then call `resume_batch`.
    Running(Batch),
    /// Every update ended; how, in the order of the UIDs.
    Finished(Vec<UpdateOutcome>),
}

/// What a row of updates says.
#[verifier::ext_equal]
pub enum BatchModel {
    Running { done: Seq<OutcomeModel>, uid: Seq<char>, step: UpdateModel, rest: Seq<Seq<char>> },
    Finished(Seq<OutcomeModel>),
}

impl View for Batch {
    type V = BatchModel;

    open spec fn view(&self) -> BatchModel {
        BatchModel::Running {
            done: outcomes(self.done@),
            uid: self.uid@,
            step: self.step@,
            rest: text::texts(self.rest@),
        }
    }
}

impl View for BatchStep {
    type V = BatchModel;

    open spec fn view(&self) -> BatchModel {
        match self {
            BatchStep::Running(batch) => batch@,
            BatchStep::Finished(done) => BatchModel::Finished(outcomes(done@)),
        }
    }
}

/// Takes the UIDs in `rest` one by one, up to the first whose update has something to do. Those
/// that end at once are added to `done`.
pub open spec fn advanced(
    store: profile::ProfilesModel,
    done: Seq<OutcomeModel>,
    rest: Seq<Seq<char>>,
) -> BatchModel
    decreases rest.len(),
{
    if rest.len() == 0 {
        BatchModel::Finished(done)
    } else {
        match first_step(store, rest[0]) {
            UpdateModel::Done(result) => advanced(
                store,
                done.push(OutcomeModel { uid: rest[0], result }),
                rest.drop_first(),
            ),
            step => BatchModel::Running { done, uid: rest[0], step, rest: rest.drop_first() },
        }
    }
}

/// What follows an event. When the update under way ends, in whatever way, the next UID gets
/// its turn.
pub open spec fn batch_next(
    store: profile::ProfilesModel,
    batch: BatchModel,
    event: EventModel,
) -> BatchModel {
    match batch {
        BatchModel::Running { done, uid, step, rest } => match next_step(store, step, event) {
            UpdateModel::Done(result) => advanced(
                store,
                done.push(OutcomeModel { uid, result }),
                rest,
            ),
            step => BatchModel::Running { done, uid, step, rest },
        },
        BatchModel::Finished(done) => BatchModel::Finished(done),
    }
}

/// The UIDs of the subscriptions, in order.
pub open spec fn remote_uids(store: profile::ProfilesModel) -> Seq<Seq<char>> {
    store.remotes().filter_map(|item: profile::ItemModel| item.uid)
}

impl ProfileStore {
    fn advance(&self, done: Vec<UpdateOutcome>, rest: Vec<String>) -> (res: BatchStep)
        ensures
            res@ == advanced(self@, outcomes(done@), text::texts(rest@)),
    {
        let mut ended: Vec<UpdateOutcome> = done;
        let mut left: Vec<String> = rest;
        while left.len() > 0
            invariant
                advanced(self@, outcomes(ended@), text::texts(left@)) == advanced(
                    self@,
                    outcomes(done@),
                    text::texts(rest@),
                ),
            decreases left@.len(),
        {
            let ghost ended_before = ended@;
            let ghost left_before = left@;
            let uid: String = left.remove(0);
            assert(text::texts(left@) =~= text::texts(left_before).drop_first());
            assert(uid@ == text::texts(left_before)[0]);
            match self.update_remote(uid.as_str(), None) {
                UpdateStep::Done(result) => {
                    ended.push(UpdateOutcome { uid, result });
                    assert(outcomes(ended@) =~= outcomes(ended_before).push(ended@.last()@));
                },
                step => {
                    return BatchStep::Running(Batch { done: ended, uid, step, rest: left });
                },
            }
        }
        BatchStep::Finished(ended)
    }

    /// Updates the subscriptions with these UIDs one after the other. One that fails does not
    /// keep the others from being updated.
    pub fn update_remotes_locked(&self, uids: &[String]) -> (res: BatchStep)
        ensures
            res@ == advanced(self@, Seq::empty(), text::texts(uids@)),
    {
        let mut rest: Vec<String> = Vec::new();
        let mut i: usize = 0;
        while i < uids.len()
            invariant
                i <= uids@.len(),
                rest@ == uids@.take(i as int),
            decreases uids@.len() - i,
        {
            rest.push(uids[i].clone());
            assert(rest@ =~= uids@.take(i as int + 1));
            i = i + 1;
        }
        assert(uids@.take(uids@.len() as int) =~= uids@);
        let done: Vec<UpdateOutcome> = Vec::new();
        assert(outcomes(done@) =~= Seq::<OutcomeModel>::empty());
        self.advance(done, rest)
    }

    /// Updates every subscription.
    pub fn update_all_remote(&self) -> (res: BatchStep)
        ensures
            res@ == advanced(self@, Seq::empty(), remote_uids(self@)),
    {
        let list: Vec<PrfItem> = self.items();
        let mut rest: Vec<String> = Vec::new();
        let ghost uid_of = |item: profile::ItemModel| item.uid;
        let ghost all = profile::models(list@);
        let mut i: usize = 0;
        proof {
            reveal(Seq::filter_map);
            assert(text::texts(rest@) =~= all.take(0).filter_map(uid_of));
        }
        while i < list.len()
            invariant
                i <= list@.len(),
                all == profile::models(list@),
                uid_of == (|item: profile::ItemModel| item.uid),
                text::texts(rest@) == all.take(i as int).filter_map(uid_of),
            decreases list@.len() - i,
        {
            proof {
                reveal(Seq::filter_map);
                assert(all.take(i as int + 1).drop_last() =~= all.take(i as int));
                assert(all.take(i as int + 1).last() == list@[i as int]@);
            }
            match &list[i].uid {
                Some(uid) => {
                    let ghost before = rest@;
                    rest.push(uid.clone());
                    assert(text::texts(rest@) =~= text::texts(before) + seq![uid@]);
                },
                None => {},
            }
            i = i + 1;
        }
        assert(all.take(all.len() as int) =~= all);
        let done: Vec<UpdateOutcome> = Vec::new();
        assert(outcomes(done@) =~= Seq::<OutcomeModel>::empty());
        self.advance(done, rest)
    }

    /// Tells how the step went. The store is the one that the updates so far have left.
    pub fn resume_batch(&self, batch: Batch, event: UpdateEvent) -> (res: BatchStep)
        ensures
            res@ == batch_next(self@, batch@, event@),
    {
        let mut done: Vec<UpdateOutcome> = batch.done;
        let uid: String = batch.uid;
        match self.resume_update(batch.step, event) {
            UpdateStep::Done(result) => {
                let ghost before = done@;
                done.push(UpdateOutcome { uid, result });
                assert(outcomes(done@) =~= outcomes(before).push(done@.last()@));
                self.advance(done, batch.rest)
            },
            step => BatchStep::Running(Batch { done, uid, step, rest: batch.rest }),
        }
    }
}

/// The updates that succeeded, each with whether the profile is the one in use.
pub open spec fn succeeded(list: Seq<OutcomeModel>) -> Seq<(Seq<char>, bool)> {
    list.filter_map(
        |outcome: OutcomeModel|
            match outcome.result {
                Ok(is_current) => Some((outcome.uid, is_current)),
                Err(_) => None,
            },
    )
}

/// The updates that failed, each with its report.
pub open spec fn failed(list: Seq<OutcomeModel>) -> Seq<(Seq<char>, Seq<char>)> {
    list.filter_map(
        |outcome: OutcomeModel|
            match outcome.result {
                Ok(_) => None,
                Err(error) => Some((outcome.uid, store::error_message(error))),
            },
    )
}

/// The profiles among those that were updated that are in use.
pub open spec fn refreshed(list: Seq<OutcomeModel>) -> Seq<Seq<char>> {
    list.filter_map(
        |outcome: OutcomeModel|
            if outcome.result == Ok::<bool, store::StoreErrorModel>(true) {
                Some(outcome.uid)
            } else {
                None
            },
    )
}

/// The lines in which failed updates are reported.
pub open spec fn failure_lines(list: Seq<OutcomeModel>) -> Seq<Seq<char>> {
    failed(list).map_values(|line: (Seq<char>, Seq<char>)| line.0 + ": "@ + line.1)
}

/// A list of updates that succeeded by what it says.
pub open spec fn flags(list: Seq<(String, bool)>) -> Seq<(Seq<char>, bool)> {
    list.map_values(|entry: (String, bool)| (entry.0@, entry.1))
}

/// A list of updates that failed by what it says.
pub open spec fn reports(list: Seq<(String, String)>) -> Seq<(Seq<char>, Seq<char>)> {
    list.map_values(|entry: (String, String)| (entry.0@, entry.1@))
}

/// Parts the updates that succeeded from those that failed.
pub fn update_report(list: &Vec<UpdateOutcome>) -> (res: (
    Vec<(String, bool)>,
    Vec<(String, String)>,
))
    ensures
        flags(res.0@) == succeeded(outcomes(list@)),
        reports(res.1@) == failed(outcomes(list@)),
{
    let mut updated: Vec<(String, bool)> = Vec::new();
    let mut missed: Vec<(String, String)> = Vec::new();
    let ghost all = outcomes(list@);
    let mut i: usize = 0;
    proof {
        reveal(Seq::filter_map);
        assert(flags(updated@) =~= succeeded(all.take(0)));
        assert(reports(missed@) =~= failed(all.take(0)));
    }
    while i < list.len()
        invariant
            i <= list@.len(),
            all == outcomes(list@),
            flags(updated@) == succeeded(all.take(i as int)),
            reports(missed@) == failed(all.take(i as int)),
        decreases list@.len() - i,
    {
        proof {
            reveal(Seq::filter_map);
            assert(all.take(i as int + 1).drop_last() =~= all.take(i as int));
            assert(all.take(i as int + 1).last() == list@[i as int]@);
        }
        let outcome: &UpdateOutcome = &list[i];
        match &outcome.result {
            Ok(is_current) => {
                let ghost before = updated@;
                updated.push((outcome.uid.clone(), *is_current));
                assert(flags(updated@) =~= flags(before) + seq![(outcome.uid@, *is_current)]);
            },
            Err(error) => {
                let ghost before = missed@;
                missed.push((outcome.uid.clone(), error.message()));
                assert(reports(missed@) =~= reports(before) + seq![
                    (outcome.uid@, store::error_message(error@)),
                ]);
            },
        }
        i = i + 1;
    }
    assert(all.take(all.len() as int) =~= all);
    (updated, missed)
}

/// The UIDs in use among the profiles that were updated, unless an update failed: then what
/// failed, each UID with its report.
pub fn refreshed_current(list: &Vec<UpdateOutcome>) -> (res: Result<Vec<String>, StoreError>)
    ensures
        match res {
            Ok(uids) => failed(outcomes(list@)).len() == 0 && text::texts(uids@) == refreshed(
                outcomes(list@),
            ),
            Err(error) => failed(outcomes(list@)).len() > 0 && error@
                == store::StoreErrorModel::UpdatesFailed(
                text::joined(failure_lines(outcomes(list@)), "; "@),
            ),
        },
{
    let mut uids: Vec<String> = Vec::new();
    let mut lines: Vec<String> = Vec::new();
    let ghost all = outcomes(list@);
    let mut i: usize = 0;
    proof {
        reveal(Seq::filter_map);
        assert(text::texts(uids@) =~= refreshed(all.take(0)));
        assert(text::texts(lines@) =~= failure_lines(all.take(0)));
    }
    while i < list.len()
        invariant
            i <= list@.len(),
            all == outcomes(list@),
            text::texts(uids@) == refreshed(all.take(i as int)),
            text::texts(lines@) == failure_lines(all.take(i as int)),
        decreases list@.len() - i,
    {
        proof {
            reveal(Seq::filter_map);
            assert(all.take(i as int + 1).drop_last() =~= all.take(i as int));
            assert(all.take(i as int + 1).last() == list@[i as int]@);
        }
        let outcome: &UpdateOutcome = &list[i];
        match &outcome.result {
            Ok(is_current) => {
                if *is_current {
                    let ghost before = uids@;
                    uids.push(outcome.uid.clone());
                    assert(text::texts(uids@) =~= text::texts(before) + seq![outcome.uid@]);
                }
                assert(failed(all.take(i as int + 1)) =~= failed(all.take(i as int)));
            },
            Err(error) => {
                let ghost before = lines@;
                let line: String = outcome.uid.clone().concat(": ").concat(
                    error.message().as_str(),
                );
                lines.push(line);
                assert(failed(all.take(i as int + 1)) =~= failed(all.take(i as int)).push(
                    (outcome.uid@, store::error_message(error@)),
                ));
                assert(text::texts(lines@) =~= text::texts(before).push(line@));
                assert(failure_lines(all.take(i as int + 1)) =~= failure_lines(
                    all.take(i as int),
                ).push(line@));
            },
        }
        i = i + 1;
    }
    assert(all.take(all.len() as int) =~= all);
    assert(text::texts(lines@).len() == failed(all).len());
    if lines.len() > 0 {
        Err(StoreError::UpdatesFailed(text::join(&lines, "; ")))
    } else {
        Ok(uids)
    }
}

/// A profile that was made of a subscription can be updated from the same address.
pub proof fn subscription_is_updated_from_its_address(
    store: profile::ProfilesModel,
    url: Seq<char>,
    name: Seq<char>,
    body: Seq<char>,
    uid: Seq<char>,
    updated: usize,
)
    requires
        profile::item_of(store.all(), uid) == Some(
            from_url::remote_item(url, name, body, uid, updated),
        ),
    ensures
        first_step(store, uid) == (UpdateModel::Fetch { uid, url }),
{
}

/// An update keeps the UID of the profile and everything else of the new one, and reports
/// whether that UID was in use when the profile was fetched.
pub proof fn update_keeps_the_uid(
    store: profile::ProfilesModel,
    uid: Seq<char>,
    url: Seq<char>,
    item: profile::ItemModel,
)
    ensures
        next_step(store, UpdateModel::Fetch { uid, url }, EventModel::Fetched(Ok(item))) matches
            UpdateModel::UpdateItem { uid: target, item: new, is_current } && {
            &&& target == uid
            &&& new == (profile::ItemModel { uid: Some(uid), ..item })
            &&& is_current == (store.current == Some(uid))
        },
{
}

/// The UIDs of the profiles that outcomes are about.
pub open spec fn outcome_uids(list: Seq<OutcomeModel>) -> Seq<Seq<char>> {
    list.map_values(|outcome: OutcomeModel| outcome.uid)
}

/// The UIDs that a row of updates is about, in order.
pub open spec fn batch_uids(batch: BatchModel) -> Seq<Seq<char>> {
    match batch {
        BatchModel::Running { done, uid, step, rest } => outcome_uids(done).push(uid) + rest,
        BatchModel::Finished(done) => outcome_uids(done),
    }
}

/// Where a row of updates stands after these events, each with the store as it was then.
pub open spec fn batch_run(
    batch: BatchModel,
    events: Seq<(profile::ProfilesModel, EventModel)>,
) -> BatchModel
    decreases events.len(),
{
    if events.len() == 0 {
        batch
    } else {
        batch_next(events.last().0, batch_run(batch, events.drop_last()), events.last().1)
    }
}

proof fn lemma_advanced_keeps_uids(
    store: profile::ProfilesModel,
    done: Seq<OutcomeModel>,
    rest: Seq<Seq<char>>,
)
    ensures
        batch_uids(advanced(store, done, rest)) == outcome_uids(done) + rest,
    decreases rest.len(),
{
    if rest.len() == 0 {
        assert(outcome_uids(done) + rest =~= outcome_uids(done));
    } else {
        match first_step(store, rest[0]) {
            UpdateModel::Done(result) => {
                let more = done.push(OutcomeModel { uid: rest[0], result });
                lemma_advanced_keeps_uids(store, more, rest.drop_first());
                assert(outcome_uids(more) + rest.drop_first() =~= outcome_uids(done) + rest);
            },
            _ => {
                assert(outcome_uids(done).push(rest[0]) + rest.drop_first() =~= outcome_uids(done)
                    + rest);
            },
        }
    }
}

proof fn lemma_next_keeps_uids(
    store: profile::ProfilesModel,
    batch: BatchModel,
    event: EventModel,
)
    ensures
        batch_uids(batch_next(store, batch, event)) == batch_uids(batch),
{
    match batch {
        BatchModel::Running { done, uid, step, rest } => {
            match next_step(store, step, event) {
                UpdateModel::Done(result) => {
                    let more = done.push(OutcomeModel { uid, result });
                    lemma_advanced_keeps_uids(store, more, rest);
                    assert(outcome_uids(more) =~= outcome_uids(done).push(uid));
                },
                _ => {},
            }
        },
        BatchModel::Finished(_) => {},
    }
}

proof fn lemma_run_keeps_uids(
    batch: BatchModel,
    events: Seq<(profile::ProfilesModel, EventModel)>,
)
    ensures
        batch_uids(batch_run(batch, events)) == batch_uids(batch),
    decreases events.len(),
{
    if events.len() > 0 {
        lemma_run_keeps_uids(batch, events.drop_last());
        lemma_next_keeps_uids(
            events.last().0,
            batch_run(batch, events.drop_last()),
            events.last().1,
        );
    }
}

/// A row of updates that is finished has one outcome for every UID, in the order of the UIDs,
/// whatever failed on the way.
pub proof fn every_uid_has_its_outcome(
    store: profile::ProfilesModel,
    uids: Seq<Seq<char>>,
    events: Seq<(profile::ProfilesModel, EventModel)>,
)
    ensures
        batch_run(advanced(store, Seq::empty(), uids), events) matches BatchModel::Finished(done)
            ==> outcome_uids(done) == uids,
{
    lemma_run_keeps_uids(advanced(store, Seq::empty(), uids), events);
    lemma_advanced_keeps_uids(store, Seq::empty(), uids);
    assert(outcome_uids(Seq::empty()) + uids =~= uids);
}

/// How many events a row of updates waits for at most.
pub open spec fn work_left(batch: BatchModel) -> nat {
    match batch {
        BatchModel::Running { done, uid, step, rest } => 2 * rest.len() + match step {
            UpdateModel::Fetch { .. } => 2nat,
            UpdateModel::UpdateItem { .. } => 1nat,
            UpdateModel::Done(_) => 0nat,
        },
        BatchModel::Finished(_) => 0,
    }
}

proof fn lemma_advanced_work(
    store: profile::ProfilesModel,
    done: Seq<OutcomeModel>,
    rest: Seq<Seq<char>>,
)
    ensures
        work_left(advanced(store, done, rest)) <= 2 * rest.len(),
    decreases rest.len(),
{
    if rest.len() > 0 {
        match first_step(store, rest[0]) {
            UpdateModel::Done(result) => {
                lemma_advanced_work(
                    store,
                    done.push(OutcomeModel { uid: rest[0], result }),
                    rest.drop_first(),
                );
            },
            _ => {},
        }
    }
}

/// Every event that a row of updates waits for brings it closer to its end: with two events for
/// every UID it is finished, whether they report success or failure.
pub proof fn every_awaited_event_is_progress(
    store: profile::ProfilesModel,
    batch: BatchModel,
    event: EventModel,
)
    requires
        batch matches BatchModel::Running { step, .. } && awaited(step, event),
    ensures
        work_left(batch_next(store, batch, event)) < work_left(batch),
{
    match batch {
        BatchModel::Running { done, uid, step, rest } => {
            match next_step(store, step, event) {
                UpdateModel::Done(result) => {
                    lemma_advanced_work(store, done.push(OutcomeModel { uid, result }), rest);
                },
                _ => {},
            }
        },
        BatchModel::Finished(_) => {},
    }
}

/// At the start a row of updates waits for two events at most for every UID.
pub proof fn batch_waits_for_two_events_per_uid(
    store: profile::ProfilesModel,
    uids: Seq<Seq<char>>,
)
    ensures
        work_left(advanced(store, Seq::empty(), uids)) <= 2 * uids.len(),
{
    lemma_advanced_work(store, Seq::empty(), uids);
}

/// Every outcome says of its profile what `current` says of it.
pub open spec fn agree(list: Seq<OutcomeModel>, current: Option<Seq<char>>) -> bool {
    forall|i: int|
        0 <= i < list.len() ==> ((#[trigger] list[i]).result matches Ok(flag) ==> flag == (current
            == Some(list[i].uid)))
}

spec fn batch_agrees(batch: BatchModel, current: Option<Seq<char>>) -> bool {
    match batch {
        BatchModel::Running { done, uid, step, rest } => {
            &&& agree(done, current)
            &&& match step {
                UpdateModel::Fetch { uid: target, .. } => target == uid,
                UpdateModel::UpdateItem { uid: target, item, is_current } => target == uid
                    && is_current == (current == Some(uid)),
                UpdateModel::Done(_) => false,
            }
        },
        BatchModel::Finished(done) => agree(done, current),
    }
}

proof fn lemma_advanced_agrees(
    store: profile::ProfilesModel,
    done: Seq<OutcomeModel>,
    rest: Seq<Seq<char>>,
    current: Option<Seq<char>>,
)
    requires
        agree(done, current),
    ensures
        batch_agrees(advanced(store, done, rest), current),
    decreases rest.len(),
{
    if rest.len() > 0 {
        match first_step(store, rest[0]) {
            UpdateModel::Done(result) => {
                lemma_advanced_agrees(
                    store,
                    done.push(OutcomeModel { uid: rest[0], result }),
                    rest.drop_first(),
                    current,
                );
            },
            _ => {},
        }
    }
}

proof fn lemma_run_agrees(
    batch: BatchModel,
    events: Seq<(profile::ProfilesModel, EventModel)>,
    current: Option<Seq<char>>,
)
    requires
        batch_agrees(batch, current),
        forall|i: int| 0 <= i < events.len() ==> (#[trigger] events[i]).0.current == current,
    ensures
        batch_agrees(batch_run(batch, events), current),
    decreases events.len(),
{
    if events.len() > 0 {
        lemma_run_agrees(batch, events.drop_last(), current);
        let store = events.last().0;
        let event = events.last().1;
        assert(store.current == current);
        match batch_run(batch, events.drop_last()) {
            BatchModel::Running { done, uid, step, rest } => {
                match next_step(store, step, event) {
                    UpdateModel::Done(result) => {
                        lemma_advanced_agrees(
                            store,
                            done.push(OutcomeModel { uid, result }),
                            rest,
                            current,
                        );
                    },
                    _ => {},
                }
            },
            BatchModel::Finished(_) => {},
        }
    }
}

proof fn lemma_refreshed_at_most_one(list: Seq<OutcomeModel>, current: Option<Seq<char>>)
    requires
        agree(list, current),
        outcome_uids(list).no_duplicates(),
    ensures
        refreshed(list).len() <= 1,
        refreshed(list).len() == 1 ==> current is Some && refreshed(list)[0] == current->0
            && outcome_uids(list).contains(current->0),
    decreases list.len(),
{
    reveal(Seq::filter_map);
    if list.len() > 0 {
        let front = list.drop_last();
        assert(outcome_uids(front) =~= outcome_uids(list).drop_last());
        assert(agree(front, current)) by {
            assert forall|i: int| 0 <= i < front.len() implies ((
            #[trigger] front[i]).result matches Ok(flag) ==> flag == (current == Some(
                front[i].uid,
            ))) by {
                assert(front[i] == list[i]);
            }
        }
        lemma_refreshed_at_most_one(front, current);
        let last = list.last();
        assert(last == list[list.len() - 1]);
        assert(outcome_uids(list)[list.len() - 1] == last.uid);
        if refreshed(front).len() == 1 {
            let k = choose|k: int|
                0 <= k < outcome_uids(front).len() && outcome_uids(front)[k] == current->0;
            assert(outcome_uids(list)[k] == current->0);
            assert(last.uid != current->0);
        }
    }
}

/// Where no UID comes twice and the profile in use stays the same, the profiles that a row of
/// updates reports as in use are one at most, and it is that profile.
pub proof fn at_most_one_refreshed_profile_is_current(
    store: profile::ProfilesModel,
    uids: Seq<Seq<char>>,
    events: Seq<(profile::ProfilesModel, EventModel)>,
    current: Option<Seq<char>>,
)
    requires
        uids.no_duplicates(),
        forall|i: int| 0 <= i < events.len() ==> (#[trigger] events[i]).0.current == current,
    ensures
        batch_run(advanced(store, Seq::empty(), uids), events) matches BatchModel::Finished(done)
            ==> {
            &&& refreshed(done).len() <= 1
            &&& refreshed(done).len() == 1 ==> current == Some(refreshed(done)[0])
        },
{
    let start = advanced(store, Seq::empty(), uids);
    lemma_advanced_agrees(store, Seq::empty(), uids, current);
    lemma_run_agrees(start, events, current);
    every_uid_has_its_outcome(store, uids, events);
    match batch_run(start, events) {
        BatchModel::Finished(done) => {
            lemma_refreshed_at_most_one(done, current);
        },
        _ => {},
    }
}

/// Every outcome is reported once, as a success or as a failure.
pub proof fn every_outcome_is_reported_once(list: Seq<OutcomeModel>)
    ensures
        succeeded(list).len() + failed(list).len() == list.len(),
    decreases list.len(),
{
    reveal(Seq::filter_map);
    if list.len() > 0 {
        every_outcome_is_reported_once(list.drop_last());
    }
}

/// The profiles in use are those whose success was reported with that flag.
pub proof fn refreshed_profiles_succeeded(list: Seq<OutcomeModel>)
    ensures
        refreshed(list) == succeeded(list).filter_map(
            |entry: (Seq<char>, bool)|
                if entry.1 {
                    Some(entry.0)
                } else {
                    None
                },
        ),
    decreases list.len(),
{
    reveal(Seq::filter_map);
    if list.len() > 0 {
        refreshed_profiles_succeeded(list.drop_last());
        let rest = succeeded(list.drop_last());
        match list.last().result {
            Ok(flag) => {
                assert(succeeded(list).drop_last() =~= rest);
            },
            Err(_) => {},
        }
    }
}

} // verus!
