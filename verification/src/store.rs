//! The profile store: which profiles there are, which one is in use, and the steps that change
//! either.
//!
//! Reading and writing the disk and the network is left to the caller. An operation that needs
//! them names the next thing to do, and is told how it went.

use crate::fallback;
use crate::profile;
use crate::profile::{IProfiles, PrfItem};
use crate::text;
use vstd::prelude::*;
use vstd::string::*;

verus! {

/// Why an operation on the store failed. Where something outside failed, its own report is kept
/// as the cause.
#[derive(Debug, PartialEq, Eq)]
pub enum StoreError {
    /// No profile has the UID.
    NotFound,
    /// The profile with this UID is no subscription.
    NotRemote(String),
    /// The subscription has no address.
    MissingUrl,
    /// The subscription could not be made into a profile; the report says why.
    FromUrl(String),
    /// The directories of the store could not be made ready; the report says why.
    Storage(String),
    UpdateFailed(String),
    AppendFailed(String),
    SaveFailed(String),
    SaveCurrentFailed(String),
    /// Some of several updates failed; every UID with its report.
    UpdatesFailed(String),
}

/// What an error says.
#[verifier::ext_equal]
pub enum StoreErrorModel {
    NotFound,
    NotRemote(Seq<char>),
    MissingUrl,
    FromUrl(Seq<char>),
    Storage(Seq<char>),
    UpdateFailed(Seq<char>),
    AppendFailed(Seq<char>),
    SaveFailed(Seq<char>),
    SaveCurrentFailed(Seq<char>),
    UpdatesFailed(Seq<char>),
}

impl View for StoreError {
    type V = StoreErrorModel;

    open spec fn view(&self) -> StoreErrorModel {
        match self {
            StoreError::NotFound => StoreErrorModel::NotFound,
            StoreError::NotRemote(uid) => StoreErrorModel::NotRemote(uid@),
            StoreError::MissingUrl => StoreErrorModel::MissingUrl,
            StoreError::FromUrl(report) => StoreErrorModel::FromUrl(report@),
            StoreError::Storage(report) => StoreErrorModel::Storage(report@),
            StoreError::UpdateFailed(cause) => StoreErrorModel::UpdateFailed(cause@),
            StoreError::AppendFailed(cause) => StoreErrorModel::AppendFailed(cause@),
            StoreError::SaveFailed(cause) => StoreErrorModel::SaveFailed(cause@),
            StoreError::SaveCurrentFailed(cause) => StoreErrorModel::SaveCurrentFailed(cause@),
            StoreError::UpdatesFailed(report) => StoreErrorModel::UpdatesFailed(report@),
        }
    }
}

/// The words in which an error is reported.
pub open spec fn error_message(error: StoreErrorModel) -> Seq<char> {
    match error {
        StoreErrorModel::NotFound => "profile not found"@,
        StoreErrorModel::NotRemote(uid) => "profile "@ + uid + " is not a remote subscription"@,
        StoreErrorModel::MissingUrl => "remote profile is missing url"@,
        StoreErrorModel::FromUrl(report) => report,
        StoreErrorModel::Storage(report) => report,
        StoreErrorModel::UpdateFailed(_) => "failed to update remote profile"@,
        StoreErrorModel::AppendFailed(_) => "failed to append profile"@,
        StoreErrorModel::SaveFailed(_) => "failed to save profiles.yaml"@,
        StoreErrorModel::SaveCurrentFailed(_) =>
            "failed to save profiles.yaml after set_current"@,
        StoreErrorModel::UpdatesFailed(report) => report,
    }
}

/// The report of what failed underneath, where an error has one.
pub open spec fn error_cause(error: StoreErrorModel) -> Option<Seq<char>> {
    match error {
        StoreErrorModel::UpdateFailed(cause) => Some(cause),
        StoreErrorModel::AppendFailed(cause) => Some(cause),
        StoreErrorModel::SaveFailed(cause) => Some(cause),
        StoreErrorModel::SaveCurrentFailed(cause) => Some(cause),
        _ => None,
    }
}

impl StoreError {
    /// The error in words, without its cause.
    pub fn message(&self) -> (res: String)
        ensures
            res@ == error_message(self@),
    {
        match self {
            StoreError::NotFound => "profile not found".to_owned(),
            StoreError::NotRemote(uid) => "profile ".to_owned().concat(uid.as_str()).concat(
                " is not a remote subscription",
            ),
            StoreError::MissingUrl => "remote profile is missing url".to_owned(),
            StoreError::FromUrl(report) => report.clone(),
            StoreError::Storage(report) => report.clone(),
            StoreError::UpdateFailed(_) => "failed to update remote profile".to_owned(),
            StoreError::AppendFailed(_) => "failed to append profile".to_owned(),
            StoreError::SaveFailed(_) => "failed to save profiles.yaml".to_owned(),
            StoreError::SaveCurrentFailed(_) => {
                "failed to save profiles.yaml after set_current".to_owned()
            },
            StoreError::UpdatesFailed(report) => report.clone(),
        }
    }

    /// What failed underneath.
    pub fn cause(&self) -> (res: Option<String>)
        ensures
            text::text_of(res) == error_cause(self@),
    {
        match self {
            StoreError::UpdateFailed(cause) => Some(cause.clone()),
            StoreError::AppendFailed(cause) => Some(cause.clone()),
            StoreError::SaveFailed(cause) => Some(cause.clone()),
            StoreError::SaveCurrentFailed(cause) => Some(cause.clone()),
            _ => None,
        }
    }
}

/// The profiles as they were read.
#[derive(Debug, PartialEq, Eq)]
pub struct ProfileStore {
    pub profiles: IProfiles,
}

impl View for ProfileStore {
    type V = profile::ProfilesModel;

    open spec fn view(&self) -> profile::ProfilesModel {
        self.profiles@
    }
}

/// The index of the profile in use among the subscriptions, and 0 where it is not among them.
pub open spec fn selected(store: profile::ProfilesModel) -> nat {
    match store.current {
        Some(uid) => {
            let i = profile::position_of(store.remotes(), uid);
            if i < store.remotes().len() {
                i
            } else {
                0
            }
        },
        None => 0,
    }
}

impl ProfileStore {
    /// A store over profiles that were just read.
    pub fn snapshot(profiles: IProfiles) -> (res: Self)
        ensures
            res@ == profiles@,
    {
        ProfileStore { profiles }
    }

    /// The profiles that a user can select: the subscriptions. The fragments that enhance them
    /// are left out.
    pub fn items(&self) -> (res: Vec<PrfItem>)
        ensures
            profile::models(res@) == self@.remotes(),
    {
        let mut res: Vec<PrfItem> = Vec::new();
        let ghost all = self@.all();
        let ghost remote = |item: profile::ItemModel| item.is_remote();
        match self.profiles.get_items() {
            Some(list) => {
                let mut i: usize = 0;
                proof {
                    reveal(Seq::filter);
                    assert(profile::models(res@) =~= all.take(0).filter(remote));
                }
                while i < list.len()
                    invariant
                        i <= list@.len(),
                        all == profile::models(list@),
                        remote == (|item: profile::ItemModel| item.is_remote()),
                        profile::models(res@) == all.take(i as int).filter(remote),
                    decreases list@.len() - i,
                {
                    proof {
                        reveal(Seq::filter);
                        assert(all.take(i as int + 1).drop_last() =~= all.take(i as int));
                        assert(all.take(i as int + 1).last() == list@[i as int]@);
                    }
                    if list[i].is_remote() {
                        let ghost before = res@;
                        res.push(list[i].clone());
                        assert(profile::models(res@) =~= profile::models(before).push(
                            list@[i as int]@,
                        ));
                    }
                    i = i + 1;
                }
                assert(all.take(all.len() as int) =~= all);
            },
            None => {
                proof {
                    reveal(Seq::filter);
                    assert(profile::models(res@) =~= all.filter(remote));
                }
            },
        }
        res
    }

    /// All profiles, fragments too.
    pub fn all_items(&self) -> (res: Vec<PrfItem>)
        ensures
            profile::models(res@) == self@.all(),
    {
        let mut res: Vec<PrfItem> = Vec::new();
        match self.profiles.get_items() {
            Some(list) => {
                let mut i: usize = 0;
                while i < list.len()
                    invariant
                        i <= list@.len(),
                        res@ == list@.take(i as int),
                    decreases list@.len() - i,
                {
                    res.push(list[i].clone());
                    assert(res@ =~= list@.take(i as int + 1));
                    i = i + 1;
                }
                assert(list@.take(list@.len() as int) =~= list@);
            },
            None => {
                assert(profile::models(res@) =~= Seq::<profile::ItemModel>::empty());
            },
        }
        res
    }

    /// The index, among the profiles that a user can select, of the one in use.
    pub fn selected_index(&self) -> (res: usize)
        ensures
            res == selected(self@),
    {
        match self.profiles.get_current() {
            Some(current) => {
                let list: Vec<PrfItem> = self.items();
                let i: usize = profile::find_item(&list, current.as_str());
                if i < list.len() {
                    i
                } else {
                    0
                }
            },
            None => 0,
        }
    }

    /// The UID of the profile in use.
    pub fn current_uid(&self) -> (res: Option<String>)
        ensures
            text::text_of(res) == self@.current,
    {
        text::copy_text(&self.profiles.current)
    }
}

/// What to do to change the profile in use.
#[derive(Debug, PartialEq, Eq)]
pub enum SwitchStep {
    /// Apply this patch to the profiles and save them, then call `saved`. The UID is handed back
    /// in the end.
    Install { patch: IProfiles, previous: Option<String> },
    /// Nothing is left to do.
    Done(Result<Option<String>, StoreError>),
}

/// What a step says.
#[verifier::ext_equal]
pub enum SwitchModel {
    Install { patch: profile::ProfilesModel, previous: Option<Seq<char>> },
    Done(Result<Option<Seq<char>>, StoreErrorModel>),
}

impl View for SwitchStep {
    type V = SwitchModel;

    open spec fn view(&self) -> SwitchModel {
        match self {
            SwitchStep::Install { patch, previous } => SwitchModel::Install {
                patch: patch@,
                previous: text::text_of(*previous),
            },
            SwitchStep::Done(Ok(previous)) => SwitchModel::Done(Ok(text::text_of(*previous))),
            SwitchStep::Done(Err(error)) => SwitchModel::Done(Err(error@)),
        }
    }
}

/// The patch that puts a profile into use and leaves the list alone.
pub open spec fn current_patch(uid: Seq<char>) -> profile::ProfilesModel {
    profile::ProfilesModel { current: Some(uid), items: None }
}

/// Putting `uid` into use, with the UID in use before as the answer.
pub open spec fn replacing(store: profile::ProfilesModel, uid: Seq<char>) -> SwitchModel {
    SwitchModel::Install { patch: current_patch(uid), previous: store.current }
}

/// Putting `previous` back into use, but only where `expected` still is in use.
pub open spec fn restoring(
    store: profile::ProfilesModel,
    expected: Seq<char>,
    previous: Option<Seq<char>>,
) -> SwitchModel {
    if previous is Some && store.current == Some(expected) {
        SwitchModel::Install { patch: current_patch(previous->0), previous: None }
    } else {
        SwitchModel::Done(Ok(None))
    }
}

/// What follows when the patched profiles were saved, or could not be.
pub open spec fn after_save(step: SwitchModel, saved: Result<(), Seq<char>>) -> SwitchModel {
    match step {
        SwitchModel::Install { patch, previous } => match saved {
            Ok(_) => SwitchModel::Done(Ok(previous)),
            Err(cause) => SwitchModel::Done(Err(StoreErrorModel::SaveCurrentFailed(cause))),
        },
        SwitchModel::Done(outcome) => SwitchModel::Done(outcome),
    }
}

/// An outcome by what it says.
pub open spec fn outcome_model(outcome: Result<(), String>) -> Result<(), Seq<char>> {
    match outcome {
        Ok(_) => Ok(()),
        Err(cause) => Err(cause@),
    }
}

fn make_current_patch(uid: &str) -> (res: IProfiles)
    ensures
        res@ == current_patch(uid@),
{
    IProfiles { current: Some(uid.to_owned()), items: None }
}

impl ProfileStore {
    /// Puts the profile with this UID into use.
    pub fn set_current(&self, uid: &str) -> (res: SwitchStep)
        ensures
            res@ == (SwitchModel::Install { patch: current_patch(uid@), previous: None }),
    {
        SwitchStep::Install { patch: make_current_patch(uid), previous: None }
    }

    /// Puts the profile with this UID into use and answers with the UID in use before. Both are
    /// of the same snapshot, so two switches that take turns on the store cannot get the same
    /// predecessor.
    pub fn replace_current_locked(&self, uid: &str) -> (res: SwitchStep)
        ensures
            res@ == replacing(self@, uid@),
    {
        SwitchStep::Install { patch: make_current_patch(uid), previous: self.current_uid() }
    }

    /// Puts `previous` back into use if `expected` still is in use, so that a switch that fails
    /// late does not undo another one that succeeded.
    pub fn restore_current_if_matches(&self, expected: &str, previous: Option<&str>) -> (res:
        SwitchStep)
        ensures
            res@ == restoring(self@, expected@, fallback::slice_of(previous)),
    {
        match previous {
            Some(previous) => if text::is_text(&self.profiles.current, expected) {
                self.set_current(previous)
            } else {
                SwitchStep::Done(Ok(None))
            },
            None => SwitchStep::Done(Ok(None)),
        }
    }
}

impl SwitchStep {
    /// Tells whether the patched profiles were saved.
    pub fn saved(self, outcome: Result<(), String>) -> (res: SwitchStep)
        ensures
            res@ == after_save(self@, outcome_model(outcome)),
    {
        match self {
            SwitchStep::Install { patch: _, previous } => match outcome {
                Ok(_) => SwitchStep::Done(Ok(previous)),
                Err(cause) => SwitchStep::Done(Err(StoreError::SaveCurrentFailed(cause))),
            },
            SwitchStep::Done(outcome) => SwitchStep::Done(outcome),
        }
    }
}

/// What to do to add a profile.
#[derive(Debug, PartialEq, Eq)]
pub enum ImportStep {
    /// Fetch the subscription and make a profile of it with this name, then call `fetched`.
    Fetch { url: String, name: String },
    /// Make the directories of the store ready, then call `finished`.
    EnsureStorage(PrfItem),
    /// Append a copy of the profile to the list, then call `finished`.
    AppendItem(PrfItem),
    /// Save the list, then call `finished`.
    Save(PrfItem),
    /// Nothing is left to do.
    Done(Result<PrfItem, StoreError>),
}

/// What a step says.
#[verifier::ext_equal]
pub enum ImportModel {
    Fetch { url: Seq<char>, name: Seq<char> },
    EnsureStorage(profile::ItemModel),
    AppendItem(profile::ItemModel),
    Save(profile::ItemModel),
    Done(Result<profile::ItemModel, StoreErrorModel>),
}

impl View for ImportStep {
    type V = ImportModel;

    open spec fn view(&self) -> ImportModel {
        match self {
            ImportStep::Fetch { url, name } => ImportModel::Fetch { url: url@, name: name@ },
            ImportStep::EnsureStorage(item) => ImportModel::EnsureStorage(item@),
            ImportStep::AppendItem(item) => ImportModel::AppendItem(item@),
            ImportStep::Save(item) => ImportModel::Save(item@),
            ImportStep::Done(Ok(item)) => ImportModel::Done(Ok(item@)),
            ImportStep::Done(Err(error)) => ImportModel::Done(Err(error@)),
        }
    }
}

/// A fetched profile by what it says.
pub open spec fn fetched_model(outcome: Result<PrfItem, String>) -> Result<
    profile::ItemModel,
    Seq<char>,
> {
    match outcome {
        Ok(item) => Ok(item@),
        Err(report) => Err(report@),
    }
}

/// What follows when the subscription was fetched, or could not be. A step that asked for
/// something else stays.
pub open spec fn after_fetch(
    step: ImportModel,
    outcome: Result<profile::ItemModel, Seq<char>>,
) -> ImportModel {
    match step {
        ImportModel::Fetch { url, name } => match outcome {
            Ok(item) => ImportModel::EnsureStorage(item),
            Err(report) => ImportModel::Done(Err(StoreErrorModel::FromUrl(report))),
        },
        _ => step,
    }
}

/// What follows when the step was done, or could not be. A step that asked for a subscription
/// stays.
pub open spec fn after_work(step: ImportModel, outcome: Result<(), Seq<char>>) -> ImportModel {
    match (step, outcome) {
        (ImportModel::EnsureStorage(item), Ok(_)) => ImportModel::AppendItem(item),
        (ImportModel::EnsureStorage(_), Err(report)) => ImportModel::Done(
            Err(StoreErrorModel::Storage(report)),
        ),
        (ImportModel::AppendItem(item), Ok(_)) => ImportModel::Save(item),
        (ImportModel::AppendItem(_), Err(cause)) => ImportModel::Done(
            Err(StoreErrorModel::AppendFailed(cause)),
        ),
        (ImportModel::Save(item), Ok(_)) => ImportModel::Done(Ok(item)),
        (ImportModel::Save(_), Err(cause)) => ImportModel::Done(
            Err(StoreErrorModel::SaveFailed(cause)),
        ),
        _ => step,
    }
}

impl ProfileStore {
    /// Adds a profile to the list.
    pub fn append(&self, item: PrfItem) -> (res: ImportStep)
        ensures
            res@ == ImportModel::EnsureStorage(item@),
    {
        ImportStep::EnsureStorage(item)
    }

    /// Adds the subscription at `url`. It is named after its address where no name is given.
    pub fn import_url(&self, url: &str, name: Option<&str>) -> (res: ImportStep)
        ensures
            res@ == (ImportModel::Fetch {
                url: url@,
                name: match name {
                    Some(name) => name@,
                    None => url@,
                },
            }),
    {
        let name: &str = match name {
            Some(name) => name,
            None => url,
        };
        ImportStep::Fetch { url: url.to_owned(), name: name.to_owned() }
    }
}

impl ImportStep {
    /// Tells what became of the subscription.
    pub fn fetched(self, outcome: Result<PrfItem, String>) -> (res: ImportStep)
        ensures
            res@ == after_fetch(self@, fetched_model(outcome)),
    {
        match self {
            ImportStep::Fetch { url: _, name: _ } => match outcome {
                Ok(item) => ImportStep::EnsureStorage(item),
                Err(report) => ImportStep::Done(Err(StoreError::FromUrl(report))),
            },
            other => other,
        }
    }

    /// Tells whether the step was done.
    pub fn finished(self, outcome: Result<(), String>) -> (res: ImportStep)
        ensures
            res@ == after_work(self@, outcome_model(outcome)),
    {
        match self {
            ImportStep::EnsureStorage(item) => match outcome {
                Ok(_) => ImportStep::AppendItem(item),
                Err(report) => ImportStep::Done(Err(StoreError::Storage(report))),
            },
            ImportStep::AppendItem(item) => match outcome {
                Ok(_) => ImportStep::Save(item),
                Err(cause) => ImportStep::Done(Err(StoreError::AppendFailed(cause))),
            },
            ImportStep::Save(item) => match outcome {
                Ok(_) => ImportStep::Done(Ok(item)),
                Err(cause) => ImportStep::Done(Err(StoreError::SaveFailed(cause))),
            },
            other => other,
        }
    }
}

/// Where the profile in use is a subscription, the selected entry is that profile.
pub proof fn selection_follows_the_current_profile(
    store: profile::ProfilesModel,
    uid: Seq<char>,
    at: int,
)
    requires
        store.current == Some(uid),
        0 <= at < store.remotes().len(),
        store.remotes()[at].uid == Some(uid),
    ensures
        selected(store) < store.remotes().len(),
        store.remotes()[selected(store) as int].uid == Some(uid),
{
    profile::lemma_position_of(store.remotes(), uid);
}

/// Where there is anything to select, the selection is one of the entries.
pub proof fn selection_is_in_range(store: profile::ProfilesModel)
    requires
        store.remotes().len() > 0,
    ensures
        selected(store) < store.remotes().len(),
{
}

/// A fragment anywhere in the list changes neither what can be selected nor what is selected.
pub proof fn fragments_do_not_shift_the_selection(
    store: profile::ProfilesModel,
    at: int,
    fragment: profile::ItemModel,
)
    requires
        store.items is Some,
        0 <= at <= store.all().len(),
        !fragment.is_remote(),
    ensures
        ({
            let with = profile::ProfilesModel {
                current: store.current,
                items: Some(store.all().insert(at, fragment)),
            };
            &&& with.remotes() == store.remotes()
            &&& selected(with) == selected(store)
        }),
{
    let remote = |item: profile::ItemModel| item.is_remote();
    let all = store.all();
    let before = all.take(at);
    let behind = all.skip(at);
    let one = seq![fragment];
    assert(all =~= before + behind);
    assert(all.insert(at, fragment) =~= before + one + behind);
    Seq::filter_distributes_over_add(before, behind, remote);
    Seq::filter_distributes_over_add(before + one, behind, remote);
    Seq::filter_distributes_over_add(before, one, remote);
    reveal(Seq::filter);
    assert(one.drop_last() =~= Seq::<profile::ItemModel>::empty());
    assert(one.drop_last().filter(remote) =~= Seq::<profile::ItemModel>::empty());
    assert(one.filter(remote) =~= Seq::<profile::ItemModel>::empty());
    assert(before.filter(remote) + one.filter(remote) =~= before.filter(remote));
}

/// A subscription that is appended to the list becomes the last entry that can be selected.
pub proof fn appended_subscription_is_listed(
    store: profile::ProfilesModel,
    item: profile::ItemModel,
)
    requires
        item.is_remote(),
    ensures
        (profile::ProfilesModel {
            current: store.current,
            items: Some(store.all().push(item)),
        }).remotes() == store.remotes().push(item),
{
    reveal(Seq::filter);
    assert(store.all().push(item).drop_last() =~= store.all());
}

/// A switch asks for its profile to be put into use, and for nothing else. If it fails while
/// its profile is in use, it asks for the profile from before, if there was one.
pub proof fn failed_switch_brings_back_its_predecessor(
    before: profile::ProfilesModel,
    uid: Seq<char>,
    now: profile::ProfilesModel,
)
    requires
        now.current == Some(uid),
    ensures
        replacing(before, uid) matches SwitchModel::Install { patch, previous } && {
            &&& patch == current_patch(uid)
            &&& previous == before.current
            &&& restoring(now, uid, previous) == match before.current {
                Some(predecessor) => SwitchModel::Install {
                    patch: current_patch(predecessor),
                    previous: None,
                },
                None => SwitchModel::Done(Ok(None)),
            }
        },
{
}

/// A switch that fails when another profile is in use by then changes nothing.
pub proof fn late_failure_undoes_no_other_switch(
    now: profile::ProfilesModel,
    uid: Seq<char>,
    previous: Option<Seq<char>>,
)
    requires
        now.current != Some(uid),
    ensures
        restoring(now, uid, previous) == SwitchModel::Done(Ok(None)),
{
}

/// Of two switches that take turns on the store, the second has the profile of the first as its
/// predecessor, not that of the first.
pub proof fn second_switch_sees_the_first(
    before: profile::ProfilesModel,
    first: Seq<char>,
    between: profile::ProfilesModel,
    second: Seq<char>,
)
    requires
        between.current == Some(first),
    ensures
        replacing(before, first) matches SwitchModel::Install { previous, .. } && previous
            == before.current,
        replacing(between, second) matches SwitchModel::Install { previous, .. } && previous
            == Some(first),
{
}

/// The predecessor is answered exactly when the change was saved.
pub proof fn predecessor_is_answered_once_saved(
    store: profile::ProfilesModel,
    uid: Seq<char>,
    saved: Result<(), Seq<char>>,
)
    ensures
        after_save(replacing(store, uid), saved) == match saved {
            Ok(_) => SwitchModel::Done(Ok(store.current)),
            Err(cause) => SwitchModel::Done(Err(StoreErrorModel::SaveCurrentFailed(cause))),
        },
{
}

/// The profile that a step is about.
pub open spec fn carried(step: ImportModel) -> Option<profile::ItemModel> {
    match step {
        ImportModel::EnsureStorage(item) => Some(item),
        ImportModel::AppendItem(item) => Some(item),
        ImportModel::Save(item) => Some(item),
        ImportModel::Done(Ok(item)) => Some(item),
        _ => None,
    }
}

/// What becomes of an import when its work ends in these ways, one after the other.
pub open spec fn worked(step: ImportModel, outcomes: Seq<Result<(), Seq<char>>>) -> ImportModel
    decreases outcomes.len(),
{
    if outcomes.len() == 0 {
        step
    } else {
        after_work(worked(step, outcomes.drop_last()), outcomes.last())
    }
}

/// However the work goes, an import is about the profile that was fetched: that one is appended,
/// and that one is the answer, unless the import fails.
pub proof fn import_keeps_to_the_fetched_profile(
    url: Seq<char>,
    name: Seq<char>,
    item: profile::ItemModel,
    outcomes: Seq<Result<(), Seq<char>>>,
)
    ensures
        ({
            let end = worked(after_fetch(ImportModel::Fetch { url, name }, Ok(item)), outcomes);
            carried(end) == Some(item) || end matches ImportModel::Done(Err(_))
        }),
    decreases outcomes.len(),
{
    if outcomes.len() > 0 {
        import_keeps_to_the_fetched_profile(url, name, item, outcomes.drop_last());
    }
}

/// An import succeeds when storage, list and file are all in order, and answers with the
/// profile that was fetched.
pub proof fn import_succeeds_when_all_work_does(
    url: Seq<char>,
    name: Seq<char>,
    item: profile::ItemModel,
)
    ensures
        ({
            let ok = Ok::<(), Seq<char>>(());
            let fetched = after_fetch(ImportModel::Fetch { url, name }, Ok(item));
            worked(fetched, seq![ok, ok, ok]) == ImportModel::Done(Ok(item))
        }),
{
    let ok = Ok::<(), Seq<char>>(());
    reveal_with_fuel(worked, 4);
    assert(seq![ok, ok, ok].drop_last() =~= seq![ok, ok]);
    assert(seq![ok, ok].drop_last() =~= seq![ok]);
    assert(seq![ok].drop_last() =~= Seq::<Result<(), Seq<char>>>::empty());
}

/// What failed first is what an import reports, and nothing is done after it.
pub proof fn import_stops_at_the_first_failure(
    step: ImportModel,
    cause: Seq<char>,
    outcomes: Seq<Result<(), Seq<char>>>,
)
    requires
        step is EnsureStorage || step is AppendItem || step is Save,
    ensures
        after_work(step, Err(cause)) is Done,
        worked(after_work(step, Err(cause)), outcomes) == after_work(step, Err(cause)),
    decreases outcomes.len(),
{
    if outcomes.len() > 0 {
        import_stops_at_the_first_failure(step, cause, outcomes.drop_last());
    }
}

} // verus!
