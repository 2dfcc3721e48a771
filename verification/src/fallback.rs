//! The ways of fetching a subscription, one after the other until one works.
//!
//! The network is not touched here: a `Fallback` names the call to make, and is told how the
//! call ended.

use crate::profile;
use crate::profile::PrfOption;
use crate::text;
use vstd::prelude::*;

verus! {

/// Whether the profile with these options is updated without being asked for. It is, unless the
/// options say otherwise.
pub fn allow_auto_update_enabled(option: Option<&PrfOption>) -> (res: bool)
    ensures
        res == !(option matches Some(option) && option.allow_auto_update == Some(false)),
{
    match option {
        Some(option) => match option.allow_auto_update {
            Some(allowed) => allowed,
            None => true,
        },
        None => true,
    }
}

/// The options of an attempt with the caller's laid over them, but for the way of fetching,
/// which stays that of the attempt.
pub open spec fn attempt_options(base: PrfOption, user: Option<&PrfOption>) -> PrfOption {
    match user {
        Some(user) => PrfOption {
            with_proxy: base.with_proxy,
            self_proxy: base.self_proxy,
            ..profile::merged_options(base, *user)
        },
        None => base,
    }
}

/// Merges a caller's interval and auto-update overrides into a fallback attempt, keeping the
/// attempt's proxy strategy.
pub fn merge_import_option(base: &PrfOption, user: Option<&PrfOption>) -> (res: PrfOption)
    ensures
        res == attempt_options(*base, user),
{
    let merged: PrfOption = match PrfOption::merge(Some(base), user) {
        Some(merged) => merged,
        None => *base,
    };
    PrfOption { with_proxy: base.with_proxy, self_proxy: base.self_proxy, ..merged }
}

/// One call that fetches a subscription and makes a profile of it.
#[derive(Debug, PartialEq, Eq)]
pub struct FromUrlCall {
    pub url: String,
    /// The name of the profile, where it is not left to the subscription.
    pub name: Option<String>,
    pub desc: Option<String>,
    pub option: PrfOption,
}

/// What a call asks for.
#[verifier::ext_equal]
pub struct CallModel {
    pub url: Seq<char>,
    pub name: Option<Seq<char>>,
    pub desc: Option<Seq<char>>,
    pub option: PrfOption,
}

impl View for FromUrlCall {
    type V = CallModel;

    open spec fn view(&self) -> CallModel {
        CallModel {
            url: self.url@,
            name: text::text_of(self.name),
            desc: text::text_of(self.desc),
            option: self.option,
        }
    }
}

/// Calls that are left to try: one now, others if it fails.
#[derive(Debug, PartialEq, Eq)]
pub struct Fallback {
    call: FromUrlCall,
    rest: Vec<FromUrlCall>,
}

impl View for Fallback {
    type V = Seq<CallModel>;

    closed spec fn view(&self) -> Seq<CallModel> {
        seq![self.call@] + self.rest@.map_values(|call: FromUrlCall| call@)
    }
}

/// What follows a call.
#[derive(Debug, PartialEq, Eq)]
pub enum FallbackStep<T, E> {
    /// Make the first call of these.
    Try(Fallback),
    /// Make no more calls; this is the outcome.
    Finished(Result<T, E>),
}

/// What a step says.
pub enum StepModel<T, E> {
    Try(Seq<CallModel>),
    Finished(Result<T, E>),
}

impl<T, E> FallbackStep<T, E> {
    pub open spec fn model(self) -> StepModel<T, E> {
        match self {
            FallbackStep::Try(fallback) => StepModel::Try(fallback@),
            FallbackStep::Finished(outcome) => StepModel::Finished(outcome),
        }
    }
}

/// What follows when the first of `calls` ends with `outcome`: success ends the search, and so
/// does the failure of the last call; another failure leads to the next call.
pub open spec fn after_call<T, E>(calls: Seq<CallModel>, outcome: Result<T, E>) -> StepModel<T, E> {
    if outcome is Ok || calls.len() <= 1 {
        StepModel::Finished(outcome)
    } else {
        StepModel::Try(calls.drop_first())
    }
}

/// A call with these arguments.
pub open spec fn call_model(
    url: Seq<char>,
    name: Option<Seq<char>>,
    option: PrfOption,
) -> CallModel {
    CallModel { url, name, desc: None, option }
}

/// The options with the way of fetching set.
pub open spec fn fetched_by(option: PrfOption, with_proxy: bool, self_proxy: bool) -> PrfOption {
    PrfOption { with_proxy: Some(with_proxy), self_proxy: Some(self_proxy), ..option }
}

/// The calls of an import: by the system proxy, by the client's own proxy, and with no way set.
pub open spec fn import_calls(
    url: Seq<char>,
    name: Option<Seq<char>>,
    user: Option<&PrfOption>,
) -> Seq<CallModel> {
    let none = profile::no_options();
    seq![
        call_model(url, name, attempt_options(fetched_by(none, true, false), user)),
        call_model(url, name, attempt_options(fetched_by(none, false, true), user)),
        call_model(url, name, attempt_options(none, user)),
    ]
}

/// The calls of an update: with the options as they are, by the client's own proxy, and by the
/// system proxy.
pub open spec fn update_calls(url: Seq<char>, option: Option<&PrfOption>) -> Seq<CallModel> {
    let given = match option {
        Some(option) => *option,
        None => profile::no_options(),
    };
    seq![
        call_model(url, None, given),
        call_model(url, None, fetched_by(given, false, true)),
        call_model(url, None, fetched_by(given, true, false)),
    ]
}

/// The text of an optional string slice.
pub open spec fn slice_of(s: Option<&str>) -> Option<Seq<char>> {
    match s {
        Some(s) => Some(s@),
        None => None,
    }
}

fn make_call(url: &str, name: Option<&str>, option: PrfOption) -> (res: FromUrlCall)
    ensures
        res@ == call_model(url@, slice_of(name), option),
{
    let name: Option<String> = match name {
        Some(name) => Some(name.to_owned()),
        None => None,
    };
    FromUrlCall { url: url.to_owned(), name, desc: None, option }
}

fn three_calls(first: FromUrlCall, second: FromUrlCall, third: FromUrlCall) -> (res: Fallback)
    ensures
        res@ == seq![first@, second@, third@],
{
    let mut rest: Vec<FromUrlCall> = Vec::new();
    rest.push(second);
    rest.push(third);
    let res = Fallback { call: first, rest };
    assert(res@ =~= seq![first@, second@, third@]);
    res
}

/// The calls to try when a subscription is imported.
pub fn import_with_fallback(url: &str, name: Option<&str>, user: Option<&PrfOption>) -> (res:
    Fallback)
    ensures
        res@ == import_calls(url@, slice_of(name), user),
{
    let none: PrfOption = PrfOption::default();
    let by_system: PrfOption = PrfOption {
        with_proxy: Some(true),
        self_proxy: Some(false),
        ..none
    };
    let by_self: PrfOption = PrfOption { with_proxy: Some(false), self_proxy: Some(true), ..none };
    three_calls(
        make_call(url, name, merge_import_option(&by_system, user)),
        make_call(url, name, merge_import_option(&by_self, user)),
        make_call(url, name, merge_import_option(&none, user)),
    )
}

/// The calls to try when a subscription is updated.
pub fn update_with_fallback(url: &str, option: Option<&PrfOption>) -> (res: Fallback)
    ensures
        res@ == update_calls(url@, option),
{
    let given: PrfOption = match PrfOption::merge(option, None) {
        Some(given) => given,
        None => PrfOption::default(),
    };
    let by_self: PrfOption = PrfOption { with_proxy: Some(false), self_proxy: Some(true), ..given };
    let by_system: PrfOption = PrfOption {
        with_proxy: Some(true),
        self_proxy: Some(false),
        ..given
    };
    three_calls(
        make_call(url, None, given),
        make_call(url, None, by_self),
        make_call(url, None, by_system),
    )
}

impl Fallback {
    /// The call to make now.
    pub fn call(&self) -> (res: &FromUrlCall)
        ensures
            self@.len() > 0,
            res@ == self@[0],
    {
        &self.call
    }

    /// Tells how the call ended.
    pub fn record<T, E>(self, outcome: Result<T, E>) -> (res: FallbackStep<T, E>)
        ensures
            res.model() == after_call(self@, outcome),
    {
        let mut rest: Vec<FromUrlCall> = self.rest;
        if outcome.is_ok() || rest.len() == 0 {
            FallbackStep::Finished(outcome)
        } else {
            let call: FromUrlCall = rest.remove(0);
            let next = Fallback { call, rest };
            assert(next@ =~= self@.drop_first());
            FallbackStep::Try(next)
        }
    }
}

/// How many of `calls` are made and how the search ends, where the calls end with `outcomes`,
/// one after the other.
pub open spec fn search<T, E>(calls: Seq<CallModel>, outcomes: Seq<Result<T, E>>) -> (
    nat,
    Result<T, E>,
)
    decreases calls.len(),
{
    match after_call(calls, outcomes[0]) {
        StepModel::Finished(outcome) => (1, outcome),
        StepModel::Try(left) => if left.len() < calls.len() {
            let later = search(left, outcomes.drop_first());
            (later.0 + 1, later.1)
        } else {
            (1, outcomes[0])
        },
    }
}

/// The search ends at the first success and returns it. Where every call fails, all of them are
/// made, and the error of the last one is returned.
pub proof fn first_success_or_last_error<T, E>(
    calls: Seq<CallModel>,
    outcomes: Seq<Result<T, E>>,
)
    requires
        calls.len() > 0,
        outcomes.len() == calls.len(),
    ensures
        ({
            let (made, outcome) = search(calls, outcomes);
            &&& 1 <= made <= calls.len()
            &&& outcome == outcomes[made - 1]
            &&& forall|i: int| 0 <= i < made - 1 ==> (#[trigger] outcomes[i]) is Err
            &&& outcome is Err ==> made == calls.len()
        }),
    decreases calls.len(),
{
    if outcomes[0] is Err && calls.len() > 1 {
        first_success_or_last_error(calls.drop_first(), outcomes.drop_first());
        let (made, outcome) = search(calls, outcomes);
        assert(outcome == outcomes.drop_first()[made - 2]);
        assert forall|i: int| 0 <= i < made - 1 implies (#[trigger] outcomes[i]) is Err by {
            if i > 0 {
                assert(outcomes.drop_first()[i - 1] is Err);
            }
        }
    }
}

/// Whatever the caller asks for, an import goes by the system proxy first, then by the client's
/// own proxy, then with no way set; and every attempt has the interval and the auto-update flag
/// that the caller asked for.
pub proof fn import_keeps_strategies_and_takes_flags(
    url: Seq<char>,
    name: Option<Seq<char>>,
    user: PrfOption,
)
    ensures
        ({
            let calls = import_calls(url, name, Some(&user));
            &&& calls.len() == 3
            &&& calls[0].option.with_proxy == Some(true)
            &&& calls[0].option.self_proxy == Some(false)
            &&& calls[1].option.with_proxy == Some(false)
            &&& calls[1].option.self_proxy == Some(true)
            &&& calls[2].option.with_proxy is None
            &&& calls[2].option.self_proxy is None
            &&& forall|i: int|
                0 <= i < 3 ==> {
                    &&& (#[trigger] calls[i]).option.update_interval == user.update_interval
                    &&& calls[i].option.allow_auto_update == user.allow_auto_update
                    &&& calls[i].url == url
                    &&& calls[i].name == name
                }
        }),
{
}

/// An update changes nothing but the way of fetching from one attempt to the next.
pub proof fn update_changes_only_the_strategy(url: Seq<char>, option: Option<&PrfOption>)
    ensures
        ({
            let calls = update_calls(url, option);
            &&& calls.len() == 3
            &&& option is Some ==> calls[0].option == *option->0
            &&& calls[1].option.self_proxy == Some(true)
            &&& calls[1].option.with_proxy == Some(false)
            &&& calls[2].option.self_proxy == Some(false)
            &&& calls[2].option.with_proxy == Some(true)
            &&& forall|i: int|
                0 <= i < 3 ==> {
                    &&& (#[trigger] calls[i]).option.update_interval
                        == calls[0].option.update_interval
                    &&& calls[i].option.allow_auto_update == calls[0].option.allow_auto_update
                    &&& calls[i].url == url
                }
        }),
{
}

} // verus!
