//! Laws of the ways in which a subscription is fetched.

use crate::fallback;
use crate::fallback::{Fallback, FallbackStep, FromUrlCall};
use crate::profile::PrfOption;
use vstd::prelude::*;
use vstd::string::*;

verus! {

/// An import is tried by the system proxy, then by the client's own proxy, then with no way set,
/// whether or not the caller gives options and whatever they are.
pub proof fn import_tries_the_ways_in_order(
    url: Seq<char>,
    name: Option<Seq<char>>,
    user: Option<&PrfOption>,
)
    ensures
        ({
            let calls = fallback::import_calls(url, name, user);
            &&& calls.len() == 3
            &&& (calls[0].option.with_proxy, calls[0].option.self_proxy) == (Some(true), Some(false))
            &&& (calls[1].option.with_proxy, calls[1].option.self_proxy) == (Some(false), Some(true))
            &&& (calls[2].option.with_proxy, calls[2].option.self_proxy) == (
                None::<bool>,
                None::<bool>,
            )
            &&& forall|i: int|
                0 <= i < 3 ==> {
                    &&& (#[trigger] calls[i]).url == url
                    &&& calls[i].name == name
                    &&& calls[i].desc is None
                }
        }),
{
}

/// Every attempt of an import has the caller's interval and auto-update flag, and none of either
/// where the caller gives no options.
pub proof fn import_hands_on_the_callers_flags(
    url: Seq<char>,
    name: Option<Seq<char>>,
    user: Option<&PrfOption>,
    i: int,
)
    requires
        0 <= i < 3,
    ensures
        ({
            let option = fallback::import_calls(url, name, user)[i].option;
            &&& option.update_interval == if user is Some { user->0.update_interval } else { None }
            &&& option.allow_auto_update == if user is Some {
                user->0.allow_auto_update
            } else {
                None
            }
        }),
{
}

/// The attempt decides how it fetches. The caller decides the interval and the auto-update flag
/// where the caller sets them, and the attempt where not.
pub proof fn attempt_keeps_its_way_of_fetching(base: PrfOption, user: Option<&PrfOption>)
    ensures
        ({
            let merged = fallback::attempt_options(base, user);
            &&& merged.with_proxy == base.with_proxy
            &&& merged.self_proxy == base.self_proxy
            &&& user is None ==> merged == base
            &&& user is Some && user->0.update_interval is Some ==> merged.update_interval
                == user->0.update_interval
            &&& user is Some && user->0.update_interval is None ==> merged.update_interval
                == base.update_interval
            &&& user is Some && user->0.allow_auto_update is Some ==> merged.allow_auto_update
                == user->0.allow_auto_update
            &&& user is Some && user->0.allow_auto_update is None ==> merged.allow_auto_update
                == base.allow_auto_update
        }),
{
}

/// An update is tried with the options as they are, then by the client's own proxy, then by the
/// system proxy. The interval and the auto-update flag stay those of the options, and without
/// options nothing but the way of fetching is set.
pub proof fn update_tries_the_ways_in_order(url: Seq<char>, option: Option<&PrfOption>)
    ensures
        ({
            let calls = fallback::update_calls(url, option);
            let given = calls[0].option;
            &&& calls.len() == 3
            &&& option is Some ==> given == *option->0
            &&& option is None ==> given.with_proxy is None && given.self_proxy is None
                && given.update_interval is None && given.allow_auto_update is None
            &&& (calls[1].option.with_proxy, calls[1].option.self_proxy) == (Some(false), Some(true))
            &&& (calls[2].option.with_proxy, calls[2].option.self_proxy) == (Some(true), Some(false))
            &&& forall|i: int|
                0 <= i < 3 ==> {
                    &&& (#[trigger] calls[i]).option.update_interval == given.update_interval
                    &&& calls[i].option.allow_auto_update == given.allow_auto_update
                    &&& calls[i].url == url
                    &&& calls[i].name is None
                    &&& calls[i].desc is None
                }
        }),
{
}

/// A success ends the search at once. A failure leads to the next call, and ends the search where
/// there is none.
pub proof fn failure_leads_to_the_next_call<T, E>(
    first: fallback::CallModel,
    rest: Seq<fallback::CallModel>,
    value: T,
    error: E,
)
    ensures
        ({
            let calls = seq![first] + rest;
            &&& fallback::after_call::<T, E>(calls, Ok(value)) == fallback::StepModel::<
                T,
                E,
            >::Finished(Ok(value))
            &&& rest.len() > 0 ==> fallback::after_call::<T, E>(calls, Err(error))
                == fallback::StepModel::<T, E>::Try(rest)
            &&& rest.len() == 0 ==> fallback::after_call::<T, E>(calls, Err(error))
                == fallback::StepModel::<T, E>::Finished(Err(error))
        }),
{
    assert((seq![first] + rest).drop_first() =~= rest);
}

/// The views of calls and steps show what they hold.
pub proof fn views_of_calls_show_them<T, E>(
    call: FromUrlCall,
    next: Fallback,
    outcome: Result<T, E>,
    name: &str,
)
    ensures
        call@.url == call.url@,
        call.name matches Some(name) ==> call@.name == Some(name@),
        call.name is None ==> call@.name is None,
        call.desc matches Some(desc) ==> call@.desc == Some(desc@),
        call.desc is None ==> call@.desc is None,
        call@.option == call.option,
        FallbackStep::<T, E>::Try(next).model() == fallback::StepModel::<T, E>::Try(next@),
        FallbackStep::<T, E>::Finished(outcome).model() == fallback::StepModel::<T, E>::Finished(
            outcome,
        ),
        fallback::slice_of(Some(name)) == Some(name@),
        fallback::slice_of(None::<&str>) is None,
{
}

} // verus!
