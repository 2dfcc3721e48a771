//! Laws of the functions themselves: what every call returns, for all arguments.

use crate::fallback;
use crate::fallback::{Fallback, FallbackStep};
use crate::from_url;
use crate::from_url::SubscriptionError;
use crate::headers::Headers;
use crate::laws;
use crate::outside;
use crate::profile;
use crate::profile::{PrfExtra, PrfItem, PrfOption};
use crate::store;
use crate::store::{ImportStep, ProfileStore, StoreError, SwitchStep};
use crate::text;
use crate::update;
use crate::update::{Batch, BatchStep, UpdateEvent, UpdateOutcome, UpdateStep};
use crate::url;
use crate::url::SubscriptionUrl;
use vstd::prelude::*;
use vstd::string::*;
use vstd::utf8::*;

verus! {

/// What stands in a response between white space, where it is not blank.
pub open spec fn holds(body: Seq<char>, inner: Seq<char>) -> bool {
    &&& laws::text::unpadded(inner)
    &&& exists|before: Seq<char>, after: Seq<char>|
        {
            &&& #[trigger] laws::text::blank(before)
            &&& #[trigger] laws::text::blank(after)
            &&& body == before + inner + after
        }
}

/// The text that bytes encode is a YAML mapping.
pub open spec fn encode_a_mapping(bytes: Option<Seq<u8>>) -> bool {
    bytes is Some && valid_utf8(bytes->0) && outside::yaml_keys(decode_utf8(bytes->0)) is Some
}

proof fn lemma_judged(body: Seq<char>, inner: Seq<char>)
    requires
        holds(body, inner),
    ensures
        text::trimmed(body) == inner,
        from_url::configuration(body) == if inner[0] == '<' {
            Err(
                from_url::RefusalModel::Html(
                    if inner.len() <= 200 {
                        inner
                    } else {
                        inner.subrange(0, 200)
                    },
                ),
            )
        } else if outside::yaml_keys(body) is Some {
            Ok(body)
        } else if encode_a_mapping(outside::base64_bytes(inner)) {
            Ok(decode_utf8(outside::base64_bytes(inner)->0))
        } else {
            Err(from_url::RefusalModel::NotClash)
        },
{
    let (before, after) = choose|before: Seq<char>, after: Seq<char>|
        {
            &&& #[trigger] laws::text::blank(before)
            &&& #[trigger] laws::text::blank(after)
            &&& body == before + inner + after
        };
    laws::text::padding_is_trimmed_away(before, inner, after);
    laws::from_url::response_is_judged_by_what_it_holds(before, inner, after);
}

/// Every response that is not blank and does not start with `<` becomes a profile if it is a YAML
/// mapping, with the response as it came, or if it is Base64 of one, with what it decodes to. The
/// profile has the address and the name that were given. Anything else is refused for what it is.
pub proof fn from_url_makes_a_profile_of_a_configuration(
    url: &str,
    name: &str,
    body: String,
    inner: Seq<char>,
    res: Result<PrfItem, SubscriptionError>,
)
    requires
        call_ensures(from_url::from_url, (url, name, body), res),
        holds(body@, inner),
    ensures
        ({
            let decoded = outside::base64_bytes(inner);
            let mapping = outside::yaml_keys(body@) is Some;
            &&& res is Ok <==> inner[0] != '<' && (mapping || encode_a_mapping(decoded))
            &&& res matches Ok(item) ==> {
                &&& mapping ==> item@.file_data == Some(body@)
                &&& !mapping ==> item@.file_data == Some(decode_utf8(decoded->0))
                &&& item@.url == Some(url@)
                &&& item@.name == Some(name@)
                &&& item@.itype == Some("remote"@)
                &&& item@.uid is Some
                &&& item@.file == Some(item@.uid->0 + ".yaml"@)
                &&& item@.updated is Some
            }
            &&& res matches Err(error) ==> if inner[0] == '<' {
                &&& error is Html
                &&& error->Html_0@.len() <= 200
                &&& error->Html_0@.len() == (if inner.len() < 200 { inner.len() } else { 200 })
                &&& forall|i: int|
                    0 <= i < error->Html_0@.len() ==> #[trigger] error->Html_0@[i] == inner[i]
            } else {
                error is NotClash
            }
        }),
{
    lemma_judged(body@, inner);
}

/// A blank response is refused as empty.
pub proof fn from_url_refuses_a_blank_response(
    url: &str,
    name: &str,
    body: String,
    res: Result<PrfItem, SubscriptionError>,
)
    requires
        call_ensures(from_url::from_url, (url, name, body), res),
    ensures
        laws::text::blank(body@) <==> res matches Err(SubscriptionError::Empty),
{
    laws::from_url::only_blanks_and_pages_are_refused_unread(body@);
}

/// The UID of a new profile is `R` and the digits of a UUID that was drawn for it, and its time is
/// one that was read from the clock.
pub proof fn from_url_draws_a_uid_and_reads_the_clock(
    url: &str,
    name: &str,
    body: String,
    res: Result<PrfItem, SubscriptionError>,
)
    requires
        call_ensures(from_url::from_url, (url, name, body), res),
    ensures
        res matches Ok(item) ==> {
            &&& item@.uid is Some && item@.uid->0.len() == 33 && item@.uid->0[0] == 'R'
            &&& exists|uuid: String|
                #[trigger] from_url::is_drawn(uuid) && item@.uid == Some(
                    from_url::profile_uid(uuid@),
                )
            &&& exists|now: i64|
                #[trigger] from_url::is_clock_time(now) && item@.updated == Some(now as usize)
        },
{
}

/// What is kept of a response is the response, where it is a mapping, or what it decodes to.
pub proof fn subscription_body_keeps_the_configuration(
    body: String,
    inner: Seq<char>,
    res: Result<String, SubscriptionError>,
)
    requires
        call_ensures(from_url::subscription_body, (body,), res),
        holds(body@, inner),
    ensures
        ({
            let decoded = outside::base64_bytes(inner);
            let mapping = outside::yaml_keys(body@) is Some;
            &&& res is Ok <==> inner[0] != '<' && (mapping || encode_a_mapping(decoded))
            &&& res matches Ok(kept) ==> kept@ == if mapping {
                body@
            } else {
                decode_utf8(decoded->0)
            }
        }),
{
    lemma_judged(body@, inner);
}

/// A response passes unread if and only if it is not blank and does not start with `<`, however
/// long it is.
pub proof fn check_response_refuses_blanks_and_pages_only(
    body: &str,
    res: Result<(), SubscriptionError>,
)
    requires
        call_ensures(from_url::check_response, (body,), res),
    ensures
        (res matches Err(SubscriptionError::Empty)) <==> laws::text::blank(body@),
        forall|inner: Seq<char>| #[trigger]
            holds(body@, inner) ==> {
                &&& res is Ok <==> inner[0] != '<'
                &&& (res matches Err(SubscriptionError::Html(_))) <==> inner[0] == '<'
            },
{
    laws::from_url::only_blanks_and_pages_are_refused_unread(body@);
    assert forall|inner: Seq<char>| #[trigger] holds(body@, inner) implies {
        &&& res is Ok <==> inner[0] != '<'
        &&& (res matches Err(SubscriptionError::Html(_))) <==> inner[0] == '<'
    } by {
        lemma_judged(body@, inner);
    }
}

/// Decoded bytes give their text if and only if they are UTF-8.
pub proof fn decoded_text_reads_utf8(bytes: Option<Vec<u8>>, res: Option<String>)
    requires
        call_ensures(from_url::decoded_text, (bytes,), res),
    ensures
        res is Some <==> bytes is Some && valid_utf8(bytes->0@),
        res is Some ==> res->0@ == decode_utf8(bytes->0@),
{
}

/// A mapping is chosen before what it holds encoded, and that before a refusal.
pub proof fn choose_body_prefers_the_response(
    body: String,
    mapping: bool,
    legacy: Option<String>,
    res: Result<String, SubscriptionError>,
)
    requires
        call_ensures(from_url::choose_body, (body, mapping, legacy), res),
    ensures
        mapping ==> res is Ok && res->Ok_0@ == body@,
        !mapping && legacy is Some ==> res is Ok && res->Ok_0@ == legacy->0@,
        !mapping && legacy is None ==> res matches Err(SubscriptionError::NotClash),
{
}

/// The profile is made of what was given: address, name, configuration, UUID and time.
pub proof fn profile_item_holds_what_was_given(
    url: &str,
    name: &str,
    body: String,
    uuid: &str,
    now: i64,
    res: PrfItem,
)
    requires
        call_ensures(from_url::profile_item, (url, name, body, uuid, now), res),
    ensures
        res@.url == Some(url@),
        res@.name == Some(name@),
        res@.file_data == Some(body@),
        res@.itype == Some("remote"@),
        res@.updated == Some(now as usize),
        res@.uid is Some,
        res@.file == Some(res@.uid->0 + ".yaml"@),
        outside::is_hyphenated_uuid(uuid@) ==> res@.uid->0 == seq!['R'] + uuid@.subrange(0, 8)
            + uuid@.subrange(9, 13) + uuid@.subrange(14, 18) + uuid@.subrange(19, 23)
            + uuid@.subrange(24, 36),
        !uuid@.contains('-') ==> res@.uid->0 == seq!['R'] + uuid@,
{
    if outside::is_hyphenated_uuid(uuid@) {
        laws::from_url::uid_is_the_groups_of_the_uuid(uuid@);
    }
    laws::from_url::uid_drops_hyphens_and_nothing_else(uuid@, Seq::empty());
}

/// A text is accepted if and only if it is a mapping with `proxies` or `proxy-providers`.
pub proof fn validate_clash_yaml_wants_proxies_or_providers(
    text: &str,
    res: Result<(), SubscriptionError>,
)
    requires
        call_ensures(from_url::validate_clash_yaml, (text,), res),
    ensures
        ({
            let keys = outside::yaml_keys(text@);
            &&& res is Ok <==> keys is Some && (keys->0.contains("proxies"@) || keys->0.contains(
                "proxy-providers"@,
            ))
            &&& (res matches Err(SubscriptionError::NotClash)) <==> keys is None
            &&& (res matches Err(SubscriptionError::NoProxies)) <==> keys is Some
                && !keys->0.contains("proxies"@) && !keys->0.contains("proxy-providers"@)
        }),
{
}

/// One of the two keys is enough.
pub proof fn judge_keys_wants_one_of_two(
    found: Option<(bool, bool)>,
    res: Result<(), SubscriptionError>,
)
    requires
        call_ensures(from_url::judge_keys, (found,), res),
    ensures
        res is Ok <==> found is Some && ((found->0).0 || (found->0).1),
        (res matches Err(SubscriptionError::NotClash)) <==> found is None,
        (res matches Err(SubscriptionError::NoProxies)) <==> found is Some && !(found->0).0
            && !(found->0).1,
{
}

/// A report reads back as it was written, under either name of its header.
pub proof fn userinfo_reads_back(headers: &Headers, report: PrfExtra, res: Option<PrfExtra>)
    requires
        call_ensures(from_url::parse_subscription_userinfo, (headers,), res),
    ensures
        ({
            let own = "subscription-userinfo"@;
            let stored = "x-amz-meta-subscription-userinfo"@;
            let info = laws::from_url::written_report(report);
            &&& headers@.contains_key(own) && headers@[own] == info ==> res == Some(report)
            &&& !headers@.contains_key(own) && headers@.contains_key(stored) && headers@[stored]
                == info ==> res == Some(report)
            &&& res is None <==> !headers@.contains_key(own) && !headers@.contains_key(stored)
        }),
{
    laws::from_url::report_reads_back(report);
}

/// Every number of a report is found under its word.
pub proof fn field_number_is_found(
    info: &str,
    key: &str,
    word: Seq<char>,
    value: Seq<char>,
    res: Option<u64>,
)
    requires
        call_ensures(from_url::find_field_number, (info, key), res),
        !word.contains('='),
        !word.contains(';'),
        !value.contains(';'),
        laws::text::unpadded(word + seq!['='] + value),
        info@ == word + seq!['='] + value,
    ensures
        res == if key@ == word {
            text::parsed_u64(value)
        } else {
            None
        },
{
    let none = Seq::<char>::empty();
    let entry = word + seq!['='] + value;
    assert(!seq!['='].contains(';'));
    laws::text::lemma_lacks_both(word, seq!['='], ';');
    laws::text::lemma_lacks_both(word + seq!['='], value, ';');
    laws::from_url::first_entry_with_a_number_counts(none, entry, none, none, key@);
    laws::from_url::entry_speaks_of_its_word(word, value, key@);
    assert(none + entry + none =~= entry);
}

/// An address is read as its parts. Where it has no query and its path holds an `&`, what stands
/// behind the first one becomes the query.
pub proof fn fix_dirty_url_reads_every_address(
    input: &str,
    scheme: Seq<char>,
    authority: Seq<char>,
    path: Seq<char>,
    query: Option<Seq<char>>,
    fragment: Option<Seq<char>>,
    res: Result<SubscriptionUrl, String>,
)
    requires
        call_ensures(url::fix_dirty_url, (input,), res),
        laws::url::well_formed(scheme, authority, path, query),
        input@ == laws::url::address(scheme, authority, path, query, fragment),
    ensures
        res is Ok,
        res->Ok_0@.origin == scheme + seq![':', '/', '/'] + authority,
        res->Ok_0@.fragment == fragment,
        query is Some || !path.contains('&') ==> res->Ok_0@.path == path && res->Ok_0@.query
            == query,
        forall|front: Seq<char>, glued: Seq<char>|
            query is None && !front.contains('&') && path == #[trigger] (front + seq!['&'] + glued)
                ==> res->Ok_0@.path == front && res->Ok_0@.query == Some(glued),
{
    let origin = scheme + seq![':', '/', '/'] + authority;
    laws::url::address_reads_as_its_parts(scheme, authority, path, query, fragment);
    if query is Some || !path.contains('&') {
        laws::url::other_addresses_stay(origin, path, query, fragment);
    }
    assert forall|front: Seq<char>, glued: Seq<char>|
        query is None && !front.contains('&') && path == #[trigger] (front + seq!['&'] + glued) implies
        res->Ok_0@.path == front && res->Ok_0@.query == Some(glued) by {
        laws::url::glued_query_is_moved(origin, front, glued, fragment);
    }
}

/// What is not refused is an address with a scheme and an authority.
pub proof fn fix_dirty_url_reads_only_addresses(
    input: &str,
    res: Result<SubscriptionUrl, String>,
)
    requires
        call_ensures(url::fix_dirty_url, (input,), res),
    ensures
        res is Ok ==> exists|
            scheme: Seq<char>,
            authority: Seq<char>,
            path: Seq<char>,
            query: Option<Seq<char>>,
            fragment: Option<Seq<char>>,
        |
            laws::url::well_formed(scheme, authority, path, query) && input@
                == #[trigger] laws::url::address(scheme, authority, path, query, fragment),
        res is Err ==> res->Err_0@ == "relative URL without a base"@,
{
    if res is Ok {
        let parts = url::url_parts(input@)->0;
        let found = laws::url::what_is_read_is_an_address(input@);
        assert(input@ == laws::url::address(
            found.0,
            found.1,
            parts.path,
            parts.query,
            parts.fragment,
        ));
    }
}

/// An address is written out with each of its parts in place.
pub proof fn to_text_writes_every_part(given: &SubscriptionUrl, res: String)
    requires
        call_ensures(SubscriptionUrl::to_text, (given,), res),
    ensures
        ({
            let main = if given.query is Some {
                given.origin@ + given.path@ + seq!['?'] + given.query->0@
            } else {
                given.origin@ + given.path@
            };
            res@ == if given.fragment is Some {
                main + seq!['#'] + given.fragment->0@
            } else {
                main
            }
        }),
{
    let main = if given.query is Some {
        given.origin@ + given.path@ + seq!['?'] + given.query->0@
    } else {
        given.origin@ + given.path@
    };
    let all = if given.fragment is Some {
        main + seq!['#'] + given.fragment->0@
    } else {
        main
    };
    assert(res@ =~= all);
}

/// Profiles are updated without being asked for unless their options forbid it.
pub proof fn auto_update_is_on_unless_forbidden(option: Option<&PrfOption>, res: bool)
    requires
        call_ensures(fallback::allow_auto_update_enabled, (option,), res),
    ensures
        option is None ==> res,
        option is Some && option->0.allow_auto_update is None ==> res,
        option is Some && option->0.allow_auto_update is Some ==> res
            == option->0.allow_auto_update->0,
{
}

/// The attempt keeps its way of fetching; the caller's interval and flag win where they are set.
pub proof fn merge_import_option_keeps_the_way_of_fetching(
    base: &PrfOption,
    user: Option<&PrfOption>,
    res: PrfOption,
)
    requires
        call_ensures(fallback::merge_import_option, (base, user), res),
    ensures
        res.with_proxy == base.with_proxy,
        res.self_proxy == base.self_proxy,
        user is None ==> res == *base,
        user is Some ==> res.update_interval == if user->0.update_interval is Some {
            user->0.update_interval
        } else {
            base.update_interval
        },
        user is Some ==> res.allow_auto_update == if user->0.allow_auto_update is Some {
            user->0.allow_auto_update
        } else {
            base.allow_auto_update
        },
{
}

/// An import names three calls with the given address and name: by the system proxy, by the
/// client's own proxy, and with no way set; each with the caller's interval and flag.
pub proof fn import_with_fallback_names_three_calls(
    url: &str,
    name: Option<&str>,
    user: Option<&PrfOption>,
    res: Fallback,
)
    requires
        call_ensures(fallback::import_with_fallback, (url, name, user), res),
    ensures
        res@.len() == 3,
        res@[0].option.with_proxy == Some(true) && res@[0].option.self_proxy == Some(false),
        res@[1].option.with_proxy == Some(false) && res@[1].option.self_proxy == Some(true),
        res@[2].option.with_proxy is None && res@[2].option.self_proxy is None,
        forall|i: int|
            0 <= i < 3 ==> {
                &&& (#[trigger] res@[i]).url == url@
                &&& name is Some ==> res@[i].name == Some(name->0@)
                &&& name is None ==> res@[i].name is None
                &&& res@[i].desc is None
                &&& user is Some ==> res@[i].option.update_interval == user->0.update_interval
                &&& user is None ==> res@[i].option.update_interval is None
                &&& user is Some ==> res@[i].option.allow_auto_update == user->0.allow_auto_update
                &&& user is None ==> res@[i].option.allow_auto_update is None
            },
{
}

/// An update names three calls with the given address: with the options as they are, by the
/// client's own proxy, and by the system proxy.
pub proof fn update_with_fallback_names_three_calls(
    url: &str,
    option: Option<&PrfOption>,
    res: Fallback,
)
    requires
        call_ensures(fallback::update_with_fallback, (url, option), res),
    ensures
        res@.len() == 3,
        option is Some ==> res@[0].option == *option->0,
        option is None ==> res@[0].option.with_proxy is None && res@[0].option.self_proxy is None,
        res@[1].option.with_proxy == Some(false) && res@[1].option.self_proxy == Some(true),
        res@[2].option.with_proxy == Some(true) && res@[2].option.self_proxy == Some(false),
        forall|i: int|
            0 <= i < 3 ==> {
                &&& (#[trigger] res@[i]).url == url@
                &&& res@[i].name is None
                &&& res@[i].desc is None
                &&& option is Some ==> res@[i].option.update_interval == option->0.update_interval
                &&& option is None ==> res@[i].option.update_interval is None
                &&& option is Some ==> res@[i].option.allow_auto_update
                    == option->0.allow_auto_update
                &&& option is None ==> res@[i].option.allow_auto_update is None
            },
{
}

/// A success is the outcome at once; a failure leads to the calls that are left, and is the
/// outcome where none is.
pub proof fn record_ends_with_a_success_or_the_last_failure<T, E>(
    given: Fallback,
    outcome: Result<T, E>,
    res: FallbackStep<T, E>,
)
    requires
        call_ensures(Fallback::record::<T, E>, (given, outcome), res),
    ensures
        outcome is Ok || given@.len() == 1 ==> res == FallbackStep::<T, E>::Finished(outcome),
        outcome is Err && given@.len() > 1 ==> {
            &&& res is Try
            &&& res->Try_0@.len() == given@.len() - 1
            &&& forall|i: int|
                0 <= i < res->Try_0@.len() ==> #[trigger] res->Try_0@[i] == given@[i + 1]
        },
{
}

/// Options are merged field by field, and those that are alone are taken as they are.
pub proof fn merge_lets_the_other_win(
    one: Option<&PrfOption>,
    other: Option<&PrfOption>,
    res: Option<PrfOption>,
)
    requires
        call_ensures(PrfOption::merge, (one, other), res),
    ensures
        res is None <==> one is None && other is None,
        one is Some && other is None ==> res->0 == *one->0,
        one is None && other is Some ==> res->0 == *other->0,
        one is Some && other is Some ==> {
            let (a, b, m) = (*one->0, *other->0, res->0);
            &&& m.with_proxy == if b.with_proxy is Some { b.with_proxy } else { a.with_proxy }
            &&& m.self_proxy == if b.self_proxy is Some { b.self_proxy } else { a.self_proxy }
            &&& m.update_interval == if b.update_interval is Some {
                b.update_interval
            } else {
                a.update_interval
            }
            &&& m.allow_auto_update == if b.allow_auto_update is Some {
                b.allow_auto_update
            } else {
                a.allow_auto_update
            }
        },
{
}

/// The profiles of a store, in order.
pub open spec fn profiles_of(given: &ProfileStore) -> Seq<profile::ItemModel> {
    laws::update::list_of(given@)
}

/// The listed profiles are those of the list whose kind is exactly `remote`, in their order.
pub proof fn items_lists_the_remote_profiles(given: &ProfileStore, res: Vec<PrfItem>)
    requires
        call_ensures(ProfileStore::items, (given,), res),
    ensures
        profile::models(res@) == laws::profile::profiles(
            given@.current,
            profiles_of(given),
        ).remotes(),
        forall|i: int| 0 <= i < res@.len() ==> (#[trigger] res@[i])@.itype == Some("remote"@),
        forall|item: profile::ItemModel|
            #![trigger profiles_of(given).contains(item)]
            #![trigger profile::models(res@).contains(item)]
            profile::models(res@).contains(item) <==> profiles_of(given).contains(item)
                && item.itype == Some("remote"@),
{
    let list = profiles_of(given);
    laws::profile::missing_list_is_empty(given@.current, list);
    assert(given@.items is Some ==> given@ == laws::profile::profiles(given@.current, list));
    assert(given@.all() == list);
    assert(given@.remotes() == laws::profile::profiles(given@.current, list).remotes());
    assert forall|item: profile::ItemModel|
        profile::models(res@).contains(item) <==> list.contains(item) && item.itype == Some(
            "remote"@,
        ) by {
        laws::profile::listed_profiles_are_the_remote_ones(given@.current, list, item);
    }
    assert forall|i: int| 0 <= i < res@.len() implies (#[trigger] res@[i])@.itype == Some(
        "remote"@,
    ) by {
        assert(profile::models(res@)[i] == res@[i]@);
        assert(profile::models(res@).contains(res@[i]@));
    }
}

/// Every profile of the list is among all of them, in its place.
pub proof fn all_items_lists_every_profile(given: &ProfileStore, res: Vec<PrfItem>)
    requires
        call_ensures(ProfileStore::all_items, (given,), res),
    ensures
        res@.len() == profiles_of(given).len(),
        forall|i: int| 0 <= i < res@.len() ==> (#[trigger] res@[i])@ == profiles_of(given)[i],
{
    assert forall|i: int| 0 <= i < res@.len() implies (#[trigger] res@[i])@ == profiles_of(
        given,
    )[i] by {
        assert(profile::models(res@)[i] == res@[i]@);
    }
    assert(profile::models(res@).len() == res@.len());
}

/// The selected index is that of the profile in use among the listed ones: the first with its UID,
/// and 0 where there is none.
pub proof fn selected_index_is_that_of_the_profile_in_use(
    given: &ProfileStore,
    listed: Vec<PrfItem>,
    res: usize,
    at: int,
)
    requires
        call_ensures(ProfileStore::selected_index, (given,), res),
        call_ensures(ProfileStore::items, (given,), listed),
    ensures
        given@.current is None ==> res == 0,
        given@.current is Some && laws::update::unknown(
            profile::models(listed@),
            given@.current->0,
        ) ==> res == 0,
        given@.current is Some && laws::update::first_with_uid(
            profile::models(listed@),
            given@.current->0,
            at,
        ) ==> res == at,
{
    if given@.current is Some {
        let uid = given@.current->0;
        let list = profile::models(listed@);
        profile::lemma_position_of(list, uid);
        if laws::update::first_with_uid(list, uid, at) {
            profile::lemma_position_of_unique(list, uid, at as nat);
        }
    }
}

/// The UID in use is answered as it is.
pub proof fn current_uid_is_that_in_use(given: &ProfileStore, res: Option<String>)
    requires
        call_ensures(ProfileStore::current_uid, (given,), res),
    ensures
        given.profiles.current is None <==> res is None,
        res is Some ==> res->0@ == given.profiles.current->0@,
{
}

/// The patch of a switch changes the UID in use to the given one and leaves the list alone.
pub proof fn set_current_installs_the_uid(given: &ProfileStore, uid: &str, res: SwitchStep)
    requires
        call_ensures(ProfileStore::set_current, (given, uid), res),
    ensures
        res@ == (store::SwitchModel::Install {
            patch: profile::ProfilesModel { current: Some(uid@), items: None },
            previous: None,
        }),
{
}

/// A switch installs its UID and keeps the one that was in use for the answer.
pub proof fn replace_current_keeps_the_old_for_the_answer(
    given: &ProfileStore,
    uid: &str,
    res: SwitchStep,
)
    requires
        call_ensures(ProfileStore::replace_current_locked, (given, uid), res),
    ensures
        res@ == (store::SwitchModel::Install {
            patch: profile::ProfilesModel { current: Some(uid@), items: None },
            previous: given@.current,
        }),
{
}

/// The predecessor is put back if and only if there is one and the expected UID is in use.
pub proof fn restore_current_puts_the_old_back_for_its_own_switch(
    given: &ProfileStore,
    expected: &str,
    previous: Option<&str>,
    res: SwitchStep,
)
    requires
        call_ensures(ProfileStore::restore_current_if_matches, (given, expected, previous), res),
    ensures
        previous is Some && given@.current == Some(expected@) ==> res@ == (
        store::SwitchModel::Install {
            patch: profile::ProfilesModel { current: Some(previous->0@), items: None },
            previous: None,
        }),
        previous is None || given@.current != Some(expected@) ==> res@ == store::SwitchModel::Done(
            Ok(None),
        ),
{
}

/// A switch is done when it is saved, with the kept UID as its answer, or fails with the cause.
pub proof fn saved_ends_the_switch(given: SwitchStep, outcome: Result<(), String>, res: SwitchStep)
    requires
        call_ensures(SwitchStep::saved, (given, outcome), res),
    ensures
        given@ matches store::SwitchModel::Install { previous, .. } ==> res@
            == store::SwitchModel::Done(
            if outcome is Ok {
                Ok(previous)
            } else {
                Err(store::StoreErrorModel::SaveCurrentFailed(outcome->Err_0@))
            },
        ),
        given@ is Done ==> res@ == given@,
{
}

/// A profile that is appended first needs storage.
pub proof fn append_starts_with_storage(given: &ProfileStore, item: PrfItem, res: ImportStep)
    requires
        call_ensures(ProfileStore::append, (given, item), res),
    ensures
        res@ == store::ImportModel::EnsureStorage(item@),
{
}

/// An import fetches its address, and names the profile as asked or after the address.
pub proof fn import_url_fetches_the_address(
    given: &ProfileStore,
    url: &str,
    name: Option<&str>,
    res: ImportStep,
)
    requires
        call_ensures(ProfileStore::import_url, (given, url, name), res),
    ensures
        name is Some ==> res@ == (store::ImportModel::Fetch { url: url@, name: name->0@ }),
        name is None ==> res@ == (store::ImportModel::Fetch { url: url@, name: url@ }),
{
}

/// The profile that was fetched is the one to store, and a failure to fetch ends the import.
pub proof fn fetched_hands_on_the_profile(
    given: ImportStep,
    outcome: Result<PrfItem, String>,
    res: ImportStep,
)
    requires
        call_ensures(ImportStep::fetched, (given, outcome), res),
    ensures
        given@ is Fetch && outcome is Ok ==> res@ == store::ImportModel::EnsureStorage(
            outcome->Ok_0@,
        ),
        given@ is Fetch && outcome is Err ==> res@ == store::ImportModel::Done(
            Err(store::StoreErrorModel::FromUrl(outcome->Err_0@)),
        ),
        !(given@ is Fetch) ==> res@ == given@,
{
}

/// Storage, list and file follow one another for the same profile, and the first failure ends the
/// import.
pub proof fn finished_leads_to_the_next_work(
    given: ImportStep,
    outcome: Result<(), String>,
    res: ImportStep,
)
    requires
        call_ensures(ImportStep::finished, (given, outcome), res),
    ensures
        given@ matches store::ImportModel::EnsureStorage(item) ==> res@ == if outcome is Ok {
            store::ImportModel::AppendItem(item)
        } else {
            store::ImportModel::Done(Err(store::StoreErrorModel::Storage(outcome->Err_0@)))
        },
        given@ matches store::ImportModel::AppendItem(item) ==> res@ == if outcome is Ok {
            store::ImportModel::Save(item)
        } else {
            store::ImportModel::Done(Err(store::StoreErrorModel::AppendFailed(outcome->Err_0@)))
        },
        given@ matches store::ImportModel::Save(item) ==> res@ == store::ImportModel::Done(
            if outcome is Ok {
                Ok(item)
            } else {
                Err(store::StoreErrorModel::SaveFailed(outcome->Err_0@))
            },
        ),
        given@ is Fetch || given@ is Done ==> res@ == given@,
{
}

/// An update fetches the address of the first profile with the UID if it is a subscription and has
/// one, whatever else it holds, and otherwise says what is wrong.
pub proof fn update_remote_fetches_the_stored_address(
    given: &ProfileStore,
    uid: &str,
    option_override: Option<&PrfOption>,
    res: UpdateStep,
)
    requires
        call_ensures(ProfileStore::update_remote, (given, uid, option_override), res),
    ensures
        (res matches UpdateStep::Done(Err(StoreError::NotFound))) <==> laws::update::unknown(
            profiles_of(given),
            uid@,
        ),
        forall|at: int| #[trigger]
            laws::update::first_with_uid(profiles_of(given), uid@, at) ==> {
                let item = profiles_of(given)[at];
                res@ == if item.itype != Some("remote"@) {
                    update::UpdateModel::Done(Err(store::StoreErrorModel::NotRemote(uid@)))
                } else if item.url is None {
                    update::UpdateModel::Done(Err(store::StoreErrorModel::MissingUrl))
                } else {
                    update::UpdateModel::Fetch { uid: uid@, url: item.url->0 }
                }
            },
{
    laws::update::unknown_profile_is_not_updated(given@, uid@);
    assert forall|at: int| #[trigger]
        laws::update::first_with_uid(profiles_of(given), uid@, at) implies {
        let item = profiles_of(given)[at];
        res@ == if item.itype != Some("remote"@) {
            update::UpdateModel::Done(Err(store::StoreErrorModel::NotRemote(uid@)))
        } else if item.url is None {
            update::UpdateModel::Done(Err(store::StoreErrorModel::MissingUrl))
        } else {
            update::UpdateModel::Fetch { uid: uid@, url: item.url->0 }
        }
    } by {
        laws::update::update_fetches_the_address(given@, uid@, at);
    }
}

/// The fetched profile is written over the one with the UID and keeps that UID; the update ends
/// with whether that UID is in use, or with what failed.
pub proof fn resume_update_writes_what_was_fetched(
    given: &ProfileStore,
    step: UpdateStep,
    event: UpdateEvent,
    res: UpdateStep,
)
    requires
        call_ensures(ProfileStore::resume_update, (given, step, event), res),
    ensures
        step@ matches update::UpdateModel::Fetch { uid, url } ==> event@ matches
            update::EventModel::Fetched(fetched) ==> res@ == if fetched is Ok {
            update::UpdateModel::UpdateItem {
                uid,
                item: profile::ItemModel { uid: Some(uid), ..fetched->Ok_0 },
                is_current: given@.current == Some(uid),
            }
        } else {
            update::UpdateModel::Done(Err(store::StoreErrorModel::FromUrl(fetched->Err_0)))
        },
        step@ matches update::UpdateModel::UpdateItem { is_current, .. } ==> event@ matches
            update::EventModel::Updated(written) ==> res@ == update::UpdateModel::Done(
            if written is Ok {
                Ok(is_current)
            } else {
                Err(store::StoreErrorModel::UpdateFailed(written->Err_0))
            },
        ),
        step@ is Done ==> res@ == step@,
        step@ is Fetch && event@ is Updated ==> res@ == step@,
        step@ is UpdateItem && event@ is Fetched ==> res@ == step@,
{
}

/// The first UID of a row is fetched at once where it can be, and the others wait for their turn.
pub proof fn update_remotes_starts_with_the_first_uid(
    given: &ProfileStore,
    uids: &[String],
    at: int,
    res: BatchStep,
)
    requires
        call_ensures(ProfileStore::update_remotes_locked, (given, uids), res),
        uids@.len() > 0,
        laws::update::first_with_uid(profiles_of(given), uids@[0]@, at),
        profiles_of(given)[at].itype == Some("remote"@),
        profiles_of(given)[at].url is Some,
    ensures
        res@ == (update::BatchModel::Running {
            done: Seq::empty(),
            uid: uids@[0]@,
            step: update::UpdateModel::Fetch {
                uid: uids@[0]@,
                url: profiles_of(given)[at].url->0,
            },
            rest: text::texts(uids@).drop_first(),
        }),
{
    let all = text::texts(uids@);
    let first = uids@[0]@;
    laws::text::views_of_text_are_the_text(uids@[0], uids@);
    assert(all[0] == first);
    assert(all =~= seq![first] + all.drop_first());
    laws::update::every_subscription_is_fetched_at_its_turn(
        given@,
        Seq::empty(),
        first,
        all.drop_first(),
        at,
    );
}

/// A row over given UIDs is about those UIDs, and a row over all subscriptions is about theirs.
pub proof fn rows_are_about_their_uids(
    given: &ProfileStore,
    uids: &[String],
    some: BatchStep,
    all: BatchStep,
)
    requires
        call_ensures(ProfileStore::update_remotes_locked, (given, uids), some),
        call_ensures(ProfileStore::update_all_remote, (given,), all),
    ensures
        update::batch_uids(some@).len() == uids@.len(),
        forall|i: int|
            0 <= i < uids@.len() ==> #[trigger] update::batch_uids(some@)[i] == uids@[i]@,
        text::texts(uids@) == update::remote_uids(given@) ==> all@ == some@,
        update::batch_uids(all@) == update::remote_uids(given@),
{
    laws::text::views_of_text_are_the_text(arbitrary(), uids@);
    laws::update::row_is_about_its_uids(given@, text::texts(uids@));
    laws::update::row_is_about_its_uids(given@, update::remote_uids(given@));
}

/// Whatever an event reports, the row notes the outcome when the update under way ends, and the
/// next subscription in it is fetched.
pub proof fn resume_batch_goes_on_after_failures(
    given: &ProfileStore,
    batch: Batch,
    event: UpdateEvent,
    at: int,
    res: BatchStep,
)
    requires
        call_ensures(ProfileStore::resume_batch, (given, batch, event), res),
        (batch.step@ is Fetch && (event@ matches update::EventModel::Fetched(Err(_)))) || (
        batch.step@ is UpdateItem && event@ is Updated),
        batch.rest@.len() > 0,
        laws::update::first_with_uid(profiles_of(given), batch.rest@[0]@, at),
        profiles_of(given)[at].itype == Some("remote"@),
        profiles_of(given)[at].url is Some,
    ensures
        res@ matches update::BatchModel::Running { done, uid, step, rest } && {
            &&& uid == batch.rest@[0]@
            &&& step == (update::UpdateModel::Fetch { uid, url: profiles_of(given)[at].url->0 })
            &&& rest == text::texts(batch.rest@).drop_first()
            &&& done.len() == batch.done@.len() + 1
            &&& forall|i: int|
                0 <= i < batch.done@.len() ==> #[trigger] done[i] == batch.done@[i]@
            &&& done.last().uid == batch.uid@
            &&& event@ matches update::EventModel::Fetched(Err(report)) ==> done.last().result
                == Err::<bool, store::StoreErrorModel>(store::StoreErrorModel::FromUrl(report))
            &&& event@ matches update::EventModel::Updated(Err(cause)) ==> done.last().result
                == Err::<bool, store::StoreErrorModel>(store::StoreErrorModel::UpdateFailed(cause))
            &&& event@ matches update::EventModel::Updated(Ok(_)) ==> done.last().result == Ok::<
                bool,
                store::StoreErrorModel,
            >(batch.step@->is_current)
        },
{
    let all = text::texts(batch.rest@);
    let first = batch.rest@[0]@;
    laws::text::views_of_text_are_the_text(batch.uid, batch.rest@);
    assert(all[0] == first);
    assert(all =~= seq![first] + all.drop_first());
    let result = update::next_step(given@, batch.step@, event@)->Done_0;
    let done = update::outcomes(batch.done@).push(
        update::OutcomeModel { uid: batch.uid@, result },
    );
    laws::update::every_subscription_is_fetched_at_its_turn(
        given@,
        done,
        first,
        all.drop_first(),
        at,
    );
}

/// Every outcome is in one of the two reports, with its UID: with its flag, or in words.
pub proof fn update_report_parts_good_from_bad(
    list: &Vec<UpdateOutcome>,
    res: (Vec<(String, bool)>, Vec<(String, String)>),
)
    requires
        call_ensures(update::update_report, (list,), res),
    ensures
        update::flags(res.0@) == update::succeeded(update::outcomes(list@)),
        update::reports(res.1@) == update::failed(update::outcomes(list@)),
        res.0@.len() + res.1@.len() == list@.len(),
        res.1@.len() == 0 <==> forall|i: int|
            0 <= i < list@.len() ==> (#[trigger] list@[i]).result is Ok,
{
    let all = update::outcomes(list@);
    update::every_outcome_is_reported_once(all);
    laws::update::failures_are_reported_if_there_are_any(all);
    assert(update::flags(res.0@).len() == res.0@.len());
    assert(update::reports(res.1@).len() == res.1@.len());
    assert forall|i: int| 0 <= i < list@.len() implies ((#[trigger] list@[i]).result is Ok <==> all[i].result is Ok) by {
    }
    if forall|i: int| 0 <= i < list@.len() ==> (#[trigger] list@[i]).result is Ok {
        assert forall|i: int| 0 <= i < all.len() implies (#[trigger] all[i]).result is Ok by {
            assert(list@[i].result is Ok);
        }
    }
    if forall|i: int| 0 <= i < all.len() ==> (#[trigger] all[i]).result is Ok {
        assert forall|i: int| 0 <= i < list@.len() implies (#[trigger] list@[i]).result is Ok by {
            assert(all[i].result is Ok);
        }
    }
}

/// All updates count as done if and only if none failed; else every failure is told, with its UID,
/// one behind the other.
pub proof fn refreshed_current_tells_every_failure(
    list: &Vec<UpdateOutcome>,
    res: Result<Vec<String>, StoreError>,
)
    requires
        call_ensures(update::refreshed_current, (list,), res),
    ensures
        res is Ok <==> forall|i: int|
            0 <= i < update::outcomes(list@).len() ==> (#[trigger] update::outcomes(
                list@,
            )[i]).result is Ok,
        res matches Ok(uids) ==> text::texts(uids@) == update::refreshed(update::outcomes(list@)),
        res matches Err(error) ==> error@ == store::StoreErrorModel::UpdatesFailed(
            text::joined(update::failure_lines(update::outcomes(list@)), seq![';', ' ']),
        ),
{
    laws::update::failures_are_reported_if_there_are_any(update::outcomes(list@));
    reveal_strlit("; ");
    assert("; "@ =~= seq![';', ' ']);
}

/// A row starts without outcomes and goes on from the store as it stands, whatever the event.
pub proof fn rows_start_and_go_on_from_the_store(
    given: &ProfileStore,
    uids: &[String],
    some: BatchStep,
    all: BatchStep,
    batch: Batch,
    event: UpdateEvent,
    next: BatchStep,
)
    requires
        call_ensures(ProfileStore::update_remotes_locked, (given, uids), some),
        call_ensures(ProfileStore::update_all_remote, (given,), all),
        call_ensures(ProfileStore::resume_batch, (given, batch, event), next),
    ensures
        some@ == update::advanced(given@, Seq::empty(), text::texts(uids@)),
        all@ == update::advanced(given@, Seq::empty(), update::remote_uids(given@)),
        next@ == update::batch_next(given@, batch@, event@),
        batch.rest@.len() == 0 && batch.step@ is Fetch ==> (event@ matches
            update::EventModel::Fetched(Err(report)) ==> next@ == update::BatchModel::Finished(
            update::outcomes(batch.done@).push(
                update::OutcomeModel {
                    uid: batch.uid@,
                    result: Err(store::StoreErrorModel::FromUrl(report)),
                },
            ),
        )),
{
    laws::text::views_of_text_are_the_text(batch.uid, batch.rest@);
}

/// The first profile with a UID is found, and none where no profile has it.
pub proof fn get_item_finds_the_first(
    given: &profile::IProfiles,
    uid: &str,
    at: int,
    res: Option<&PrfItem>,
)
    requires
        call_ensures(profile::IProfiles::get_item, (given, uid), res),
    ensures
        res is None <==> laws::update::unknown(laws::update::list_of(given@), uid@),
        laws::update::first_with_uid(laws::update::list_of(given@), uid@, at) ==> res is Some
            && res->0@ == laws::update::list_of(given@)[at],
{
    let list = laws::update::list_of(given@);
    assert(given@.all() == list);
    laws::profile::unknown_uid_is_not_found(list, uid@);
    if laws::update::first_with_uid(list, uid@, at) {
        profile::lemma_position_of_unique(list, uid@, at as nat);
    }
}

/// A profile is a subscription if and only if its kind is exactly `remote`.
pub proof fn is_remote_goes_by_the_kind(item: &PrfItem, res: bool)
    requires
        call_ensures(PrfItem::is_remote, (item,), res),
    ensures
        res <==> item.itype is Some && item.itype->0@ == "remote"@,
{
}

/// The call to make is the first of those that are left.
pub proof fn call_is_the_first(given: &Fallback, res: &fallback::FromUrlCall)
    requires
        call_ensures(Fallback::call, (given,), res),
    ensures
        given@.len() > 0,
        res.url@ == given@[0].url,
        res.option == given@[0].option,
        res.name is Some ==> given@[0].name == Some(res.name->0@),
        res.name is None ==> given@[0].name is None,
{
}

/// An error of a subscription is told in words of its own, a page with what is quoted of it.
pub proof fn refusal_is_told_in_words(error: &SubscriptionError, res: String)
    requires
        call_ensures(SubscriptionError::message, (error,), res),
    ensures
        error is Empty ==> res@ == "subscription returned an empty response"@,
        error is Html ==> res@
            == "subscription returned HTML (possible 403/block or invalid URL): "@
            + error->Html_0@,
        error is NotClash ==> res@ == "subscription response is not a valid Clash config"@,
        error is NoProxies ==> res@ == "profile does not contain `proxies` or `proxy-providers`"@,
{
}

/// An error of the store is told in words of its own, and what it covers is kept apart.
pub proof fn store_error_is_told_in_words(error: &StoreError, res: String, cause: Option<String>)
    requires
        call_ensures(StoreError::message, (error,), res),
        call_ensures(StoreError::cause, (error,), cause),
    ensures
        error is NotFound ==> res@ == "profile not found"@ && cause is None,
        error is NotRemote ==> res@ == "profile "@ + error->NotRemote_0@
            + " is not a remote subscription"@ && cause is None,
        error is MissingUrl ==> res@ == "remote profile is missing url"@ && cause is None,
        error is FromUrl ==> res@ == error->FromUrl_0@ && cause is None,
        error is Storage ==> res@ == error->Storage_0@ && cause is None,
        error is UpdatesFailed ==> res@ == error->UpdatesFailed_0@ && cause is None,
        error is UpdateFailed ==> res@ == "failed to update remote profile"@ && cause is Some
            && cause->0@ == error->UpdateFailed_0@,
        error is AppendFailed ==> res@ == "failed to append profile"@ && cause is Some && cause->0@
            == error->AppendFailed_0@,
        error is SaveFailed ==> res@ == "failed to save profiles.yaml"@ && cause is Some
            && cause->0@ == error->SaveFailed_0@,
        error is SaveCurrentFailed ==> res@ == "failed to save profiles.yaml after set_current"@
            && cause is Some && cause->0@ == error->SaveCurrentFailed_0@,
{
}

/// Trimming takes the white space around a text off, and nothing else.
pub proof fn trim_takes_off_white_space_only<'a>(s: &'a str, inner: Seq<char>, res: &'a str)
    requires
        call_ensures(text::trim, (s,), res),
    ensures
        holds(s@, inner) ==> res@ == inner,
        res@.len() == 0 <==> laws::text::blank(s@),
{
    laws::text::only_blank_text_trims_to_nothing(s@);
    if holds(s@, inner) {
        lemma_judged(s@, inner);
    }
}

/// Every number that fits reads back from its decimal digits.
pub proof fn parse_u64_reads_numbers_back(s: &str, n: u64, res: Option<u64>)
    requires
        call_ensures(text::parse_u64, (s,), res),
    ensures
        s@ == laws::text::written(n as nat) ==> res == Some(n),
        res is Some ==> s@.len() > 0 && forall|i: int|
            0 <= i < s@.len() ==> '0' <= #[trigger] s@[i] <= '9',
{
    laws::text::number_reads_back(n as nat);
    laws::text::numbers_are_decimal_digits(s@, 0);
}

} // verus!
