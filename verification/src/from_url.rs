//! From the response of a subscription to a profile.

use crate::headers::Headers;
use crate::outside;
use crate::profile;
use crate::profile::{PrfExtra, PrfItem};
use crate::text;
use vstd::prelude::*;
use vstd::string::*;
use vstd::utf8::*;

verus! {

/// How many characters of a page are quoted when it is refused.
pub const PREVIEW_CHARS: usize = 200;

/// Why the response of a subscription is not taken for a profile.
#[derive(Debug, PartialEq, Eq)]
pub enum SubscriptionError {
    /// Nothing but white space came back.
    Empty,
    /// A web page came back; its first characters.
    Html(String),
    /// The response is no YAML mapping, neither as it is nor decoded.
    NotClash,
    /// The mapping names no proxies and no providers of any.
    NoProxies,
}

/// What an error says.
#[verifier::ext_equal]
pub enum RefusalModel {
    Empty,
    Html(Seq<char>),
    NotClash,
    NoProxies,
}

impl View for SubscriptionError {
    type V = RefusalModel;

    open spec fn view(&self) -> RefusalModel {
        match self {
            SubscriptionError::Empty => RefusalModel::Empty,
            SubscriptionError::Html(page) => RefusalModel::Html(page@),
            SubscriptionError::NotClash => RefusalModel::NotClash,
            SubscriptionError::NoProxies => RefusalModel::NoProxies,
        }
    }
}

/// The words in which an error is reported.
pub open spec fn refusal_message(refusal: RefusalModel) -> Seq<char> {
    match refusal {
        RefusalModel::Empty => "subscription returned an empty response"@,
        RefusalModel::Html(page) =>
            "subscription returned HTML (possible 403/block or invalid URL): "@ + page,
        RefusalModel::NotClash => "subscription response is not a valid Clash config"@,
        RefusalModel::NoProxies => "profile does not contain `proxies` or `proxy-providers`"@,
    }
}

impl SubscriptionError {
    /// The error in words.
    pub fn message(&self) -> (res: String)
        ensures
            res@ == refusal_message(self@),
    {
        match self {
            SubscriptionError::Empty => "subscription returned an empty response".to_owned(),
            SubscriptionError::Html(page) => {
                "subscription returned HTML (possible 403/block or invalid URL): ".to_owned().concat(
                    page.as_str(),
                )
            },
            SubscriptionError::NotClash => {
                "subscription response is not a valid Clash config".to_owned()
            },
            SubscriptionError::NoProxies => {
                "profile does not contain `proxies` or `proxy-providers`".to_owned()
            },
        }
    }
}

/// What is wrong with a response that no parser needs to see: nothing came, or a web page.
pub open spec fn response_refusal(body: Seq<char>) -> Option<RefusalModel> {
    let shown = text::trimmed(body);
    if shown.len() == 0 {
        Some(RefusalModel::Empty)
    } else if shown[0] == '<' {
        Some(RefusalModel::Html(text::prefix(shown, PREVIEW_CHARS as nat)))
    } else {
        None
    }
}

/// The text that bytes encode, where there are bytes and they are UTF-8.
pub open spec fn utf8_text(bytes: Option<Seq<u8>>) -> Option<Seq<char>> {
    match bytes {
        Some(bytes) => if valid_utf8(bytes) {
            Some(decode_utf8(bytes))
        } else {
            None
        },
        None => None,
    }
}

/// Whether `text` is a YAML mapping.
pub open spec fn is_mapping(text: Seq<char>) -> bool {
    outside::yaml_keys(text) is Some
}

/// The mapping that a response of the older kind holds in Base64.
pub open spec fn legacy_configuration(body: Seq<char>) -> Option<Seq<char>> {
    match utf8_text(outside::base64_bytes(text::trimmed(body))) {
        Some(text) => if is_mapping(text) {
            Some(text)
        } else {
            None
        },
        None => None,
    }
}

/// What is kept of a response: the response itself where it is a mapping, else the mapping that
/// it held encoded, else nothing.
pub open spec fn chosen(body: Seq<char>, mapping: bool, legacy: Option<Seq<char>>) -> Result<
    Seq<char>,
    RefusalModel,
> {
    if mapping {
        Ok(body)
    } else {
        match legacy {
            Some(text) => Ok(text),
            None => Err(RefusalModel::NotClash),
        }
    }
}

/// The configuration that a response holds, or why it holds none.
pub open spec fn configuration(body: Seq<char>) -> Result<Seq<char>, RefusalModel> {
    match response_refusal(body) {
        Some(refusal) => Err(refusal),
        None => chosen(body, is_mapping(body), legacy_configuration(body)),
    }
}

/// A result by what it says.
pub open spec fn body_model(res: Result<String, SubscriptionError>) -> Result<
    Seq<char>,
    RefusalModel,
> {
    match res {
        Ok(body) => Ok(body@),
        Err(error) => Err(error@),
    }
}

/// Refuses a response that is blank or a web page.
pub fn check_response(body: &str) -> (res: Result<(), SubscriptionError>)
    ensures
        match res {
            Ok(_) => response_refusal(body@) is None,
            Err(error) => response_refusal(body@) == Some(error@),
        },
{
    let shown: &str = text::trim(body);
    if shown.is_empty() {
        return Err(SubscriptionError::Empty);
    }
    if shown.get_char(0) == '<' {
        return Err(SubscriptionError::Html(text::take_prefix(shown, PREVIEW_CHARS)));
    }
    Ok(())
}

/// The text that decoded bytes encode. A response that did not decode has none: an empty text
/// would pass for an empty mapping.
pub fn decoded_text(bytes: Option<Vec<u8>>) -> (res: Option<String>)
    ensures
        text::text_of(res) == utf8_text(
            match bytes {
                Some(bytes) => Some(bytes@),
                None => None,
            },
        ),
{
    match bytes {
        Some(bytes) => match String::from_utf8(bytes) {
            Ok(text) => Some(text),
            Err(_) => None,
        },
        None => None,
    }
}

/// What is kept of a response, given whether it is a mapping and the mapping that it holds
/// encoded.
pub fn choose_body(body: String, mapping: bool, legacy: Option<String>) -> (res: Result<
    String,
    SubscriptionError,
>)
    ensures
        body_model(res) == chosen(body@, mapping, text::text_of(legacy)),
{
    if mapping {
        Ok(body)
    } else {
        match legacy {
            Some(text) => Ok(text),
            None => Err(SubscriptionError::NotClash),
        }
    }
}

/// The configuration that a response holds. Most subscriptions answer with a YAML mapping, which
/// is kept as it came; older ones encode it in Base64.
pub fn subscription_body(body: String) -> (res: Result<String, SubscriptionError>)
    ensures
        body_model(res) == configuration(body@),
{
    match check_response(body.as_str()) {
        Ok(_) => {},
        Err(error) => {
            return Err(error);
        },
    }
    if outside::yaml_mapping(body.as_str()).is_ok() {
        return choose_body(body, true, None);
    }
    let bytes: Option<Vec<u8>> = match outside::base64_decode(text::trim(body.as_str())) {
        Ok(bytes) => Some(bytes),
        Err(_) => None,
    };
    let legacy: Option<String> = match decoded_text(bytes) {
        Some(text) => if outside::yaml_mapping(text.as_str()).is_ok() {
            Some(text)
        } else {
            None
        },
        None => None,
    };
    choose_body(body, false, legacy)
}

/// The digits of a UUID, without the hyphens between them.
pub open spec fn uuid_digits(uuid: Seq<char>) -> Seq<char> {
    uuid.filter(|c: char| c != '-')
}

/// The UID that a new subscription gets from a UUID: `R` and the digits of the UUID.
pub open spec fn profile_uid(uuid: Seq<char>) -> Seq<char> {
    "R"@ + uuid_digits(uuid)
}

/// The form of the UID of a subscription: `R` and 32 lower case hexadecimal digits, with those
/// that mark a random UUID in their places.
pub open spec fn is_profile_uid(uid: Seq<char>) -> bool {
    &&& uid.len() == 33
    &&& uid[0] == 'R'
    &&& forall|i: int| 1 <= i < 33 ==> outside::is_lower_hex(#[trigger] uid[i])
    &&& uid[13] == '4'
    &&& uid[17] == '8' || uid[17] == '9' || uid[17] == 'a' || uid[17] == 'b'
}

/// The profile that is made of a subscription.
pub open spec fn remote_item(
    url: Seq<char>,
    name: Seq<char>,
    body: Seq<char>,
    uid: Seq<char>,
    updated: usize,
) -> profile::ItemModel {
    profile::ItemModel {
        uid: Some(uid),
        itype: Some("remote"@),
        name: Some(name),
        url: Some(url),
        file: Some(uid + ".yaml"@),
        file_data: Some(body),
        updated: Some(updated),
    }
}

/// How many hyphens stand among the first `n` characters of a written UUID.
spec fn hyphens(n: int) -> int {
    (if n > 8 { 1int } else { 0 }) + (if n > 13 { 1int } else { 0 }) + (if n > 18 { 1int } else { 0 })
        + (if n > 23 { 1int } else { 0 })
}

proof fn lemma_uuid_digits(uuid: Seq<char>, n: int)
    requires
        outside::is_hyphenated_uuid(uuid),
        0 <= n <= 36,
    ensures
        uuid_digits(uuid.take(n)).len() == n - hyphens(n),
        forall|i: int|
            0 <= i < n - hyphens(n) ==> outside::is_lower_hex(
                #[trigger] uuid_digits(uuid.take(n))[i],
            ),
        n > 14 ==> uuid_digits(uuid.take(n))[12] == uuid[14],
        n > 19 ==> uuid_digits(uuid.take(n))[16] == uuid[19],
    decreases n,
{
    reveal(Seq::filter);
    if n > 0 {
        lemma_uuid_digits(uuid, n - 1);
        assert(uuid.take(n).drop_last() =~= uuid.take(n - 1));
        let last = uuid[n - 1];
        assert(last == uuid.take(n).last());
    }
}

/// A written random UUID gives a UID of the form that subscriptions have.
pub proof fn uuid_gives_profile_uid(uuid: Seq<char>)
    requires
        outside::is_random_uuid(uuid),
    ensures
        is_profile_uid(profile_uid(uuid)),
{
    reveal_strlit("R");
    lemma_uuid_digits(uuid, 36);
    assert(uuid.take(36) =~= uuid);
    assert forall|i: int| 1 <= i < 33 implies outside::is_lower_hex(
        #[trigger] profile_uid(uuid)[i],
    ) by {
        assert(profile_uid(uuid)[i] == uuid_digits(uuid.take(36))[i - 1]);
    }
}

/// Makes the profile of a subscription, given a new UUID and the time in seconds since 1970.
pub fn profile_item(url: &str, name: &str, body: String, uuid: &str, now: i64) -> (res: PrfItem)
    ensures
        res@ == remote_item(url@, name@, body@, profile_uid(uuid@), now as usize),
{
    let uid: String = "R".to_owned().concat(text::remove_char(uuid, '-').as_str());
    let file: String = uid.clone().concat(".yaml");
    PrfItem {
        uid: Some(uid),
        itype: Some("remote".to_owned()),
        name: Some(name.to_owned()),
        url: Some(url.to_owned()),
        file: Some(file),
        file_data: Some(body),
        updated: Some(now as usize),
    }
}

/// The UUID was drawn at random, by a call of `random_uuid`.
pub closed spec fn is_drawn(uuid: String) -> bool {
    call_ensures(outside::random_uuid, (), uuid)
}

/// The time was read from the clock, by a call of `unix_seconds`.
pub closed spec fn is_clock_time(now: i64) -> bool {
    call_ensures(outside::unix_seconds, (), now)
}

/// Makes a profile of what a subscription answered with. The configuration is kept in
/// `file_data`, to be written to the file that is named after the new UID. The UID comes of a UUID
/// that is drawn and `updated` is the time on the clock, so neither is fixed by the arguments.
pub fn from_url(url: &str, name: &str, body: String) -> (res: Result<PrfItem, SubscriptionError>)
    ensures
        match res {
            Ok(item) => {
                &&& configuration(body@) is Ok
                &&& item@.uid is Some
                &&& item@.updated is Some
                &&& is_profile_uid(item@.uid->0)
                &&& item@ == remote_item(
                    url@,
                    name@,
                    configuration(body@)->Ok_0,
                    item@.uid->0,
                    item@.updated->0,
                )
                &&& exists|uuid: String, now: i64|
                    {
                        &&& #[trigger] is_drawn(uuid)
                        &&& #[trigger] is_clock_time(now)
                        &&& item@.uid == Some(profile_uid(uuid@))
                        &&& item@.updated == Some(now as usize)
                    }
            },
            Err(error) => configuration(body@) == Err::<Seq<char>, RefusalModel>(error@),
        },
{
    match subscription_body(body) {
        Ok(kept) => {
            let uuid: String = outside::random_uuid();
            let now: i64 = outside::unix_seconds();
            proof {
                uuid_gives_profile_uid(uuid@);
                assert(is_drawn(uuid) && is_clock_time(now));
            }
            Ok(profile_item(url, name, kept, uuid.as_str(), now))
        },
        Err(error) => Err(error),
    }
}

/// Whether the top level keys of a mapping are those of a Clash configuration: it lists proxies
/// or where to get them.
pub open spec fn names_proxies(keys: Set<Seq<char>>) -> bool {
    keys.contains("proxies"@) || keys.contains("proxy-providers"@)
}

/// What keeps `text` from being a Clash configuration.
pub open spec fn clash_refusal(keys: Option<Set<Seq<char>>>) -> Option<RefusalModel> {
    match keys {
        Some(keys) => if names_proxies(keys) {
            None
        } else {
            Some(RefusalModel::NoProxies)
        },
        None => Some(RefusalModel::NotClash),
    }
}

/// Judges a configuration by what its parser found: no mapping, or a mapping and whether it has
/// `proxies` and `proxy-providers`.
pub fn judge_keys(found: Option<(bool, bool)>) -> (res: Result<(), SubscriptionError>)
    ensures
        match res {
            Ok(_) => found matches Some(keys) && (keys.0 || keys.1),
            Err(error) => match found {
                Some(keys) => !keys.0 && !keys.1 && error@ == RefusalModel::NoProxies,
                None => error@ == RefusalModel::NotClash,
            },
        },
{
    match found {
        Some((proxies, providers)) => if proxies || providers {
            Ok(())
        } else {
            Err(SubscriptionError::NoProxies)
        },
        None => Err(SubscriptionError::NotClash),
    }
}

/// Accepts a Clash configuration: a YAML mapping with `proxies` or `proxy-providers`.
pub fn validate_clash_yaml(text: &str) -> (res: Result<(), SubscriptionError>)
    ensures
        match res {
            Ok(_) => clash_refusal(outside::yaml_keys(text@)) is None,
            Err(error) => clash_refusal(outside::yaml_keys(text@)) == Some(error@),
        },
{
    match outside::yaml_mapping(text) {
        Ok(mapping) => judge_keys(
            Some(
                (
                    outside::has_key(&mapping, "proxies"),
                    outside::has_key(&mapping, "proxy-providers"),
                ),
            ),
        ),
        Err(_) => judge_keys(None),
    }
}

/// What `key=number` says of `key`.
pub open spec fn entry_number(entry: Seq<char>, key: Seq<char>) -> Option<u64> {
    let i = text::first_index(entry, '=');
    if i < entry.len() && entry.take(i as int) == key {
        text::parsed_u64(entry.skip(i as int + 1))
    } else {
        None
    }
}

/// What the first of the entries in `info`, which are separated by semicolons, says of `key`
/// that says a number of it.
pub open spec fn field_number(info: Seq<char>, key: Seq<char>) -> Option<u64>
    decreases info.len(),
{
    let i = text::first_index(info, ';');
    let here = entry_number(text::trimmed(info.take(i as int)), key);
    if here is Some || i >= info.len() {
        here
    } else {
        field_number(info.skip(i as int + 1), key)
    }
}

/// A number, and zero where there is none.
pub open spec fn or_zero(number: Option<u64>) -> u64 {
    match number {
        Some(number) => number,
        None => 0,
    }
}

/// What a provider reports in `upload=1; download=2; total=3; expire=4`.
pub open spec fn reported(info: Seq<char>) -> PrfExtra {
    PrfExtra {
        upload: or_zero(field_number(info, "upload"@)),
        download: or_zero(field_number(info, "download"@)),
        total: or_zero(field_number(info, "total"@)),
        expire: or_zero(field_number(info, "expire"@)),
    }
}

/// The report among the headers: under its own name, or under the name that storage services
/// give to metadata.
pub open spec fn userinfo(headers: Map<Seq<char>, Seq<char>>) -> Option<Seq<char>> {
    if headers.contains_key("subscription-userinfo"@) {
        Some(headers["subscription-userinfo"@])
    } else if headers.contains_key("x-amz-meta-subscription-userinfo"@) {
        Some(headers["x-amz-meta-subscription-userinfo"@])
    } else {
        None
    }
}

fn find_entry_number(entry: &str, key: &str) -> (res: Option<u64>)
    ensures
        res == entry_number(entry@, key@),
{
    let i: usize = text::find_char(entry, '=');
    let n: usize = entry.unicode_len();
    if i < n && text::same(entry.substring_char(0, i), key) {
        text::parse_u64(entry.substring_char(i + 1, n))
    } else {
        None
    }
}

/// The number that `info` gives for `key`.
pub fn find_field_number(info: &str, key: &str) -> (res: Option<u64>)
    ensures
        res == field_number(info@, key@),
{
    let mut rest: &str = info;
    loop
        invariant
            field_number(rest@, key@) == field_number(info@, key@),
        decreases rest@.len(),
    {
        let i: usize = text::find_char(rest, ';');
        let n: usize = rest.unicode_len();
        proof {
            text::lemma_first_index(rest@, ';');
        }
        let here: Option<u64> = find_entry_number(text::trim(rest.substring_char(0, i)), key);
        if here.is_some() || i >= n {
            return here;
        }
        rest = rest.substring_char(i + 1, n);
    }
}

fn number_or_zero(info: &str, key: &str) -> (res: u64)
    ensures
        res == or_zero(field_number(info@, key@)),
{
    match find_field_number(info, key) {
        Some(number) => number,
        None => 0,
    }
}

/// Reads the traffic report that a provider puts among the headers.
pub fn parse_subscription_userinfo(headers: &Headers) -> (res: Option<PrfExtra>)
    ensures
        res == match userinfo(headers@) {
            Some(info) => Some(reported(info)),
            None => None,
        },
{
    let info: Option<&String> = match headers.get("subscription-userinfo") {
        Some(info) => Some(info),
        None => headers.get("x-amz-meta-subscription-userinfo"),
    };
    match info {
        Some(info) => Some(
            PrfExtra {
                upload: number_or_zero(info.as_str(), "upload"),
                download: number_or_zero(info.as_str(), "download"),
                total: number_or_zero(info.as_str(), "total"),
                expire: number_or_zero(info.as_str(), "expire"),
            },
        ),
        None => None,
    }
}

/// What is kept of a response is a YAML mapping.
pub proof fn kept_configuration_is_a_mapping(body: Seq<char>)
    ensures
        configuration(body) matches Ok(kept) ==> outside::yaml_keys(kept) is Some,
{
}

/// A response that is a YAML mapping is kept as it came, unless it starts like a web page.
pub proof fn mapping_is_kept_as_it_came(body: Seq<char>)
    requires
        outside::yaml_keys(body) is Some,
        text::trimmed(body).len() > 0,
        text::trimmed(body)[0] != '<',
    ensures
        configuration(body) == Ok::<Seq<char>, RefusalModel>(body),
{
}

/// A response of the older kind is kept decoded.
pub proof fn encoded_mapping_is_kept_decoded(body: Seq<char>, kept: Seq<char>)
    requires
        outside::yaml_keys(body) is None,
        text::trimmed(body).len() > 0,
        text::trimmed(body)[0] != '<',
        outside::base64_bytes(text::trimmed(body)) == Some(encode_utf8(kept)),
        outside::yaml_keys(kept) is Some,
    ensures
        configuration(body) == Ok::<Seq<char>, RefusalModel>(kept),
{
    encode_utf8_valid_utf8(kept);
    encode_utf8_decode_utf8(kept);
}

proof fn lemma_blank_is_trimmed_away(s: Seq<char>)
    requires
        forall|i: int| 0 <= i < s.len() ==> text::white_space(#[trigger] s[i]),
    ensures
        text::trimmed_start(s).len() == 0,
    decreases s.len(),
{
    if s.len() > 0 {
        lemma_blank_is_trimmed_away(s.drop_first());
    }
}

/// A response of nothing but white space is refused as empty, whatever a parser would make of
/// it.
pub proof fn blank_response_is_refused(body: Seq<char>)
    requires
        forall|i: int| 0 <= i < body.len() ==> text::white_space(#[trigger] body[i]),
    ensures
        configuration(body) == Err::<Seq<char>, RefusalModel>(RefusalModel::Empty),
{
    lemma_blank_is_trimmed_away(body);
}

/// A web page is refused whatever a parser would make of it, and no more of it is quoted than
/// the limit allows.
pub proof fn web_page_is_refused(body: Seq<char>)
    requires
        text::trimmed(body).len() > 0,
        text::trimmed(body)[0] == '<',
    ensures
        configuration(body) matches Err(RefusalModel::Html(quoted)) && quoted.len()
            <= PREVIEW_CHARS && quoted == text::prefix(text::trimmed(body), PREVIEW_CHARS as nat),
{
}

/// What names proxies or providers is a mapping, so a valid Clash configuration that is no web
/// page is kept as it came.
pub proof fn valid_configuration_is_kept(body: Seq<char>)
    requires
        clash_refusal(outside::yaml_keys(body)) is None,
        text::trimmed(body).len() > 0,
        text::trimmed(body)[0] != '<',
    ensures
        configuration(body) == Ok::<Seq<char>, RefusalModel>(body),
{
}

} // verus!
