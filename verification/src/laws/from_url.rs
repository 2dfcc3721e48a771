//! Laws of subscriptions and what is made of their responses.

use crate::from_url;
use crate::from_url::SubscriptionError;
use crate::laws;
use crate::outside;
use crate::profile::PrfExtra;
use crate::text;
use vstd::prelude::*;
use vstd::string::*;
use vstd::utf8::*;

verus! {

/// What becomes of a response that is not blank, given what stands in it between white space. It
/// is refused as a web page if it starts with `<`, and then at most 200 characters are quoted.
/// Any other response that is a YAML mapping is kept as it came, however long it is. One that is
/// not, but is Base64 of a mapping in UTF-8, is kept decoded. Every other one is no configuration.
pub proof fn response_is_judged_by_what_it_holds(
    before: Seq<char>,
    inner: Seq<char>,
    after: Seq<char>,
)
    requires
        laws::text::blank(before),
        laws::text::unpadded(inner),
        laws::text::blank(after),
    ensures
        ({
            let body = before + inner + after;
            let bytes = outside::base64_bytes(inner);
            let encoded = bytes is Some && valid_utf8(bytes->0) && outside::yaml_keys(
                decode_utf8(bytes->0),
            ) is Some;
            let quoted = if inner.len() <= 200 {
                inner
            } else {
                inner.subrange(0, 200)
            };
            from_url::configuration(body) == if inner[0] == '<' {
                Err(from_url::RefusalModel::Html(quoted))
            } else if outside::yaml_keys(body) is Some {
                Ok(body)
            } else if encoded {
                Ok(decode_utf8(bytes->0))
            } else {
                Err(from_url::RefusalModel::NotClash)
            }
        }),
{
    laws::text::padding_is_trimmed_away(before, inner, after);
    assert(inner.len() > 200 ==> inner.take(200) =~= inner.subrange(0, 200));
}

/// A response is refused as empty if and only if it is blank, and as a web page if and only if
/// its first character that is no white space is `<`. Nothing else is refused unread: its length
/// does not matter.
pub proof fn only_blanks_and_pages_are_refused_unread(body: Seq<char>)
    ensures
        ({
            let shown = text::trimmed(body);
            let unread = from_url::response_refusal(body);
            let kept = from_url::configuration(body);
            &&& unread == Some(from_url::RefusalModel::Empty) <==> laws::text::blank(body)
            &&& (unread matches Some(from_url::RefusalModel::Html(_))) <==> shown.len() > 0
                && shown[0] == '<'
            &&& unread is None <==> shown.len() > 0 && shown[0] != '<'
            &&& unread matches Some(from_url::RefusalModel::Html(quoted)) ==> {
                &&& quoted.len() == (if shown.len() < 200 { shown.len() } else { 200 })
                &&& forall|i: int| 0 <= i < quoted.len() ==> #[trigger] quoted[i] == shown[i]
            }
            &&& kept == Err::<Seq<char>, from_url::RefusalModel>(from_url::RefusalModel::Empty)
                <==> laws::text::blank(body)
            &&& (kept matches Err(from_url::RefusalModel::Html(_))) <==> shown.len() > 0 && shown[0]
                == '<'
            &&& unread matches Some(refusal) ==> kept == Err::<Seq<char>, from_url::RefusalModel>(
                refusal,
            )
        }),
{
    laws::text::only_blank_text_trims_to_nothing(body);
}

/// White space around a response changes nothing of whether it is refused unread, and with which
/// words.
pub proof fn padding_does_not_change_the_refusal(
    before: Seq<char>,
    inner: Seq<char>,
    after: Seq<char>,
)
    requires
        laws::text::blank(before),
        laws::text::unpadded(inner),
        laws::text::blank(after),
    ensures
        from_url::response_refusal(before + inner + after) == from_url::response_refusal(inner),
{
    laws::text::padding_is_trimmed_away(before, inner, after);
    let none = Seq::<char>::empty();
    laws::text::padding_is_trimmed_away(none, inner, none);
    assert(none + inner + none =~= inner);
}

/// Bytes give the text that they encode: every text comes back from its encoding, and bytes that
/// encode none give none.
pub proof fn decoded_text_is_what_was_encoded(written: Seq<char>, bytes: Seq<u8>)
    ensures
        from_url::utf8_text(Some(encode_utf8(written))) == Some(written),
        from_url::utf8_text(Some(bytes)) is None <==> !valid_utf8(bytes),
        valid_utf8(bytes) ==> from_url::utf8_text(Some(bytes)) == Some(decode_utf8(bytes)),
        from_url::utf8_text(None::<Seq<u8>>) is None,
{
    encode_utf8_valid_utf8(written);
    encode_utf8_decode_utf8(written);
}

/// A response that is a mapping wins over what it may hold encoded, which wins over a refusal.
pub proof fn response_wins_over_what_it_holds_encoded(body: Seq<char>, legacy: Option<Seq<char>>)
    ensures
        from_url::chosen(body, true, legacy) == Ok::<Seq<char>, from_url::RefusalModel>(body),
        from_url::chosen(body, false, legacy) == match legacy {
            Some(decoded) => Ok(decoded),
            None => Err(from_url::RefusalModel::NotClash),
        },
{
}

/// The profile of a subscription has its address, name and configuration unchanged, is of the kind
/// `remote`, and is kept in a file that is named after its UID.
pub proof fn profile_holds_the_subscription(
    url: Seq<char>,
    name: Seq<char>,
    body: Seq<char>,
    uid: Seq<char>,
    updated: usize,
)
    ensures
        ({
            let item = from_url::remote_item(url, name, body, uid, updated);
            &&& item.url == Some(url)
            &&& item.name == Some(name)
            &&& item.file_data == Some(body)
            &&& item.uid == Some(uid)
            &&& item.itype == Some("remote"@)
            &&& item.file == Some(uid + ".yaml"@)
            &&& item.updated == Some(updated)
        }),
{
}

/// A UID is `R` and the UUID without hyphens: the parts of a text that has a hyphen between them
/// are put together, and a text without hyphens is taken whole.
pub proof fn uid_drops_hyphens_and_nothing_else(one: Seq<char>, other: Seq<char>)
    ensures
        from_url::profile_uid(one + seq!['-'] + other) == from_url::profile_uid(one + other),
        !one.contains('-') ==> from_url::profile_uid(one) == seq!['R'] + one,
{
    let keep = |c: char| c != '-';
    reveal(Seq::filter);
    reveal_strlit("R");
    assert("R"@ =~= seq!['R']);
    Seq::filter_distributes_over_add(one + seq!['-'], other, keep);
    Seq::filter_distributes_over_add(one, seq!['-'], keep);
    Seq::filter_distributes_over_add(one, other, keep);
    assert(seq!['-'].drop_last() =~= Seq::<char>::empty());
    assert(seq!['-'].drop_last().filter(keep) =~= Seq::<char>::empty());
    assert(seq!['-'].filter(keep) =~= Seq::<char>::empty());
    assert(one.filter(keep) + seq!['-'].filter(keep) =~= one.filter(keep));
    if !one.contains('-') {
        lemma_nothing_to_drop(one);
    }
}

proof fn lemma_nothing_to_drop(s: Seq<char>)
    requires
        !s.contains('-'),
    ensures
        s.filter(|c: char| c != '-') == s,
    decreases s.len(),
{
    reveal(Seq::filter);
    if s.len() > 0 {
        assert(s.contains(s.last()));
        assert forall|c: char| s.drop_last().contains(c) implies s.contains(c) by {
            let i = choose|i: int| 0 <= i < s.drop_last().len() && s.drop_last()[i] == c;
            assert(s[i] == c);
        }
        lemma_nothing_to_drop(s.drop_last());
        assert(s =~= s.drop_last().push(s.last()));
    }
}

/// The UID of a written UUID is `R` and its five groups of digits, put together.
pub proof fn uid_is_the_groups_of_the_uuid(uuid: Seq<char>)
    requires
        outside::is_hyphenated_uuid(uuid),
    ensures
        from_url::profile_uid(uuid) == seq!['R'] + uuid.subrange(0, 8) + uuid.subrange(9, 13)
            + uuid.subrange(14, 18) + uuid.subrange(19, 23) + uuid.subrange(24, 36),
{
    let a = uuid.subrange(0, 8);
    let b = uuid.subrange(9, 13);
    let c = uuid.subrange(14, 18);
    let d = uuid.subrange(19, 23);
    let e = uuid.subrange(24, 36);
    let h = seq!['-'];
    assert(uuid[8] == '-' && uuid[13] == '-' && uuid[18] == '-' && uuid[23] == '-');
    assert(uuid =~= a + h + (b + h + c + h + d + h + e));
    uid_drops_hyphens_and_nothing_else(a, b + h + c + h + d + h + e);
    assert(a + (b + h + c + h + d + h + e) =~= (a + b) + h + (c + h + d + h + e));
    uid_drops_hyphens_and_nothing_else(a + b, c + h + d + h + e);
    assert(a + b + (c + h + d + h + e) =~= (a + b + c) + h + (d + h + e));
    uid_drops_hyphens_and_nothing_else(a + b + c, d + h + e);
    assert(a + b + c + (d + h + e) =~= (a + b + c + d) + h + e);
    uid_drops_hyphens_and_nothing_else(a + b + c + d, e);
    let all = a + b + c + d + e;
    assert forall|i: int| 0 <= i < all.len() implies #[trigger] all[i] != '-' by {
        let at = if i < 8 { i } else if i < 12 { i + 1 } else if i < 16 { i + 2 } else if i < 20 {
            i + 3
        } else {
            i + 4
        };
        assert(all[i] == uuid[at]);
        assert(outside::is_lower_hex(uuid[at]));
    }
    uid_drops_hyphens_and_nothing_else(all, Seq::empty());
    assert(seq!['R'] + all =~= seq!['R'] + a + b + c + d + e);
}

/// A text is a valid configuration if and only if it is a mapping with one of the two keys. Without
/// them it is told apart from a text that is no mapping.
pub proof fn valid_configuration_has_proxies_or_providers(keys: Set<Seq<char>>)
    ensures
        from_url::clash_refusal(None::<Set<Seq<char>>>) == Some(from_url::RefusalModel::NotClash),
        keys.contains("proxies"@) ==> from_url::clash_refusal(Some(keys)) is None,
        keys.contains("proxy-providers"@) ==> from_url::clash_refusal(Some(keys)) is None,
        !keys.contains("proxies"@) && !keys.contains("proxy-providers"@) ==> from_url::clash_refusal(
            Some(keys),
        ) == Some(from_url::RefusalModel::NoProxies),
{
}

/// An entry that is `word=value` says the number that its value writes, of that word and of no
/// other; an entry without `=` says nothing.
pub proof fn entry_speaks_of_its_word(word: Seq<char>, value: Seq<char>, key: Seq<char>)
    requires
        !word.contains('='),
    ensures
        from_url::entry_number(word + seq!['='] + value, key) == if word == key {
            text::parsed_u64(value)
        } else {
            None
        },
        from_url::entry_number(word, key) is None,
{
    let entry = word + seq!['='] + value;
    laws::text::first_index_is_behind_what_lacks_it(word, '=', value);
    assert(entry.take(word.len() as int) =~= word);
    assert(entry.skip(word.len() as int + 1) =~= value);
}

/// The entries of a report are read one by one: the first that gives a number for the key counts,
/// and white space around an entry does not.
pub proof fn first_entry_with_a_number_counts(
    before: Seq<char>,
    entry: Seq<char>,
    after: Seq<char>,
    rest: Seq<char>,
    key: Seq<char>,
)
    requires
        laws::text::blank(before),
        entry.len() == 0 || laws::text::unpadded(entry),
        laws::text::blank(after),
        !entry.contains(';'),
    ensures
        from_url::field_number(before + entry + after + seq![';'] + rest, key)
            == match from_url::entry_number(entry, key) {
            Some(number) => Some(number),
            None => from_url::field_number(rest, key),
        },
        from_url::field_number(before + entry + after, key) == from_url::entry_number(entry, key),
{
    let front = before + entry + after;
    let info = front + seq![';'] + rest;
    assert(!before.contains(';')) by {
        if before.contains(';') {
            let i = choose|i: int| 0 <= i < before.len() && before[i] == ';';
            assert(text::white_space(before[i]));
        }
    }
    assert(!after.contains(';')) by {
        if after.contains(';') {
            let i = choose|i: int| 0 <= i < after.len() && after[i] == ';';
            assert(text::white_space(after[i]));
        }
    }
    laws::text::lemma_lacks_both(before, entry, ';');
    laws::text::lemma_lacks_both(before + entry, after, ';');
    laws::text::first_index_is_behind_what_lacks_it(front, ';', rest);
    laws::text::padding_is_trimmed_away(before, entry, after);
    assert(info.take(front.len() as int) =~= front);
    assert(info.skip(front.len() as int + 1) =~= rest);
    assert(front.take(front.len() as int) =~= front);
}

/// The entry that gives a number for a word.
pub open spec fn number_entry(word: Seq<char>, n: u64) -> Seq<char> {
    word + seq!['='] + laws::text::written(n as nat)
}

proof fn lemma_number_entry(word: Seq<char>, n: u64, key: Seq<char>)
    requires
        word.len() > 0,
        !text::white_space(word[0]),
        !word.contains('='),
        !word.contains(';'),
    ensures
        laws::text::unpadded(number_entry(word, n)),
        !number_entry(word, n).contains(';'),
        from_url::entry_number(number_entry(word, n), key) == if word == key {
            Some(n)
        } else {
            None
        },
{
    let digits = laws::text::written(n as nat);
    laws::text::lemma_written(n as nat);
    laws::text::number_reads_back(n as nat);
    assert(!digits.contains(';')) by {
        if digits.contains(';') {
            let i = choose|i: int| 0 <= i < digits.len() && digits[i] == ';';
            assert(text::is_digit(digits[i]));
        }
    }
    assert(!seq!['='].contains(';'));
    laws::text::lemma_lacks_both(word, seq!['='], ';');
    laws::text::lemma_lacks_both(word + seq!['='], digits, ';');
    assert(number_entry(word, n).last() == digits[digits.len() - 1]);
    assert(text::is_digit(digits[digits.len() - 1]));
    entry_speaks_of_its_word(word, digits, key);
}

/// The report that a provider writes about these numbers.
pub open spec fn written_report(report: PrfExtra) -> Seq<char> {
    number_entry("upload"@, report.upload) + seq![';'] + (seq![' '] + number_entry(
        "download"@,
        report.download,
    ) + seq![';'] + (seq![' '] + number_entry("total"@, report.total) + seq![';'] + (seq![' ']
        + number_entry("expire"@, report.expire))))
}

/// Whatever the numbers are, a report reads back as it was written.
pub proof fn report_reads_back(report: PrfExtra)
    ensures
        from_url::reported(written_report(report)) == report,
{
    reveal_strlit("upload");
    reveal_strlit("download");
    reveal_strlit("total");
    reveal_strlit("expire");
    assert("upload"@.len() != "download"@.len());
    assert("upload"@.len() != "total"@.len());
    assert("upload"@[0] != "expire"@[0]);
    assert("download"@.len() != "total"@.len());
    assert("download"@.len() != "expire"@.len());
    assert("total"@.len() != "expire"@.len());
    lemma_report_field(report, "upload"@);
    lemma_report_field(report, "download"@);
    lemma_report_field(report, "total"@);
    lemma_report_field(report, "expire"@);
}

proof fn lemma_report_field(report: PrfExtra, key: Seq<char>)
    ensures
        from_url::field_number(written_report(report), key) == if key == "upload"@ {
            Some(report.upload)
        } else if key == "download"@ {
            Some(report.download)
        } else if key == "total"@ {
            Some(report.total)
        } else if key == "expire"@ {
            Some(report.expire)
        } else {
            None
        },
{
    reveal_strlit("upload");
    reveal_strlit("download");
    reveal_strlit("total");
    reveal_strlit("expire");
    let none = Seq::<char>::empty();
    let space = seq![' '];
    let up = number_entry("upload"@, report.upload);
    let down = number_entry("download"@, report.download);
    let total = number_entry("total"@, report.total);
    let expire = number_entry("expire"@, report.expire);
    lemma_number_entry("upload"@, report.upload, key);
    lemma_number_entry("download"@, report.download, key);
    lemma_number_entry("total"@, report.total, key);
    lemma_number_entry("expire"@, report.expire, key);
    let last = space + expire;
    let third = space + total + seq![';'] + last;
    let second = space + down + seq![';'] + third;
    first_entry_with_a_number_counts(space, expire, none, none, key);
    assert(space + expire + none =~= last);
    first_entry_with_a_number_counts(space, total, none, last, key);
    assert(space + total + none =~= space + total);
    first_entry_with_a_number_counts(space, down, none, third, key);
    assert(space + down + none =~= space + down);
    first_entry_with_a_number_counts(none, up, none, second, key);
    assert(none + up + none =~= up);
}

/// Each number of a report is that of its own field, and zero where the field gives none.
pub proof fn report_takes_each_number_from_its_field(info: Seq<char>)
    ensures
        ({
            let report = from_url::reported(info);
            &&& from_url::field_number(info, "upload"@) matches Some(n) ==> report.upload == n
            &&& from_url::field_number(info, "upload"@) is None ==> report.upload == 0
            &&& from_url::field_number(info, "download"@) matches Some(n) ==> report.download == n
            &&& from_url::field_number(info, "download"@) is None ==> report.download == 0
            &&& from_url::field_number(info, "total"@) matches Some(n) ==> report.total == n
            &&& from_url::field_number(info, "total"@) is None ==> report.total == 0
            &&& from_url::field_number(info, "expire"@) matches Some(n) ==> report.expire == n
            &&& from_url::field_number(info, "expire"@) is None ==> report.expire == 0
        }),
{
}

/// The header under its own name comes first, then the one under the name of metadata; other
/// headers do not matter.
pub proof fn report_is_found_under_either_name(
    headers: Map<Seq<char>, Seq<char>>,
    name: Seq<char>,
    value: Seq<char>,
)
    ensures
        from_url::userinfo(headers.insert("subscription-userinfo"@, value)) == Some(value),
        !headers.contains_key("subscription-userinfo"@) ==> from_url::userinfo(
            headers.insert("x-amz-meta-subscription-userinfo"@, value),
        ) == Some(value),
        name != "subscription-userinfo"@ && name != "x-amz-meta-subscription-userinfo"@
            ==> from_url::userinfo(headers.insert(name, value)) == from_url::userinfo(headers),
        headers.contains_key("subscription-userinfo"@) ==> from_url::userinfo(
            headers.insert("x-amz-meta-subscription-userinfo"@, value),
        ) == from_url::userinfo(headers),
        from_url::userinfo(Map::<Seq<char>, Seq<char>>::empty()) is None,
{
    reveal_strlit("subscription-userinfo");
    reveal_strlit("x-amz-meta-subscription-userinfo");
    assert("subscription-userinfo"@.len() != "x-amz-meta-subscription-userinfo"@.len());
}

/// An error is reported in its own words, and a page with what is quoted of it.
pub proof fn refusals_are_told_apart_in_words(page: Seq<char>)
    ensures
        from_url::refusal_message(from_url::RefusalModel::Empty)
            == "subscription returned an empty response"@,
        from_url::refusal_message(from_url::RefusalModel::Html(page))
            == "subscription returned HTML (possible 403/block or invalid URL): "@ + page,
        from_url::refusal_message(from_url::RefusalModel::NotClash)
            == "subscription response is not a valid Clash config"@,
        from_url::refusal_message(from_url::RefusalModel::NoProxies)
            == "profile does not contain `proxies` or `proxy-providers`"@,
{
}

/// The view of an error or of a result says which it is and what it holds.
pub proof fn views_of_refusals_show_them(page: String, error: SubscriptionError, kept: String)
    ensures
        SubscriptionError::Empty@ == from_url::RefusalModel::Empty,
        SubscriptionError::Html(page)@ == from_url::RefusalModel::Html(page@),
        SubscriptionError::NotClash@ == from_url::RefusalModel::NotClash,
        SubscriptionError::NoProxies@ == from_url::RefusalModel::NoProxies,
        from_url::body_model(Ok(kept)) == Ok::<Seq<char>, from_url::RefusalModel>(kept@),
        from_url::body_model(Err(error)) == Err::<Seq<char>, from_url::RefusalModel>(error@),
{
}

} // verus!
