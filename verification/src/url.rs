//! Subscription addresses.

use crate::text;
use vstd::prelude::*;
use vstd::string::*;

verus! {

/// The parts of an address.
#[verifier::ext_equal]
pub struct UrlModel {
    /// Scheme and authority, `https://example.com`.
    pub origin: Seq<char>,
    pub path: Seq<char>,
    pub query: Option<Seq<char>>,
    pub fragment: Option<Seq<char>>,
}

/// What stands in `s` before the first `c`.
pub open spec fn before(s: Seq<char>, c: char) -> Seq<char> {
    s.take(text::first_index(s, c) as int)
}

/// What stands in `s` behind the first `c`, where there is one.
pub open spec fn behind(s: Seq<char>, c: char) -> Option<Seq<char>> {
    let i = text::first_index(s, c);
    if i < s.len() {
        Some(s.skip(i as int + 1))
    } else {
        None
    }
}

/// The length of `scheme://authority` at the start of `s`, which holds neither a query nor a
/// fragment; `None` where `s` does not start with a scheme and an authority that are not empty.
pub open spec fn origin_len(s: Seq<char>) -> Option<nat> {
    let colon = text::first_index(s, ':');
    if colon > 0 && colon + 3 <= s.len() && s[colon as int + 1] == '/' && s[colon as int + 2]
        == '/' {
        let authority = text::first_index(s.skip(colon as int + 3), '/');
        if authority > 0 {
            Some(colon + 3 + authority)
        } else {
            None
        }
    } else {
        None
    }
}

/// The parts of the absolute address `s`.
pub open spec fn url_parts(s: Seq<char>) -> Option<UrlModel> {
    let main = before(s, '#');
    let base = before(main, '?');
    match origin_len(base) {
        Some(n) => Some(
            UrlModel {
                origin: base.take(n as int),
                path: base.skip(n as int),
                query: behind(main, '?'),
                fragment: behind(s, '#'),
            },
        ),
        None => None,
    }
}

/// The parts with a query that was glued to the path by `&` moved to its place.
pub open spec fn repaired(url: UrlModel) -> UrlModel {
    match (url.query, behind(url.path, '&')) {
        (None, Some(query)) => UrlModel {
            path: before(url.path, '&'),
            query: Some(query),
            ..url
        },
        _ => url,
    }
}

/// `mark` and the text behind it, or nothing.
pub open spec fn marked(mark: char, part: Option<Seq<char>>) -> Seq<char> {
    match part {
        Some(part) => seq![mark] + part,
        None => Seq::empty(),
    }
}

/// The address that has these parts.
pub open spec fn url_text(url: UrlModel) -> Seq<char> {
    url.origin + url.path + marked('?', url.query) + marked('#', url.fragment)
}

/// An absolute address, taken apart.
#[derive(Debug, PartialEq, Eq)]
pub struct SubscriptionUrl {
    pub origin: String,
    pub path: String,
    pub query: Option<String>,
    pub fragment: Option<String>,
}

impl View for SubscriptionUrl {
    type V = UrlModel;

    open spec fn view(&self) -> UrlModel {
        UrlModel {
            origin: self.origin@,
            path: self.path@,
            query: text::text_of(self.query),
            fragment: text::text_of(self.fragment),
        }
    }
}

fn cut_before<'a>(s: &'a str, c: char) -> (res: &'a str)
    ensures
        res@ == before(s@, c),
{
    proof {
        text::lemma_first_index(s@, c);
    }
    let i: usize = text::find_char(s, c);
    s.substring_char(0, i)
}

fn cut_behind(s: &str, c: char) -> (res: Option<String>)
    ensures
        text::text_of(res) == behind(s@, c),
{
    let i: usize = text::find_char(s, c);
    let n: usize = s.unicode_len();
    if i < n {
        Some(s.substring_char(i + 1, n).to_owned())
    } else {
        None
    }
}

fn find_origin_len(s: &str) -> (res: Option<usize>)
    ensures
        match res {
            Some(n) => origin_len(s@) == Some(n as nat) && n <= s@.len(),
            None => origin_len(s@) is None,
        },
{
    let n: usize = s.unicode_len();
    let colon: usize = text::find_char(s, ':');
    proof {
        text::lemma_first_index(s@, ':');
    }
    if colon > 0 && n >= 3 && colon <= n - 3 && s.get_char(colon + 1) == '/' && s.get_char(
        colon + 2,
    ) == '/' {
        let rest: &str = s.substring_char(colon + 3, n);
        let authority: usize = text::find_char(rest, '/');
        proof {
            assert(rest@ =~= s@.skip(colon as int + 3));
            text::lemma_first_index(rest@, '/');
        }
        if authority > 0 {
            Some(colon + 3 + authority)
        } else {
            None
        }
    } else {
        None
    }
}

/// Reads an absolute address. Where it has no query and its path holds an `&`, the text behind
/// the first `&` of the path becomes the query. A text without scheme and authority is refused.
pub fn fix_dirty_url(input: &str) -> (res: Result<SubscriptionUrl, String>)
    ensures
        match res {
            Ok(url) => url_parts(input@) is Some && url@ == repaired(url_parts(input@)->0),
            Err(message) => url_parts(input@) is None && message@
                == "relative URL without a base"@,
        },
{
    let main: &str = cut_before(input, '#');
    let base: &str = cut_before(main, '?');
    match find_origin_len(base) {
        Some(n) => {
            let path: &str = base.substring_char(n, base.unicode_len());
            let origin: &str = base.substring_char(0, n);
            assert(path@ =~= base@.skip(n as int));
            assert(origin@ =~= base@.take(n as int));
            let fragment: Option<String> = cut_behind(input, '#');
            let query: Option<String> = cut_behind(main, '?');
            if query.is_none() {
                let glued: Option<String> = cut_behind(path, '&');
                if glued.is_some() {
                    return Ok(
                        SubscriptionUrl {
                            origin: origin.to_owned(),
                            path: cut_before(path, '&').to_owned(),
                            query: glued,
                            fragment,
                        },
                    );
                }
            }
            Ok(SubscriptionUrl { origin: origin.to_owned(), path: path.to_owned(), query, fragment })
        },
        None => Err("relative URL without a base".to_owned()),
    }
}

impl SubscriptionUrl {
    pub fn path(&self) -> (res: &str)
        ensures
            res@ == self@.path,
    {
        self.path.as_str()
    }

    pub fn query(&self) -> (res: Option<&str>)
        ensures
            match res {
                Some(query) => self@.query == Some(query@),
                None => self@.query is None,
            },
    {
        match &self.query {
            Some(query) => Some(query.as_str()),
            None => None,
        }
    }

    /// The whole address.
    pub fn to_text(&self) -> (res: String)
        ensures
            res@ == url_text(self@),
    {
        proof {
            reveal_strlit("?");
            reveal_strlit("#");
            assert("?"@ =~= seq!['?']);
            assert("#"@ =~= seq!['#']);
        }
        let mut res: String = self.origin.clone();
        res.append(self.path.as_str());
        let ghost start = res@;
        match &self.query {
            Some(query) => {
                res.append("?");
                res.append(query.as_str());
            },
            None => {},
        }
        assert(res@ =~= start + marked('?', self@.query));
        let ghost main = res@;
        match &self.fragment {
            Some(fragment) => {
                res.append("#");
                res.append(fragment.as_str());
            },
            None => {},
        }
        assert(res@ =~= main + marked('#', self@.fragment));
        res
    }
}

proof fn lemma_cut(s: Seq<char>, c: char)
    ensures
        s == before(s, c) + marked(c, behind(s, c)),
{
    text::lemma_first_index(s, c);
    assert(s =~= before(s, c) + marked(c, behind(s, c)));
}

/// Taking an address apart loses nothing: its parts spell it again.
pub proof fn parts_spell_the_address(s: Seq<char>)
    requires
        url_parts(s) is Some,
    ensures
        url_text(url_parts(s)->0) == s,
{
    let main = before(s, '#');
    let base = before(main, '?');
    let n = origin_len(base)->0;
    lemma_cut(s, '#');
    lemma_cut(main, '?');
    text::lemma_first_index(base, ':');
    text::lemma_first_index(base.skip(text::first_index(base, ':') as int + 3), '/');
    assert(base =~= base.take(n as int) + base.skip(n as int));
}

/// The repair changes one character at most: the `&` at which the query starts becomes `?`.
pub proof fn repair_changes_one_character(url: UrlModel)
    ensures
        repaired(url) != url ==> {
            let at = url.origin.len() + text::first_index(url.path, '&');
            &&& url.query is None
            &&& text::first_index(url.path, '&') < url.path.len()
            &&& url_text(repaired(url)) == url_text(url).update(at as int, '?')
        },
{
    if repaired(url) != url {
        text::lemma_first_index(url.path, '&');
        let at = url.origin.len() + text::first_index(url.path, '&');
        assert(url_text(repaired(url)) =~= url_text(url).update(at as int, '?'));
    }
}

/// A repaired address needs no repair.
pub proof fn repair_is_idempotent(url: UrlModel)
    ensures
        repaired(repaired(url)) == repaired(url),
{
}

/// An address with a query, or without `&` in its path, is left as it is.
pub proof fn clean_address_is_kept(url: UrlModel)
    requires
        url.query is Some || !url.path.contains('&'),
    ensures
        repaired(url) == url,
{
    text::lemma_first_index(url.path, '&');
}

/// The address that a repair gives reads back as the repaired parts, so repairing it once more
/// changes nothing.
pub proof fn repaired_address_reads_back(s: Seq<char>)
    requires
        url_parts(s) is Some,
    ensures
        ({
            let url = repaired(url_parts(s)->0);
            &&& url_parts(url_text(url)) == Some(url)
            &&& repaired(url_parts(url_text(url))->0) == url
        }),
{
    let parts = url_parts(s)->0;
    let url = repaired(parts);
    parts_spell_the_address(s);
    repair_changes_one_character(parts);
    repair_is_idempotent(parts);
    if url != parts {
        let main = before(s, '#');
        let base = before(main, '?');
        let n = origin_len(base)->0;
        let colon = text::first_index(base, ':');
        let k = text::first_index(parts.path, '&');
        let at = n + k;
        text::lemma_first_index(s, '#');
        text::lemma_first_index(main, '?');
        text::lemma_first_index(base, ':');
        text::lemma_first_index(base.skip(colon as int + 3), '/');
        text::lemma_first_index(parts.path, '&');
        assert(base =~= main);
        assert(parts.path[0] == base[n as int]);
        assert(base.skip(colon as int + 3)[n - colon - 3] == base[n as int]);
        assert(k > 0);
        let t = url_text(url);
        assert(t == s.update(at as int, '?'));
        text::lemma_first_index_unique(t, '#', main.len());
        let main2 = before(t, '#');
        assert(main2 =~= main.update(at as int, '?'));
        text::lemma_first_index_unique(main2, '?', at);
        let base2 = before(main2, '?');
        assert(base2 =~= base.take(at as int));
        text::lemma_first_index_unique(base2, ':', colon);
        let after = base2.skip(colon as int + 3);
        assert forall|i: int| 0 <= i < n - colon - 3 implies #[trigger] after[i] != '/' by {
            assert(base.skip(colon as int + 3)[i] == after[i]);
        }
        text::lemma_first_index_unique(after, '/', (n - colon - 3) as nat);
        let again = url_parts(t)->0;
        assert(again.origin =~= url.origin);
        assert(again.path =~= url.path);
        assert(main2.skip(at as int + 1) =~= parts.path.skip(k as int + 1));
        assert(behind(t, '#') == behind(s, '#')) by {
            if main.len() < s.len() {
                assert(t.skip(main.len() as int + 1) =~= s.skip(main.len() as int + 1));
            }
        }
        assert(again =~= url);
    }
}

} // verus!
