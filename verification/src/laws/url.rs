//! Laws of subscription addresses.

use crate::laws;
use crate::text;
use crate::url;
use crate::url::SubscriptionUrl;
use vstd::prelude::*;
use vstd::string::*;

verus! {

/// Neither `?` nor `#` stands in `s`, so it ends before the query and the fragment of an address.
pub open spec fn plain(s: Seq<char>) -> bool {
    !s.contains('?') && !s.contains('#')
}

/// A scheme, an authority, a path, a query and a fragment, each of characters that it may hold.
pub open spec fn well_formed(
    scheme: Seq<char>,
    authority: Seq<char>,
    path: Seq<char>,
    query: Option<Seq<char>>,
) -> bool {
    &&& scheme.len() > 0 && plain(scheme) && !scheme.contains(':')
    &&& authority.len() > 0 && plain(authority) && !authority.contains('/')
    &&& plain(path) && (path.len() == 0 || path[0] == '/')
    &&& query is Some ==> !query->0.contains('#')
}

/// The address with these parts, written out.
pub open spec fn address(
    scheme: Seq<char>,
    authority: Seq<char>,
    path: Seq<char>,
    query: Option<Seq<char>>,
    fragment: Option<Seq<char>>,
) -> Seq<char> {
    let base = scheme + seq![':', '/', '/'] + authority + path;
    let main = if query is Some {
        base + seq!['?'] + query->0
    } else {
        base
    };
    if fragment is Some {
        main + seq!['#'] + fragment->0
    } else {
        main
    }
}

/// A text is cut at the first of the characters that it is cut at.
pub proof fn cut_is_at_the_first(front: Seq<char>, c: char, after: Seq<char>)
    requires
        !front.contains(c),
    ensures
        url::before(front + seq![c] + after, c) == front,
        url::behind(front + seq![c] + after, c) == Some(after),
        url::before(front, c) == front,
        url::behind(front, c) is None,
{
    let s = front + seq![c] + after;
    laws::text::first_index_is_behind_what_lacks_it(front, c, after);
    assert(s.take(front.len() as int) =~= front);
    assert(s.skip(front.len() as int + 1) =~= after);
    assert(front.take(front.len() as int) =~= front);
}

proof fn lemma_base_is_plain(scheme: Seq<char>, authority: Seq<char>, path: Seq<char>, c: char)
    requires
        c == '?' || c == '#',
        !scheme.contains(c),
        !authority.contains(c),
        !path.contains(c),
    ensures
        !(scheme + seq![':', '/', '/'] + authority + path).contains(c),
{
    let mark = seq![':', '/', '/'];
    assert(!mark.contains(c));
    laws::text::lemma_lacks_both(scheme, mark, c);
    laws::text::lemma_lacks_both(scheme + mark, authority, c);
    laws::text::lemma_lacks_both(scheme + mark + authority, path, c);
}

proof fn lemma_origin(scheme: Seq<char>, authority: Seq<char>, path: Seq<char>)
    requires
        well_formed(scheme, authority, path, None),
    ensures
        url::origin_len(scheme + seq![':', '/', '/'] + authority + path) == Some(
            scheme.len() + 3 + authority.len(),
        ),
{
    let base = scheme + seq![':', '/', '/'] + authority + path;
    let colon = scheme.len();
    assert(base =~= scheme + seq![':'] + (seq!['/', '/'] + authority + path));
    laws::text::first_index_is_behind_what_lacks_it(
        scheme,
        ':',
        seq!['/', '/'] + authority + path,
    );
    assert(base[colon as int + 1] == '/' && base[colon as int + 2] == '/');
    let tail = base.skip(colon as int + 3);
    if path.len() > 0 {
        assert(tail =~= authority + seq!['/'] + path.skip(1));
        laws::text::first_index_is_behind_what_lacks_it(authority, '/', path.skip(1));
    } else {
        assert(tail =~= authority);
        laws::text::first_index_is_behind_what_lacks_it(authority, '/', Seq::empty());
    }
}

proof fn lemma_cut_off(
    base: Seq<char>,
    query: Option<Seq<char>>,
    fragment: Option<Seq<char>>,
    main: Seq<char>,
    s: Seq<char>,
)
    requires
        plain(base),
        query is Some ==> !query->0.contains('#'),
        main == (if query is Some {
            base + seq!['?'] + query->0
        } else {
            base
        }),
        s == (if fragment is Some {
            main + seq!['#'] + fragment->0
        } else {
            main
        }),
    ensures
        url::before(s, '#') == main,
        url::behind(s, '#') == fragment,
        url::before(main, '?') == base,
        url::behind(main, '?') == query,
{
    if query is Some {
        assert(!seq!['?'].contains('#'));
        laws::text::lemma_lacks_both(base, seq!['?'], '#');
        laws::text::lemma_lacks_both(base + seq!['?'], query->0, '#');
        cut_is_at_the_first(base, '?', query->0);
    } else {
        cut_is_at_the_first(base, '?', Seq::empty());
    }
    if fragment is Some {
        cut_is_at_the_first(main, '#', fragment->0);
    } else {
        cut_is_at_the_first(main, '#', Seq::empty());
    }
}

/// Every address reads as the parts that it was written from.
pub proof fn address_reads_as_its_parts(
    scheme: Seq<char>,
    authority: Seq<char>,
    path: Seq<char>,
    query: Option<Seq<char>>,
    fragment: Option<Seq<char>>,
)
    requires
        well_formed(scheme, authority, path, query),
    ensures
        url::url_parts(address(scheme, authority, path, query, fragment)) == Some(
            url::UrlModel {
                origin: scheme + seq![':', '/', '/'] + authority,
                path,
                query,
                fragment,
            },
        ),
{
    let origin = scheme + seq![':', '/', '/'] + authority;
    let base = origin + path;
    let main = if query is Some {
        base + seq!['?'] + query->0
    } else {
        base
    };
    let s = address(scheme, authority, path, query, fragment);
    lemma_base_is_plain(scheme, authority, path, '?');
    lemma_base_is_plain(scheme, authority, path, '#');
    lemma_cut_off(base, query, fragment, main, s);
    lemma_origin(scheme, authority, path);
    assert(base.take(origin.len() as int) =~= origin);
    assert(base.skip(origin.len() as int) =~= path);
}

proof fn lemma_part_lacks(s: Seq<char>, from: int, to: int, c: char)
    requires
        0 <= from <= to <= s.len(),
        !s.contains(c),
    ensures
        !s.subrange(from, to).contains(c),
{
    assert forall|i: int| 0 <= i < to - from implies #[trigger] s.subrange(from, to)[i] != c by {
        assert(s.contains(s[from + i]));
    }
}

proof fn lemma_before_lacks(s: Seq<char>, c: char)
    ensures
        !url::before(s, c).contains(c),
        url::behind(s, c) matches Some(after) ==> s == url::before(s, c) + seq![c] + after,
        url::behind(s, c) is None ==> s == url::before(s, c),
        forall|d: char| !s.contains(d) ==> !(#[trigger] url::before(s, c).contains(d)),
        forall|d: char|
            !s.contains(d) && url::behind(s, c) is Some ==> !(#[trigger] url::behind(
                s,
                c,
            )->0.contains(d)),
{
    text::lemma_first_index(s, c);
    let n = text::first_index(s, c) as int;
    assert(s.take(n) =~= s.subrange(0, n));
    assert forall|d: char| !s.contains(d) implies !(#[trigger] url::before(s, c).contains(d)) by {
        lemma_part_lacks(s, 0, n, d);
    }
    if url::behind(s, c) is Some {
        assert(s =~= url::before(s, c) + seq![c] + url::behind(s, c)->0);
        assert(s.skip(n + 1) =~= s.subrange(n + 1, s.len() as int));
        assert forall|d: char| !s.contains(d) implies !(#[trigger] url::behind(
            s,
            c,
        )->0.contains(d)) by {
            lemma_part_lacks(s, n + 1, s.len() as int, d);
        }
    } else {
        assert(s =~= url::before(s, c));
    }
}

/// Only such addresses are read: what is read has a scheme and an authority, and is the address
/// that is written with its parts.
pub proof fn what_is_read_is_an_address(s: Seq<char>) -> (found: (Seq<char>, Seq<char>))
    requires
        url::url_parts(s) is Some,
    ensures
        ({
            let parts = url::url_parts(s)->0;
            &&& well_formed(found.0, found.1, parts.path, parts.query)
            &&& parts.origin == found.0 + seq![':', '/', '/'] + found.1
            &&& s == address(found.0, found.1, parts.path, parts.query, parts.fragment)
        }),
{
    let parts = url::url_parts(s)->0;
    let main = url::before(s, '#');
    let base = url::before(main, '?');
    lemma_before_lacks(s, '#');
    lemma_before_lacks(main, '?');
    let n = url::origin_len(base)->0 as int;
    let colon = text::first_index(base, ':') as int;
    let tail = base.skip(colon + 3);
    text::lemma_first_index(base, ':');
    text::lemma_first_index(tail, '/');
    let scheme = base.subrange(0, colon);
    let authority = base.subrange(colon + 3, n);
    assert(!base.contains('#') && !base.contains('?'));
    lemma_part_lacks(base, 0, colon, '#');
    lemma_part_lacks(base, 0, colon, '?');
    lemma_part_lacks(base, colon + 3, n, '#');
    lemma_part_lacks(base, colon + 3, n, '?');
    lemma_part_lacks(base, n, base.len() as int, '#');
    lemma_part_lacks(base, n, base.len() as int, '?');
    assert(parts.path =~= base.subrange(n, base.len() as int));
    assert forall|i: int| 0 <= i < authority.len() implies #[trigger] authority[i] != '/' by {
        assert(authority[i] == tail[i]);
    }
    if parts.path.len() > 0 {
        assert(parts.path[0] == tail[n - colon - 3]);
    }
    assert(parts.origin =~= scheme + seq![':', '/', '/'] + authority);
    assert(base =~= scheme + seq![':', '/', '/'] + authority + parts.path);
    (scheme, authority)
}

/// An address without query whose path goes on behind an `&` gets what stands behind the first `&`
/// as its query. Scheme, authority and fragment stay.
pub proof fn glued_query_is_moved(
    origin: Seq<char>,
    path: Seq<char>,
    query: Seq<char>,
    fragment: Option<Seq<char>>,
)
    requires
        !path.contains('&'),
    ensures
        url::repaired(
            url::UrlModel { origin, path: path + seq!['&'] + query, query: None, fragment },
        ) == (url::UrlModel { origin, path, query: Some(query), fragment }),
{
    cut_is_at_the_first(path, '&', query);
}

/// Every other address stays as it is.
pub proof fn other_addresses_stay(
    origin: Seq<char>,
    path: Seq<char>,
    query: Option<Seq<char>>,
    fragment: Option<Seq<char>>,
)
    requires
        query is Some || !path.contains('&'),
    ensures
        url::repaired(url::UrlModel { origin, path, query, fragment }) == (url::UrlModel {
            origin,
            path,
            query,
            fragment,
        }),
{
    if !path.contains('&') {
        cut_is_at_the_first(path, '&', Seq::empty());
    }
}

/// The parts of an address are written out as the address.
pub proof fn parts_are_written_as_the_address(
    scheme: Seq<char>,
    authority: Seq<char>,
    path: Seq<char>,
    query: Option<Seq<char>>,
    fragment: Option<Seq<char>>,
)
    ensures
        url::url_text(
            url::UrlModel {
                origin: scheme + seq![':', '/', '/'] + authority,
                path,
                query,
                fragment,
            },
        ) == address(scheme, authority, path, query, fragment),
{
    assert(url::url_text(
        url::UrlModel {
            origin: scheme + seq![':', '/', '/'] + authority,
            path,
            query,
            fragment,
        },
    ) =~= address(scheme, authority, path, query, fragment));
}

/// The view of an address shows each part.
pub proof fn view_of_an_address_shows_its_parts(address: SubscriptionUrl)
    ensures
        address@.origin == address.origin@,
        address@.path == address.path@,
        address.query matches Some(query) ==> address@.query == Some(query@),
        address.query is None ==> address@.query is None,
        address.fragment matches Some(fragment) ==> address@.fragment == Some(fragment@),
        address.fragment is None ==> address@.fragment is None,
{
}

} // verus!
