# clash_profiles

Profiles of a Clash client: what is made of the response of a subscription, in which order the
ways of fetching one are tried, which profiles a user can select and which one is in use, and how
profiles are added, switched and updated.

`src/` is the library, verified with Verus. It touches neither disk nor network: an operation that
needs them names the next thing to do as a step, and is told how it went.

- `text`, `headers`, `url`: small functions on text, response headers, subscription addresses
- `profile`: profiles, their options, and the list of them
- `from_url`: from a response to a profile
- `fallback`: the calls that an import or an update tries
- `store`, `update`: the profile list, and the steps that change it
- `outside`: what is taken on trust from other crates

`app/` carries the steps out: it loads and saves the profiles with `clash_verge_core` and fetches
through a `Fetch` that its user provides.
