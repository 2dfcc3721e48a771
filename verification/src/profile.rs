//! Profiles, their options, and the list that holds them.

use crate::text;
use vstd::prelude::*;

verus! {

/// How one subscription is fetched and kept up to date.
#[derive(Debug, Clone, Copy, PartialEq, Eq)]
pub struct PrfOption {
    /// Fetch through the system proxy.
    pub with_proxy: Option<bool>,
    /// Fetch through the proxy that this client runs itself.
    pub self_proxy: Option<bool>,
    /// Minutes between two updates.
    pub update_interval: Option<u64>,
    /// Whether the profile is updated without being asked for.
    pub allow_auto_update: Option<bool>,
}

/// `over` where it says something, `under` otherwise.
pub open spec fn preferred<T>(over: Option<T>, under: Option<T>) -> Option<T> {
    if over is Some {
        over
    } else {
        under
    }
}

/// Every field of `other` that is set, and the fields of `one` for the rest.
pub open spec fn merged_options(one: PrfOption, other: PrfOption) -> PrfOption {
    PrfOption {
        with_proxy: preferred(other.with_proxy, one.with_proxy),
        self_proxy: preferred(other.self_proxy, one.self_proxy),
        update_interval: preferred(other.update_interval, one.update_interval),
        allow_auto_update: preferred(other.allow_auto_update, one.allow_auto_update),
    }
}

/// The options that say nothing.
pub open spec fn no_options() -> PrfOption {
    PrfOption { with_proxy: None, self_proxy: None, update_interval: None, allow_auto_update: None }
}

fn prefer<T: Copy>(over: Option<T>, under: Option<T>) -> (res: Option<T>)
    ensures
        res == preferred(over, under),
{
    match over {
        Some(_) => over,
        None => under,
    }
}

impl Default for PrfOption {
    fn default() -> (res: Self)
        ensures
            res == no_options(),
    {
        PrfOption {
            with_proxy: None,
            self_proxy: None,
            update_interval: None,
            allow_auto_update: None,
        }
    }
}

impl PrfOption {
    /// Lays `other` over `one`: what `other` sets wins, what it leaves open is taken from
    /// `one`. With neither there is nothing to merge.
    pub fn merge(one: Option<&Self>, other: Option<&Self>) -> (res: Option<Self>)
        ensures
            res == match (one, other) {
                (Some(a), Some(b)) => Some(merged_options(*a, *b)),
                (Some(a), None) => Some(*a),
                (None, Some(b)) => Some(*b),
                (None, None) => None,
            },
    {
        match (one, other) {
            (Some(a), Some(b)) => Some(
                PrfOption {
                    with_proxy: prefer(b.with_proxy, a.with_proxy),
                    self_proxy: prefer(b.self_proxy, a.self_proxy),
                    update_interval: prefer(b.update_interval, a.update_interval),
                    allow_auto_update: prefer(b.allow_auto_update, a.allow_auto_update),
                },
            ),
            (Some(a), None) => Some(*a),
            (None, Some(b)) => Some(*b),
            (None, None) => None,
        }
    }
}

/// The traffic and the end of a subscription, as its provider reports them.
#[derive(Debug, Clone, Copy, PartialEq, Eq)]
pub struct PrfExtra {
    pub upload: u64,
    pub download: u64,
    pub total: u64,
    pub expire: u64,
}

/// One profile of the list.
#[derive(Debug, PartialEq, Eq)]
pub struct PrfItem {
    pub uid: Option<String>,
    /// The kind of profile: `remote` for a subscription, other words for the fragments that
    /// enhance one.
    pub itype: Option<String>,
    pub name: Option<String>,
    /// Where a subscription is fetched from.
    pub url: Option<String>,
    /// The name of the file that holds the configuration.
    pub file: Option<String>,
    /// The configuration itself, until it is written to its file.
    pub file_data: Option<String>,
    /// When the profile was last fetched, in seconds since 1970.
    pub updated: Option<usize>,
}

/// What a profile says.
#[verifier::ext_equal]
pub struct ItemModel {
    pub uid: Option<Seq<char>>,
    pub itype: Option<Seq<char>>,
    pub name: Option<Seq<char>>,
    pub url: Option<Seq<char>>,
    pub file: Option<Seq<char>>,
    pub file_data: Option<Seq<char>>,
    pub updated: Option<usize>,
}

impl View for PrfItem {
    type V = ItemModel;

    open spec fn view(&self) -> ItemModel {
        ItemModel {
            uid: text::text_of(self.uid),
            itype: text::text_of(self.itype),
            name: text::text_of(self.name),
            url: text::text_of(self.url),
            file: text::text_of(self.file),
            file_data: text::text_of(self.file_data),
            updated: self.updated,
        }
    }
}

impl ItemModel {
    /// A subscription, which a user can select.
    pub open spec fn is_remote(self) -> bool {
        self.itype == Some("remote"@)
    }
}

impl Default for PrfItem {
    fn default() -> (res: Self)
        ensures
            res@ == (ItemModel {
                uid: None,
                itype: None,
                name: None,
                url: None,
                file: None,
                file_data: None,
                updated: None,
            }),
    {
        PrfItem {
            uid: None,
            itype: None,
            name: None,
            url: None,
            file: None,
            file_data: None,
            updated: None,
        }
    }
}

impl Clone for PrfItem {
    fn clone(&self) -> (res: Self)
        ensures
            res == *self,
    {
        PrfItem {
            uid: text::copy_text(&self.uid),
            itype: text::copy_text(&self.itype),
            name: text::copy_text(&self.name),
            url: text::copy_text(&self.url),
            file: text::copy_text(&self.file),
            file_data: text::copy_text(&self.file_data),
            updated: self.updated,
        }
    }
}

impl PrfItem {
    /// Whether this is a subscription.
    pub fn is_remote(&self) -> (res: bool)
        ensures
            res == self@.is_remote(),
    {
        text::is_text(&self.itype, "remote")
    }
}

/// The list of profiles and the one in use. As a patch, it holds only what is to change.
#[derive(Debug, PartialEq, Eq)]
pub struct IProfiles {
    pub current: Option<String>,
    pub items: Option<Vec<PrfItem>>,
}

/// What a list of profiles says.
#[verifier::ext_equal]
pub struct ProfilesModel {
    pub current: Option<Seq<char>>,
    pub items: Option<Seq<ItemModel>>,
}

/// What every profile of a list says.
pub open spec fn models(list: Seq<PrfItem>) -> Seq<ItemModel> {
    list.map_values(|item: PrfItem| item@)
}

impl View for IProfiles {
    type V = ProfilesModel;

    open spec fn view(&self) -> ProfilesModel {
        ProfilesModel {
            current: text::text_of(self.current),
            items: match self.items {
                Some(list) => Some(models(list@)),
                None => None,
            },
        }
    }
}

/// The position of the first profile of `items` with this UID; the length of `items` where
/// there is none.
pub open spec fn position_of(items: Seq<ItemModel>, uid: Seq<char>) -> nat
    decreases items.len(),
{
    if items.len() == 0 || items[0].uid == Some(uid) {
        0
    } else {
        1 + position_of(items.drop_first(), uid)
    }
}

pub proof fn lemma_position_of(items: Seq<ItemModel>, uid: Seq<char>)
    ensures
        position_of(items, uid) <= items.len(),
        forall|i: int|
            0 <= i < position_of(items, uid) ==> (#[trigger] items[i]).uid != Some(uid),
        position_of(items, uid) < items.len() ==> items[position_of(items, uid) as int].uid == Some(
            uid,
        ),
    decreases items.len(),
{
    if items.len() > 0 && items[0].uid != Some(uid) {
        lemma_position_of(items.drop_first(), uid);
        assert forall|i: int| 0 <= i < position_of(items, uid) implies (#[trigger] items[i]).uid
            != Some(uid) by {
            if i > 0 {
                assert(items.drop_first()[i - 1] == items[i]);
            }
        }
    }
}

/// `position_of` is the only position with these properties.
pub proof fn lemma_position_of_unique(items: Seq<ItemModel>, uid: Seq<char>, n: nat)
    requires
        n <= items.len(),
        forall|i: int| 0 <= i < n ==> (#[trigger] items[i]).uid != Some(uid),
        n < items.len() ==> items[n as int].uid == Some(uid),
    ensures
        position_of(items, uid) == n,
{
    lemma_position_of(items, uid);
    if position_of(items, uid) < n {
        assert(items[position_of(items, uid) as int].uid != Some(uid));
    }
    if n < position_of(items, uid) {
        assert(items[n as int].uid != Some(uid));
    }
}

/// The first profile of `items` with this UID.
pub open spec fn item_of(items: Seq<ItemModel>, uid: Seq<char>) -> Option<ItemModel> {
    let i = position_of(items, uid);
    if i < items.len() {
        Some(items[i as int])
    } else {
        None
    }
}

impl ProfilesModel {
    /// Every profile, in order; none where there is no list.
    pub open spec fn all(self) -> Seq<ItemModel> {
        match self.items {
            Some(items) => items,
            None => Seq::empty(),
        }
    }

    /// The subscriptions, in order.
    pub open spec fn remotes(self) -> Seq<ItemModel> {
        self.all().filter(|item: ItemModel| item.is_remote())
    }
}

/// The position of the first profile of `list` with this UID; the length of `list` where there
/// is none.
pub fn find_item(list: &Vec<PrfItem>, uid: &str) -> (res: usize)
    ensures
        res == position_of(models(list@), uid@),
{
    let mut i: usize = 0;
    while i < list.len() && !text::is_text(&list[i].uid, uid)
        invariant
            i <= list@.len(),
            forall|k: int| 0 <= k < i ==> (#[trigger] models(list@)[k]).uid != Some(uid@),
        ensures
            i <= list@.len(),
            forall|k: int| 0 <= k < i ==> (#[trigger] models(list@)[k]).uid != Some(uid@),
            i < list@.len() ==> models(list@)[i as int].uid == Some(uid@),
        decreases list@.len() - i,
    {
        i = i + 1;
    }
    proof {
        lemma_position_of_unique(models(list@), uid@, i as nat);
    }
    i
}

impl IProfiles {
    pub fn get_current(&self) -> (res: Option<&String>)
        ensures
            match res {
                Some(uid) => self@.current == Some(uid@),
                None => self@.current is None,
            },
    {
        self.current.as_ref()
    }

    pub fn get_items(&self) -> (res: Option<&Vec<PrfItem>>)
        ensures
            match res {
                Some(list) => self@.items == Some(models(list@)),
                None => self@.items is None,
            },
    {
        self.items.as_ref()
    }

    /// The first profile with this UID.
    pub fn get_item(&self, uid: &str) -> (res: Option<&PrfItem>)
        ensures
            match res {
                Some(item) => item_of(self@.all(), uid@) == Some(item@),
                None => item_of(self@.all(), uid@) is None,
            },
    {
        match &self.items {
            Some(list) => {
                let i: usize = find_item(list, uid);
                if i < list.len() {
                    Some(&list[i])
                } else {
                    None
                }
            },
            None => None,
        }
    }
}

/// Laying options over one another is associative.
pub proof fn merge_is_associative(a: PrfOption, b: PrfOption, c: PrfOption)
    ensures
        merged_options(merged_options(a, b), c) == merged_options(a, merged_options(b, c)),
{
}

/// Options that say nothing change nothing, and leave everything to what is laid over them.
pub proof fn empty_options_are_neutral(option: PrfOption)
    ensures
        merged_options(option, no_options()) == option,
        merged_options(no_options(), option) == option,
{
}

/// Laying options over themselves changes nothing.
pub proof fn merge_is_idempotent(option: PrfOption)
    ensures
        merged_options(option, option) == option,
{
}

} // verus!
