use vstd::prelude::*;
use vstd::pervasive::VecAdditionalExecFns;

use crate::error::Error;
use crate::order::{sort_by_title, titles_sorted};
use crate::feed::{
    clone_opt_string, Entry, EntryId, EntryView, Feed, FeedId, FeedView, RemoteChannel, RemoteItem,
    RemoteItemView,
};

verus! {

/// Mathematical model of the record store: whether the schema has been
/// initialized, and the feed and entry records in insertion order.
pub ghost struct StoreView {
    pub initialized: bool,
    pub feeds: Seq<FeedView>,
    pub entries: Seq<EntryView>,
}

impl StoreView {
    /// Validity of the store: record ids are consecutive from 1 in insertion
    /// order, so an id both names a record and locates it.
    pub open spec fn wf(self) -> bool {
        &&& forall|i: int| 0 <= i < self.feeds.len() ==> (#[trigger] self.feeds[i]).id == i + 1
        &&& forall|j: int|
            0 <= j < self.entries.len() ==> (#[trigger] self.entries[j]).id == j + 1
        &&& self.feeds.len() <= i64::MAX
        &&& self.entries.len() <= i64::MAX
    }

    /// The store after schema initialization: the schema exists, the records
    /// are untouched.
    pub open spec fn initialize(self) -> StoreView {
        StoreView { initialized: true, ..self }
    }

    pub open spec fn has_feed(self, feed_id: i64) -> bool {
        1 <= feed_id <= self.feeds.len()
    }

    pub open spec fn feed_at(self, feed_id: i64) -> FeedView {
        self.feeds[feed_id - 1]
    }

    pub open spec fn has_entry(self, entry_id: i64) -> bool {
        1 <= entry_id <= self.entries.len()
    }

    pub open spec fn entry_at(self, entry_id: i64) -> EntryView {
        self.entries[entry_id - 1]
    }

    /// The distinct set of non-null link values currently stored for a feed:
    /// the identity key that reconciliation deduplicates against.
    pub open spec fn links_of(self, feed_id: i64) -> Set<Seq<char>> {
        Set::new(
            |l: Seq<char>|
                exists|j: int|
                    0 <= j < self.entries.len() && (#[trigger] self.entries[j]).feed_id == feed_id
                        && self.entries[j].link == Some(l),
        )
    }

    /// The store accepts one more feed record.
    pub open spec fn can_add_feed(self) -> bool {
        self.initialized && self.feeds.len() < i64::MAX
    }

    /// The store accepts one more entry record.
    pub open spec fn can_add_entry(self) -> bool {
        self.initialized && self.entries.len() < i64::MAX
    }

    /// The store after inserting a feed record with the next free id.
    pub open spec fn with_feed(
        self,
        title: Option<Seq<char>>,
        link: Option<Seq<char>>,
        feed_link: Seq<char>,
        now: i64,
    ) -> StoreView {
        StoreView {
            feeds: self.feeds.push(
                FeedView {
                    id: (self.feeds.len() + 1) as i64,
                    title,
                    feed_link: Some(feed_link),
                    link,
                    refreshed_at: None,
                    inserted_at: now,
                    updated_at: now,
                },
            ),
            ..self
        }
    }

    /// The store after inserting the entry record for one remote item with
    /// the next free id.
    pub open spec fn with_entry(self, feed_id: i64, item: RemoteItemView, now: i64) -> StoreView {
        StoreView {
            entries: self.entries.push(
                entry_from_item(item, (self.entries.len() + 1) as i64, feed_id, now),
            ),
            ..self
        }
    }

    /// The store after bumping one feed's refresh timestamp.
    pub open spec fn with_refreshed_at(self, feed_id: i64, timestamp: i64) -> StoreView {
        StoreView {
            feeds: self.feeds.update(
                feed_id - 1,
                FeedView { refreshed_at: Some(timestamp), ..self.feeds[feed_id - 1] },
            ),
            ..self
        }
    }
}

/// The entry record that storing a given remote item produces: the item's
/// fields verbatim, no read marker, both timestamps set to the insertion
/// time.
pub open spec fn entry_from_item(
    item: RemoteItemView,
    id: i64,
    feed_id: i64,
    now: i64,
) -> EntryView {
    EntryView {
        id,
        feed_id,
        title: item.title,
        author: item.author,
        pub_date: item.pub_date,
        description: item.description,
        content: item.content,
        link: item.link,
        read_on: None,
        inserted_at: now,
        updated_at: now,
    }
}

/// The record store: feed and entry records in insertion order, append-only.
/// Records are kept in memory; persisting them to a relational engine is the
/// caller's concern. The capacity bound of `i64` ids stands in for the
/// engine's row limit: an insert past it is a constraint violation.
pub struct Store {
    initialized: bool,
    feeds: Vec<Feed>,
    entries: Vec<Entry>,
}

impl View for Store {
    type V = StoreView;

    closed spec fn view(&self) -> StoreView {
        StoreView {
            initialized: self.initialized,
            feeds: self.feeds.deep_view(),
            entries: self.entries.deep_view(),
        }
    }
}

impl Store {
    /// A fresh store: no records, schema not yet initialized.
    pub fn new() -> (s: Store)
        ensures
            s@ == (StoreView {
                initialized: false,
                feeds: Seq::<FeedView>::empty(),
                entries: Seq::<EntryView>::empty(),
            }),
            s@.wf(),
    {
        let s = Store { initialized: false, feeds: Vec::new(), entries: Vec::new() };
        proof {
            assert(s.feeds.deep_view() =~= Seq::<FeedView>::empty());
            assert(s.entries.deep_view() =~= Seq::<EntryView>::empty());
        }
        s
    }

    /// Whether the schema has been initialized.
    pub fn is_initialized(&self) -> (b: bool)
        ensures
            b == self@.initialized,
    {
        self.initialized
    }

    /// The number of feed records in the store.
    pub fn feed_count(&self) -> (n: usize)
        ensures
            n == self@.feeds.len(),
    {
        self.feeds.len()
    }

    /// The number of entry records in the store.
    pub fn entry_count(&self) -> (n: usize)
        ensures
            n == self@.entries.len(),
    {
        self.entries.len()
    }
}

/// Schema initialization is idempotent: initializing an already initialized
/// store is the same as initializing it once, and initialization never
/// touches the records.
pub proof fn lemma_initialize_idempotent(s: StoreView)
    ensures
        s.initialize().initialize() == s.initialize(),
        s.initialize().feeds == s.feeds,
        s.initialize().entries == s.entries,
{
}

/// Creates the two record collections. Idempotent: invoking it on an already
/// initialized store leaves every existing record untouched.
pub fn initialize_db(store: &mut Store) -> (r: Result<(), Error>)
    requires
        old(store)@.wf(),
    ensures
        final(store)@ == old(store)@.initialize(),
        final(store)@.wf(),
        r is Ok,
{
    store.initialized = true;
    Ok(())
}

/// Inserts a new feed row for a fetched remote channel: the channel's title
/// and site link, the URL the channel was fetched from, and both bookkeeping
/// timestamps set to the insertion time. Returns the new feed's id. Fails
/// with `StorageError` when the schema is missing or the store is full.
pub fn create_feed(store: &mut Store, feed: &RemoteChannel, feed_link: &str, now: i64) -> (r:
    Result<FeedId, Error>)
    requires
        old(store)@.wf(),
    ensures
        final(store)@.wf(),
        old(store)@.can_add_feed() ==> {
            &&& r == Ok::<FeedId, Error>((old(store)@.feeds.len() + 1) as i64)
            &&& final(store)@ == old(store)@.with_feed(feed@.title, feed@.link, feed_link@, now)
        },
        !old(store)@.can_add_feed() ==> {
            &&& r == Err::<FeedId, Error>(Error::StorageError)
            &&& final(store)@ == old(store)@
        },
{
    if !store.initialized {
        return Err(Error::StorageError);
    }
    if store.feeds.len() as u64 >= i64::MAX as u64 {
        return Err(Error::StorageError);
    }
    let id: i64 = store.feeds.len() as i64 + 1;
    let f = Feed {
        id,
        title: clone_opt_string(&feed.title),
        feed_link: Some(feed_link.to_owned()),
        link: clone_opt_string(&feed.link),
        refreshed_at: None,
        inserted_at: now,
        updated_at: now,
    };
    let ghost fv = f@;
    store.feeds.push(f);
    proof {
        assert(store.feeds.deep_view() =~= old(store).feeds.deep_view().push(fv));
    }
    Ok(id)
}

/// Inserts the entry row for one remote item of a feed: the item's fields,
/// no read marker, both timestamps set to the insertion time. Returns the
/// new entry's id. Inserts for the same feed are independent; the feed id is
/// not checked (the reference is foreign-key-like, not enforced). Fails with
/// `StorageError` when the schema is missing or the store is full.
pub fn add_item_to_feed(store: &mut Store, feed_id: FeedId, item: &RemoteItem, now: i64) -> (r:
    Result<EntryId, Error>)
    requires
        old(store)@.wf(),
    ensures
        final(store)@.wf(),
        old(store)@.can_add_entry() ==> {
            &&& r == Ok::<EntryId, Error>((old(store)@.entries.len() + 1) as i64)
            &&& final(store)@ == old(store)@.with_entry(feed_id, item@, now)
        },
        !old(store)@.can_add_entry() ==> {
            &&& r == Err::<EntryId, Error>(Error::StorageError)
            &&& final(store)@ == old(store)@
        },
{
    if !store.initialized {
        return Err(Error::StorageError);
    }
    if store.entries.len() as u64 >= i64::MAX as u64 {
        return Err(Error::StorageError);
    }
    let id: i64 = store.entries.len() as i64 + 1;
    let e = Entry {
        id,
        feed_id,
        title: clone_opt_string(&item.title),
        author: clone_opt_string(&item.author),
        pub_date: clone_opt_string(&item.pub_date),
        description: clone_opt_string(&item.description),
        content: clone_opt_string(&item.content),
        link: clone_opt_string(&item.link),
        read_on: None,
        inserted_at: now,
        updated_at: now,
    };
    let ghost ev = e@;
    store.entries.push(e);
    proof {
        assert(store.entries.deep_view() =~= old(store).entries.deep_view().push(ev));
        assert(ev == entry_from_item(item@, id, feed_id, now));
    }
    Ok(id)
}

/// Looks a feed record up by id. Fails with `NotFound` when no such id
/// exists, and with `StorageError` when the schema is missing.
pub fn get_feed(store: &Store, feed_id: FeedId) -> (r: Result<Feed, Error>)
    requires
        store@.wf(),
    ensures
        match r {
            Ok(f) => store@.initialized && store@.has_feed(feed_id) && f@ == store@.feed_at(
                feed_id,
            ),
            Err(e) => {
                &&& !(store@.initialized && store@.has_feed(feed_id))
                &&& e == if store@.initialized {
                    Error::NotFound
                } else {
                    Error::StorageError
                }
            },
        },
{
    if !store.initialized {
        return Err(Error::StorageError);
    }
    if feed_id < 1 || feed_id as u64 > store.feeds.len() as u64 {
        return Err(Error::NotFound);
    }
    let i = (feed_id - 1) as usize;
    let f = &store.feeds[i];
    Ok(f.clone())
}

/// Looks an entry record up by id. Fails with `NotFound` when no such id
/// exists, and with `StorageError` when the schema is missing.
pub fn get_entry(store: &Store, entry_id: EntryId) -> (r: Result<Entry, Error>)
    requires
        store@.wf(),
    ensures
        match r {
            Ok(e) => store@.initialized && store@.has_entry(entry_id) && e@ == store@.entry_at(
                entry_id,
            ),
            Err(e) => {
                &&& !(store@.initialized && store@.has_entry(entry_id))
                &&& e == if store@.initialized {
                    Error::NotFound
                } else {
                    Error::StorageError
                }
            },
        },
{
    if !store.initialized {
        return Err(Error::StorageError);
    }
    if entry_id < 1 || entry_id as u64 > store.entries.len() as u64 {
        return Err(Error::NotFound);
    }
    let i = (entry_id - 1) as usize;
    let e = &store.entries[i];
    Ok(e.clone())
}

/// Projection of a feed record to the URL it is fetched from, used by
/// refresh to avoid loading the full record. Fails with `NotFound` when the
/// feed is absent, and with `StorageError` when the schema is missing or the
/// stored record has no URL (a malformed row is an error, never a panic).
pub fn get_feed_url(store: &Store, feed_id: FeedId) -> (r: Result<String, Error>)
    requires
        store@.wf(),
    ensures
        match r {
            Ok(u) => store@.initialized && store@.has_feed(feed_id) && store@.feed_at(
                feed_id,
            ).feed_link == Some(u@),
            Err(e) => {
                &&& !(store@.initialized && store@.has_feed(feed_id) && store@.feed_at(
                    feed_id,
                ).feed_link is Some)
                &&& e == if !store@.initialized {
                    Error::StorageError
                } else if !store@.has_feed(feed_id) {
                    Error::NotFound
                } else {
                    Error::StorageError
                }
            },
        },
{
    if !store.initialized {
        return Err(Error::StorageError);
    }
    if feed_id < 1 || feed_id as u64 > store.feeds.len() as u64 {
        return Err(Error::NotFound);
    }
    let i = (feed_id - 1) as usize;
    match &store.feeds[i].feed_link {
        Some(u) => Ok(u.clone()),
        None => Err(Error::StorageError),
    }
}

/// Bumps a feed's refresh timestamp. Fails with `NotFound` when the feed is
/// absent (leaving the store unchanged), and with `StorageError` when the
/// schema is missing.
pub fn update_feed_refreshed_at(store: &mut Store, feed_id: FeedId, timestamp: i64) -> (r: Result<
    (),
    Error,
>)
    requires
        old(store)@.wf(),
    ensures
        final(store)@.wf(),
        match r {
            Ok(_) => {
                &&& old(store)@.initialized
                &&& old(store)@.has_feed(feed_id)
                &&& final(store)@ == old(store)@.with_refreshed_at(feed_id, timestamp)
            },
            Err(e) => {
                &&& final(store)@ == old(store)@
                &&& !(old(store)@.initialized && old(store)@.has_feed(feed_id))
                &&& e == if old(store)@.initialized {
                    Error::NotFound
                } else {
                    Error::StorageError
                }
            },
        },
{
    if !store.initialized {
        return Err(Error::StorageError);
    }
    if feed_id < 1 || feed_id as u64 > store.feeds.len() as u64 {
        return Err(Error::NotFound);
    }
    let i = (feed_id - 1) as usize;
    let mut f = store.feeds[i].clone();
    proof {
        assert(f@ == old(store)@.feeds[i as int]);
    }
    f.refreshed_at = Some(timestamp);
    let ghost fv = f@;
    store.feeds.set(i, f);
    proof {
        assert(store.feeds.deep_view() =~= old(store).feeds.deep_view().update(i as int, fv));
        assert forall|k: int| 0 <= k < store@.feeds.len() implies (#[trigger] store@.feeds[k]).id
            == k + 1 by {
            if k == i as int {
                assert(store@.feeds[k] == fv);
                assert(fv.id == old(store)@.feeds[i as int].id);
                assert(old(store)@.feeds[i as int].id == i + 1);
            } else {
                assert(store@.feeds[k] == old(store)@.feeds[k]);
            }
        }
    }
    Ok(())
}

/// The title key a feed sorts by: its title, or the empty sequence when it
/// has none.
pub open spec fn title_key(f: FeedView) -> Seq<char> {
    match f.title {
        Some(t) => t,
        None => Seq::empty(),
    }
}

/// Lists (feed id, title) for every feed, sorted ascending by title in the
/// lexicographic order of the characters' Unicode scalar values. A feed
/// without a title is listed under the empty string, which sorts first;
/// this is the documented ordering choice for missing titles. Fails with
/// `StorageError` only when the schema is missing.
pub fn get_feed_titles(store: &Store) -> (r: Result<Vec<(FeedId, String)>, Error>)
    requires
        store@.wf(),
    ensures
        match r {
            Ok(v) => {
                &&& store@.initialized
                &&& titles_sorted(v.deep_view())
                &&& v.deep_view().to_multiset() == store@.feeds.map_values(
                    |f: FeedView| (f.id, title_key(f)),
                ).to_multiset()
            },
            Err(e) => !store@.initialized && e == Error::StorageError,
        },
{
    if !store.initialized {
        return Err(Error::StorageError);
    }
    let mut pairs: Vec<(FeedId, String)> = Vec::new();
    let mut i: usize = 0;
    proof {
        assert(pairs.deep_view() =~= store@.feeds.take(0).map_values(
            |f: FeedView| (f.id, title_key(f)),
        ));
    }
    while i < store.feeds.len()
        invariant
            store@.wf(),
            i <= store.feeds.len(),
            pairs.deep_view() =~= store@.feeds.take(i as int).map_values(
                |f: FeedView| (f.id, title_key(f)),
            ),
        decreases store.feeds.len() - i,
    {
        let ghost pre = pairs.deep_view();
        let f = &store.feeds[i];
        proof {
            assert(store@.feeds[i as int] == f@);
        }
        let title = match &f.title {
            Some(t) => t.clone(),
            None => String::new(),
        };
        let id = f.id;
        pairs.push((id, title));
        proof {
            assert(pairs.deep_view() =~= pre.push((f@.id, title_key(f@))));
            assert(store@.feeds.take(i + 1) =~= store@.feeds.take(i as int).push(
                store@.feeds[i as int],
            ));
        }
        i = i + 1;
    }
    proof {
        assert(store@.feeds.take(store.feeds.len() as int) =~= store@.feeds);
    }
    let sorted = sort_by_title(pairs);
    Ok(sorted)
}

/// Lists the entries belonging to a feed, in storage order. An unknown feed
/// id yields the empty list. Fails with `StorageError` only when the schema
/// is missing.
pub fn get_entries(store: &Store, feed_id: FeedId) -> (r: Result<Vec<Entry>, Error>)
    requires
        store@.wf(),
    ensures
        match r {
            Ok(v) => store@.initialized && v.deep_view() == store@.entries.filter(
                |e: EntryView| e.feed_id == feed_id,
            ),
            Err(e) => !store@.initialized && e == Error::StorageError,
        },
{
    if !store.initialized {
        return Err(Error::StorageError);
    }
    let mut result: Vec<Entry> = Vec::new();
    let mut i: usize = 0;
    proof {
        assert(result.deep_view() =~= store@.entries.take(0).filter(
            |e: EntryView| e.feed_id == feed_id,
        )) by {
            reveal_with_fuel(Seq::filter, 2);
            assert(store@.entries.take(0) =~= Seq::<EntryView>::empty());
        }
    }
    while i < store.entries.len()
        invariant
            store@.wf(),
            i <= store.entries.len(),
            result.deep_view() =~= store@.entries.take(i as int).filter(
                |e: EntryView| e.feed_id == feed_id,
            ),
        decreases store.entries.len() - i,
    {
        let ghost pre = result.deep_view();
        let e = &store.entries[i];
        if e.feed_id == feed_id {
            result.push(e.clone());
        }
        proof {
            lemma_filter_take_step(store@.entries, i as int, |ev: EntryView| ev.feed_id == feed_id);
            if e@.feed_id == feed_id {
                assert(result.deep_view() =~= pre.push(e@));
            }
        }
        i = i + 1;
    }
    proof {
        assert(store@.entries.take(store.entries.len() as int) =~= store@.entries);
    }
    Ok(result)
}

/// Extending a prefix by one element extends its filtered image by that
/// element exactly when the element satisfies the predicate.
pub(crate) proof fn lemma_filter_take_step<A>(s: Seq<A>, i: int, pred: spec_fn(A) -> bool)
    requires
        0 <= i < s.len(),
    ensures
        s.take(i + 1).filter(pred) == if pred(s[i]) {
            s.take(i).filter(pred).push(s[i])
        } else {
            s.take(i).filter(pred)
        },
{
    assert(s.take(i + 1) =~= s.take(i) + seq![s[i]]);
    broadcast use vstd::seq_lib::group_filter_ensures;

    Seq::<A>::filter_distributes_over_add(s.take(i), seq![s[i]], pred);
    reveal_with_fuel(Seq::filter, 2);
    assert(seq![s[i]].drop_last() =~= Seq::<A>::empty());
    assert(seq![s[i]].filter(pred) == if pred(s[i]) {
        seq![s[i]]
    } else {
        Seq::<A>::empty()
    });
    if pred(s[i]) {
        assert(s.take(i).filter(pred) + seq![s[i]] =~= s.take(i).filter(pred).push(s[i]));
    } else {
        assert(s.take(i).filter(pred) + Seq::<A>::empty() =~= s.take(i).filter(pred));
    }
}

/// Lists the distinct non-null link values currently stored for a feed: the
/// local identity set that reconciliation diffs against. Fails with
/// `StorageError` only when the schema is missing.
pub fn get_entries_links(store: &Store, feed_id: FeedId) -> (r: Result<Vec<String>, Error>)
    requires
        store@.wf(),
    ensures
        match r {
            Ok(v) => {
                &&& store@.initialized
                &&& forall|i: int, j: int|
                    0 <= i < j < v.deep_view().len() ==> v.deep_view()[i] != v.deep_view()[j]
                &&& v.deep_view().to_set() == store@.links_of(feed_id)
            },
            Err(e) => !store@.initialized && e == Error::StorageError,
        },
{
    if !store.initialized {
        return Err(Error::StorageError);
    }
    let mut result: Vec<String> = Vec::new();
    let mut i: usize = 0;
    while i < store.entries.len()
        invariant
            store@.wf(),
            i <= store.entries.len(),
            forall|a: int, b: int|
                0 <= a < b < result.deep_view().len() ==> result.deep_view()[a]
                    != result.deep_view()[b],
            forall|l: Seq<char>| #[trigger]
                result.deep_view().contains(l) <==> exists|j: int|
                    0 <= j < i && (#[trigger] store@.entries[j]).feed_id == feed_id
                        && store@.entries[j].link == Some(l),
        decreases store.entries.len() - i,
    {
        let ghost pre = result.deep_view();
        let ghost entries = store@.entries;
        let e = &store.entries[i];
        proof {
            assert(entries[i as int] == e@);
        }
        if e.feed_id == feed_id {
            match &e.link {
                Some(l) => {
                    if !vec_contains_string(&result, l) {
                        result.push(l.clone());
                        proof {
                            assert(result.deep_view() =~= pre.push(l@));
                            assert(e@.link == Some(l@));
                            assert forall|x: Seq<char>| #[trigger]
                                result.deep_view().contains(x) implies exists|j: int|
                                0 <= j < i + 1 && (#[trigger] entries[j]).feed_id == feed_id
                                    && entries[j].link == Some(x) by {
                                let k = choose|k: int|
                                    0 <= k < result.deep_view().len() && result.deep_view()[k]
                                        == x;
                                if k < pre.len() {
                                    assert(pre[k] == x);
                                    assert(pre.contains(x));
                                } else {
                                    assert(x == l@);
                                    assert((entries[i as int]).feed_id == feed_id
                                        && entries[i as int].link == Some(x));
                                }
                            }
                            assert forall|x: Seq<char>|
                                (exists|j: int|
                                    0 <= j < i + 1 && (#[trigger] entries[j]).feed_id == feed_id
                                        && entries[j].link == Some(x)) implies #[trigger]
                            result.deep_view().contains(x) by {
                                let j = choose|j: int|
                                    0 <= j < i + 1 && (#[trigger] entries[j]).feed_id == feed_id
                                        && entries[j].link == Some(x);
                                if j < i {
                                    assert(pre.contains(x));
                                    let k = choose|k: int|
                                        0 <= k < pre.len() && pre[k] == x;
                                    assert(result.deep_view()[k] == x);
                                } else {
                                    assert(x == l@);
                                    assert(result.deep_view()[pre.len() as int] == l@);
                                }
                            }
                        }
                    } else {
                        proof {
                            assert(pre.contains(l@));
                            assert(e@.link == Some(l@));
                            assert forall|x: Seq<char>|
                                (exists|j: int|
                                    0 <= j < i + 1 && (#[trigger] entries[j]).feed_id == feed_id
                                        && entries[j].link == Some(x)) implies #[trigger]
                            result.deep_view().contains(x) by {
                                let j = choose|j: int|
                                    0 <= j < i + 1 && (#[trigger] entries[j]).feed_id == feed_id
                                        && entries[j].link == Some(x);
                                if j == i {
                                    assert(x == l@);
                                }
                            }
                        }
                    }
                },
                None => {
                    proof {
                        assert(e@.link is None);
                        assert forall|x: Seq<char>|
                            (exists|j: int|
                                0 <= j < i + 1 && (#[trigger] entries[j]).feed_id == feed_id
                                    && entries[j].link == Some(x)) implies #[trigger]
                        result.deep_view().contains(x) by {
                            let j = choose|j: int|
                                0 <= j < i + 1 && (#[trigger] entries[j]).feed_id == feed_id
                                    && entries[j].link == Some(x);
                            assert(j < i);
                        }
                    }
                },
            }
        } else {
            proof {
                assert(e@.feed_id != feed_id);
                assert forall|x: Seq<char>|
                    (exists|j: int|
                        0 <= j < i + 1 && (#[trigger] entries[j]).feed_id == feed_id
                            && entries[j].link == Some(x)) implies #[trigger]
                result.deep_view().contains(x) by {
                    let j = choose|j: int|
                        0 <= j < i + 1 && (#[trigger] entries[j]).feed_id == feed_id
                            && entries[j].link == Some(x);
                    assert(j < i);
                }
            }
        }
        i = i + 1;
    }
    proof {
        assert forall|l: Seq<char>| #[trigger]
            result.deep_view().to_set().contains(l) implies store@.links_of(feed_id).contains(
            l,
        ) by {}
        assert forall|l: Seq<char>| #[trigger]
            store@.links_of(feed_id).contains(l) implies result.deep_view().to_set().contains(
            l,
        ) by {}
        assert(result.deep_view().to_set() =~= store@.links_of(feed_id));
    }
    Ok(result)
}

/// Membership of a string among a vector of strings, compared by contents.
pub fn vec_contains_string(v: &Vec<String>, s: &String) -> (b: bool)
    ensures
        b == v.deep_view().contains(s@),
{
    let mut j: usize = 0;
    while j < v.len()
        invariant
            j <= v.len(),
            forall|k: int| 0 <= k < j ==> v.deep_view()[k] != s@,
        decreases v.len() - j,
    {
        if v[j] == *s {
            assert(v.deep_view()[j as int] == s@);
            return true;
        }
        j = j + 1;
    }
    assert(!v.deep_view().contains(s@));
    false
}

} // verus!
