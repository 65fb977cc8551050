use vstd::prelude::*;

use crate::error::Error;
use crate::feed::{
    EntryId, EntryView, FeedId, RemoteChannel, RemoteChannelView, RemoteItem, RemoteItemView,
};
use crate::reconcile::{is_new_item, lemma_reconcile_membership, reconcile, reconcile_spec};
use crate::store::{
    add_item_to_feed, create_feed, entry_from_item, get_entries_links, update_feed_refreshed_at,
    Store, StoreView,
};

verus! {

/// The entry records that storing a sequence of remote items appends: one
/// per item, in order, with consecutive ids starting at `first_id`.
pub open spec fn entries_for_items(
    items: Seq<RemoteItemView>,
    feed_id: i64,
    first_id: int,
    now: i64,
) -> Seq<EntryView> {
    Seq::new(items.len(), |k: int| entry_from_item(items[k], (first_id + k) as i64, feed_id, now))
}

/// Subscribing accepts when the schema is initialized and the store has
/// room for the new feed record and for every one of its items.
pub open spec fn can_subscribe(s: StoreView, ch: RemoteChannelView) -> bool {
    s.initialized && s.feeds.len() < i64::MAX && s.entries.len() + ch.items.len() <= i64::MAX
}

/// The store after subscribing: one new feed record, and one entry record
/// per remote item — unconditionally, with no reconciliation, since a first
/// subscription starts from an empty local set.
pub open spec fn apply_subscribe(
    s: StoreView,
    ch: RemoteChannelView,
    url: Seq<char>,
    now: i64,
) -> StoreView {
    StoreView {
        entries: s.entries + entries_for_items(
            ch.items,
            (s.feeds.len() + 1) as i64,
            s.entries.len() as int + 1,
            now,
        ),
        ..s.with_feed(ch.title, ch.link, url, now)
    }
}

/// The new items a refresh selects: the remote items whose link is not yet
/// stored for the feed, plus every item without a link, in remote order.
pub open spec fn refresh_selected(
    s: StoreView,
    feed_id: i64,
    items: Seq<RemoteItemView>,
) -> Seq<RemoteItemView> {
    reconcile_spec(items, s.links_of(feed_id))
}

/// The ids of the entry records a successful refresh creates, in insertion
/// order.
pub open spec fn refresh_new_ids(s: StoreView, feed_id: i64, items: Seq<RemoteItemView>) -> Seq<
    i64,
> {
    Seq::new(refresh_selected(s, feed_id, items).len(), |k: int| (s.entries.len() + 1 + k) as i64)
}

/// The store after a successful refresh: entry records appended for exactly
/// the selected new items, and the feed's refresh timestamp set. Nothing
/// else moves; in particular no entry is ever deleted or merged.
pub open spec fn apply_refresh(
    s: StoreView,
    feed_id: i64,
    items: Seq<RemoteItemView>,
    now: i64,
) -> StoreView {
    StoreView {
        entries: s.entries + entries_for_items(
            refresh_selected(s, feed_id, items),
            feed_id,
            s.entries.len() as int + 1,
            now,
        ),
        ..s.with_refreshed_at(feed_id, now)
    }
}

/// Everything a refresh does or reports, as a relation between the store
/// before, the store after, and the result: `StorageError` on a missing
/// schema or a full store, `NotFound` on an unknown feed id — each leaving
/// the store untouched — and otherwise the ids of exactly the new entries.
pub open spec fn refresh_outcome(
    pre: StoreView,
    post: StoreView,
    feed_id: i64,
    items: Seq<RemoteItemView>,
    now: i64,
    r: Result<Seq<i64>, Error>,
) -> bool {
    if !pre.initialized {
        r == Err::<Seq<i64>, Error>(Error::StorageError) && post == pre
    } else if !pre.has_feed(feed_id) {
        r == Err::<Seq<i64>, Error>(Error::NotFound) && post == pre
    } else if pre.entries.len() + items.len() > i64::MAX {
        r == Err::<Seq<i64>, Error>(Error::StorageError) && post == pre
    } else {
        r == Ok::<Seq<i64>, Error>(refresh_new_ids(pre, feed_id, items)) && post == apply_refresh(
            pre,
            feed_id,
            items,
            now,
        )
    }
}

/// The ghost value of a refresh result: the created entry ids as a
/// sequence.
pub open spec fn ids_view(r: Result<Vec<EntryId>, Error>) -> Result<Seq<i64>, Error> {
    match r {
        Ok(v) => Ok(v@),
        Err(e) => Err(e),
    }
}

/// Subscribes to a feed whose channel was already fetched and parsed, at a
/// given insertion time: creates the feed record for `url` and inserts an
/// entry for every remote item, unconditionally. Returns the new feed's id.
/// Fails with `StorageError`, before touching anything, when the schema is
/// missing or the store lacks room.
pub fn subscribe_to_feed_at(
    store: &mut Store,
    channel: &RemoteChannel,
    url: &str,
    now: i64,
) -> (r: Result<FeedId, Error>)
    requires
        old(store)@.wf(),
    ensures
        final(store)@.wf(),
        can_subscribe(old(store)@, channel@) ==> {
            &&& r == Ok::<FeedId, Error>((old(store)@.feeds.len() + 1) as i64)
            &&& final(store)@ == apply_subscribe(old(store)@, channel@, url@, now)
        },
        !can_subscribe(old(store)@, channel@) ==> {
            &&& r == Err::<FeedId, Error>(Error::StorageError)
            &&& final(store)@ == old(store)@
        },
{
    if !store.is_initialized() {
        return Err(Error::StorageError);
    }
    if store.feed_count() as u64 >= i64::MAX as u64 {
        return Err(Error::StorageError);
    }
    if store.entry_count() as u128 + channel.items.len() as u128 > i64::MAX as u128 {
        return Err(Error::StorageError);
    }
    let feed_id = match create_feed(store, channel, url, now) {
        Ok(id) => id,
        Err(e) => {
            return Err(e);
        },
    };
    let ghost first_id: int = old(store)@.entries.len() as int + 1;
    let mut k: usize = 0;
    proof {
        assert(store@.entries =~= old(store)@.entries + entries_for_items(
            channel@.items.take(0),
            feed_id,
            first_id,
            now,
        ));
    }
    while k < channel.items.len()
        invariant
            store@.wf(),
            k <= channel.items.len(),
            can_subscribe(old(store)@, channel@),
            feed_id == (old(store)@.feeds.len() + 1) as i64,
            first_id == old(store)@.entries.len() + 1,
            store@.initialized,
            store@.feeds == old(store)@.with_feed(
                channel@.title,
                channel@.link,
                url@,
                now,
            ).feeds,
            store@.entries == old(store)@.entries + entries_for_items(
                channel@.items.take(k as int),
                feed_id,
                first_id,
                now,
            ),
        decreases channel.items.len() - k,
    {
        let ghost pre = store@;
        let item = &channel.items[k];
        proof {
            assert(channel@.items[k as int] == item@);
            assert(store@.entries.len() == old(store)@.entries.len() + k);
        }
        match add_item_to_feed(store, feed_id, item, now) {
            Ok(_) => {},
            Err(e) => {
                return Err(e);
            },
        }
        proof {
            assert(store@.entries =~= old(store)@.entries + entries_for_items(
                channel@.items.take(k + 1),
                feed_id,
                first_id,
                now,
            )) by {
                assert(store@.entries == pre.entries.push(
                    entry_from_item(item@, (pre.entries.len() + 1) as i64, feed_id, now),
                ));
            }
        }
        k = k + 1;
    }
    proof {
        assert(channel@.items.take(channel.items.len() as int) =~= channel@.items);
    }
    Ok(feed_id)
}

/// The fetch-free core of a refresh, at a given insertion time: diffs the
/// already fetched remote items against the links stored for the feed,
/// inserts exactly the new ones, and bumps the feed's refresh timestamp —
/// only after every insert succeeded. Returns the created entry ids, the
/// empty list when nothing was new. An unknown feed id fails with
/// `NotFound` and mutates nothing.
pub fn refresh_feed_at(
    store: &mut Store,
    feed_id: FeedId,
    remote_items: &Vec<RemoteItem>,
    now: i64,
) -> (r: Result<Vec<EntryId>, Error>)
    requires
        old(store)@.wf(),
    ensures
        final(store)@.wf(),
        refresh_outcome(
            old(store)@,
            final(store)@,
            feed_id,
            remote_items.deep_view(),
            now,
            ids_view(r),
        ),
{
    if !store.is_initialized() {
        return Err(Error::StorageError);
    }
    if feed_id < 1 || feed_id as u64 > store.feed_count() as u64 {
        return Err(Error::NotFound);
    }
    if store.entry_count() as u128 + remote_items.len() as u128 > i64::MAX as u128 {
        return Err(Error::StorageError);
    }
    let local_links = match get_entries_links(&*store, feed_id) {
        Ok(v) => v,
        Err(e) => {
            return Err(e);
        },
    };
    let new_items = reconcile(remote_items, &local_links);
    let ghost items = remote_items.deep_view();
    let ghost sel = refresh_selected(old(store)@, feed_id, items);
    proof {
        assert(crate::reconcile::link_set(local_links.deep_view()) =~= old(store)@.links_of(
            feed_id,
        ));
        assert(new_items.deep_view() == sel);
        broadcast use vstd::seq_lib::group_filter_ensures;

        assert(sel.len() <= items.len());
    }
    let ghost first_id: int = old(store)@.entries.len() as int + 1;
    let mut ids: Vec<EntryId> = Vec::new();
    let mut k: usize = 0;
    proof {
        assert(store@.entries =~= old(store)@.entries + entries_for_items(
            sel.take(0),
            feed_id,
            first_id,
            now,
        ));
        assert(ids@ =~= refresh_new_ids(old(store)@, feed_id, items).take(0));
    }
    while k < new_items.len()
        invariant
            store@.wf(),
            k <= new_items.len(),
            new_items.deep_view() == sel,
            sel == refresh_selected(old(store)@, feed_id, items),
            sel.len() <= items.len(),
            old(store)@.initialized,
            old(store)@.has_feed(feed_id),
            old(store)@.entries.len() + items.len() <= i64::MAX,
            first_id == old(store)@.entries.len() + 1,
            store@.initialized,
            store@.feeds == old(store)@.feeds,
            store@.entries == old(store)@.entries + entries_for_items(
                sel.take(k as int),
                feed_id,
                first_id,
                now,
            ),
            ids@ == refresh_new_ids(old(store)@, feed_id, items).take(k as int),
        decreases new_items.len() - k,
    {
        let ghost pre = store@;
        let ghost ids_pre = ids@;
        let item = &new_items[k];
        proof {
            assert(sel[k as int] == item@);
            assert(store@.entries.len() == old(store)@.entries.len() + k);
        }
        let id = match add_item_to_feed(store, feed_id, item, now) {
            Ok(id) => id,
            Err(e) => {
                return Err(e);
            },
        };
        ids.push(id);
        proof {
            assert(store@.entries =~= old(store)@.entries + entries_for_items(
                sel.take(k + 1),
                feed_id,
                first_id,
                now,
            )) by {
                assert(store@.entries == pre.entries.push(
                    entry_from_item(item@, (pre.entries.len() + 1) as i64, feed_id, now),
                ));
            }
            assert(ids@ =~= refresh_new_ids(old(store)@, feed_id, items).take(k + 1)) by {
                assert(ids@ == ids_pre.push(id));
                assert(refresh_new_ids(old(store)@, feed_id, items)[k as int] == (first_id
                    + k) as i64);
            }
        }
        k = k + 1;
    }
    proof {
        assert(sel.take(new_items.len() as int) =~= sel);
        assert(refresh_new_ids(old(store)@, feed_id, items).take(new_items.len() as int)
            =~= refresh_new_ids(old(store)@, feed_id, items));
    }
    match update_feed_refreshed_at(store, feed_id, now) {
        Ok(_) => {},
        Err(e) => {
            return Err(e);
        },
    }
    Ok(ids)
}

/// Relies on chrono's `Utc::now`, reduced to Unix seconds. Nothing is
/// assumed of the value: the clock may report anything.
#[verifier::external_body]
fn now_timestamp() -> i64 {
    chrono::Utc::now().timestamp()
}

/// Subscribes to a feed whose channel was already fetched and parsed,
/// stamping the new records with the clock's current time. The caller
/// fetches `url`, parses it into the channel, and hands both in.
pub fn subscribe_to_feed(store: &mut Store, channel: &RemoteChannel, url: &str) -> (r: Result<
    FeedId,
    Error,
>)
    requires
        old(store)@.wf(),
    ensures
        final(store)@.wf(),
        can_subscribe(old(store)@, channel@) ==> {
            &&& r == Ok::<FeedId, Error>((old(store)@.feeds.len() + 1) as i64)
            &&& exists|t: i64|
                final(store)@ == apply_subscribe(old(store)@, channel@, url@, t)
        },
        !can_subscribe(old(store)@, channel@) ==> {
            &&& r == Err::<FeedId, Error>(Error::StorageError)
            &&& final(store)@ == old(store)@
        },
{
    let now = now_timestamp();
    let r = subscribe_to_feed_at(store, channel, url, now);
    proof {
        if can_subscribe(old(store)@, channel@) {
            assert(final(store)@ == apply_subscribe(old(store)@, channel@, url@, now));
        }
    }
    r
}

/// Refreshes an already subscribed feed from its freshly fetched remote
/// items, stamping the new records with the clock's current time. The
/// caller looks the feed's URL up, fetches and parses it, and hands the
/// items in; an aborted fetch therefore never leaves a partial mutation.
pub fn refresh_feed(store: &mut Store, feed_id: FeedId, remote_items: &Vec<RemoteItem>) -> (r:
    Result<Vec<EntryId>, Error>)
    requires
        old(store)@.wf(),
    ensures
        final(store)@.wf(),
        exists|t: i64|
            refresh_outcome(
                old(store)@,
                final(store)@,
                feed_id,
                remote_items.deep_view(),
                t,
                ids_view(r),
            ),
{
    let now = now_timestamp();
    let r = refresh_feed_at(store, feed_id, remote_items, now);
    proof {
        assert(refresh_outcome(
            old(store)@,
            final(store)@,
            feed_id,
            remote_items.deep_view(),
            now,
            ids_view(r),
        ));
    }
    r
}

/// Predicates over remote items agreeing on every element of a sequence
/// filter it identically.
proof fn lemma_filter_congruent(
    s: Seq<RemoteItemView>,
    p: spec_fn(RemoteItemView) -> bool,
    q: spec_fn(RemoteItemView) -> bool,
)
    requires
        forall|i: int| 0 <= i < s.len() ==> p(#[trigger] s[i]) == q(s[i]),
    ensures
        s.filter(p) == s.filter(q),
    decreases s.len(),
{
    reveal_with_fuel(Seq::filter, 2);
    if s.len() != 0 {
        lemma_filter_congruent(s.drop_last(), p, q);
        assert(p(s.last()) == q(s.last()));
    }
}

/// Refreshing twice in succession against an unchanged remote item list
/// creates no duplicate of a linked item: after one refresh, the only items
/// of the same list that still count as new are exactly those without a
/// link — they alone are never deduplicated.
pub proof fn lemma_second_refresh_selects_only_null_links(
    s: StoreView,
    feed_id: i64,
    items: Seq<RemoteItemView>,
    now: i64,
)
    ensures
        refresh_selected(apply_refresh(s, feed_id, items, now), feed_id, items) == items.filter(
            (|it: RemoteItemView| it.link is None),
        ),
{
    let s1 = apply_refresh(s, feed_id, items, now);
    let links0 = s.links_of(feed_id);
    let links1 = s1.links_of(feed_id);
    let sel = refresh_selected(s, feed_id, items);
    lemma_reconcile_membership(items, links0);
    // every link occurring in the remote list is stored after the refresh
    assert forall|i: int|
        0 <= i < items.len() && (#[trigger] items[i]).link is Some implies links1.contains(
        items[i].link->0,
    ) by {
        let l = items[i].link->0;
        if links0.contains(l) {
            let j = choose|j: int|
                0 <= j < s.entries.len() && (#[trigger] s.entries[j]).feed_id == feed_id
                    && s.entries[j].link == Some(l);
            assert(s1.entries[j] == s.entries[j]);
        } else {
            assert(is_new_item(items[i], links0));
            assert(sel.contains(items[i]));
            let k = choose|k: int| 0 <= k < sel.len() && sel[k] == items[i];
            assert(s1.entries[s.entries.len() + k] == entry_from_item(
                sel[k],
                (s.entries.len() + 1 + k) as i64,
                feed_id,
                now,
            ));
            assert(s1.entries[s.entries.len() + k].link == Some(l));
        }
    }
    assert forall|i: int| 0 <= i < items.len() implies is_new_item(#[trigger] items[i], links1)
        == (items[i].link is None) by {
        if items[i].link is Some {
            assert(links1.contains(items[i].link->0));
        }
    }
    lemma_filter_congruent(
        items,
        |it: RemoteItemView| is_new_item(it, links1),
        |it: RemoteItemView| it.link is None,
    );
}

} // verus!
