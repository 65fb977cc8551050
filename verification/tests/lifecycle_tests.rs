use feedsync::error::Error;
use feedsync::feed::{RemoteChannel, RemoteItem};
use feedsync::lifecycle::{refresh_feed, refresh_feed_at, subscribe_to_feed, subscribe_to_feed_at};
use feedsync::store::{get_entries, get_entries_links, get_feed, initialize_db, Store};

fn item(link: Option<&str>) -> RemoteItem {
    RemoteItem {
        title: None,
        author: None,
        pub_date: None,
        description: None,
        content: None,
        link: link.map(|l| l.to_string()),
    }
}

fn channel(items: Vec<RemoteItem>) -> RemoteChannel {
    RemoteChannel { title: Some("a feed".to_string()), link: None, items }
}

const URL: &str = "http://example.invalid/feed";

#[test]
fn it_subscribes_to_a_feed() {
    let mut store = Store::new();
    initialize_db(&mut store).unwrap();
    let ch = channel(vec![item(Some("a")), item(Some("b")), item(Some("c"))]);
    let feed_id = subscribe_to_feed_at(&mut store, &ch, URL, 50).unwrap();
    assert_eq!(feed_id, 1);
    // subscribe inserts every remote item unconditionally
    assert_eq!(store.entry_count(), 3);
    let entries = get_entries(&store, feed_id).unwrap();
    assert_eq!(entries.len(), 3);
    assert_eq!(entries[0].link.as_deref(), Some("a"));
    assert_eq!(entries[1].link.as_deref(), Some("b"));
    assert_eq!(entries[2].link.as_deref(), Some("c"));
    let f = get_feed(&store, feed_id).unwrap();
    assert_eq!(f.feed_link.as_deref(), Some(URL));
    assert_eq!(f.refreshed_at, None);
}

#[test]
fn subscribe_inserts_duplicate_and_null_links_too() {
    let mut store = Store::new();
    initialize_db(&mut store).unwrap();
    let ch = channel(vec![item(Some("a")), item(Some("a")), item(None)]);
    let feed_id = subscribe_to_feed_at(&mut store, &ch, URL, 1).unwrap();
    assert_eq!(get_entries(&store, feed_id).unwrap().len(), 3);
}

#[test]
fn subscribe_with_the_wall_clock_succeeds() {
    let mut store = Store::new();
    initialize_db(&mut store).unwrap();
    let ch = channel(vec![item(Some("a"))]);
    let feed_id = subscribe_to_feed(&mut store, &ch, URL).unwrap();
    assert_eq!(feed_id, 1);
    assert_eq!(store.entry_count(), 1);
}

#[test]
fn subscribe_fails_before_initialization() {
    let mut store = Store::new();
    let ch = channel(vec![item(Some("a"))]);
    assert_eq!(subscribe_to_feed_at(&mut store, &ch, URL, 1), Err(Error::StorageError));
    assert_eq!(store.feed_count(), 0);
    assert_eq!(store.entry_count(), 0);
}

#[test]
fn refresh_feed_does_not_add_any_items_if_there_are_no_new_items() {
    let mut store = Store::new();
    initialize_db(&mut store).unwrap();
    let items = vec![item(Some("a")), item(Some("b"))];
    let feed_id = subscribe_to_feed_at(&mut store, &channel(items), URL, 1).unwrap();
    let again = vec![item(Some("a")), item(Some("b"))];
    let new_entry_ids = refresh_feed_at(&mut store, feed_id, &again, 2).unwrap();
    assert_eq!(new_entry_ids.len(), 0);
    assert_eq!(store.entry_count(), 2);
    // the refresh timestamp was still bumped
    assert_eq!(get_feed(&store, feed_id).unwrap().refreshed_at, Some(2));
}

#[test]
fn refresh_inserts_only_the_new_items_and_returns_their_ids() {
    let mut store = Store::new();
    initialize_db(&mut store).unwrap();
    let feed_id =
        subscribe_to_feed_at(&mut store, &channel(vec![item(Some("a"))]), URL, 1).unwrap();
    let remote = vec![item(Some("a")), item(Some("b")), item(Some("c"))];
    let ids = refresh_feed_at(&mut store, feed_id, &remote, 5).unwrap();
    assert_eq!(ids, vec![2, 3]);
    let entries = get_entries(&store, feed_id).unwrap();
    assert_eq!(entries.len(), 3);
    assert_eq!(entries[1].link.as_deref(), Some("b"));
    assert_eq!(entries[2].link.as_deref(), Some("c"));
    assert_eq!(entries[1].inserted_at, 5);
}

#[test]
fn refresh_twice_with_null_links_inserts_them_every_time() {
    // two items with no link: refreshed twice, two new entries each time
    let mut store = Store::new();
    initialize_db(&mut store).unwrap();
    let feed_id = subscribe_to_feed_at(&mut store, &channel(vec![]), URL, 1).unwrap();
    let remote = vec![item(None), item(None)];
    let first = refresh_feed_at(&mut store, feed_id, &remote, 2).unwrap();
    assert_eq!(first.len(), 2);
    let second = refresh_feed_at(&mut store, feed_id, &remote, 3).unwrap();
    assert_eq!(second.len(), 2);
    assert_eq!(store.entry_count(), 4);
}

#[test]
fn refresh_against_unknown_feed_id_fails_with_not_found() {
    let mut store = Store::new();
    initialize_db(&mut store).unwrap();
    let remote = vec![item(Some("a"))];
    let r = refresh_feed_at(&mut store, 7, &remote, 2);
    assert_eq!(r, Err(Error::NotFound));
    // no storage mutation
    assert_eq!(store.feed_count(), 0);
    assert_eq!(store.entry_count(), 0);
    let r2 = refresh_feed(&mut store, 7, &remote);
    assert_eq!(r2, Err(Error::NotFound));
    assert_eq!(store.entry_count(), 0);
}

#[test]
fn refresh_deduplicates_against_stored_links_not_remote_order() {
    let mut store = Store::new();
    initialize_db(&mut store).unwrap();
    let feed_id =
        subscribe_to_feed_at(&mut store, &channel(vec![item(Some("a")), item(Some("b"))]), URL, 1)
            .unwrap();
    // a changed remote list: one old link, one new, one null
    let remote = vec![item(Some("a")), item(Some("c")), item(None)];
    let ids = refresh_feed_at(&mut store, feed_id, &remote, 9).unwrap();
    assert_eq!(ids.len(), 2);
    let entries = get_entries(&store, feed_id).unwrap();
    assert_eq!(entries.len(), 4);
    assert_eq!(entries[2].link.as_deref(), Some("c"));
    assert_eq!(entries[3].link, None);
    // the stored distinct links now cover both old and new
    let mut links = get_entries_links(&store, feed_id).unwrap();
    links.sort();
    assert_eq!(links, vec!["a".to_string(), "b".to_string(), "c".to_string()]);
}

#[test]
fn stored_links_are_distinct_even_after_duplicate_inserts() {
    let mut store = Store::new();
    initialize_db(&mut store).unwrap();
    let ch = channel(vec![item(Some("a")), item(Some("a")), item(None)]);
    let feed_id = subscribe_to_feed_at(&mut store, &ch, URL, 1).unwrap();
    let links = get_entries_links(&store, feed_id).unwrap();
    assert_eq!(links, vec!["a".to_string()]);
}
