use feedsync::error::Error;
use feedsync::feed::{RemoteChannel, RemoteItem};
use feedsync::store::{
    add_item_to_feed, create_feed, get_entries, get_entry, get_feed, get_feed_titles,
    get_feed_url, initialize_db, update_feed_refreshed_at, Store,
};

fn channel(title: Option<&str>, items: Vec<RemoteItem>) -> RemoteChannel {
    RemoteChannel { title: title.map(|t| t.to_string()), link: None, items }
}

fn item(link: Option<&str>) -> RemoteItem {
    RemoteItem {
        title: Some("t".to_string()),
        author: None,
        pub_date: None,
        description: None,
        content: None,
        link: link.map(|l| l.to_string()),
    }
}

#[test]
fn operations_fail_with_storage_error_before_initialization() {
    let mut store = Store::new();
    let ch = channel(Some("a feed"), vec![]);
    assert_eq!(create_feed(&mut store, &ch, "http://example.invalid/feed", 5), Err(Error::StorageError));
    assert_eq!(add_item_to_feed(&mut store, 1, &item(None), 5), Err(Error::StorageError));
    assert_eq!(get_feed(&store, 1), Err(Error::StorageError));
    assert_eq!(get_entry(&store, 1), Err(Error::StorageError));
    assert_eq!(get_entries(&store, 1), Err(Error::StorageError));
    assert_eq!(get_feed_titles(&store), Err(Error::StorageError));
}

#[test]
fn initialize_db_twice_leaves_existing_records_untouched() {
    let mut store = Store::new();
    initialize_db(&mut store).unwrap();
    let ch = channel(Some("a feed"), vec![]);
    let id = create_feed(&mut store, &ch, "http://example.invalid/feed", 7).unwrap();
    add_item_to_feed(&mut store, id, &item(Some("x")), 8).unwrap();
    let feeds_before = get_feed(&store, id).unwrap();
    let entries_before = get_entries(&store, id).unwrap();
    initialize_db(&mut store).unwrap();
    assert_eq!(get_feed(&store, id).unwrap(), feeds_before);
    assert_eq!(get_entries(&store, id).unwrap(), entries_before);
    assert_eq!(store.feed_count(), 1);
    assert_eq!(store.entry_count(), 1);
}

#[test]
fn create_feed_assigns_consecutive_ids_and_records_fields() {
    let mut store = Store::new();
    initialize_db(&mut store).unwrap();
    let ch = RemoteChannel {
        title: Some("news".to_string()),
        link: Some("http://example.invalid".to_string()),
        items: vec![],
    };
    let first = create_feed(&mut store, &ch, "http://example.invalid/feed", 100).unwrap();
    let second = create_feed(&mut store, &ch, "http://example.invalid/feed2", 200).unwrap();
    assert_eq!(first, 1);
    assert_eq!(second, 2);
    let f = get_feed(&store, first).unwrap();
    assert_eq!(f.id, 1);
    assert_eq!(f.title.as_deref(), Some("news"));
    assert_eq!(f.feed_link.as_deref(), Some("http://example.invalid/feed"));
    assert_eq!(f.link.as_deref(), Some("http://example.invalid"));
    assert_eq!(f.refreshed_at, None);
    assert_eq!(f.inserted_at, 100);
    assert_eq!(f.updated_at, 100);
}

#[test]
fn add_item_to_feed_records_the_item_fields() {
    let mut store = Store::new();
    initialize_db(&mut store).unwrap();
    let ch = channel(Some("a feed"), vec![]);
    let fid = create_feed(&mut store, &ch, "http://example.invalid/feed", 1).unwrap();
    let it = RemoteItem {
        title: Some("headline".to_string()),
        author: Some("someone".to_string()),
        pub_date: Some("2020-01-01".to_string()),
        description: Some("short".to_string()),
        content: Some("long".to_string()),
        link: Some("http://example.invalid/1".to_string()),
    };
    let eid = add_item_to_feed(&mut store, fid, &it, 42).unwrap();
    assert_eq!(eid, 1);
    let e = get_entry(&store, eid).unwrap();
    assert_eq!(e.id, 1);
    assert_eq!(e.feed_id, fid);
    assert_eq!(e.title.as_deref(), Some("headline"));
    assert_eq!(e.author.as_deref(), Some("someone"));
    assert_eq!(e.pub_date.as_deref(), Some("2020-01-01"));
    assert_eq!(e.description.as_deref(), Some("short"));
    assert_eq!(e.content.as_deref(), Some("long"));
    assert_eq!(e.link.as_deref(), Some("http://example.invalid/1"));
    assert_eq!(e.read_on, None);
    assert_eq!(e.inserted_at, 42);
    assert_eq!(e.updated_at, 42);
}

#[test]
fn get_feed_and_get_entry_fail_with_not_found_for_unknown_ids() {
    let mut store = Store::new();
    initialize_db(&mut store).unwrap();
    assert_eq!(get_feed(&store, 1), Err(Error::NotFound));
    assert_eq!(get_entry(&store, 1), Err(Error::NotFound));
    assert_eq!(get_feed(&store, 0), Err(Error::NotFound));
    assert_eq!(get_feed(&store, -3), Err(Error::NotFound));
}

#[test]
fn get_feed_url_projects_the_fetch_url() {
    let mut store = Store::new();
    initialize_db(&mut store).unwrap();
    let ch = channel(None, vec![]);
    let fid = create_feed(&mut store, &ch, "http://example.invalid/feed", 1).unwrap();
    assert_eq!(get_feed_url(&store, fid).unwrap(), "http://example.invalid/feed".to_string());
    assert_eq!(get_feed_url(&store, 9), Err(Error::NotFound));
}

#[test]
fn update_feed_refreshed_at_sets_only_that_timestamp() {
    let mut store = Store::new();
    initialize_db(&mut store).unwrap();
    let ch = channel(Some("a feed"), vec![]);
    let fid = create_feed(&mut store, &ch, "http://example.invalid/feed", 10).unwrap();
    update_feed_refreshed_at(&mut store, fid, 99).unwrap();
    let f = get_feed(&store, fid).unwrap();
    assert_eq!(f.refreshed_at, Some(99));
    assert_eq!(f.inserted_at, 10);
    assert_eq!(f.updated_at, 10);
    assert_eq!(update_feed_refreshed_at(&mut store, 5, 99), Err(Error::NotFound));
}

#[test]
fn get_entries_lists_only_the_feeds_entries_in_storage_order() {
    let mut store = Store::new();
    initialize_db(&mut store).unwrap();
    let ch = channel(None, vec![]);
    let f1 = create_feed(&mut store, &ch, "http://example.invalid/1", 1).unwrap();
    let f2 = create_feed(&mut store, &ch, "http://example.invalid/2", 1).unwrap();
    add_item_to_feed(&mut store, f1, &item(Some("a")), 1).unwrap();
    add_item_to_feed(&mut store, f2, &item(Some("b")), 1).unwrap();
    add_item_to_feed(&mut store, f1, &item(Some("c")), 1).unwrap();
    let of_first = get_entries(&store, f1).unwrap();
    assert_eq!(of_first.len(), 2);
    assert_eq!(of_first[0].link.as_deref(), Some("a"));
    assert_eq!(of_first[1].link.as_deref(), Some("c"));
    let of_other = get_entries(&store, 77).unwrap();
    assert_eq!(of_other.len(), 0);
}

#[test]
fn get_feed_titles_sorts_ascending_with_missing_titles_first() {
    let mut store = Store::new();
    initialize_db(&mut store).unwrap();
    create_feed(&mut store, &channel(Some("boring"), vec![]), "http://example.invalid/1", 1)
        .unwrap();
    create_feed(&mut store, &channel(None, vec![]), "http://example.invalid/2", 1).unwrap();
    create_feed(&mut store, &channel(Some("amusing"), vec![]), "http://example.invalid/3", 1)
        .unwrap();
    let titles = get_feed_titles(&store).unwrap();
    assert_eq!(
        titles,
        vec![
            (2, "".to_string()),
            (3, "amusing".to_string()),
            (1, "boring".to_string()),
        ]
    );
}

#[test]
fn get_feed_titles_sorts_a_prefix_before_its_extensions() {
    let mut store = Store::new();
    initialize_db(&mut store).unwrap();
    create_feed(&mut store, &channel(Some("ab"), vec![]), "http://example.invalid/1", 1).unwrap();
    create_feed(&mut store, &channel(Some("a"), vec![]), "http://example.invalid/2", 1).unwrap();
    create_feed(&mut store, &channel(Some("b"), vec![]), "http://example.invalid/3", 1).unwrap();
    let titles = get_feed_titles(&store).unwrap();
    assert_eq!(
        titles,
        vec![(2, "a".to_string()), (1, "ab".to_string()), (3, "b".to_string())]
    );
}

#[test]
fn get_feed_titles_orders_by_unicode_scalar_value() {
    let mut store = Store::new();
    initialize_db(&mut store).unwrap();
    create_feed(&mut store, &channel(Some("\u{e9}clair"), vec![]), "http://example.invalid/1", 1)
        .unwrap();
    create_feed(&mut store, &channel(Some("zebra"), vec![]), "http://example.invalid/2", 1)
        .unwrap();
    let titles = get_feed_titles(&store).unwrap();
    // 'z' (122) sorts below '\u{e9}' (233)
    assert_eq!(
        titles,
        vec![(2, "zebra".to_string()), (1, "\u{e9}clair".to_string())]
    );
}

#[test]
fn get_feed_titles_keeps_equal_titles_together() {
    let mut store = Store::new();
    initialize_db(&mut store).unwrap();
    create_feed(&mut store, &channel(Some("same"), vec![]), "http://example.invalid/1", 1)
        .unwrap();
    create_feed(&mut store, &channel(Some("same"), vec![]), "http://example.invalid/2", 1)
        .unwrap();
    let mut titles = get_feed_titles(&store).unwrap();
    titles.sort();
    assert_eq!(titles, vec![(1, "same".to_string()), (2, "same".to_string())]);
}
