use feedsync::feed::RemoteItem;
use feedsync::reconcile::reconcile;

fn item(link: Option<&str>) -> RemoteItem {
    RemoteItem {
        title: None,
        author: None,
        pub_date: None,
        description: None,
        content: None,
        link: link.map(|l| l.to_string()),
    }
}

#[test]
fn reconcile_is_a_set_difference_scenario() {
    // local set {"a","b"}; remote [a, c, null] -> [c, null], in that order
    let remote = vec![item(Some("a")), item(Some("c")), item(None)];
    let local = vec!["a".to_string(), "b".to_string()];
    let new = reconcile(&remote, &local);
    assert_eq!(new.len(), 2);
    assert_eq!(new[0].link.as_deref(), Some("c"));
    assert_eq!(new[1].link, None);
}

#[test]
fn reconcile_empty_remote_selects_nothing() {
    let remote: Vec<RemoteItem> = vec![];
    let local = vec!["a".to_string()];
    assert_eq!(reconcile(&remote, &local).len(), 0);
}

#[test]
fn reconcile_empty_local_selects_everything_in_order() {
    let remote = vec![item(Some("x")), item(None), item(Some("y"))];
    let local: Vec<String> = vec![];
    let new = reconcile(&remote, &local);
    assert_eq!(new.len(), 3);
    assert_eq!(new[0].link.as_deref(), Some("x"));
    assert_eq!(new[1].link, None);
    assert_eq!(new[2].link.as_deref(), Some("y"));
}

#[test]
fn reconcile_keeps_remote_duplicates_of_a_new_link() {
    // both copies of an unseen link are selected: the local set, not the
    // remote list, is what deduplicates
    let remote = vec![item(Some("c")), item(Some("c"))];
    let local = vec!["a".to_string()];
    let new = reconcile(&remote, &local);
    assert_eq!(new.len(), 2);
}

#[test]
fn reconcile_null_links_are_always_new() {
    let remote = vec![item(None), item(None)];
    let local = vec!["a".to_string(), "b".to_string()];
    let new = reconcile(&remote, &local);
    assert_eq!(new.len(), 2);
}

#[test]
fn reconcile_filters_every_known_link() {
    let remote = vec![item(Some("a")), item(Some("b"))];
    let local = vec!["a".to_string(), "b".to_string()];
    assert_eq!(reconcile(&remote, &local).len(), 0);
}
