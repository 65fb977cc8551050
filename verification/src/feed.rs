use vstd::prelude::*;

verus! {

/// Identifier of a stored feed record (opaque integer, assigned by the store).
pub type FeedId = i64;

/// Identifier of a stored entry record (opaque integer, assigned by the store).
pub type EntryId = i64;

/// Mathematical model of a feed record: strings as character sequences,
/// timestamps as seconds.
pub ghost struct FeedView {
    pub id: i64,
    pub title: Option<Seq<char>>,
    pub feed_link: Option<Seq<char>>,
    pub link: Option<Seq<char>>,
    pub refreshed_at: Option<i64>,
    pub inserted_at: i64,
    pub updated_at: i64,
}

/// Mathematical model of an entry record.
pub ghost struct EntryView {
    pub id: i64,
    pub feed_id: i64,
    pub title: Option<Seq<char>>,
    pub author: Option<Seq<char>>,
    pub pub_date: Option<Seq<char>>,
    pub description: Option<Seq<char>>,
    pub content: Option<Seq<char>>,
    pub link: Option<Seq<char>>,
    pub read_on: Option<i64>,
    pub inserted_at: i64,
    pub updated_at: i64,
}

/// Mathematical model of one item of a remote feed.
pub ghost struct RemoteItemView {
    pub title: Option<Seq<char>>,
    pub author: Option<Seq<char>>,
    pub pub_date: Option<Seq<char>>,
    pub description: Option<Seq<char>>,
    pub content: Option<Seq<char>>,
    pub link: Option<Seq<char>>,
}

/// A subscribed syndication source. `feed_link` is the URL the feed is
/// fetched from and is immutable once set; `link` is the human-facing site
/// link. Timestamps are Unix seconds.
#[derive(Debug, PartialEq)]
pub struct Feed {
    pub id: FeedId,
    pub title: Option<String>,
    pub feed_link: Option<String>,
    pub link: Option<String>,
    pub refreshed_at: Option<i64>,
    pub inserted_at: i64,
    pub updated_at: i64,
}

/// One item belonging to a feed. Within a feed, `link` is the identity key
/// used for deduplication; entries without a link are never deduplicated.
/// `read_on` is an application-level marker that reconciliation never touches.
#[derive(Debug, PartialEq)]
pub struct Entry {
    pub id: EntryId,
    pub feed_id: FeedId,
    pub title: Option<String>,
    pub author: Option<String>,
    pub pub_date: Option<String>,
    pub description: Option<String>,
    pub content: Option<String>,
    pub link: Option<String>,
    pub read_on: Option<i64>,
    pub inserted_at: i64,
    pub updated_at: i64,
}

/// One item of a remote feed as handed in by the fetch collaborator:
/// every field the wire format may or may not carry.
#[derive(Debug, PartialEq)]
pub struct RemoteItem {
    pub title: Option<String>,
    pub author: Option<String>,
    pub pub_date: Option<String>,
    pub description: Option<String>,
    pub content: Option<String>,
    pub link: Option<String>,
}

/// A remote feed as handed in by the fetch collaborator: the channel-level
/// title and site link, and the items in the feed's original order.
#[derive(Debug, PartialEq)]
pub struct RemoteChannel {
    pub title: Option<String>,
    pub link: Option<String>,
    pub items: Vec<RemoteItem>,
}

/// Mathematical model of a remote feed.
pub ghost struct RemoteChannelView {
    pub title: Option<Seq<char>>,
    pub link: Option<Seq<char>>,
    pub items: Seq<RemoteItemView>,
}

impl View for Feed {
    type V = FeedView;

    open spec fn view(&self) -> FeedView {
        FeedView {
            id: self.id,
            title: self.title.deep_view(),
            feed_link: self.feed_link.deep_view(),
            link: self.link.deep_view(),
            refreshed_at: self.refreshed_at,
            inserted_at: self.inserted_at,
            updated_at: self.updated_at,
        }
    }
}

impl DeepView for Feed {
    type V = FeedView;

    open spec fn deep_view(&self) -> FeedView {
        self.view()
    }
}

impl View for Entry {
    type V = EntryView;

    open spec fn view(&self) -> EntryView {
        EntryView {
            id: self.id,
            feed_id: self.feed_id,
            title: self.title.deep_view(),
            author: self.author.deep_view(),
            pub_date: self.pub_date.deep_view(),
            description: self.description.deep_view(),
            content: self.content.deep_view(),
            link: self.link.deep_view(),
            read_on: self.read_on,
            inserted_at: self.inserted_at,
            updated_at: self.updated_at,
        }
    }
}

impl DeepView for Entry {
    type V = EntryView;

    open spec fn deep_view(&self) -> EntryView {
        self.view()
    }
}

impl View for RemoteItem {
    type V = RemoteItemView;

    open spec fn view(&self) -> RemoteItemView {
        RemoteItemView {
            title: self.title.deep_view(),
            author: self.author.deep_view(),
            pub_date: self.pub_date.deep_view(),
            description: self.description.deep_view(),
            content: self.content.deep_view(),
            link: self.link.deep_view(),
        }
    }
}

impl DeepView for RemoteItem {
    type V = RemoteItemView;

    open spec fn deep_view(&self) -> RemoteItemView {
        self.view()
    }
}

impl View for RemoteChannel {
    type V = RemoteChannelView;

    open spec fn view(&self) -> RemoteChannelView {
        RemoteChannelView {
            title: self.title.deep_view(),
            link: self.link.deep_view(),
            items: self.items.deep_view(),
        }
    }
}

impl Clone for Feed {
    /// The copy models to the same record.
    fn clone(&self) -> (r: Self)
        ensures
            r@ == self@,
    {
        Feed {
            id: self.id,
            title: clone_opt_string(&self.title),
            feed_link: clone_opt_string(&self.feed_link),
            link: clone_opt_string(&self.link),
            refreshed_at: self.refreshed_at,
            inserted_at: self.inserted_at,
            updated_at: self.updated_at,
        }
    }
}

impl Clone for Entry {
    /// The copy models to the same record.
    fn clone(&self) -> (r: Self)
        ensures
            r@ == self@,
    {
        Entry {
            id: self.id,
            feed_id: self.feed_id,
            title: clone_opt_string(&self.title),
            author: clone_opt_string(&self.author),
            pub_date: clone_opt_string(&self.pub_date),
            description: clone_opt_string(&self.description),
            content: clone_opt_string(&self.content),
            link: clone_opt_string(&self.link),
            read_on: self.read_on,
            inserted_at: self.inserted_at,
            updated_at: self.updated_at,
        }
    }
}

impl Clone for RemoteItem {
    /// The copy models to the same item.
    fn clone(&self) -> (r: Self)
        ensures
            r@ == self@,
    {
        RemoteItem {
            title: clone_opt_string(&self.title),
            author: clone_opt_string(&self.author),
            pub_date: clone_opt_string(&self.pub_date),
            description: clone_opt_string(&self.description),
            content: clone_opt_string(&self.content),
            link: clone_opt_string(&self.link),
        }
    }
}

/// Copies an optional string; the copy models to the same character sequence.
pub fn clone_opt_string(o: &Option<String>) -> (r: Option<String>)
    ensures
        r.deep_view() == o.deep_view(),
{
    match o {
        Some(s) => Some(s.clone()),
        None => None,
    }
}

} // verus!
