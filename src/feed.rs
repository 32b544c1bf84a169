//! The feed: one channel, with one item for each video record.
use vstd::prelude::*;
use vstd::string::StringExecFns;
use crate::date::{normalize, normalized};
use crate::record::VideoRecord;
use crate::text::{trim_field, trimmed};

verus! {

/// The JSON keys read from each video record.
pub const TITLE_KEY: &'static str = "title";
pub const URL_KEY: &'static str = "original_url";
pub const UPLOADER_KEY: &'static str = "uploader";
pub const DESCRIPTION_KEY: &'static str = "description";
pub const DATE_KEY: &'static str = "upload_date";
pub const THUMBNAIL_KEY: &'static str = "thumbnail";

/// The channel title used when no uploader is known.
pub const UNKNOWN_UPLOADER: &'static str = "Uploader not found";

/// One RSS item.
pub struct FeedItem {
    pub title: Option<String>,
    pub link: Option<String>,
    pub description: Option<String>,
    /// An HTML link around the thumbnail image; present when both the link
    /// and the thumbnail are.
    pub content: Option<String>,
    /// RFC 2822 timestamp of the upload day's midnight UTC.
    pub pub_date: Option<String>,
    pub author: Option<String>,
}

/// The RSS channel: its title and link and its items in order.
pub struct Feed {
    pub title: String,
    pub link: String,
    pub items: Vec<FeedItem>,
}

/// The value text of the first entry of `fields` under `key`.
pub open spec fn lookup(fields: Seq<(Seq<char>, Seq<char>)>, key: Seq<char>) -> Option<Seq<char>>
    decreases fields.len(),
{
    if fields.len() == 0 {
        None
    } else if fields[0].0 == key {
        Some(fields[0].1)
    } else {
        lookup(fields.drop_first(), key)
    }
}

/// The trimmed value text under `key`, if the record has that key.
pub open spec fn field(fields: Seq<(Seq<char>, Seq<char>)>, key: Seq<char>) -> Option<Seq<char>> {
    match lookup(fields, key) {
        Some(t) => Some(trimmed(t)),
        None => None,
    }
}

pub open spec fn opt_view(o: Option<String>) -> Option<Seq<char>> {
    match o {
        Some(s) => Some(s@),
        None => None,
    }
}

/// `<a href="LINK"><img src="THUMBNAIL"></a>`
pub open spec fn content_html(link: Seq<char>, thumbnail: Seq<char>) -> Seq<char> {
    "<a href=\""@ + link + "\"><img src=\""@ + thumbnail + "\"></a>"@
}

/// The item's content: the linked thumbnail where both parts are known.
pub open spec fn content_of(link: Option<Seq<char>>, thumbnail: Option<Seq<char>>) -> Option<Seq<char>> {
    match (link, thumbnail) {
        (Some(l), Some(t)) => Some(content_html(l, t)),
        _ => None,
    }
}

/// The publication date of a raw date text, where it normalises.
pub open spec fn pub_date_of(raw: Option<Seq<char>>) -> Option<Seq<char>> {
    match raw {
        Some(t) => match normalized(t) {
            Ok(s) => Some(s),
            Err(_) => None,
        },
        None => None,
    }
}

/// `it` is the item that the record `rec` gives.
pub open spec fn item_of_record(it: FeedItem, rec: Seq<(Seq<char>, Seq<char>)>) -> bool {
    &&& opt_view(it.title) == field(rec, TITLE_KEY@)
    &&& opt_view(it.link) == field(rec, URL_KEY@)
    &&& opt_view(it.description) == field(rec, DESCRIPTION_KEY@)
    &&& opt_view(it.author) == field(rec, UPLOADER_KEY@)
    &&& opt_view(it.pub_date) == pub_date_of(field(rec, DATE_KEY@))
    &&& opt_view(it.content) == content_of(field(rec, URL_KEY@), field(rec, THUMBNAIL_KEY@))
}

/// The channel title that the records give: the first record's uploader, or
/// the fallback text.
pub open spec fn channel_title(records: Seq<Seq<(Seq<char>, Seq<char>)>>) -> Seq<char> {
    if records.len() == 0 {
        UNKNOWN_UPLOADER@
    } else {
        match field(records[0], UPLOADER_KEY@) {
            Some(u) => u,
            None => UNKNOWN_UPLOADER@,
        }
    }
}

/// The value text of the first field under `key`.
pub fn field_text<'a>(record: &'a VideoRecord, key: &String) -> (r: Option<&'a str>)
    ensures
        match r {
            Some(t) => lookup(record@, key@) == Some(t@),
            None => lookup(record@, key@) is None,
        },
{
    let n = record.fields.len();
    let mut i: usize = 0;
    assert(record@.subrange(0, n as int) =~= record@);
    while i < n
        invariant
            n == record.fields@.len(),
            i <= n,
            lookup(record@, key@) == lookup(record@.subrange(i as int, n as int), key@),
        decreases n - i,
    {
        let ghost rest = record@.subrange(i as int, n as int);
        assert(rest[0] == (record.fields@[i as int].0@, record.fields@[i as int].1@));
        if record.fields[i].0 == *key {
            return Some(record.fields[i].1.as_str());
        }
        assert(rest.drop_first() =~= record@.subrange(i + 1, n as int));
        i = i + 1;
    }
    None
}

/// The trimmed value text under `key`, if the record has that key.
pub fn extract_field(record: &VideoRecord, key: &str) -> (r: Option<String>)
    ensures
        opt_view(r) == field(record@, key@),
{
    let k = key.to_owned();
    match field_text(record, &k) {
        Some(t) => Some(trim_field(t).to_owned()),
        None => None,
    }
}

/// `<a href="LINK"><img src="THUMBNAIL"></a>`, or nothing where either part is missing.
pub fn linked_thumbnail(link: &Option<String>, thumbnail: &Option<String>) -> (r: Option<String>)
    ensures
        opt_view(r) == content_of(opt_view(*link), opt_view(*thumbnail)),
{
    match (link, thumbnail) {
        (Some(l), Some(t)) => {
            let mut s = "<a href=\"".to_owned();
            s.append(l.as_str());
            s.append("\"><img src=\"");
            s.append(t.as_str());
            s.append("\"></a>");
            Some(s)
        },
        _ => None,
    }
}

/// The item that one video record gives.
pub fn build_item(record: &VideoRecord) -> (r: FeedItem)
    ensures
        item_of_record(r, record@),
{
    let title = extract_field(record, TITLE_KEY);
    let link = extract_field(record, URL_KEY);
    let description = extract_field(record, DESCRIPTION_KEY);
    let author = extract_field(record, UPLOADER_KEY);
    let thumbnail = extract_field(record, THUMBNAIL_KEY);
    let pub_date = match extract_field(record, DATE_KEY) {
        Some(raw) => match normalize(raw.as_str()) {
            Ok(s) => Some(s),
            Err(_) => None,
        },
        None => None,
    };
    let content = linked_thumbnail(&link, &thumbnail);
    FeedItem { title, link, description, content, pub_date, author }
}

/// The channel's title: the first record's uploader, or the fallback text.
pub fn build_channel_title(records: &Vec<VideoRecord>) -> (r: String)
    ensures
        r@ == channel_title(records@.map_values(|v: VideoRecord| v@)),
{
    if records.len() == 0 {
        return UNKNOWN_UPLOADER.to_owned();
    }
    assert(records@.map_values(|v: VideoRecord| v@)[0] == records@[0]@);
    match extract_field(&records[0], UPLOADER_KEY) {
        Some(u) => u,
        None => UNKNOWN_UPLOADER.to_owned(),
    }
}

/// The feed of the records, in their order, for the channel at `channel_url`.
pub fn build_feed(records: &Vec<VideoRecord>, channel_url: &str) -> (r: Feed)
    ensures
        r.title@ == channel_title(records@.map_values(|v: VideoRecord| v@)),
        r.link@ == channel_url@,
        r.items@.len() == records@.len(),
        forall|i: int| 0 <= i < records@.len() ==> item_of_record(#[trigger] r.items@[i], records@[i]@),
{
    let title = build_channel_title(records);
    let mut items: Vec<FeedItem> = Vec::new();
    let mut i: usize = 0;
    while i < records.len()
        invariant
            i <= records@.len(),
            items@.len() == i,
            forall|k: int| 0 <= k < i ==> item_of_record(#[trigger] items@[k], records@[k]@),
        decreases records@.len() - i,
    {
        let item = build_item(&records[i]);
        items.push(item);
        i = i + 1;
    }
    Feed { title, link: channel_url.to_owned(), items }
}

/// An item's title, link, description, content, publication date and author.
pub open spec fn item_fields(it: FeedItem) -> (
    Option<Seq<char>>,
    Option<Seq<char>>,
    Option<Seq<char>>,
    Option<Seq<char>>,
    Option<Seq<char>>,
    Option<Seq<char>>,
) {
    (
        opt_view(it.title),
        opt_view(it.link),
        opt_view(it.description),
        opt_view(it.content),
        opt_view(it.pub_date),
        opt_view(it.author),
    )
}

/// The RSS 2.0 document of a channel with this title and link and items with
/// these fields (see `item_fields`), in order.
pub uninterp spec fn rss_document(
    title: Seq<char>,
    link: Seq<char>,
    items: Seq<
        (
            Option<Seq<char>>,
            Option<Seq<char>>,
            Option<Seq<char>>,
            Option<Seq<char>>,
            Option<Seq<char>>,
            Option<Seq<char>>,
        ),
    >,
) -> Seq<char>;

/// Relies on rss's `Display` for `Channel` (`Channel::write_to` into memory,
/// which cannot fail there): the XML text of a channel whose title, link and
/// items' fields are these and every other field is empty.
#[verifier::external_body]
fn rss_text(feed: &Feed) -> (r: String)
    ensures
        r@ == rss_document(feed.title@, feed.link@, feed.items@.map_values(|i: FeedItem| item_fields(i))),
{
    let items = feed.items.iter().map(|i| rss::Item {
        title: i.title.clone(), link: i.link.clone(), description: i.description.clone(),
        content: i.content.clone(), pub_date: i.pub_date.clone(), author: i.author.clone(),
        ..Default::default()
    }).collect();
    let channel = rss::Channel {
        title: feed.title.clone(), link: feed.link.clone(), items, ..Default::default()
    };
    channel.to_string()
}

/// The feed as an RSS 2.0 document: the channel's title and link, and one
/// `<item>` per feed item with the fields that it has.
pub fn render_feed(feed: &Feed) -> (r: String)
    ensures
        r@ == rss_document(feed.title@, feed.link@, feed.items@.map_values(|i: FeedItem| item_fields(i))),
{
    rss_text(feed)
}

/// With no records the channel takes the fallback title.
pub proof fn lemma_no_records_fallback_title()
    ensures
        channel_title(Seq::<Seq<(Seq<char>, Seq<char>)>>::empty()) == UNKNOWN_UPLOADER@,
{
}

/// A record without a thumbnail or without a link gives an item with no
/// content, and every other field of the item is still taken from the record.
pub proof fn lemma_missing_thumbnail_omits_content(it: FeedItem, rec: Seq<(Seq<char>, Seq<char>)>)
    requires
        item_of_record(it, rec),
        field(rec, THUMBNAIL_KEY@) is None || field(rec, URL_KEY@) is None,
    ensures
        it.content is None,
        opt_view(it.title) == field(rec, TITLE_KEY@),
        opt_view(it.link) == field(rec, URL_KEY@),
{
}

} // verus!
