//! Feed assembly: one feed document per upstream response.
//!
//! Every field of the document is a fixed function of the user id, the
//! entries in upstream order, and the assembly-time clock: the title is
//! `{user_id} -- WYWIWYA`, the links point under the site's fixed base URL,
//! the build date is the last entry's update time (or the clock when there
//! are no entries), and each entry yields one item in the same order.

use vstd::prelude::*;
use crate::entries::{Entry, EntryModel, models_of, entry_ts_ok};
use crate::time::{rfc2822_of, rfc2822_utc, RFC2822_MIN_MS, RFC2822_MAX_MS};
use vstd::string::StringExecFns;

verus! {

/// The mathematical content of one feed item.
pub ghost struct FeedItemModel {
    pub author: Seq<char>,
    pub link: Seq<char>,
    pub description: Seq<char>,
    pub pub_date: Seq<char>,
}

/// One `<item>` of the feed.
pub struct FeedItem {
    pub author: String,
    pub link: String,
    pub description: String,
    pub pub_date: String,
}

impl View for FeedItem {
    type V = FeedItemModel;

    open spec fn view(&self) -> FeedItemModel {
        FeedItemModel {
            author: self.author@,
            link: self.link@,
            description: self.description@,
            pub_date: self.pub_date@,
        }
    }
}

/// The mathematical content of the feed document.
pub ghost struct FeedDocModel {
    pub title: Seq<char>,
    pub link: Seq<char>,
    pub last_build_date: Seq<char>,
    pub items: Seq<FeedItemModel>,
}

/// The feed document: channel fields and items.
pub struct FeedDocument {
    pub title: String,
    pub link: String,
    pub last_build_date: String,
    pub items: Vec<FeedItem>,
}

impl View for FeedDocument {
    type V = FeedDocModel;

    open spec fn view(&self) -> FeedDocModel {
        FeedDocModel {
            title: self.title@,
            link: self.link@,
            last_build_date: self.last_build_date@,
            items: self.items@.map(|i: int, it: FeedItem| it@),
        }
    }
}

/// The item derived from one entry: the author, a link under the fixed view
/// URL, the raw markdown content as description, and the creation time as
/// publication date.
pub open spec fn item_of(e: EntryModel) -> FeedItemModel {
    FeedItemModel {
        author: e.author,
        link: "https://wywiwya.smallkirby.xyz/view/"@ + e.id,
        description: e.content_md,
        pub_date: rfc2822_of(e.created_at),
    }
}

/// The feed document derived from a user id, the entries in upstream order
/// and the assembly-time clock. The build date is the update time of the
/// last entry in that order, with no sorting; with no entries it is the
/// clock reading.
pub open spec fn feed_of(user_id: Seq<char>, ents: Seq<EntryModel>, now_ms: int) -> FeedDocModel {
    FeedDocModel {
        title: user_id + " -- WYWIWYA"@,
        link: "https://wywiwya.smallkirby.xyz/users/"@ + user_id,
        last_build_date: if ents.len() == 0 {
            rfc2822_of(now_ms)
        } else {
            rfc2822_of(ents.last().last_updated_at)
        },
        items: ents.map(|i: int, e: EntryModel| item_of(e)),
    }
}

/// A feed with no entries dates itself to the assembly-time clock and holds
/// no items.
pub proof fn lemma_empty_feed_uses_now(user_id: Seq<char>, now_ms: int)
    ensures
        feed_of(user_id, Seq::<EntryModel>::empty(), now_ms).items.len() == 0,
        feed_of(user_id, Seq::<EntryModel>::empty(), now_ms).last_build_date == rfc2822_of(now_ms),
{
}

/// Each entry yields exactly one item, in upstream order, and that item
/// carries the entry's author, content and dates.
pub proof fn lemma_one_item_per_entry(user_id: Seq<char>, ents: Seq<EntryModel>, now_ms: int)
    ensures
        feed_of(user_id, ents, now_ms).items.len() == ents.len(),
        forall|i: int|
            0 <= i < ents.len() ==> feed_of(user_id, ents, now_ms).items[i] == item_of(ents[i]),
{
}

/// Builds the feed document for `user_id` from the decoded entries and the
/// clock reading `now_ms`.
pub fn build_feed(user_id: &str, ents: &Vec<Entry>, now_ms: i64) -> (r: FeedDocument)
    requires
        RFC2822_MIN_MS <= now_ms <= RFC2822_MAX_MS,
        forall|k: int| 0 <= k < ents@.len() ==> entry_ts_ok(ents@[k]),
    ensures
        r@ == feed_of(user_id@, models_of(ents@), now_ms as int),
{
    let mut title = user_id.to_owned();
    title.append(" -- WYWIWYA");
    let mut link = "https://wywiwya.smallkirby.xyz/users/".to_owned();
    link.append(user_id);
    let n = ents.len();
    let last_build_date = if n == 0 {
        rfc2822_utc(now_ms)
    } else {
        rfc2822_utc(ents[n - 1].last_updated_at_ms)
    };
    let mut items: Vec<FeedItem> = Vec::new();
    let mut k: usize = 0;
    while k < n
        invariant
            k <= n,
            n == ents@.len(),
            forall|j: int| 0 <= j < ents@.len() ==> entry_ts_ok(ents@[j]),
            items@.len() == k,
            forall|j: int| 0 <= j < k ==> #[trigger] items@[j]@ == item_of(ents@[j]@),
        decreases n - k,
    {
        let e = &ents[k];
        let mut ilink = "https://wywiwya.smallkirby.xyz/view/".to_owned();
        ilink.append(e.id.as_str());
        let it = FeedItem {
            author: e.author.clone(),
            link: ilink,
            description: e.content_md.clone(),
            pub_date: rfc2822_utc(e.created_at_ms),
        };
        items.push(it);
        k = k + 1;
    }
    let r = FeedDocument { title, link, last_build_date, items };
    proof {
        let goal = feed_of(user_id@, models_of(ents@), now_ms as int);
        assert(r@.items =~= goal.items);
        assert(r@ == goal);
    }
    r
}

} // verus!
