//! Diary entries as the upstream API reports them.

use vstd::prelude::*;

verus! {

/// The mathematical content of one diary entry: its text fields as
/// character sequences and its two timestamps in milliseconds since the
/// Unix epoch.
pub ghost struct EntryModel {
    pub id: Seq<char>,
    pub author: Seq<char>,
    pub content_md: Seq<char>,
    pub created_at: int,
    pub last_updated_at: int,
}

/// One diary entry decoded from the upstream response. Timestamps are
/// milliseconds since the Unix epoch, within the renderable span of
/// [`crate::time::RFC2822_MIN_MS`] to [`crate::time::RFC2822_MAX_MS`].
pub struct Entry {
    pub id: String,
    pub author: String,
    pub content_md: String,
    pub created_at_ms: i64,
    pub last_updated_at_ms: i64,
}

impl View for Entry {
    type V = EntryModel;

    open spec fn view(&self) -> EntryModel {
        EntryModel {
            id: self.id@,
            author: self.author@,
            content_md: self.content_md@,
            created_at: self.created_at_ms as int,
            last_updated_at: self.last_updated_at_ms as int,
        }
    }
}

/// Both timestamps of the entry lie in the renderable span, so its dates
/// can be formatted.
pub open spec fn entry_ts_ok(e: Entry) -> bool {
    &&& crate::time::RFC2822_MIN_MS <= e.created_at_ms <= crate::time::RFC2822_MAX_MS
    &&& crate::time::RFC2822_MIN_MS <= e.last_updated_at_ms <= crate::time::RFC2822_MAX_MS
}

/// The models of a sequence of entries, in order.
pub open spec fn models_of(s: Seq<Entry>) -> Seq<EntryModel> {
    s.map(|i: int, e: Entry| e@)
}

} // verus!
