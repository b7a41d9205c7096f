//! RSS 2.0 serialisation.
//!
//! [`spec_rss_xml`] states the exact output text: an XML declaration, one
//! `rss` element with one `channel`, the channel's `title`, `link`, empty
//! `description` (required by RSS 2.0), `lastBuildDate`, and one `item` per
//! feed item in order with `author`, `link`, `description` and `pubDate`.
//! All text content is escaped with `&amp;`, `&lt;` and `&gt;`.

use vstd::prelude::*;
use crate::feed::{FeedDocument, FeedDocModel, FeedItemModel};
use crate::strutil::{append_str, chars_of, string_from_chars};

verus! {

/// The escape of one character of text content.
pub open spec fn esc_char(c: char) -> Seq<char> {
    if c == '&' {
        "&amp;"@
    } else if c == '<' {
        "&lt;"@
    } else if c == '>' {
        "&gt;"@
    } else {
        seq![c]
    }
}

/// The escape of a text, character by character.
pub open spec fn xml_escape(s: Seq<char>) -> Seq<char>
    decreases s.len(),
{
    if s.len() == 0 {
        Seq::empty()
    } else {
        esc_char(s[0]) + xml_escape(s.drop_first())
    }
}

/// The `<item>` element of one feed item.
pub open spec fn spec_item_xml(it: FeedItemModel) -> Seq<char> {
    "<item><author>"@ + xml_escape(it.author) + "</author><link>"@ + xml_escape(it.link)
        + "</link><description>"@ + xml_escape(it.description) + "</description><pubDate>"@
        + xml_escape(it.pub_date) + "</pubDate></item>"@
}

/// The item elements, in order.
pub open spec fn spec_items_xml(items: Seq<FeedItemModel>) -> Seq<char>
    decreases items.len(),
{
    if items.len() == 0 {
        Seq::empty()
    } else {
        spec_item_xml(items[0]) + spec_items_xml(items.drop_first())
    }
}

/// The whole RSS document of a feed.
pub open spec fn spec_rss_xml(doc: FeedDocModel) -> Seq<char> {
    "<?xml version=\"1.0\" encoding=\"utf-8\"?><rss version=\"2.0\"><channel><title>"@
        + xml_escape(doc.title) + "</title><link>"@ + xml_escape(doc.link)
        + "</link><description></description><lastBuildDate>"@ + xml_escape(doc.last_build_date)
        + "</lastBuildDate>"@ + spec_items_xml(doc.items) + "</channel></rss>"@
}

/// Appends the escape of `s` to `out`.
fn escape_append(out: &mut Vec<char>, s: &str)
    ensures
        final(out)@ == old(out)@ + xml_escape(s@),
{
    let cs = chars_of(s);
    let n = cs.len();
    proof {
        assert(cs@.subrange(0, n as int) =~= cs@);
    }
    let mut k: usize = 0;
    while k < n
        invariant
            k <= n,
            n == cs@.len(),
            cs@ == s@,
            out@ + xml_escape(cs@.subrange(k as int, n as int)) =~= old(out)@ + xml_escape(cs@),
        decreases n - k,
    {
        let c = cs[k];
        proof {
            let suf = cs@.subrange(k as int, n as int);
            assert(suf.len() > 0);
            assert(suf[0] == cs@[k as int]);
            assert(suf.drop_first() =~= cs@.subrange(k + 1, n as int));
        }
        if c == '&' {
            append_str(out, "&amp;");
        } else if c == '<' {
            append_str(out, "&lt;");
        } else if c == '>' {
            append_str(out, "&gt;");
        } else {
            out.push(c);
            proof {
                assert(esc_char(c) =~= seq![c]);
            }
        }
        proof {
            assert(out@ + xml_escape(cs@.subrange(k + 1, n as int)) =~= old(out)@ + xml_escape(
                cs@,
            ));
        }
        k = k + 1;
    }
    proof {
        assert(xml_escape(cs@.subrange(n as int, n as int)) =~= Seq::<char>::empty());
        assert(out@ =~= old(out)@ + xml_escape(s@));
    }
}

/// Appends the `<item>` element of one feed item to `out`.
fn item_append(out: &mut Vec<char>, it: &crate::feed::FeedItem)
    ensures
        final(out)@ == old(out)@ + spec_item_xml(it@),
{
    append_str(out, "<item><author>");
    escape_append(out, it.author.as_str());
    append_str(out, "</author><link>");
    escape_append(out, it.link.as_str());
    append_str(out, "</link><description>");
    escape_append(out, it.description.as_str());
    append_str(out, "</description><pubDate>");
    escape_append(out, it.pub_date.as_str());
    append_str(out, "</pubDate></item>");
    proof {
        assert(out@ =~= old(out)@ + spec_item_xml(it@));
    }
}

/// Serialises the feed document as RSS 2.0 text.
pub fn render_rss(doc: &FeedDocument) -> (r: String)
    ensures
        r@ == spec_rss_xml(doc@),
{
    let mut out: Vec<char> = Vec::new();
    append_str(
        &mut out,
        "<?xml version=\"1.0\" encoding=\"utf-8\"?><rss version=\"2.0\"><channel><title>",
    );
    escape_append(&mut out, doc.title.as_str());
    append_str(&mut out, "</title><link>");
    escape_append(&mut out, doc.link.as_str());
    append_str(&mut out, "</link><description></description><lastBuildDate>");
    escape_append(&mut out, doc.last_build_date.as_str());
    append_str(&mut out, "</lastBuildDate>");
    let n = doc.items.len();
    proof {
        assert(doc@.items.len() == n);
        assert(out@ + spec_items_xml(doc@.items.subrange(0, n as int)) =~= out@ + spec_items_xml(
            doc@.items,
        )) by {
            assert(doc@.items.subrange(0, n as int) =~= doc@.items);
        }
    }
    let ghost head = out@;
    let mut k: usize = 0;
    while k < n
        invariant
            k <= n,
            n == doc.items@.len(),
            doc@.items.len() == n,
            out@ + spec_items_xml(doc@.items.subrange(k as int, n as int)) =~= head
                + spec_items_xml(doc@.items),
        decreases n - k,
    {
        proof {
            let suf = doc@.items.subrange(k as int, n as int);
            assert(suf.len() > 0);
            assert(suf[0] == doc@.items[k as int]);
            assert(suf.drop_first() =~= doc@.items.subrange(k + 1, n as int));
            assert(doc@.items[k as int] == doc.items@[k as int]@);
        }
        item_append(&mut out, &doc.items[k]);
        proof {
            assert(out@ + spec_items_xml(doc@.items.subrange(k + 1, n as int)) =~= head
                + spec_items_xml(doc@.items));
        }
        k = k + 1;
    }
    proof {
        assert(spec_items_xml(doc@.items.subrange(n as int, n as int)) =~= Seq::<char>::empty());
        assert(out@ =~= head + spec_items_xml(doc@.items));
    }
    append_str(&mut out, "</channel></rss>");
    proof {
        assert(out@ =~= spec_rss_xml(doc@));
    }
    string_from_chars(&out)
}

} // verus!
