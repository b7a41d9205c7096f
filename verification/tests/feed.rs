use wywiwya_feed::handler::{assemble_feed, finish_request, finish_request_now, handle_request,
    request_body, Action, FeedError};
use wywiwya_feed::json::decode_response;

fn count(hay: &str, needle: &str) -> usize {
    hay.match_indices(needle).count()
}

fn rfc2822(ms: i64) -> String {
    chrono::DateTime::<chrono::Utc>::from_timestamp_millis(ms)
        .unwrap()
        .to_rfc2822()
}

#[test]
fn single_entry_scenario() {
    let body = r#"{"result":[{"id":"1","author":"a","contentMd":"hi","createdAt":1000,"lastUpdatedAt":2000}]}"#;
    let xml = assemble_feed("u", body, 0).unwrap();
    assert_eq!(count(&xml, "<item>"), 1);
    assert!(xml.contains("<author>a</author>"));
    assert!(xml.contains("<link>https://wywiwya.smallkirby.xyz/view/1</link>"));
    assert!(xml.contains("<description>hi</description>"));
    assert!(xml.contains(&format!("<pubDate>{}</pubDate>", rfc2822(1000))));
    assert!(xml.contains(&format!("<lastBuildDate>{}</lastBuildDate>", rfc2822(2000))));
    // one exact formatted date, pinned as text
    assert!(xml.contains("<lastBuildDate>Thu, 1 Jan 1970 00:00:02 +0000</lastBuildDate>"));
    assert!(xml.contains("<pubDate>Thu, 1 Jan 1970 00:00:01 +0000</pubDate>"));
    assert!(xml.contains("<title>u -- WYWIWYA</title>"));
    assert!(xml.contains("<link>https://wywiwya.smallkirby.xyz/users/u</link>"));
}

#[test]
fn empty_result_uses_assembly_time() {
    let now: i64 = 1_700_000_000_000;
    let xml = assemble_feed("u", r#"{"result":[]}"#, now).unwrap();
    assert_eq!(count(&xml, "<item>"), 0);
    assert!(xml.contains(&format!("<lastBuildDate>{}</lastBuildDate>", rfc2822(now))));
}

#[test]
fn round_trip_with_rss_parser() {
    let body = format!(
        "{}{}{}{}{}",
        r#"{"result":["#,
        r#"{"id":"e1","author":"alice","contentMd":"first & <b>bold</b>","createdAt":1000,"lastUpdatedAt":1500},"#,
        r#"{"id":"e2","author":"bob","contentMd":"second","createdAt":2000,"lastUpdatedAt":2500},"#,
        r#"{"id":"e3","author":"carol","contentMd":"third > post","createdAt":3000,"lastUpdatedAt":3500}"#,
        r#"]}"#
    );
    let xml = assemble_feed("someone", &body, 0).unwrap();
    let channel = rss::Channel::read_from(xml.as_bytes()).unwrap();
    assert_eq!(channel.title(), "someone -- WYWIWYA");
    assert_eq!(channel.link(), "https://wywiwya.smallkirby.xyz/users/someone");
    assert_eq!(channel.last_build_date(), Some(rfc2822(3500).as_str()));
    let items = channel.items();
    assert_eq!(items.len(), 3);
    let expected = [
        ("alice", "e1", "first & <b>bold</b>", 1000),
        ("bob", "e2", "second", 2000),
        ("carol", "e3", "third > post", 3000),
    ];
    for (item, (author, id, content, created)) in items.iter().zip(expected.iter()) {
        assert_eq!(item.author(), Some(*author));
        assert_eq!(
            item.link(),
            Some(format!("https://wywiwya.smallkirby.xyz/view/{}", id).as_str())
        );
        assert_eq!(item.description(), Some(*content));
        assert_eq!(item.pub_date(), Some(rfc2822(*created).as_str()));
    }
}

#[test]
fn missing_result_member_fails() {
    assert_eq!(
        assemble_feed("u", r#"{"entries":[]}"#, 0),
        Err(FeedError::UpstreamDecode)
    );
    assert_eq!(assemble_feed("u", r#"{}"#, 0), Err(FeedError::UpstreamDecode));
}

#[test]
fn malformed_json_fails() {
    assert!(assemble_feed("u", "", 0).is_err());
    assert!(assemble_feed("u", "{", 0).is_err());
    assert!(assemble_feed("u", r#"{"result":[}"#, 0).is_err());
    assert!(assemble_feed("u", r#"{"result":[]} trailing"#, 0).is_err());
    assert!(assemble_feed("u", r#"["result"]"#, 0).is_err());
}

#[test]
fn feed_route_yields_one_exact_fetch() {
    match handle_request("GET", "/users/alice") {
        Action::Fetch { url, body, user_id, cache_ttl_secs } => {
            assert_eq!(
                url,
                "https://asia-northeast1-wywiwya.cloudfunctions.net/fetchPublicDiaries"
            );
            assert_eq!(body, r#"{"data":{"uid":"alice"}}"#);
            assert_eq!(user_id, "alice");
            assert_eq!(cache_ttl_secs, 60);
        }
        _ => panic!("expected a fetch action"),
    }
}

#[test]
fn success_response_is_rss_content_type() {
    let resp = finish_request("alice", r#"{"result":[]}"#, 0);
    assert_eq!(resp.status, 200);
    assert_eq!(resp.content_type, "application/rss+xml");
    assert!(resp.body.starts_with("<?xml"));
}

#[test]
fn empty_user_id_is_bad_request_without_fetch() {
    for path in ["/users/", "/users"] {
        match handle_request("GET", path) {
            Action::Respond(resp) => {
                assert_eq!(resp.status, 400);
                assert_eq!(resp.body, "Bad Request");
            }
            Action::Fetch { .. } => panic!("an outbound call was issued for {path}"),
            Action::NoMatch => panic!("expected a 400 response for {path}"),
        }
    }
}

#[test]
fn unmatched_routes_are_left_to_the_platform() {
    assert!(matches!(handle_request("POST", "/users/alice"), Action::NoMatch));
    assert!(matches!(handle_request("GET", "/other"), Action::NoMatch));
    assert!(matches!(handle_request("GET", "/users/a/b"), Action::NoMatch));
    assert!(matches!(handle_request("GET", ""), Action::NoMatch));
}

#[test]
fn request_body_escapes_the_user_id() {
    assert_eq!(request_body("a\"b\\c"), r#"{"data":{"uid":"a\"b\\c"}}"#);
    assert_eq!(request_body("tab\tline\n"), r#"{"data":{"uid":"tab\tline\n"}}"#);
    assert_eq!(request_body("ctl\u{1}"), "{\"data\":{\"uid\":\"ctl\\u0001\"}}");
}

#[test]
fn decode_accepts_any_member_order_and_ignores_unknowns() {
    let body = format!(
        "{}{}",
        r#"{"extra":{"deep":[1,2,{"x":null}]},"result":[{"lastUpdatedAt":2000,"unknown":true,"#,
        r#""contentMd":"hi","createdAt":1000,"author":"a","id":"1"}],"more":1.5e3}"#
    );
    let entries = decode_response(&body).unwrap();
    assert_eq!(entries.len(), 1);
    assert_eq!(entries[0].id, "1");
    assert_eq!(entries[0].author, "a");
    assert_eq!(entries[0].content_md, "hi");
    assert_eq!(entries[0].created_at_ms, 1000);
    assert_eq!(entries[0].last_updated_at_ms, 2000);
}

#[test]
fn decode_handles_string_escapes() {
    let body = r#"{"result":[{"id":"1","author":"A😀","contentMd":"a\\b\"c\nd","createdAt":0,"lastUpdatedAt":0}]}"#;
    let entries = decode_response(body).unwrap();
    assert_eq!(entries[0].author, "A\u{1F600}");
    assert_eq!(entries[0].content_md, "a\\b\"c\nd");
}

#[test]
fn decode_rejects_bad_members() {
    // a duplicate member
    assert!(decode_response(
        r#"{"result":[{"id":"1","id":"2","author":"a","contentMd":"x","createdAt":0,"lastUpdatedAt":0}]}"#
    ).is_none());
    // a missing member
    assert!(decode_response(
        r#"{"result":[{"id":"1","author":"a","contentMd":"x","createdAt":0}]}"#
    ).is_none());
    // a non-integer timestamp
    assert!(decode_response(
        r#"{"result":[{"id":"1","author":"a","contentMd":"x","createdAt":10.5,"lastUpdatedAt":0}]}"#
    ).is_none());
    assert!(decode_response(
        r#"{"result":[{"id":"1","author":"a","contentMd":"x","createdAt":"0","lastUpdatedAt":0}]}"#
    ).is_none());
    // a leading zero
    assert!(decode_response(
        r#"{"result":[{"id":"1","author":"a","contentMd":"x","createdAt":01,"lastUpdatedAt":0}]}"#
    ).is_none());
    // a timestamp no date can render
    assert!(decode_response(
        r#"{"result":[{"id":"1","author":"a","contentMd":"x","createdAt":999999999999999999,"lastUpdatedAt":0}]}"#
    ).is_none());
    // a lone surrogate escape
    assert!(decode_response(
        r#"{"result":[{"id":"\uD800","author":"a","contentMd":"x","createdAt":0,"lastUpdatedAt":0}]}"#
    ).is_none());
    // a duplicate result member
    assert!(decode_response(r#"{"result":[],"result":[]}"#).is_none());
}

#[test]
fn timestamp_bounds_are_exact() {
    let ok = format!(
        r#"{{"result":[{{"id":"1","author":"a","contentMd":"x","createdAt":{},"lastUpdatedAt":{}}}]}}"#,
        -62167219200000i64, 253402300799999i64
    );
    let entries = decode_response(&ok).unwrap();
    assert_eq!(entries[0].created_at_ms, -62167219200000);
    assert_eq!(entries[0].last_updated_at_ms, 253402300799999);
    let low = ok.replace("-62167219200000", "-62167219200001");
    assert!(decode_response(&low).is_none());
    let high = ok.replace("253402300799999", "253402300800000");
    assert!(decode_response(&high).is_none());
}

#[test]
fn xml_content_is_escaped() {
    let body = r#"{"result":[{"id":"1","author":"a&b","contentMd":"a<b&c>d","createdAt":0,"lastUpdatedAt":0}]}"#;
    let xml = assemble_feed("u<v", body, 0).unwrap();
    assert!(xml.contains("<title>u&lt;v -- WYWIWYA</title>"));
    assert!(xml.contains("<author>a&amp;b</author>"));
    assert!(xml.contains("<description>a&lt;b&amp;c&gt;d</description>"));
}

#[test]
fn finish_request_now_serves_the_feed() {
    let resp = finish_request_now("u", r#"{"result":[]}"#);
    assert_eq!(resp.status, 200);
    assert_eq!(resp.content_type, "application/rss+xml");
    let bad = finish_request_now("u", "no json");
    assert_eq!(bad.status, 502);
    assert_eq!(bad.body, "Bad Gateway");
}

#[test]
fn deep_unknown_values_hit_the_nesting_bound() {
    let mut deep = String::from(r#"{"result":[],"x":"#);
    for _ in 0..200 {
        deep.push('[');
    }
    for _ in 0..200 {
        deep.push(']');
    }
    deep.push('}');
    assert!(decode_response(&deep).is_none());
    let mut shallow = String::from(r#"{"result":[],"x":"#);
    for _ in 0..20 {
        shallow.push('[');
    }
    for _ in 0..20 {
        shallow.push(']');
    }
    shallow.push('}');
    assert!(decode_response(&shallow).is_some());
}
