use s3insqlite::handlers::bucket::{
    bucket_operation, get_bucket_dispatch, get_bucket_versioning, list_buckets, list_objects,
    list_objects_reply, list_objects_v2, query_get, unknown_operation, BucketOperation,
    BucketPlan,
};
use s3insqlite::models::s3::{ListBucketResult, ListingVariant};
use s3insqlite::models::state::AppState;
use s3insqlite::utils::bucket::generate_xml_error;
use s3insqlite::utils::db::{SqlValue, StorageFailure};

type Row = (String, usize, i64, Option<String>);

fn row(key: &str) -> Row {
    (key.to_string(), 3, 0, Some("5d41402abc4b2a76b9719d911017c592".to_string()))
}

fn rows(keys: &[&str]) -> Vec<Row> {
    keys.iter().map(|k| row(k)).collect()
}

fn keys_of(r: &ListBucketResult) -> Vec<String> {
    r.contents.iter().map(|o| o.key.clone()).collect()
}

fn prefixes_of(r: &ListBucketResult) -> Vec<String> {
    let mut p: Vec<String> = r.common_prefixes.iter().map(|c| c.prefix.clone()).collect();
    p.sort();
    p
}

fn state(list: &[&str]) -> AppState {
    AppState::new(list.iter().map(|s| s.to_string()).collect())
}

fn query(pairs: &[(&str, &str)]) -> Vec<(String, String)> {
    pairs.iter().map(|p| (p.0.to_string(), p.1.to_string())).collect()
}

#[test]
fn new_listing_is_empty_and_unbounded() {
    let r = ListBucketResult::new("b", "p/", Some('/'));
    assert_eq!(r.name, "b");
    assert_eq!(r.prefix, "p/");
    assert_eq!(r.delimiter, Some('/'));
    assert_eq!(r.max_keys, i32::MAX);
    assert!(!r.is_truncated);
    assert!(r.encoding_type.is_none());
    assert!(r.continuation_token.is_none());
    assert!(r.next_continuation_token.is_none());
    assert!(r.start_after.is_none());
    assert!(r.contents.is_empty());
    assert!(r.common_prefixes.is_empty());
}

#[test]
fn grouping_puts_keys_beyond_the_delimiter_under_one_prefix() {
    let mut r = ListBucketResult::new("b", "", Some('/'));
    r.process_keys(rows(&["a/b", "a/c", "a/x/y", "d"]));
    assert_eq!(keys_of(&r), vec!["d".to_string()]);
    assert_eq!(prefixes_of(&r), vec!["a/".to_string()]);
}

#[test]
fn grouping_under_a_prefix_keeps_the_prefix() {
    let mut r = ListBucketResult::new("b", "a/", Some('/'));
    r.process_keys(rows(&["a/b", "a/c", "a/x/y", "a/x/z", "a/w/1", "d", "ab"]));
    assert_eq!(keys_of(&r), vec!["a/b".to_string(), "a/c".to_string()]);
    assert_eq!(prefixes_of(&r), vec!["a/w/".to_string(), "a/x/".to_string()]);
}

#[test]
fn without_delimiter_every_key_under_the_prefix_is_an_object() {
    let mut r = ListBucketResult::new("b", "a/", None);
    r.process_keys(rows(&["a/b", "a/x/y", "d", "A/b", "a"]));
    assert_eq!(keys_of(&r), vec!["a/b".to_string(), "a/x/y".to_string()]);
    assert!(r.common_prefixes.is_empty());
}

#[test]
fn listing_holds_only_keys_with_the_prefix() {
    let mut r = ListBucketResult::new("b", "x", Some('-'));
    r.process_keys(rows(&["x1", "y1", "x-2", "xy-3-4", "ax", ""]));
    for k in keys_of(&r) {
        assert!(k.starts_with("x"));
    }
    for p in prefixes_of(&r) {
        assert!(p.starts_with("x"));
    }
    assert_eq!(keys_of(&r), vec!["x1".to_string()]);
    assert_eq!(prefixes_of(&r), vec!["x-".to_string(), "xy-".to_string()]);
}

#[test]
fn no_key_is_both_object_and_under_a_prefix() {
    let mut r = ListBucketResult::new("b", "", Some('/'));
    r.process_keys(rows(&["a", "a/", "a/b", "b/c", "b"]));
    let keys = keys_of(&r);
    let prefixes = prefixes_of(&r);
    assert_eq!(keys, vec!["a".to_string(), "b".to_string()]);
    assert_eq!(prefixes, vec!["a/".to_string(), "b/".to_string()]);
    for k in &keys {
        for p in &prefixes {
            assert!(!k.starts_with(p.as_str()));
        }
    }
}

#[test]
fn a_key_that_is_the_prefix_is_an_object() {
    let mut r = ListBucketResult::new("b", "a/", Some('/'));
    r.process_keys(rows(&["a/"]));
    assert_eq!(keys_of(&r), vec!["a/".to_string()]);
    assert!(r.common_prefixes.is_empty());
}

#[test]
fn no_matching_key_gives_an_empty_listing() {
    let mut r = ListBucketResult::new("b", "zzz", Some('/'));
    r.process_keys(rows(&["a/b", "d"]));
    assert!(r.contents.is_empty());
    assert!(r.common_prefixes.is_empty());
    let mut e = ListBucketResult::new("b", "", None);
    e.process_keys(Vec::new());
    assert!(e.contents.is_empty());
    assert!(e.common_prefixes.is_empty());
}

#[test]
fn objects_carry_size_time_tag_and_class() {
    let mut r = ListBucketResult::new("b", "", None);
    r.process_keys(vec![
        ("k1".to_string(), 5, 1431648000, Some("abc".to_string())),
        ("k2".to_string(), 0, 7, None),
    ]);
    assert_eq!(r.contents[0].key, "k1");
    assert_eq!(r.contents[0].size, 5);
    assert_eq!(r.contents[0].last_modified, 1431648000);
    assert_eq!(r.contents[0].etag, "\"abc\"");
    assert_eq!(r.contents[0].storage_class, "STANDARD");
    assert_eq!(r.contents[1].etag, "\"00000000000000000000000000000000\"");
    assert_eq!(r.contents[1].size, 0);
}

#[test]
fn rows_are_added_after_what_is_there() {
    let mut r = ListBucketResult::new("b", "", Some('/'));
    r.process_keys(rows(&["a", "x/1"]));
    r.process_keys(rows(&["b", "y/1"]));
    assert_eq!(keys_of(&r), vec!["a".to_string(), "b".to_string()]);
    assert_eq!(prefixes_of(&r), vec!["x/".to_string(), "y/".to_string()]);
}

#[test]
fn setters_change_one_field_each() {
    let mut r = ListBucketResult::new("b", "p", None);
    r.set_max_keys(10);
    r.set_encoding_type(Some("url".to_string()));
    r.set_start_after(Some("k".to_string()));
    r.set_continuation(Some("t1".to_string()), Some("t2".to_string()));
    assert_eq!(r.max_keys, 10);
    assert_eq!(r.encoding_type.as_deref(), Some("url"));
    assert_eq!(r.start_after.as_deref(), Some("k"));
    assert_eq!(r.continuation_token.as_deref(), Some("t1"));
    assert_eq!(r.next_continuation_token.as_deref(), Some("t2"));
    assert_eq!(r.name, "b");
    assert_eq!(r.prefix, "p");
}

const OPENING: &str = "<?xml version=\"1.0\" encoding=\"UTF-8\"?>\n<ListBucketResult xmlns=\"http://s3.amazonaws.com/doc/2006-03-01/\">";

#[test]
fn first_shape_of_a_listing() {
    let mut r = ListBucketResult::new("bk", "a/", Some('/'));
    r.set_max_keys(1000);
    r.process_keys(vec![
        ("a/one".to_string(), 12, 1431648000, Some("5d41402abc4b2a76b9719d911017c592".to_string())),
        ("a/dir/two".to_string(), 1, 0, None),
    ]);
    let expected = format!(
        "{}<Name>bk</Name><Prefix>a/</Prefix><Delimiter>/</Delimiter><MaxKeys>1000</MaxKeys><IsTruncated>false</IsTruncated><Contents><Key>a/one</Key><LastModified>2015-05-15T00:00:00.000Z</LastModified><ETag>&quot;5d41402abc4b2a76b9719d911017c592&quot;</ETag><Size>12</Size><StorageClass>STANDARD</StorageClass></Contents><CommonPrefixes><Prefix>a/dir/</Prefix></CommonPrefixes></ListBucketResult>",
        OPENING
    );
    assert_eq!(r.to_xml(), expected);
    assert_eq!(r.render(ListingVariant::V1), expected);
}

#[test]
fn second_shape_of_a_listing() {
    let mut r = ListBucketResult::new("bk", "", None);
    r.set_max_keys(-5);
    r.set_encoding_type(Some("url".to_string()));
    r.set_start_after(Some("a&b".to_string()));
    r.set_continuation(Some("tok".to_string()), Some("next".to_string()));
    r.process_keys(vec![("k<1>".to_string(), 0, 0, Some("h".to_string()))]);
    let expected = format!(
        "{}<Name>bk</Name><Prefix></Prefix><EncodingType>url</EncodingType><ContinuationToken>tok</ContinuationToken><KeyCount>1</KeyCount><MaxKeys>-5</MaxKeys><IsTruncated>false</IsTruncated><NextContinuationToken>next</NextContinuationToken><StartAfter>a&amp;b</StartAfter><Contents><Key>k&lt;1&gt;</Key><LastModified>1970-01-01T00:00:00.000Z</LastModified><ETag>&quot;h&quot;</ETag><Size>0</Size><StorageClass>STANDARD</StorageClass></Contents></ListBucketResult>",
        OPENING
    );
    assert_eq!(r.to_xml_v2(), expected);
}

#[test]
fn first_shape_leaves_out_what_the_second_adds() {
    let mut r = ListBucketResult::new("bk", "", None);
    r.set_encoding_type(Some("url".to_string()));
    r.set_start_after(Some("s".to_string()));
    r.set_continuation(Some("tok".to_string()), None);
    let xml = r.to_xml();
    assert_eq!(
        xml,
        format!(
            "{}<Name>bk</Name><Prefix></Prefix><MaxKeys>2147483647</MaxKeys><IsTruncated>false</IsTruncated></ListBucketResult>",
            OPENING
        )
    );
}

#[test]
fn truncated_listing_says_so() {
    let mut r = ListBucketResult::new("bk", "", None);
    r.is_truncated = true;
    assert!(r.to_xml().contains("<IsTruncated>true</IsTruncated>"));
}

#[test]
fn query_value_is_that_of_the_last_pair() {
    let q = query(&[("prefix", "a"), ("x", "1"), ("prefix", "b")]);
    assert_eq!(query_get(&q, "prefix"), Some("b".to_string()));
    assert_eq!(query_get(&q, "x"), Some("1".to_string()));
    assert_eq!(query_get(&q, "y"), None);
    assert_eq!(query_get(&Vec::new(), "prefix"), None);
}

#[test]
fn operation_follows_the_query() {
    assert_eq!(bucket_operation(&query(&[])), BucketOperation::ListV1);
    assert_eq!(bucket_operation(&query(&[("versioning", "")])), BucketOperation::Versioning);
    assert_eq!(
        bucket_operation(&query(&[("list-type", "2"), ("versioning", "")])),
        BucketOperation::Versioning
    );
    assert_eq!(bucket_operation(&query(&[("list-type", "2")])), BucketOperation::ListV2);
    assert_eq!(bucket_operation(&query(&[("list-type", "1")])), BucketOperation::ListV1);
    assert_eq!(bucket_operation(&query(&[("prefix", "2")])), BucketOperation::ListV1);
}

#[test]
fn buckets_are_enumerated_in_order() {
    let s = state(&["beta", "alpha", "b<2"]);
    let resp = list_buckets(&s, None);
    assert_eq!(resp.status, 200);
    assert_eq!(
        String::from_utf8(resp.body.clone()).unwrap(),
        "<?xml version=\"1.0\" encoding=\"UTF-8\"?>\n<ListAllMyBucketsResult>\n   <Buckets>\n<Bucket>\n<Name>beta</Name>\n</Bucket>\n<Bucket>\n<Name>alpha</Name>\n</Bucket>\n<Bucket>\n<Name>b&lt;2</Name>\n</Bucket>\n</Buckets>\n</ListAllMyBucketsResult>\n"
    );
    assert_eq!(resp.headers[0].1, "application/xml");
    assert_eq!(resp.headers[1].1, resp.body.len().to_string());
}

#[test]
fn buckets_are_filtered_by_prefix() {
    let s = state(&["beta", "alpha", "bar"]);
    let resp = list_buckets(&s, Some("b"));
    assert_eq!(
        String::from_utf8(resp.body).unwrap(),
        "<?xml version=\"1.0\" encoding=\"UTF-8\"?>\n<ListAllMyBucketsResult>\n   <Buckets>\n<Bucket>\n<Name>beta</Name>\n</Bucket>\n<Bucket>\n<Name>bar</Name>\n</Bucket>\n</Buckets>\n<Prefix>b</Prefix>\n</ListAllMyBucketsResult>\n"
    );
    let none = list_buckets(&s, Some("zz"));
    assert_eq!(
        String::from_utf8(none.body).unwrap(),
        "<?xml version=\"1.0\" encoding=\"UTF-8\"?>\n<ListAllMyBucketsResult>\n   <Buckets>\n</Buckets>\n<Prefix>zz</Prefix>\n</ListAllMyBucketsResult>\n"
    );
}

#[test]
fn versioning_is_suspended() {
    let s = state(&["a"]);
    let resp = get_bucket_versioning(&s, "a");
    assert_eq!(resp.status, 200);
    assert_eq!(
        String::from_utf8(resp.body).unwrap(),
        "<?xml version=\"1.0\" encoding=\"UTF-8\"?>\n        <VersioningConfiguration>\n            <Status>Suspended</Status>\n        </VersioningConfiguration>"
    );
    assert_eq!(get_bucket_versioning(&s, "b").status, 403);
}

#[test]
fn first_listing_reads_prefix_delimiter_and_bound() {
    let s = state(&["my-bucket"]);
    let q = query(&[("prefix", "a/"), ("delimiter", "/x"), ("max-keys", "5"), ("start-after", "k")]);
    let plan = list_objects(&s, "my-bucket", &q).unwrap();
    assert_eq!(plan.variant, ListingVariant::V1);
    assert_eq!(
        plan.statement.sql,
        "SELECT key, length(data), last_modified, md5 FROM bucket_my_bucket WHERE key LIKE ?1 ORDER BY key"
    );
    assert!(matches!(&plan.statement.params[0], SqlValue::Text(p) if p == "a/%"));
    assert_eq!(plan.listing.name, "my-bucket");
    assert_eq!(plan.listing.prefix, "a/");
    assert_eq!(plan.listing.delimiter, Some('/'));
    assert_eq!(plan.listing.max_keys, 5);
    assert!(plan.listing.start_after.is_none());
    assert!(!plan.listing.is_truncated);
}

#[test]
fn second_listing_reads_the_further_parameters() {
    let s = state(&["b"]);
    let q = query(&[
        ("list-type", "2"),
        ("encoding-type", "url"),
        ("start-after", "k"),
        ("continuation-token", "t"),
        ("delimiter", ""),
        ("max-keys", "many"),
    ]);
    let plan = list_objects_v2(&s, "b", &q).unwrap();
    assert_eq!(plan.variant, ListingVariant::V2);
    assert_eq!(plan.listing.prefix, "");
    assert_eq!(plan.listing.delimiter, None);
    assert_eq!(plan.listing.max_keys, i32::MAX);
    assert_eq!(plan.listing.encoding_type.as_deref(), Some("url"));
    assert_eq!(plan.listing.start_after.as_deref(), Some("k"));
    assert_eq!(plan.listing.continuation_token.as_deref(), Some("t"));
    assert!(plan.listing.next_continuation_token.is_none());
    assert!(matches!(&plan.statement.params[0], SqlValue::Text(p) if p == "%"));
}

#[test]
fn bound_is_parsed_as_a_signed_number() {
    let s = state(&["b"]);
    let plan = list_objects(&s, "b", &query(&[("max-keys", "-3")])).unwrap();
    assert_eq!(plan.listing.max_keys, -3);
    let plan = list_objects(&s, "b", &query(&[("max-keys", "2147483648")])).unwrap();
    assert_eq!(plan.listing.max_keys, i32::MAX);
    let plan = list_objects(&s, "b", &query(&[("max-keys", " 7")])).unwrap();
    assert_eq!(plan.listing.max_keys, i32::MAX);
    let plan = list_objects(&s, "b", &query(&[("max-keys", "0")])).unwrap();
    assert_eq!(plan.listing.max_keys, 0);
}

#[test]
fn listing_an_unlisted_bucket_is_refused() {
    let s = state(&["a"]);
    let resp = list_objects(&s, "b", &query(&[])).unwrap_err();
    assert_eq!(resp.status, 403);
    assert_eq!(
        String::from_utf8(resp.body).unwrap(),
        generate_xml_error("AccessDenied", "Bucket access denied: b")
    );
    assert_eq!(list_objects_v2(&s, "b", &query(&[])).unwrap_err().status, 403);
}

#[test]
fn listing_an_invalid_name_is_rejected() {
    let s = state(&["a b"]);
    let resp = list_objects(&s, "a b", &query(&[])).unwrap_err();
    assert_eq!(resp.status, 400);
    assert_eq!(
        String::from_utf8(resp.body).unwrap(),
        generate_xml_error("InvalidBucketName", "Invalid bucket name: a b")
    );
}

#[test]
fn listing_reply_sorts_rows_and_writes_the_document() {
    let s = state(&["b"]);
    let plan = list_objects(&s, "b", &query(&[("delimiter", "/")])).unwrap();
    let resp = list_objects_reply(plan, Ok(rows(&["a/b", "a/c", "a/x/y", "d"])));
    assert_eq!(resp.status, 200);
    let mut expected = ListBucketResult::new("b", "", Some('/'));
    expected.process_keys(rows(&["a/b", "a/c", "a/x/y", "d"]));
    let body = String::from_utf8(resp.body.clone()).unwrap();
    assert_eq!(body, expected.to_xml());
    assert!(body.contains("<Contents><Key>d</Key>"));
    assert!(body.contains("<CommonPrefixes><Prefix>a/</Prefix></CommonPrefixes>"));
    assert_eq!(body.matches("<CommonPrefixes>").count(), 1);
    assert_eq!(body.matches("<Contents>").count(), 1);
    assert_eq!(resp.headers[1].1, resp.body.len().to_string());
}

#[test]
fn listing_reply_of_no_rows_is_an_empty_listing() {
    let s = state(&["b"]);
    let plan = list_objects_v2(&s, "b", &query(&[("prefix", "none/")])).unwrap();
    let resp = list_objects_reply(plan, Ok(Vec::new()));
    assert_eq!(resp.status, 200);
    let body = String::from_utf8(resp.body).unwrap();
    assert!(body.contains("<KeyCount>0</KeyCount>"));
    assert!(!body.contains("<Contents>"));
    assert!(!body.contains("<CommonPrefixes>"));
}

#[test]
fn listing_reply_of_a_failure_is_an_internal_error() {
    let s = state(&["b"]);
    let plan = list_objects(&s, "b", &query(&[])).unwrap();
    let resp = list_objects_reply(plan, Err(StorageFailure::Rejected("SQL query error: x".to_string())));
    assert_eq!(resp.status, 500);
    assert_eq!(
        String::from_utf8(resp.body).unwrap(),
        generate_xml_error("InternalError", "SQL query error: x")
    );
}

#[test]
fn dispatch_picks_the_operation() {
    let s = state(&["b"]);
    match get_bucket_dispatch(&s, "b", &query(&[("versioning", "")])) {
        BucketPlan::Reply(resp) => assert_eq!(resp.status, 200),
        BucketPlan::List(_) => panic!("a listing for a versioning request"),
    }
    match get_bucket_dispatch(&s, "b", &query(&[("list-type", "2")])) {
        BucketPlan::List(plan) => assert_eq!(plan.variant, ListingVariant::V2),
        BucketPlan::Reply(_) => panic!("no listing"),
    }
    match get_bucket_dispatch(&s, "b", &query(&[("prefix", "x")])) {
        BucketPlan::List(plan) => {
            assert_eq!(plan.variant, ListingVariant::V1);
            assert_eq!(plan.listing.prefix, "x");
        }
        BucketPlan::Reply(_) => panic!("no listing"),
    }
    match get_bucket_dispatch(&s, "other", &query(&[])) {
        BucketPlan::Reply(resp) => assert_eq!(resp.status, 403),
        BucketPlan::List(_) => panic!("a listing of an unlisted bucket"),
    }
}

#[test]
fn buckets_with_one_key_are_listed_apart() {
    let s = state(&["a", "b"]);
    let pa = list_objects(&s, "a", &query(&[])).unwrap();
    let pb = list_objects(&s, "b", &query(&[])).unwrap();
    assert_ne!(pa.statement.sql, pb.statement.sql);
    assert!(pa.statement.sql.contains(" FROM bucket_a "));
    assert!(pb.statement.sql.contains(" FROM bucket_b "));
}

#[test]
fn a_common_prefix_is_listed_once_over_two_rounds() {
    let mut r = ListBucketResult::new("b", "", Some('/'));
    r.process_keys(rows(&["x/1", "a"]));
    r.process_keys(rows(&["x/2", "y/1", "x/3"]));
    let listed: Vec<String> = r.common_prefixes.iter().map(|c| c.prefix.clone()).collect();
    assert_eq!(listed, vec!["x/".to_string(), "y/".to_string()]);
    assert_eq!(keys_of(&r), vec!["a".to_string()]);
}

#[test]
fn common_prefixes_come_in_the_order_they_are_met() {
    let mut r = ListBucketResult::new("b", "", Some('/'));
    r.process_keys(rows(&["z/1", "a/1", "z/2", "m/1", "a/2"]));
    let listed: Vec<String> = r.common_prefixes.iter().map(|c| c.prefix.clone()).collect();
    assert_eq!(listed, vec!["z/".to_string(), "a/".to_string(), "m/".to_string()]);
}

#[test]
fn sorted_rows_give_sorted_objects() {
    let mut r = ListBucketResult::new("b", "", Some('/'));
    r.process_keys(rows(&["a", "a/1", "b", "c/2", "d", "e"]));
    let keys = keys_of(&r);
    let mut sorted = keys.clone();
    sorted.sort();
    assert_eq!(keys, sorted);
    assert_eq!(keys, vec!["a".to_string(), "b".to_string(), "d".to_string(), "e".to_string()]);
}

#[test]
fn a_delimiter_beyond_ascii_groups_too() {
    let mut r = ListBucketResult::new("b", "\u{e9}", Some('\u{2192}'));
    r.process_keys(rows(&["\u{e9}a\u{2192}b", "\u{e9}c", "e\u{2192}"]));
    assert_eq!(keys_of(&r), vec!["\u{e9}c".to_string()]);
    assert_eq!(prefixes_of(&r), vec!["\u{e9}a\u{2192}".to_string()]);
}

#[test]
fn an_unknown_operation_is_not_implemented() {
    let resp = unknown_operation();
    assert_eq!(resp.status, 501);
    assert_eq!(
        String::from_utf8(resp.body).unwrap(),
        generate_xml_error("NotImplemented", "The requested operation is not implemented")
    );
}
