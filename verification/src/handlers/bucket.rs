//! Buckets: enumeration, versioning status, and the two listings. A
//! listing is a step from the request to a statement for the storage
//! engine, and a step from the rows it answered to the response.

use crate::handlers::object::{failure_response, storage_failure_response};
use crate::models::response::{error_response, header_view, xml_response, Response, S3Error};
use crate::models::s3::{
    listing_xml, rows_view, ListBucketResult, ListingVariant, ListingView,
};
use crate::models::state::{allows, AppState};
use crate::utils::bucket::{
    access_denied_message, invalid_name_message, prefix_pattern, query_bucket_objects,
    resolution, resolve_bucket, valid_bucket_name, validate_bucket,
};
use crate::utils::db::{keyed_statement, list_sql, Statement, StorageFailure};
use crate::utils::text::{
    chars_of, element, parse_i32, parsed_i32, push_element, starts_with,
};
use crate::utils::time::text_view;
use vstd::prelude::*;
use vstd::string::StringExecFns;

verus! {

/// The parameters of a query, as plain values.
pub open spec fn query_view(query: Seq<(String, String)>) -> Seq<(Seq<char>, Seq<char>)> {
    query.map_values(|p: (String, String)| header_view(p))
}

/// The value of the parameter `name` in `query`: that of the last pair
/// with this name.
pub open spec fn query_value(query: Seq<(Seq<char>, Seq<char>)>, name: Seq<char>) -> Option<
    Seq<char>,
>
    decreases query.len(),
{
    if query.len() == 0 {
        None
    } else if query.last().0 == name {
        Some(query.last().1)
    } else {
        query_value(query.drop_last(), name)
    }
}

/// The value of the parameter `name` in `query`.
pub fn query_get(query: &Vec<(String, String)>, name: &str) -> (r: Option<String>)
    ensures
        text_view(r) == query_value(query_view(query@), name@),
{
    let wanted = String::from_str(name);
    let ghost q = query_view(query@);
    let mut found: Option<String> = None;
    let mut i: usize = 0;
    assert(q.take(0).len() == 0);
    while i < query.len()
        invariant
            i <= query.len(),
            wanted@ == name@,
            q == query_view(query@),
            text_view(found) == query_value(q.take(i as int), name@),
        decreases query.len() - i,
    {
        proof {
            assert(q.take(i + 1).drop_last() =~= q.take(i as int));
            assert(q.take(i + 1).last() == header_view(query@[i as int]));
        }
        if query[i].0 == wanted {
            found = Some(query[i].1.clone());
        }
        i += 1;
    }
    assert(q.take(i as int) =~= q);
    found
}

/// The operations on a bucket that a query can ask for.
#[derive(Clone, Copy, Debug, PartialEq, Eq, Structural)]
pub enum BucketOperation {
    Versioning,
    ListV1,
    ListV2,
}

/// The operation that `query` asks for: the versioning status where it
/// holds `versioning`; else the second listing where `list-type` is `2`;
/// else the first listing.
pub open spec fn requested_operation(query: Seq<(Seq<char>, Seq<char>)>) -> BucketOperation {
    if query_value(query, "versioning"@) is Some {
        BucketOperation::Versioning
    } else if query_value(query, "list-type"@) == Some("2"@) {
        BucketOperation::ListV2
    } else {
        BucketOperation::ListV1
    }
}

/// The operation that `query` asks for.
pub fn bucket_operation(query: &Vec<(String, String)>) -> (op: BucketOperation)
    ensures
        op == requested_operation(query_view(query@)),
{
    if query_get(query, "versioning").is_some() {
        return BucketOperation::Versioning;
    }
    match query_get(query, "list-type") {
        Some(v) => {
            if v == String::from_str("2") {
                BucketOperation::ListV2
            } else {
                BucketOperation::ListV1
            }
        },
        None => BucketOperation::ListV1,
    }
}

/// The entries of an enumeration of buckets: one for each name that begins
/// with `prefix`, or for each name where no prefix is given, in the order
/// of the names.
pub open spec fn bucket_entries(names: Seq<String>, prefix: Option<Seq<char>>) -> Seq<char>
    decreases names.len(),
{
    if names.len() == 0 {
        Seq::empty()
    } else {
        let rest = bucket_entries(names.drop_last(), prefix);
        let listed = match prefix {
            Some(p) => p.is_prefix_of(names.last()@),
            None => true,
        };
        if listed {
            rest + "\n<Bucket>\n"@ + element("Name"@, names.last()@) + "\n</Bucket>"@
        } else {
            rest
        }
    }
}

/// The enumeration of the buckets `names` under `prefix`, as a document.
pub open spec fn buckets_xml(names: Seq<String>, prefix: Option<Seq<char>>) -> Seq<char> {
    "<?xml version=\"1.0\" encoding=\"UTF-8\"?>\n<ListAllMyBucketsResult>\n   <Buckets>"@
        + bucket_entries(names, prefix) + "\n</Buckets>"@ + (match prefix {
        Some(p) => "\n"@ + element("Prefix"@, p),
        None => Seq::empty(),
    }) + "\n</ListAllMyBucketsResult>\n"@
}

/// The text of an optional string slice.
pub open spec fn slice_view(o: Option<&str>) -> Option<Seq<char>> {
    match o {
        Some(s) => Some(s@),
        None => None,
    }
}

/// The buckets that may be used, those whose name begins with `prefix`
/// where one is given.
pub fn list_buckets(state: &AppState, prefix: Option<&str>) -> (r: Response)
    ensures
        r@ == xml_response(200, buckets_xml(state.buckets@, slice_view(prefix))),
{
    let mut xml = String::from_str(
        "<?xml version=\"1.0\" encoding=\"UTF-8\"?>\n<ListAllMyBucketsResult>\n   <Buckets>",
    );
    let ghost opening = xml@;
    let wanted: Option<Vec<char>> = match prefix {
        Some(p) => Some(chars_of(p)),
        None => None,
    };
    let mut i: usize = 0;
    assert(xml@ =~= opening + bucket_entries(state.buckets@.take(0), slice_view(prefix)));
    while i < state.buckets.len()
        invariant
            i <= state.buckets.len(),
            match wanted {
                Some(w) => prefix is Some && w@ == prefix.unwrap()@,
                None => prefix is None,
            },
            xml@ == opening + bucket_entries(state.buckets@.take(i as int), slice_view(prefix)),
        decreases state.buckets.len() - i,
    {
        proof {
            assert(state.buckets@.take(i + 1).drop_last() =~= state.buckets@.take(i as int));
        }
        let listed = match &wanted {
            Some(w) => {
                let name = chars_of(state.buckets[i].as_str());
                starts_with(&name, w)
            },
            None => true,
        };
        if listed {
            xml.append("\n<Bucket>\n");
            push_element(&mut xml, "Name", state.buckets[i].as_str());
            xml.append("\n</Bucket>");
        }
        i += 1;
        assert(xml@ =~= opening + bucket_entries(
            state.buckets@.take(i as int),
            slice_view(prefix),
        ));
    }
    assert(state.buckets@.take(i as int) =~= state.buckets@);
    xml.append("\n</Buckets>");
    match prefix {
        Some(p) => {
            xml.append("\n");
            push_element(&mut xml, "Prefix", p);
        },
        None => {},
    }
    xml.append("\n</ListAllMyBucketsResult>\n");
    assert(xml@ =~= buckets_xml(state.buckets@, slice_view(prefix)));
    Response::xml(200, xml.as_str())
}

/// The document that reports versioning as suspended.
pub open spec fn versioning_xml() -> Seq<char> {
    "<?xml version=\"1.0\" encoding=\"UTF-8\"?>\n        <VersioningConfiguration>\n            <Status>Suspended</Status>\n        </VersioningConfiguration>"@
}

/// The versioning status of `bucket`, which is always suspended; the
/// refusal where the bucket is not allowed.
pub fn get_bucket_versioning(state: &AppState, bucket: &str) -> (r: Response)
    ensures
        r@ == if allows(state.buckets@, bucket@) {
            xml_response(200, versioning_xml())
        } else {
            error_response(S3Error::AccessDenied, access_denied_message(bucket@))
        },
{
    match validate_bucket(bucket, &state.buckets) {
        Err(resp) => resp,
        Ok(_) => Response::xml(
            200,
            "<?xml version=\"1.0\" encoding=\"UTF-8\"?>\n        <VersioningConfiguration>\n            <Status>Suspended</Status>\n        </VersioningConfiguration>",
        ),
    }
}

/// The prefix that `query` asks for: empty where it names none.
pub open spec fn requested_prefix(query: Seq<(Seq<char>, Seq<char>)>) -> Seq<char> {
    match query_value(query, "prefix"@) {
        Some(p) => p,
        None => Seq::empty(),
    }
}

/// The delimiter that `query` asks for: the first character of the
/// parameter, none where it is missing or empty.
pub open spec fn requested_delimiter(query: Seq<(Seq<char>, Seq<char>)>) -> Option<char> {
    match query_value(query, "delimiter"@) {
        Some(d) => if d.len() == 0 {
            None
        } else {
            Some(d[0])
        },
        None => None,
    }
}

/// The bound on the number of keys that `query` asks for: the largest
/// number where the parameter is missing or is no number.
pub open spec fn requested_max_keys(query: Seq<(Seq<char>, Seq<char>)>) -> i32 {
    match query_value(query, "max-keys"@) {
        Some(v) => match parsed_i32(v) {
            Some(n) => n,
            None => i32::MAX,
        },
        None => i32::MAX,
    }
}

/// `value` in the second shape, nothing in the first.
pub open spec fn only_v2(variant: ListingVariant, value: Option<Seq<char>>) -> Option<Seq<char>> {
    match variant {
        ListingVariant::V1 => None,
        ListingVariant::V2 => value,
    }
}

/// The listing of `bucket` that `query` asks for, before any row is sorted
/// into it. It is never truncated and names no next token: a listing
/// holds all the keys under its prefix.
pub open spec fn requested_listing(
    bucket: Seq<char>,
    query: Seq<(Seq<char>, Seq<char>)>,
    variant: ListingVariant,
) -> ListingView {
    ListingView {
        name: bucket,
        prefix: requested_prefix(query),
        delimiter: requested_delimiter(query),
        max_keys: requested_max_keys(query),
        is_truncated: false,
        encoding_type: only_v2(variant, query_value(query, "encoding-type"@)),
        continuation_token: only_v2(variant, query_value(query, "continuation-token"@)),
        next_continuation_token: None,
        start_after: only_v2(variant, query_value(query, "start-after"@)),
        contents: Seq::empty(),
        common_prefixes: Seq::empty(),
    }
}

/// A listing under way: the statement that reads the rows, the listing
/// that they are sorted into, and the shape in which it is written.
#[derive(Debug)]
pub struct ListingPlan {
    pub statement: Statement,
    pub listing: ListBucketResult,
    pub variant: ListingVariant,
}

/// Whether `r` is the first step of the listing of `bucket` that `query`
/// asks for in the shape `variant`: the statement that reads the rows
/// under the prefix from the bucket's table, or the response that ends the
/// request before any storage is touched.
pub open spec fn plans_listing(
    r: Result<ListingPlan, Response>,
    allowed: Seq<String>,
    bucket: Seq<char>,
    query: Seq<(Seq<char>, Seq<char>)>,
    variant: ListingVariant,
) -> bool {
    match resolution(allowed, bucket) {
        Ok(table) => r matches Ok(plan) && plan.variant == variant && plan.listing@
            == requested_listing(bucket, query, variant) && plan.statement@ == keyed_statement(
            list_sql(table),
            prefix_pattern(requested_prefix(query)),
        ),
        Err(resp) => r matches Err(e) && e@ == resp,
    }
}

fn plan_listing(
    state: &AppState,
    bucket: &str,
    params: &Vec<(String, String)>,
    variant: ListingVariant,
) -> (r: Result<ListingPlan, Response>)
    ensures
        plans_listing(r, state.buckets@, bucket@, query_view(params@), variant),
{
    match resolve_bucket(bucket, &state.buckets) {
        Err(resp) => {
            return Err(resp);
        },
        Ok(_) => {},
    }
    let prefix = match query_get(params, "prefix") {
        Some(p) => p,
        None => String::new(),
    };
    let delimiter = match query_get(params, "delimiter") {
        Some(d) => {
            let chars = chars_of(d.as_str());
            if chars.len() == 0 {
                None
            } else {
                Some(chars[0])
            }
        },
        None => None,
    };
    let max_keys = match query_get(params, "max-keys") {
        Some(v) => match parse_i32(v.as_str()) {
            Some(n) => n,
            None => i32::MAX,
        },
        None => i32::MAX,
    };
    let statement = match query_bucket_objects(bucket, prefix.as_str()) {
        Ok(s) => s,
        Err(resp) => {
            return Err(resp);
        },
    };
    let mut listing = ListBucketResult::new(bucket, prefix.as_str(), delimiter);
    listing.set_max_keys(max_keys);
    match variant {
        ListingVariant::V1 => {},
        ListingVariant::V2 => {
            listing.set_encoding_type(query_get(params, "encoding-type"));
            listing.set_start_after(query_get(params, "start-after"));
            listing.set_continuation(query_get(params, "continuation-token"), None);
        },
    }
    Ok(ListingPlan { statement, listing, variant })
}

/// First listing, first step.
pub fn list_objects(state: &AppState, bucket: &str, params: &Vec<(String, String)>) -> (r: Result<
    ListingPlan,
    Response,
>)
    ensures
        plans_listing(r, state.buckets@, bucket@, query_view(params@), ListingVariant::V1),
{
    plan_listing(state, bucket, params, ListingVariant::V1)
}

/// Second listing, first step.
pub fn list_objects_v2(state: &AppState, bucket: &str, params: &Vec<(String, String)>) -> (r:
    Result<ListingPlan, Response>)
    ensures
        plans_listing(r, state.buckets@, bucket@, query_view(params@), ListingVariant::V2),
{
    plan_listing(state, bucket, params, ListingVariant::V2)
}

/// A listing, second step: the rows that the engine read are sorted into
/// the listing, which is written in the shape of the plan; an internal
/// error where the engine failed.
pub fn list_objects_reply(
    plan: ListingPlan,
    outcome: Result<Vec<(String, usize, i64, Option<String>)>, StorageFailure>,
) -> (r: Response)
    ensures
        r@ == match outcome {
            Ok(rows) => xml_response(
                200,
                listing_xml(plan.listing@.with_rows(rows_view(rows@)), plan.variant),
            ),
            Err(f) => failure_response(f),
        },
{
    match outcome {
        Ok(rows) => {
            let mut listing = plan.listing;
            listing.process_keys(rows);
            let body = listing.render(plan.variant);
            Response::xml(200, body.as_str())
        },
        Err(f) => storage_failure_response(&f),
    }
}

/// What a request on a bucket comes to at its first step.
#[derive(Debug)]
pub enum BucketPlan {
    /// The response is known without the storage engine.
    Reply(Response),
    /// Rows are to be read for a listing.
    List(ListingPlan),
}

/// The first step of a request on `bucket`: the versioning status, or the
/// listing in the shape that `query` asks for.
pub fn get_bucket_dispatch(state: &AppState, bucket: &str, query: &Vec<(String, String)>) -> (r:
    BucketPlan)
    ensures
        match requested_operation(query_view(query@)) {
            BucketOperation::Versioning => r matches BucketPlan::Reply(resp) && resp@ == (if allows(
                state.buckets@,
                bucket@,
            ) {
                xml_response(200, versioning_xml())
            } else {
                error_response(S3Error::AccessDenied, access_denied_message(bucket@))
            }),
            BucketOperation::ListV1 => plans_listing(
                listing_step(r),
                state.buckets@,
                bucket@,
                query_view(query@),
                ListingVariant::V1,
            ),
            BucketOperation::ListV2 => plans_listing(
                listing_step(r),
                state.buckets@,
                bucket@,
                query_view(query@),
                ListingVariant::V2,
            ),
        },
{
    let listed = match bucket_operation(query) {
        BucketOperation::Versioning => {
            return BucketPlan::Reply(get_bucket_versioning(state, bucket));
        },
        BucketOperation::ListV1 => list_objects(state, bucket, query),
        BucketOperation::ListV2 => list_objects_v2(state, bucket, query),
    };
    match listed {
        Ok(plan) => BucketPlan::List(plan),
        Err(resp) => BucketPlan::Reply(resp),
    }
}

/// The first step of a listing that `plan` stands for.
pub open spec fn listing_step(plan: BucketPlan) -> Result<ListingPlan, Response> {
    match plan {
        BucketPlan::List(p) => Ok(p),
        BucketPlan::Reply(resp) => Err(resp),
    }
}

/// A listing that is refused reaches no storage: on a bucket that the
/// allow-list does not hold, the first step of a listing is the response
/// `AccessDenied` with status 403 and no statement; on an allowed bucket
/// whose name maps to no identifier, `InvalidBucketName` with status 400
/// and no statement.
pub proof fn lemma_refused_listing_has_no_statement(
    r: Result<ListingPlan, Response>,
    allowed: Seq<String>,
    bucket: Seq<char>,
    query: Seq<(Seq<char>, Seq<char>)>,
    variant: ListingVariant,
)
    requires
        plans_listing(r, allowed, bucket, query, variant),
    ensures
        !allows(allowed, bucket) ==> (r matches Err(e) && e@ == error_response(
            S3Error::AccessDenied,
            access_denied_message(bucket),
        ) && e@.status == 403),
        allows(allowed, bucket) && !valid_bucket_name(bucket) ==> (r matches Err(e) && e@
            == error_response(S3Error::InvalidBucketName, invalid_name_message(bucket))
            && e@.status == 400),
{
}

/// The message that goes with a request for no known operation.
pub open spec fn unknown_operation_message() -> Seq<char> {
    "The requested operation is not implemented"@
}

/// The response to a request for no known operation: `NotImplemented`,
/// with status 501.
pub fn unknown_operation() -> (r: Response)
    ensures
        r@ == error_response(S3Error::NotImplemented, unknown_operation_message()),
{
    Response::error(S3Error::NotImplemented, "The requested operation is not implemented")
}

} // verus!
