//! Objects: put, get, delete and head. Each operation is a step from the
//! request to a statement for the storage engine, and a step from what the
//! engine answered to the response.

use crate::models::response::{
    bare_response, binary_response, error_response, Response, ResponseView, S3Error,
};
use crate::models::state::{allows, AppState};
use crate::utils::bucket::{
    access_denied_message, invalid_name_message, resolution, resolve_bucket, valid_bucket_name,
};
use crate::utils::db::{
    around, delete_sql, get_sql, head_sql, keyed_statement, put_sql, Lookup, SqlValue,
    SqlValueView, Statement, StatementView, StorageFailure,
};
use crate::utils::hash::{content_hash, content_hash_of};
use crate::utils::text::{push_signed_decimal, signed_decimal};
use crate::utils::time::{http_time_text, is_http_timestamp, rfc2822};
use vstd::prelude::*;
use vstd::string::StringExecFns;

verus! {

/// Whether the step `r` is what `expected` says, view for view: the
/// statement to run, or the response that ends the request at once.
pub open spec fn plans(r: Result<Statement, Response>, expected: Result<StatementView, ResponseView>)
    -> bool {
    match r {
        Ok(s) => expected == Ok::<StatementView, ResponseView>(s@),
        Err(resp) => expected == Err::<StatementView, ResponseView>(resp@),
    }
}

/// The statement that stores `body` under `key` in `table`: key, payload
/// and content hash are bound, none stands in the text.
pub open spec fn put_statement(table: Seq<char>, key: Seq<char>, body: Seq<u8>) -> StatementView {
    StatementView {
        sql: put_sql(table),
        params: seq![
            SqlValueView::Text(key),
            SqlValueView::Blob(body),
            SqlValueView::Text(content_hash_of(body)),
        ],
    }
}

/// What becomes of a request on one object of `bucket`: the statement made
/// by `statement` from the bucket's table, or the response that ends the
/// request before any storage is touched.
pub open spec fn object_plan(
    allowed: Seq<String>,
    bucket: Seq<char>,
    statement: spec_fn(Seq<char>) -> StatementView,
) -> Result<StatementView, ResponseView> {
    match resolution(allowed, bucket) {
        Ok(table) => Ok(statement(table)),
        Err(resp) => Err(resp),
    }
}

/// The message that goes with a failure of the storage engine.
pub open spec fn failure_message(f: StorageFailure) -> Seq<char> {
    match f {
        StorageFailure::Unavailable(e) => "Database connection error: "@ + e@,
        StorageFailure::Rejected(e) => e@,
    }
}

/// The response that reports a failure of the storage engine.
pub open spec fn failure_response(f: StorageFailure) -> ResponseView {
    error_response(S3Error::InternalError, failure_message(f))
}

/// The message that goes with a key under which nothing is stored.
pub open spec fn missing_message(key: Seq<char>) -> Seq<char> {
    "The object you requested does not exist: "@ + key
}

/// The response that reports a failure of the storage engine.
pub fn storage_failure_response(f: &StorageFailure) -> (r: Response)
    ensures
        r@ == failure_response(*f),
{
    match f {
        StorageFailure::Unavailable(e) => {
            let mut message = String::from_str("Database connection error: ");
            message.append(e.as_str());
            Response::error(S3Error::InternalError, message.as_str())
        },
        StorageFailure::Rejected(e) => Response::error(S3Error::InternalError, e.as_str()),
    }
}

/// The response that reports that nothing is stored under `key`.
pub fn no_such_key_response(key: &str) -> (r: Response)
    ensures
        r@ == error_response(S3Error::NoSuchKey, missing_message(key@)),
{
    let mut message = String::from_str("The object you requested does not exist: ");
    message.append(key);
    Response::error(S3Error::NoSuchKey, message.as_str())
}

/// Put, first step: the statement that stores `body` under `key`. A bucket
/// that is not allowed, or whose name maps to no identifier, ends the
/// request here.
pub fn upload_object(state: &AppState, bucket: &str, key: &str, body: &[u8]) -> (r: Result<
    Statement,
    Response,
>)
    ensures
        plans(
            r,
            object_plan(
                state.buckets@,
                bucket@,
                |table: Seq<char>| put_statement(table, key@, body@),
            ),
        ),
{
    match resolve_bucket(bucket, &state.buckets) {
        Err(resp) => Err(resp),
        Ok(table) => {
            let md5_hash = content_hash(body);
            let sql = around(
                "INSERT INTO ",
                table.as_str(),
                " (key, data, md5) VALUES (?1, ?2, ?3) ON CONFLICT(key) DO UPDATE SET data=excluded.data, md5=excluded.md5",
            );
            let mut params: Vec<SqlValue> = Vec::new();
            params.push(SqlValue::Text(String::from_str(key)));
            params.push(SqlValue::Blob(vstd::slice::slice_to_vec(body)));
            params.push(SqlValue::Text(md5_hash));
            let s = Statement { sql, params };
            assert(s@.params =~= put_statement(table@, key@, body@).params);
            Ok(s)
        },
    }
}

/// Put, second step: 200 without a body once the row is stored, however
/// many rows the engine counts; an internal error where it failed.
pub fn upload_object_reply(outcome: Result<usize, StorageFailure>) -> (r: Response)
    ensures
        r@ == match outcome {
            Ok(_) => bare_response(200),
            Err(f) => failure_response(f),
        },
{
    match outcome {
        Ok(_) => Response::bare(200),
        Err(f) => storage_failure_response(&f),
    }
}

/// Get, first step: the statement that reads the payload stored under
/// `key`.
pub fn download_object(state: &AppState, bucket: &str, key: &str) -> (r: Result<
    Statement,
    Response,
>)
    ensures
        plans(
            r,
            object_plan(
                state.buckets@,
                bucket@,
                |table: Seq<char>| keyed_statement(get_sql(table), key@),
            ),
        ),
{
    match resolve_bucket(bucket, &state.buckets) {
        Err(resp) => Err(resp),
        Ok(table) => {
            let sql = around("SELECT data FROM ", table.as_str(), " WHERE key = ?1");
            Ok(Statement::keyed(sql, key))
        },
    }
}

/// Get, second step: the payload as it was found, with its length; 404
/// where nothing is stored under `key`; an internal error where the engine
/// failed.
pub fn download_object_reply(key: &str, outcome: Lookup<Vec<u8>>) -> (r: Response)
    ensures
        r@ == match outcome {
            Lookup::Found(data) => binary_response(200, data@),
            Lookup::Missing => error_response(S3Error::NoSuchKey, missing_message(key@)),
            Lookup::Failed(f) => failure_response(f),
        },
{
    match outcome {
        Lookup::Found(data) => Response::binary(200, data),
        Lookup::Missing => no_such_key_response(key),
        Lookup::Failed(f) => storage_failure_response(&f),
    }
}

/// Delete, first step: the statement that removes the row stored under
/// `key`.
pub fn delete_object(state: &AppState, bucket: &str, key: &str) -> (r: Result<
    Statement,
    Response,
>)
    ensures
        plans(
            r,
            object_plan(
                state.buckets@,
                bucket@,
                |table: Seq<char>| keyed_statement(delete_sql(table), key@),
            ),
        ),
{
    match resolve_bucket(bucket, &state.buckets) {
        Err(resp) => Err(resp),
        Ok(table) => {
            let sql = around("DELETE FROM ", table.as_str(), " WHERE key = ?1");
            Ok(Statement::keyed(sql, key))
        },
    }
}

/// Delete, second step: 204 without a body whatever the number of rows
/// removed, none included; an internal error where the engine failed.
pub fn delete_object_reply(outcome: Result<usize, StorageFailure>) -> (r: Response)
    ensures
        r@ == match outcome {
            Ok(_) => bare_response(204),
            Err(f) => failure_response(f),
        },
{
    match outcome {
        Ok(_) => Response::bare(204),
        Err(f) => storage_failure_response(&f),
    }
}

/// What the storage engine holds of an object besides its payload.
#[derive(Debug)]
pub struct ObjectMeta {
    /// The length of the payload in bytes.
    pub size: i64,
    /// Seconds since 1970-01-01T00:00:00Z.
    pub last_modified: i64,
    /// The content hash.
    pub md5: String,
}

/// The headers that describe an object: the length of its payload, the
/// time of its last change where that lies in the years 1970 to 9999, and
/// its content hash in double quotes.
pub open spec fn head_headers(size: int, last_modified: int, md5: Seq<char>) -> Seq<
    (Seq<char>, Seq<char>),
> {
    seq![("Content-Length"@, signed_decimal(size))] + (if is_http_timestamp(last_modified) {
        seq![("Last-Modified"@, rfc2822(last_modified))]
    } else {
        Seq::empty()
    }) + seq![("ETag"@, "\""@ + md5 + "\""@)]
}

/// Head, first step: the statement that reads size, timestamp and hash of
/// the row stored under `key`, not its payload.
pub fn head_object(state: &AppState, bucket: &str, key: &str) -> (r: Result<Statement, Response>)
    ensures
        plans(
            r,
            object_plan(
                state.buckets@,
                bucket@,
                |table: Seq<char>| keyed_statement(head_sql(table), key@),
            ),
        ),
{
    match resolve_bucket(bucket, &state.buckets) {
        Err(resp) => Err(resp),
        Ok(table) => {
            let sql = around(
                "SELECT LENGTH(data), last_modified, md5 FROM ",
                table.as_str(),
                " WHERE key = ?1",
            );
            Ok(Statement::keyed(sql, key))
        },
    }
}

/// Head, second step: 200 with the headers that describe the object and no
/// body; 404 where nothing is stored under `key`; an internal error where
/// the engine failed.
pub fn head_object_reply(key: &str, outcome: Lookup<ObjectMeta>) -> (r: Response)
    ensures
        r@ == match outcome {
            Lookup::Found(meta) => ResponseView {
                status: 200,
                headers: head_headers(meta.size as int, meta.last_modified as int, meta.md5@),
                body: Seq::empty(),
            },
            Lookup::Missing => error_response(S3Error::NoSuchKey, missing_message(key@)),
            Lookup::Failed(f) => failure_response(f),
        },
{
    match outcome {
        Lookup::Found(meta) => {
            let mut headers: Vec<(String, String)> = Vec::new();
            let mut length = String::new();
            push_signed_decimal(&mut length, meta.size);
            assert(length@ =~= signed_decimal(meta.size as int));
            headers.push((String::from_str("Content-Length"), length));
            match http_time_text(meta.last_modified) {
                Some(time) => {
                    headers.push((String::from_str("Last-Modified"), time));
                },
                None => {},
            }
            let etag = around("\"", meta.md5.as_str(), "\"");
            headers.push((String::from_str("ETag"), etag));
            let r = Response { status: 200, headers, body: Vec::new() };
            assert(r@.headers =~= head_headers(
                meta.size as int,
                meta.last_modified as int,
                meta.md5@,
            ));
            r
        },
        Lookup::Missing => no_such_key_response(key),
        Lookup::Failed(f) => storage_failure_response(&f),
    }
}

/// A request that is refused reaches no storage: on a bucket that the
/// allow-list does not hold, an operation on an object comes to the
/// response `AccessDenied` with status 403 and to no statement; on an
/// allowed bucket whose name maps to no identifier, to `InvalidBucketName`
/// with status 400 and to no statement.
pub proof fn lemma_refused_request_has_no_statement(
    allowed: Seq<String>,
    bucket: Seq<char>,
    statement: spec_fn(Seq<char>) -> StatementView,
)
    ensures
        !allows(allowed, bucket) ==> object_plan(allowed, bucket, statement) == Err::<
            StatementView,
            ResponseView,
        >(error_response(S3Error::AccessDenied, access_denied_message(bucket))),
        allows(allowed, bucket) && !valid_bucket_name(bucket) ==> object_plan(
            allowed,
            bucket,
            statement,
        ) == Err::<StatementView, ResponseView>(
            error_response(S3Error::InvalidBucketName, invalid_name_message(bucket)),
        ),
        error_response(S3Error::AccessDenied, access_denied_message(bucket)).status == 403,
        error_response(S3Error::InvalidBucketName, invalid_name_message(bucket)).status == 400,
{
}

/// What is put is what is got: the statement of a put binds the key, the
/// payload as it came and the hash of that payload; the statement of a get
/// binds the same key; and the response to a get carries the payload that
/// was found, byte for byte.
pub proof fn lemma_put_then_get(table: Seq<char>, key: Seq<char>, payload: Seq<u8>)
    ensures
        put_statement(table, key, payload).params[0] == keyed_statement(
            get_sql(table),
            key,
        ).params[0],
        put_statement(table, key, payload).params[1] == SqlValueView::Blob(payload),
        put_statement(table, key, payload).params[2] == SqlValueView::Text(
            content_hash_of(payload),
        ),
        binary_response(200, payload).body == payload,
{
}

/// Head and get agree: for a row that holds `payload` with its length and
/// its hash, the response to a head names the length that the response to
/// a get names, and the hash of the payload as its entity tag.
pub proof fn lemma_head_agrees_with_get(payload: Seq<u8>, last_modified: int)
    ensures
        head_headers(payload.len() as int, last_modified, content_hash_of(payload))[0]
            == binary_response(200, payload).headers[1],
        head_headers(payload.len() as int, last_modified, content_hash_of(payload)).last() == (
            "ETag"@,
            "\""@ + content_hash_of(payload) + "\""@,
        ),
{
}

} // verus!
