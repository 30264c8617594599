//! Bucket names: the identifier that a name maps to, the allow-list, and
//! the statements that set a bucket up and list it.

use crate::models::response::{
    error_response, error_xml, xml_response, Response, ResponseView, S3Error,
};
use crate::models::state::{allows, holds_name};
use crate::utils::db::{
    around, create_table_sql, create_trigger_sql, keyed_statement, list_sql, plain_statement,
    statements_view, Statement,
};
use crate::utils::text::{chars_of, push_element};
use vstd::prelude::*;
use vstd::string::StringExecFns;

verus! {

/// Whether `c` may stand in a bucket name: an ASCII letter or digit, an
/// underscore or a dash.
pub open spec fn is_name_char(c: char) -> bool {
    ('a' <= c && c <= 'z') || ('A' <= c && c <= 'Z') || ('0' <= c && c <= '9') || c == '_' || c
        == '-'
}

/// Whether `name` is a bucket name that maps to an identifier: not empty,
/// and made of the characters that may stand in one.
pub open spec fn valid_bucket_name(name: Seq<char>) -> bool {
    name.len() > 0 && forall|i: int| 0 <= i < name.len() ==> is_name_char(#[trigger] name[i])
}

/// What stands for `c` in an identifier: an underscore for a dash.
pub open spec fn identifier_char(c: char) -> char {
    if c == '-' {
        '_'
    } else {
        c
    }
}

/// The identifier of the table that holds the bucket `name`.
pub open spec fn table_name(name: Seq<char>) -> Seq<char> {
    "bucket_"@ + name.map_values(|c: char| identifier_char(c))
}

/// The identifier of the table that holds `bucket`, where the name is
/// valid; `None` where it is not.
pub fn sanitize_bucket_name(bucket: &str) -> (r: Option<String>)
    ensures
        match r {
            Some(t) => valid_bucket_name(bucket@) && t@ == table_name(bucket@),
            None => !valid_bucket_name(bucket@),
        },
{
    let name = chars_of(bucket);
    if name.len() == 0 {
        return None;
    }
    let mut table = String::from_str("bucket_");
    let mut i: usize = 0;
    while i < name.len()
        invariant
            i <= name.len(),
            name@ == bucket@,
            forall|j: int| 0 <= j < i ==> is_name_char(#[trigger] name@[j]),
            table@ == "bucket_"@ + name@.take(i as int).map_values(|c: char| identifier_char(c)),
        decreases name.len() - i,
    {
        let c = name[i];
        let known = ('a' <= c && c <= 'z') || ('A' <= c && c <= 'Z') || ('0' <= c && c <= '9')
            || c == '_' || c == '-';
        if !known {
            return None;
        }
        if c == '-' {
            table.push('_');
        } else {
            table.push(c);
        }
        i += 1;
        assert(table@ =~= "bucket_"@ + name@.take(i as int).map_values(
            |c: char| identifier_char(c),
        ));
    }
    assert(name@.take(i as int) =~= name@);
    Some(table)
}

/// Whether `c` may stand in an identifier: an ASCII letter or digit, or an
/// underscore.
pub open spec fn is_identifier_char(c: char) -> bool {
    ('a' <= c && c <= 'z') || ('A' <= c && c <= 'Z') || ('0' <= c && c <= '9') || c == '_'
}

/// The identifier of a valid bucket name is made of letters, digits and
/// underscores alone: nothing of the name can end the identifier or begin
/// another part of a statement.
pub proof fn lemma_table_name_is_identifier(name: Seq<char>)
    requires
        valid_bucket_name(name),
    ensures
        table_name(name).len() == name.len() + 7,
        forall|i: int|
            0 <= i < table_name(name).len() ==> is_identifier_char(#[trigger] table_name(name)[i]),
{
    reveal_strlit("bucket_");
    assert forall|i: int| 0 <= i < table_name(name).len() implies is_identifier_char(
        #[trigger] table_name(name)[i],
    ) by {
        if i >= 7 {
            assert(table_name(name)[i] == identifier_char(name[i - 7]));
            assert(is_name_char(name[i - 7]));
        }
    }
}

/// Two names with one identifier differ at most where one has a dash and
/// the other an underscore.
pub proof fn lemma_table_name_agreement(a: Seq<char>, b: Seq<char>)
    requires
        table_name(a) == table_name(b),
    ensures
        a.len() == b.len(),
        forall|i: int| 0 <= i < a.len() ==> identifier_char(a[i]) == identifier_char(b[i]),
{
    let head = "bucket_"@;
    let ta = a.map_values(|c: char| identifier_char(c));
    let tb = b.map_values(|c: char| identifier_char(c));
    assert(ta =~= table_name(a).skip(head.len() as int));
    assert(tb =~= table_name(b).skip(head.len() as int));
    assert forall|i: int| 0 <= i < a.len() implies identifier_char(a[i]) == identifier_char(
        b[i],
    ) by {
        assert(ta[i] == tb[i]);
    }
}

/// Among names without an underscore, and among names without a dash, the
/// mapping to identifiers is injective: two names with one identifier are
/// one name.
pub proof fn lemma_table_name_injective(a: Seq<char>, b: Seq<char>)
    requires
        table_name(a) == table_name(b),
        (!a.contains('_') && !b.contains('_')) || (!a.contains('-') && !b.contains('-')),
    ensures
        a == b,
{
    lemma_table_name_agreement(a, b);
    assert forall|i: int| 0 <= i < a.len() implies a[i] == b[i] by {
        assert(identifier_char(a[i]) == identifier_char(b[i]));
        assert(a.contains(a[i]));
        assert(b.contains(b[i]));
    }
    assert(a =~= b);
}

/// The message that goes with a refusal of the bucket `bucket`.
pub open spec fn access_denied_message(bucket: Seq<char>) -> Seq<char> {
    "Bucket access denied: "@ + bucket
}

/// The message that goes with an invalid bucket name.
pub open spec fn invalid_name_message(bucket: Seq<char>) -> Seq<char> {
    "Invalid bucket name: "@ + bucket
}

/// `bucket`, where `allowed_buckets` holds it; else the response that
/// refuses access.
pub fn validate_bucket(bucket: &str, allowed_buckets: &Vec<String>) -> (r: Result<
    String,
    Response,
>)
    ensures
        match r {
            Ok(name) => allows(allowed_buckets@, bucket@) && name@ == bucket@,
            Err(resp) => !allows(allowed_buckets@, bucket@) && resp@ == error_response(
                S3Error::AccessDenied,
                access_denied_message(bucket@),
            ),
        },
{
    if holds_name(allowed_buckets, bucket) {
        Ok(String::from_str(bucket))
    } else {
        let mut message = String::from_str("Bucket access denied: ");
        message.append(bucket);
        Err(Response::error(S3Error::AccessDenied, message.as_str()))
    }
}

/// What becomes of a request that names `bucket`: the table that it goes
/// to, or the response that ends it before any storage is touched.
pub open spec fn resolution(allowed: Seq<String>, bucket: Seq<char>) -> Result<
    Seq<char>,
    ResponseView,
> {
    if !allows(allowed, bucket) {
        Err(error_response(S3Error::AccessDenied, access_denied_message(bucket)))
    } else if !valid_bucket_name(bucket) {
        Err(error_response(S3Error::InvalidBucketName, invalid_name_message(bucket)))
    } else {
        Ok(table_name(bucket))
    }
}

/// A request on a bucket that the allow-list does not hold is refused with
/// `AccessDenied` and status 403, whatever the name, and goes to no table.
pub proof fn lemma_unlisted_bucket_is_refused(allowed: Seq<String>, bucket: Seq<char>)
    requires
        !allows(allowed, bucket),
    ensures
        resolution(allowed, bucket) == Err::<Seq<char>, ResponseView>(
            error_response(S3Error::AccessDenied, access_denied_message(bucket)),
        ),
        error_response(S3Error::AccessDenied, access_denied_message(bucket)).status == 403,
{
}

/// A request on an allowed bucket whose name maps to no identifier is
/// refused with `InvalidBucketName` and status 400, and goes to no table.
/// No request on a name that maps to no identifier goes to a table.
pub proof fn lemma_invalid_name_is_rejected(allowed: Seq<String>, bucket: Seq<char>)
    requires
        !valid_bucket_name(bucket),
    ensures
        resolution(allowed, bucket) is Err,
        allows(allowed, bucket) ==> resolution(allowed, bucket) == Err::<
            Seq<char>,
            ResponseView,
        >(error_response(S3Error::InvalidBucketName, invalid_name_message(bucket))),
        error_response(S3Error::InvalidBucketName, invalid_name_message(bucket)).status == 400,
{
}

/// Whether no two names of `names` share a table.
pub open spec fn isolated(names: Seq<String>) -> bool {
    forall|i: int, j: int|
        0 <= i < j < names.len() ==> table_name((#[trigger] names[i])@) != table_name(
            (#[trigger] names[j])@,
        )
}

/// Whether the buckets `a` and `b` share a table.
pub fn same_table(a: &str, b: &str) -> (r: bool)
    ensures
        r == (table_name(a@) == table_name(b@)),
{
    let x = chars_of(a);
    let y = chars_of(b);
    let ghost ta = a@.map_values(|c: char| identifier_char(c));
    let ghost tb = b@.map_values(|c: char| identifier_char(c));
    proof {
        assert(ta =~= table_name(a@).skip("bucket_"@.len() as int));
        assert(tb =~= table_name(b@).skip("bucket_"@.len() as int));
    }
    if x.len() != y.len() {
        assert(ta.len() != tb.len());
        return false;
    }
    let mut i: usize = 0;
    while i < x.len()
        invariant
            i <= x.len(),
            x.len() == y.len(),
            x@ == a@,
            y@ == b@,
            ta == a@.map_values(|c: char| identifier_char(c)),
            tb == b@.map_values(|c: char| identifier_char(c)),
            ta == table_name(a@).skip("bucket_"@.len() as int),
            tb == table_name(b@).skip("bucket_"@.len() as int),
            forall|j: int| 0 <= j < i ==> identifier_char(x@[j]) == identifier_char(y@[j]),
        decreases x.len() - i,
    {
        let p = if x[i] == '-' {
            '_'
        } else {
            x[i]
        };
        let q = if y[i] == '-' {
            '_'
        } else {
            y[i]
        };
        if p != q {
            assert(ta[i as int] != tb[i as int]);
            return false;
        }
        i += 1;
    }
    assert(ta =~= tb);
    true
}

/// The first name of `names` that shares a table with one before it, and
/// the first name that it shares the table with, as positions, the later
/// first; `None` where no two names share a table.
pub fn first_collision(names: &Vec<String>) -> (r: Option<(usize, usize)>)
    ensures
        match r {
            Some((j, i)) => {
                &&& i < j < names.len()
                &&& table_name(names@[i as int]@) == table_name(names@[j as int]@)
                &&& isolated(names@.take(j as int))
                &&& forall|k: int|
                    0 <= k < i ==> table_name((#[trigger] names@[k])@) != table_name(
                        names@[j as int]@,
                    )
            },
            None => isolated(names@),
        },
{
    let mut j: usize = 0;
    while j < names.len()
        invariant
            j <= names.len(),
            isolated(names@.take(j as int)),
        decreases names.len() - j,
    {
        let mut i: usize = 0;
        while i < j
            invariant
                i <= j < names.len(),
                isolated(names@.take(j as int)),
                forall|k: int|
                    0 <= k < i ==> table_name((#[trigger] names@[k])@) != table_name(
                        names@[j as int]@,
                    ),
            decreases j - i,
        {
            if same_table(names[i].as_str(), names[j].as_str()) {
                return Some((j, i));
            }
            i += 1;
        }
        proof {
            let shorter = names@.take(j as int);
            let longer = names@.take(j + 1);
            assert forall|k: int, m: int| 0 <= k < m < longer.len() implies table_name(
                (#[trigger] longer[k])@,
            ) != table_name((#[trigger] longer[m])@) by {
                if m < j {
                    assert(table_name(shorter[k]@) != table_name(shorter[m]@));
                } else {
                    assert(table_name(names@[k]@) != table_name(names@[j as int]@));
                }
            }
        }
        j += 1;
    }
    assert(names@.take(j as int) =~= names@);
    None
}

/// Two buckets go to two tables: where no two allowed names share a
/// table, requests on two different allowed buckets resolve to different
/// tables, so what is written to one is not read from the other.
pub proof fn lemma_bucket_isolation(allowed: Seq<String>, a: Seq<char>, b: Seq<char>)
    requires
        isolated(allowed),
        allows(allowed, a),
        allows(allowed, b),
        a != b,
    ensures
        table_name(a) != table_name(b),
        resolution(allowed, a) is Ok && resolution(allowed, b) is Ok ==> resolution(allowed, a)
            != resolution(allowed, b),
{
    let i = choose|i: int| 0 <= i < allowed.len() && (#[trigger] allowed[i])@ == a;
    let j = choose|j: int| 0 <= j < allowed.len() && (#[trigger] allowed[j])@ == b;
    if i < j {
        assert(table_name(allowed[i]@) != table_name(allowed[j]@));
    } else {
        assert(table_name(allowed[j]@) != table_name(allowed[i]@));
    }
}

/// Whether `r` is what `expected` says, view for view.
pub open spec fn resolves_to(
    r: Result<String, Response>,
    expected: Result<Seq<char>, ResponseView>,
) -> bool {
    match r {
        Ok(t) => expected == Ok::<Seq<char>, ResponseView>(t@),
        Err(resp) => expected == Err::<Seq<char>, ResponseView>(resp@),
    }
}

/// The response that reports the invalid bucket name `bucket`.
pub fn invalid_bucket_response(bucket: &str) -> (r: Response)
    ensures
        r@ == error_response(S3Error::InvalidBucketName, invalid_name_message(bucket@)),
{
    let mut message = String::from_str("Invalid bucket name: ");
    message.append(bucket);
    Response::error(S3Error::InvalidBucketName, message.as_str())
}

/// The table that a request on `bucket` goes to: the allow-list is asked
/// first, then the name is mapped.
pub fn resolve_bucket(bucket: &str, allowed_buckets: &Vec<String>) -> (r: Result<String, Response>)
    ensures
        resolves_to(r, resolution(allowed_buckets@, bucket@)),
{
    match validate_bucket(bucket, allowed_buckets) {
        Err(resp) => Err(resp),
        Ok(_) => match sanitize_bucket_name(bucket) {
            Some(table) => Ok(table),
            None => Err(invalid_bucket_response(bucket)),
        },
    }
}

/// The pattern that matches the keys which begin with `prefix`.
pub open spec fn prefix_pattern(prefix: Seq<char>) -> Seq<char> {
    prefix + "%"@
}

/// The statement that reads the rows of `bucket` whose key matches the
/// pattern for `prefix`; the response for an invalid name where the name
/// maps to no identifier.
pub fn query_bucket_objects(bucket: &str, prefix: &str) -> (r: Result<Statement, Response>)
    ensures
        match r {
            Ok(s) => valid_bucket_name(bucket@) && s@ == keyed_statement(
                list_sql(table_name(bucket@)),
                prefix_pattern(prefix@),
            ),
            Err(resp) => !valid_bucket_name(bucket@) && resp@ == error_response(
                S3Error::InvalidBucketName,
                invalid_name_message(bucket@),
            ),
        },
{
    match sanitize_bucket_name(bucket) {
        None => Err(invalid_bucket_response(bucket)),
        Some(table) => {
            let sql = around(
                "SELECT key, length(data), last_modified, md5 FROM ",
                table.as_str(),
                " WHERE key LIKE ?1 ORDER BY key",
            );
            let mut pattern = String::from_str(prefix);
            pattern.append("%");
            Ok(Statement::keyed(sql, pattern.as_str()))
        },
    }
}

/// The statements that set up the table of `bucket` unless it is there:
/// the table, then the trigger that refreshes a row's timestamp.
pub fn ensure_bucket_table(bucket: &str) -> (r: Result<Vec<Statement>, S3Error>)
    ensures
        match r {
            Ok(s) => valid_bucket_name(bucket@) && statements_view(s@) == seq![
                plain_statement(create_table_sql(table_name(bucket@))),
                plain_statement(create_trigger_sql(table_name(bucket@))),
            ],
            Err(e) => !valid_bucket_name(bucket@) && e == S3Error::InvalidBucketName,
        },
{
    match sanitize_bucket_name(bucket) {
        None => Err(S3Error::InvalidBucketName),
        Some(table) => {
            let create = around(
                "CREATE TABLE IF NOT EXISTS ",
                table.as_str(),
                " (key TEXT NOT NULL PRIMARY KEY, data BLOB NOT NULL, last_modified INTEGER NOT NULL DEFAULT (strftime('%s', 'now')), md5 TEXT(32) NOT NULL)",
            );
            let mut trigger = String::from_str("CREATE TRIGGER IF NOT EXISTS update_");
            trigger.append(table.as_str());
            trigger.append("_timestamp AFTER UPDATE ON ");
            trigger.append(table.as_str());
            trigger.append(" BEGIN UPDATE ");
            trigger.append(table.as_str());
            trigger.append(" SET last_modified = strftime('%s', 'now') WHERE key = NEW.key; END;");
            let mut s: Vec<Statement> = Vec::new();
            s.push(Statement::plain(create));
            s.push(Statement::plain(trigger));
            assert(statements_view(s@) =~= seq![
                plain_statement(create_table_sql(table_name(bucket@))),
                plain_statement(create_trigger_sql(table_name(bucket@))),
            ]);
            Ok(s)
        },
    }
}

/// The error document for `code` and `message`.
pub fn generate_xml_error(code: &str, message: &str) -> (xml: String)
    ensures
        xml@ == error_xml(code@, message@),
{
    let mut xml = String::from_str(
        "<?xml version=\"1.0\" encoding=\"UTF-8\"?>\n        <Error>\n            ",
    );
    push_element(&mut xml, "Code", code);
    xml.append("\n            ");
    push_element(&mut xml, "Message", message);
    xml.append("\n        </Error>");
    xml
}

/// The response with `status` that carries the error document for `code`
/// and `message`.
pub fn xml_error_response(status: u16, code: &str, message: &str) -> (r: Response)
    ensures
        r@ == xml_response(status, error_xml(code@, message@)),
{
    let body = generate_xml_error(code, message);
    Response::xml(status, body.as_str())
}

} // verus!
