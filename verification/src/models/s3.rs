//! The result of a listing: the objects of a bucket under a prefix, those
//! beyond a delimiter grouped under common prefixes.

use crate::utils::text::{
    chars_of, decimal, decimal_string, element, find_from, push_element, push_signed_decimal,
    signed_decimal, starts_with, string_of,
};
use crate::utils::time::{listing_time, listing_time_text, text_view};
use vstd::prelude::*;
use vstd::string::StringExecFns;

verus! {

/// One object of a listing.
#[derive(Debug)]
pub struct S3Object {
    pub key: String,
    pub size: usize,
    /// Seconds since 1970-01-01T00:00:00Z.
    pub last_modified: i64,
    pub etag: String,
    pub storage_class: String,
}

/// What an object of a listing is, as plain values.
pub ghost struct ObjectView {
    pub key: Seq<char>,
    pub size: nat,
    pub last_modified: int,
    pub etag: Seq<char>,
    pub storage_class: Seq<char>,
}

impl View for S3Object {
    type V = ObjectView;

    open spec fn view(&self) -> ObjectView {
        ObjectView {
            key: self.key@,
            size: self.size as nat,
            last_modified: self.last_modified as int,
            etag: self.etag@,
            storage_class: self.storage_class@,
        }
    }
}

/// A prefix that stands for all the keys which share it.
#[derive(Debug)]
pub struct CommonPrefix {
    pub prefix: String,
}

impl View for CommonPrefix {
    type V = Seq<char>;

    open spec fn view(&self) -> Seq<char> {
        self.prefix@
    }
}

/// The two shapes in which a listing is written.
#[derive(Clone, Copy, Debug, PartialEq, Eq, Structural)]
pub enum ListingVariant {
    /// Without key count, encoding type, continuation tokens and start-after.
    V1,
    /// With them.
    V2,
}

/// The result of a listing.
#[derive(Debug)]
pub struct ListBucketResult {
    pub name: String,
    pub prefix: String,
    pub delimiter: Option<char>,
    pub max_keys: i32,
    pub is_truncated: bool,
    pub encoding_type: Option<String>,
    pub continuation_token: Option<String>,
    pub next_continuation_token: Option<String>,
    pub start_after: Option<String>,
    pub contents: Vec<S3Object>,
    pub common_prefixes: Vec<CommonPrefix>,
}

/// What the result of a listing is, as plain values.
pub ghost struct ListingView {
    pub name: Seq<char>,
    pub prefix: Seq<char>,
    pub delimiter: Option<char>,
    pub max_keys: i32,
    pub is_truncated: bool,
    pub encoding_type: Option<Seq<char>>,
    pub continuation_token: Option<Seq<char>>,
    pub next_continuation_token: Option<Seq<char>>,
    pub start_after: Option<Seq<char>>,
    pub contents: Seq<ObjectView>,
    pub common_prefixes: Seq<Seq<char>>,
}

/// The views of the objects of `s`.
pub open spec fn objects_view(s: Seq<S3Object>) -> Seq<ObjectView> {
    s.map_values(|o: S3Object| o@)
}

/// The views of the prefixes of `s`.
pub open spec fn prefixes_view(s: Seq<CommonPrefix>) -> Seq<Seq<char>> {
    s.map_values(|p: CommonPrefix| p@)
}

impl View for ListBucketResult {
    type V = ListingView;

    open spec fn view(&self) -> ListingView {
        ListingView {
            name: self.name@,
            prefix: self.prefix@,
            delimiter: self.delimiter,
            max_keys: self.max_keys,
            is_truncated: self.is_truncated,
            encoding_type: text_view(self.encoding_type),
            continuation_token: text_view(self.continuation_token),
            next_continuation_token: text_view(self.next_continuation_token),
            start_after: text_view(self.start_after),
            contents: objects_view(self.contents@),
            common_prefixes: prefixes_view(self.common_prefixes@),
        }
    }
}

/// A row that the storage engine hands out for a listing, as plain values:
/// key, size of the payload, timestamp, content hash.
pub ghost struct RowView {
    pub key: Seq<char>,
    pub size: nat,
    pub last_modified: int,
    pub md5: Option<Seq<char>>,
}

/// The view of one row.
pub open spec fn row_view(r: (String, usize, i64, Option<String>)) -> RowView {
    RowView { key: r.0@, size: r.1 as nat, last_modified: r.2 as int, md5: text_view(r.3) }
}

/// The views of the rows of `rows`.
pub open spec fn rows_view(rows: Seq<(String, usize, i64, Option<String>)>) -> Seq<RowView> {
    rows.map_values(|r: (String, usize, i64, Option<String>)| row_view(r))
}

/// Where the first delimiter stands in what follows `prefix` in `key`,
/// counted from the end of the prefix; `None` where no delimiter is asked
/// for or none stands there.
pub open spec fn first_delimiter(key: Seq<char>, prefix: Seq<char>, delimiter: Option<char>)
    -> Option<int> {
    match delimiter {
        Some(d) => key.skip(prefix.len() as int).index_of_first(d),
        None => None,
    }
}

/// The common prefix that `key` falls under: the key up to and including
/// the first delimiter after `prefix`. `None` where the key does not begin
/// with `prefix` or has no delimiter after it.
pub open spec fn grouping_prefix(key: Seq<char>, prefix: Seq<char>, delimiter: Option<char>)
    -> Option<Seq<char>> {
    if prefix.is_prefix_of(key) {
        match first_delimiter(key, prefix, delimiter) {
            Some(i) => Some(key.take(prefix.len() + i + 1)),
            None => None,
        }
    } else {
        None
    }
}

/// Whether `key` is listed as an object: it begins with `prefix` and falls
/// under no common prefix.
pub open spec fn is_content(key: Seq<char>, prefix: Seq<char>, delimiter: Option<char>) -> bool {
    prefix.is_prefix_of(key) && first_delimiter(key, prefix, delimiter) is None
}

/// The entity tag for a content hash: the hash in double quotes, and
/// thirty-two zeros in quotes where there is none.
pub open spec fn etag_of(md5: Option<Seq<char>>) -> Seq<char> {
    match md5 {
        Some(h) => "\""@ + h + "\""@,
        None => "\"00000000000000000000000000000000\""@,
    }
}

/// The object that is listed for `row`.
pub open spec fn object_of(row: RowView) -> ObjectView {
    ObjectView {
        key: row.key,
        size: row.size,
        last_modified: row.last_modified,
        etag: etag_of(row.md5),
        storage_class: "STANDARD"@,
    }
}

/// The objects that are listed for `rows`: one for each row whose key is
/// listed as an object, in the order of the rows.
pub open spec fn listed_contents(rows: Seq<RowView>, prefix: Seq<char>, delimiter: Option<char>)
    -> Seq<ObjectView>
    decreases rows.len(),
{
    if rows.len() == 0 {
        Seq::empty()
    } else {
        let rest = listed_contents(rows.drop_last(), prefix, delimiter);
        if is_content(rows.last().key, prefix, delimiter) {
            rest.push(object_of(rows.last()))
        } else {
            rest
        }
    }
}

/// The common prefixes `known` once those of `rows` are added: each one
/// that a row falls under and that is not there yet is added at the end,
/// once, in the order in which they are first met.
pub open spec fn merged_prefixes(
    known: Seq<Seq<char>>,
    rows: Seq<RowView>,
    prefix: Seq<char>,
    delimiter: Option<char>,
) -> Seq<Seq<char>>
    decreases rows.len(),
{
    if rows.len() == 0 {
        known
    } else {
        let rest = merged_prefixes(known, rows.drop_last(), prefix, delimiter);
        match grouping_prefix(rows.last().key, prefix, delimiter) {
            Some(g) => if rest.contains(g) {
                rest
            } else {
                rest.push(g)
            },
            None => rest,
        }
    }
}

/// The common prefixes that are listed for `rows`: each one that a row
/// falls under, once, in the order in which they are first met.
pub open spec fn listed_prefixes(rows: Seq<RowView>, prefix: Seq<char>, delimiter: Option<char>)
    -> Seq<Seq<char>> {
    merged_prefixes(Seq::empty(), rows, prefix, delimiter)
}

/// Whether `g` has the shape of a common prefix: it begins with `prefix`,
/// goes on without a delimiter, and ends with the delimiter.
pub open spec fn is_group(g: Seq<char>, prefix: Seq<char>, delimiter: Option<char>) -> bool {
    &&& delimiter is Some
    &&& prefix.is_prefix_of(g)
    &&& g.len() > prefix.len()
    &&& g.last() == delimiter.unwrap()
    &&& forall|j: int| prefix.len() <= j < g.len() - 1 ==> g[j] != delimiter.unwrap()
}

impl ListingView {
    /// Whether the listing counts every key once: each object has a key
    /// that is listed as an object under the listing's prefix and
    /// delimiter, each common prefix has the shape of one, and none stands
    /// twice.
    pub open spec fn well_formed(self) -> bool {
        &&& forall|i: int|
            0 <= i < self.contents.len() ==> is_content(
                (#[trigger] self.contents[i]).key,
                self.prefix,
                self.delimiter,
            )
        &&& forall|j: int|
            0 <= j < self.common_prefixes.len() ==> is_group(
                #[trigger] self.common_prefixes[j],
                self.prefix,
                self.delimiter,
            )
        &&& self.common_prefixes.no_duplicates()
    }

    /// The listing once `rows` are sorted into it.
    pub open spec fn with_rows(self, rows: Seq<RowView>) -> ListingView {
        ListingView {
            contents: self.contents + listed_contents(rows, self.prefix, self.delimiter),
            common_prefixes: merged_prefixes(
                self.common_prefixes,
                rows,
                self.prefix,
                self.delimiter,
            ),
            ..self
        }
    }
}

impl ListBucketResult {
    /// The empty listing of `bucket` under `prefix`, with no bound on the
    /// number of keys.
    pub fn new(bucket: &str, prefix: &str, delimiter: Option<char>) -> (r: Self)
        ensures
            r@ == (ListingView {
                name: bucket@,
                prefix: prefix@,
                delimiter,
                max_keys: i32::MAX,
                is_truncated: false,
                encoding_type: None,
                continuation_token: None,
                next_continuation_token: None,
                start_after: None,
                contents: Seq::empty(),
                common_prefixes: Seq::empty(),
            }),
            r@.well_formed(),
    {
        let r = ListBucketResult {
            name: String::from_str(bucket),
            prefix: String::from_str(prefix),
            delimiter,
            max_keys: i32::MAX,
            is_truncated: false,
            encoding_type: None,
            continuation_token: None,
            next_continuation_token: None,
            start_after: None,
            contents: Vec::new(),
            common_prefixes: Vec::new(),
        };
        assert(r@.contents =~= Seq::empty());
        assert(r@.common_prefixes =~= Seq::empty());
        r
    }

    fn add_content(
        &mut self,
        key: String,
        size: usize,
        last_modified: i64,
        md5_hash: &Option<String>,
    )
        ensures
            final(self)@ == (ListingView {
                contents: old(self)@.contents.push(
                    object_of(
                        RowView {
                            key: key@,
                            size: size as nat,
                            last_modified: last_modified as int,
                            md5: text_view(*md5_hash),
                        },
                    ),
                ),
                ..old(self)@
            }),
    {
        let etag = match md5_hash {
            Some(h) => {
                let mut e = String::from_str("\"");
                e.append(h.as_str());
                e.append("\"");
                e
            },
            None => String::from_str("\"00000000000000000000000000000000\""),
        };
        let object = S3Object {
            key,
            size,
            last_modified,
            etag,
            storage_class: String::from_str("STANDARD"),
        };
        self.contents.push(object);
        assert(self@.contents =~= old(self)@.contents.push(object@));
    }

    fn knows_prefix(&self, group: &String) -> (b: bool)
        ensures
            b == self@.common_prefixes.contains(group@),
    {
        let mut i: usize = 0;
        while i < self.common_prefixes.len()
            invariant
                i <= self.common_prefixes.len(),
                forall|j: int| 0 <= j < i ==> self@.common_prefixes[j] != group@,
            decreases self.common_prefixes.len() - i,
        {
            if self.common_prefixes[i].prefix == *group {
                assert(self@.common_prefixes[i as int] == group@);
                return true;
            }
            i += 1;
        }
        false
    }

    /// Sorts the rows of `keys` into the listing: a row whose key begins
    /// with the prefix becomes an object, or, where a delimiter follows the
    /// prefix in its key, counts for the common prefix that ends there.
    /// The objects come in the order of the rows, after those that were
    /// there; a common prefix that is not there yet is added at the end.
    /// A listing that counts every key once still does so afterwards.
    pub fn process_keys(&mut self, keys: Vec<(String, usize, i64, Option<String>)>)
        ensures
            final(self)@ == old(self)@.with_rows(rows_view(keys@)),
            old(self)@.well_formed() ==> final(self)@.well_formed(),
    {
        let prefix = chars_of(self.prefix.as_str());
        let ghost rows = rows_view(keys@);
        let ghost start = self@;
        let mut i: usize = 0;
        assert(self@.contents =~= start.with_rows(rows.take(0)).contents);
        while i < keys.len()
            invariant
                i <= keys.len(),
                rows == rows_view(keys@),
                prefix@ == start.prefix,
                start == old(self)@,
                self@ == start.with_rows(rows.take(i as int)),
            decreases keys.len() - i,
        {
            let ghost seen = rows.take(i as int);
            let ghost next = rows.take(i + 1);
            let ghost before = self@;
            proof {
                assert(next.drop_last() =~= seen);
                assert(next.last() == row_view(keys@[i as int]));
            }
            let row = &keys[i];
            let key = chars_of(row.0.as_str());
            if starts_with(&key, &prefix) {
                let split = match self.delimiter {
                    Some(d) => find_from(&key, prefix.len(), d),
                    None => None,
                };
                match split {
                    Some(pos) => {
                        let group = string_of(&key, 0, prefix.len() + pos + 1);
                        if !self.knows_prefix(&group) {
                            self.common_prefixes.push(CommonPrefix { prefix: group });
                            assert(self@.common_prefixes =~= before.common_prefixes.push(group@));
                        }
                    },
                    None => {
                        self.add_content(row.0.clone(), row.1, row.2, &row.3);
                    },
                }
            }
            i += 1;
            proof {
                assert(self@.contents =~= start.with_rows(next).contents);
            }
        }
        proof {
            assert(rows.take(i as int) =~= rows);
            if start.well_formed() {
                lemma_rows_keep_listing_well_formed(start, rows);
            }
        }
    }

    /// Sets the encoding type that the listing echoes.
    pub fn set_encoding_type(&mut self, encoding_type: Option<String>)
        ensures
            final(self)@ == (ListingView {
                encoding_type: text_view(encoding_type),
                ..old(self)@
            }),
    {
        self.encoding_type = encoding_type;
    }

    /// Sets the continuation tokens that the listing echoes.
    pub fn set_continuation(&mut self, token: Option<String>, next_token: Option<String>)
        ensures
            final(self)@ == (ListingView {
                continuation_token: text_view(token),
                next_continuation_token: text_view(next_token),
                ..old(self)@
            }),
    {
        self.continuation_token = token;
        self.next_continuation_token = next_token;
    }

    /// Sets the bound on the number of keys that the listing echoes.
    pub fn set_max_keys(&mut self, max_keys: i32)
        ensures
            final(self)@ == (ListingView { max_keys, ..old(self)@ }),
    {
        self.max_keys = max_keys;
    }

    /// Sets the start-after key that the listing echoes.
    pub fn set_start_after(&mut self, start_after: Option<String>)
        ensures
            final(self)@ == (ListingView { start_after: text_view(start_after), ..old(self)@ }),
    {
        self.start_after = start_after;
    }
}

/// Whether row `k` of `rows` is listed as the object `o`.
pub open spec fn is_object_of_row(
    rows: Seq<RowView>,
    prefix: Seq<char>,
    delimiter: Option<char>,
    o: ObjectView,
    k: int,
) -> bool {
    0 <= k < rows.len() && is_content(rows[k].key, prefix, delimiter) && object_of(rows[k]) == o
}

/// Whether row `k` of `rows` falls under the common prefix `g`.
pub open spec fn is_group_of_row(
    rows: Seq<RowView>,
    prefix: Seq<char>,
    delimiter: Option<char>,
    g: Seq<char>,
    k: int,
) -> bool {
    0 <= k < rows.len() && grouping_prefix(rows[k].key, prefix, delimiter) == Some(g)
}

/// The objects of a listing are those of the rows whose key is listed as
/// an object, and no others.
pub proof fn lemma_listed_contents_members(
    rows: Seq<RowView>,
    prefix: Seq<char>,
    delimiter: Option<char>,
    o: ObjectView,
)
    ensures
        listed_contents(rows, prefix, delimiter).contains(o) <==> exists|k: int|
            is_object_of_row(rows, prefix, delimiter, o, k),
    decreases rows.len(),
{
    let all = listed_contents(rows, prefix, delimiter);
    if rows.len() > 0 {
        let rest_rows = rows.drop_last();
        let rest = listed_contents(rest_rows, prefix, delimiter);
        let last = rows.len() - 1;
        lemma_listed_contents_members(rest_rows, prefix, delimiter, o);
        if all.contains(o) {
            let i = choose|i: int| 0 <= i < all.len() && all[i] == o;
            if i < rest.len() {
                assert(rest[i] == o);
                let k = choose|k: int| is_object_of_row(rest_rows, prefix, delimiter, o, k);
                assert(is_object_of_row(rows, prefix, delimiter, o, k));
            } else {
                assert(is_object_of_row(rows, prefix, delimiter, o, last));
            }
        }
        if exists|k: int| is_object_of_row(rows, prefix, delimiter, o, k) {
            let k = choose|k: int| is_object_of_row(rows, prefix, delimiter, o, k);
            if k < last {
                assert(is_object_of_row(rest_rows, prefix, delimiter, o, k));
                let i = choose|i: int| 0 <= i < rest.len() && rest[i] == o;
                assert(all[i] == o);
            } else {
                assert(all[all.len() - 1] == o);
            }
        }
    }
}

/// The common prefixes of a listing are those that were there and those
/// that some row falls under, and no others.
pub proof fn lemma_merged_prefixes_members(
    known: Seq<Seq<char>>,
    rows: Seq<RowView>,
    prefix: Seq<char>,
    delimiter: Option<char>,
    g: Seq<char>,
)
    ensures
        merged_prefixes(known, rows, prefix, delimiter).contains(g) <==> (known.contains(g)
            || exists|k: int| is_group_of_row(rows, prefix, delimiter, g, k)),
    decreases rows.len(),
{
    let all = merged_prefixes(known, rows, prefix, delimiter);
    if rows.len() > 0 {
        let rest_rows = rows.drop_last();
        let rest = merged_prefixes(known, rest_rows, prefix, delimiter);
        let last = rows.len() - 1;
        lemma_merged_prefixes_members(known, rest_rows, prefix, delimiter, g);
        if all.contains(g) {
            let i = choose|i: int| 0 <= i < all.len() && all[i] == g;
            if i < rest.len() {
                assert(rest[i] == g);
                if !known.contains(g) {
                    let k = choose|k: int| is_group_of_row(rest_rows, prefix, delimiter, g, k);
                    assert(is_group_of_row(rows, prefix, delimiter, g, k));
                }
            } else {
                assert(is_group_of_row(rows, prefix, delimiter, g, last));
            }
        }
        if known.contains(g) {
            let i = choose|i: int| 0 <= i < rest.len() && rest[i] == g;
            assert(all[i] == g);
        }
        if exists|k: int| is_group_of_row(rows, prefix, delimiter, g, k) {
            let k = choose|k: int| is_group_of_row(rows, prefix, delimiter, g, k);
            if k < last {
                assert(is_group_of_row(rest_rows, prefix, delimiter, g, k));
                let i = choose|i: int| 0 <= i < rest.len() && rest[i] == g;
                assert(all[i] == g);
            } else if !rest.contains(g) {
                assert(all[all.len() - 1] == g);
            } else {
                let i = choose|i: int| 0 <= i < rest.len() && rest[i] == g;
                assert(all[i] == g);
            }
        }
    }
}

/// The common prefixes that were there stay where they were: those of the
/// rows are added after them.
pub proof fn lemma_merged_prefixes_keep_known(
    known: Seq<Seq<char>>,
    rows: Seq<RowView>,
    prefix: Seq<char>,
    delimiter: Option<char>,
)
    ensures
        known.is_prefix_of(merged_prefixes(known, rows, prefix, delimiter)),
    decreases rows.len(),
{
    let all = merged_prefixes(known, rows, prefix, delimiter);
    if rows.len() > 0 {
        let rest = merged_prefixes(known, rows.drop_last(), prefix, delimiter);
        lemma_merged_prefixes_keep_known(known, rows.drop_last(), prefix, delimiter);
        assert(known =~= rest.subrange(0, known.len() as int));
    }
    assert(known =~= all.subrange(0, known.len() as int));
}

/// No common prefix stands twice in a listing, where none stood twice
/// before.
pub proof fn lemma_merged_prefixes_distinct(
    known: Seq<Seq<char>>,
    rows: Seq<RowView>,
    prefix: Seq<char>,
    delimiter: Option<char>,
)
    requires
        known.no_duplicates(),
    ensures
        merged_prefixes(known, rows, prefix, delimiter).no_duplicates(),
    decreases rows.len(),
{
    if rows.len() > 0 {
        lemma_merged_prefixes_distinct(known, rows.drop_last(), prefix, delimiter);
    }
}

/// The common prefix that a key falls under has the shape of one, and the
/// key begins with it.
pub proof fn lemma_grouping_prefix_shape(
    key: Seq<char>,
    prefix: Seq<char>,
    delimiter: Option<char>,
    g: Seq<char>,
)
    requires
        grouping_prefix(key, prefix, delimiter) == Some(g),
    ensures
        is_group(g, prefix, delimiter),
        g.is_prefix_of(key),
{
    let d = delimiter.unwrap();
    let tail = key.skip(prefix.len() as int);
    tail.index_of_first_ensures(d);
    let i = tail.index_of_first(d).unwrap();
    assert(tail[i] == d);
    assert(prefix =~= g.subrange(0, prefix.len() as int));
    assert(g =~= key.subrange(0, g.len() as int));
    assert forall|j: int| prefix.len() <= j < g.len() - 1 implies g[j] != d by {
        assert(tail[j - prefix.len()] != d);
    }
}

/// A listing that counts every key once still does so when rows are
/// sorted into it.
pub proof fn lemma_rows_keep_listing_well_formed(v: ListingView, rows: Seq<RowView>)
    requires
        v.well_formed(),
    ensures
        v.with_rows(rows).well_formed(),
{
    let w = v.with_rows(rows);
    let added = listed_contents(rows, v.prefix, v.delimiter);
    assert forall|i: int| 0 <= i < w.contents.len() implies is_content(
        (#[trigger] w.contents[i]).key,
        w.prefix,
        w.delimiter,
    ) by {
        if i >= v.contents.len() {
            let o = added[i - v.contents.len()];
            assert(added.contains(o));
            lemma_listed_contents_members(rows, v.prefix, v.delimiter, o);
            let k = choose|k: int| is_object_of_row(rows, v.prefix, v.delimiter, o, k);
            assert(o.key == rows[k].key);
        } else {
            assert(w.contents[i] == v.contents[i]);
        }
    }
    assert forall|j: int| 0 <= j < w.common_prefixes.len() implies is_group(
        #[trigger] w.common_prefixes[j],
        w.prefix,
        w.delimiter,
    ) by {
        let g = w.common_prefixes[j];
        assert(w.common_prefixes.contains(g));
        lemma_merged_prefixes_members(v.common_prefixes, rows, v.prefix, v.delimiter, g);
        if v.common_prefixes.contains(g) {
            let m = choose|m: int| 0 <= m < v.common_prefixes.len() && v.common_prefixes[m] == g;
            assert(is_group(v.common_prefixes[m], v.prefix, v.delimiter));
        } else {
            let k = choose|k: int| is_group_of_row(rows, v.prefix, v.delimiter, g, k);
            lemma_grouping_prefix_shape(rows[k].key, v.prefix, v.delimiter, g);
        }
    }
    lemma_merged_prefixes_distinct(v.common_prefixes, rows, v.prefix, v.delimiter);
}

/// In a listing that counts every key once, every object and every common
/// prefix begins with the listing's prefix, and no object has a key that
/// begins with one of the common prefixes: no key is counted twice.
pub proof fn lemma_well_formed_listing_counts_once(v: ListingView)
    requires
        v.well_formed(),
    ensures
        forall|i: int|
            0 <= i < v.contents.len() ==> v.prefix.is_prefix_of((#[trigger] v.contents[i]).key),
        forall|j: int|
            0 <= j < v.common_prefixes.len() ==> v.prefix.is_prefix_of(
                #[trigger] v.common_prefixes[j],
            ),
        forall|i: int, j: int|
            0 <= i < v.contents.len() && 0 <= j < v.common_prefixes.len() ==> !(
            #[trigger] v.common_prefixes[j]).is_prefix_of((#[trigger] v.contents[i]).key),
{
    assert forall|i: int, j: int|
        0 <= i < v.contents.len() && 0 <= j < v.common_prefixes.len() implies !(
    #[trigger] v.common_prefixes[j]).is_prefix_of((#[trigger] v.contents[i]).key) by {
        let key = v.contents[i].key;
        let g = v.common_prefixes[j];
        assert(is_content(key, v.prefix, v.delimiter));
        assert(is_group(g, v.prefix, v.delimiter));
        if g.is_prefix_of(key) {
            let d = v.delimiter.unwrap();
            let tail = key.skip(v.prefix.len() as int);
            let at = g.len() - 1;
            assert(g == key.subrange(0, g.len() as int));
            assert(key[at] == g[at]);
            assert(tail[at - v.prefix.len()] == d);
            assert(tail.contains(d));
            tail.index_of_first_ensures(d);
            assert(false);
        }
    }
}

/// A listing of rows alone holds only keys that begin with the request's
/// prefix, among its objects and among its common prefixes, and counts no
/// key twice: no object has a key that begins with one of the common
/// prefixes, and no common prefix stands twice.
pub proof fn lemma_listing_counts_once(
    rows: Seq<RowView>,
    prefix: Seq<char>,
    delimiter: Option<char>,
)
    ensures
        forall|i: int|
            0 <= i < listed_contents(rows, prefix, delimiter).len() ==> prefix.is_prefix_of(
                (#[trigger] listed_contents(rows, prefix, delimiter)[i]).key,
            ),
        forall|j: int|
            0 <= j < listed_prefixes(rows, prefix, delimiter).len() ==> prefix.is_prefix_of(
                #[trigger] listed_prefixes(rows, prefix, delimiter)[j],
            ),
        forall|i: int, j: int|
            0 <= i < listed_contents(rows, prefix, delimiter).len() && 0 <= j < listed_prefixes(
                rows,
                prefix,
                delimiter,
            ).len() ==> !(#[trigger] listed_prefixes(rows, prefix, delimiter)[j]).is_prefix_of(
                (#[trigger] listed_contents(rows, prefix, delimiter)[i]).key,
            ),
        listed_prefixes(rows, prefix, delimiter).no_duplicates(),
{
    let fresh = ListingView {
        name: Seq::empty(),
        prefix,
        delimiter,
        max_keys: 0,
        is_truncated: false,
        encoding_type: None,
        continuation_token: None,
        next_continuation_token: None,
        start_after: None,
        contents: Seq::empty(),
        common_prefixes: Seq::empty(),
    };
    lemma_rows_keep_listing_well_formed(fresh, rows);
    let filled = fresh.with_rows(rows);
    assert(filled.contents =~= listed_contents(rows, prefix, delimiter));
    lemma_well_formed_listing_counts_once(filled);
}

/// The objects of a listing stand in the order of their rows: of two
/// objects, the earlier is that of an earlier row.
pub proof fn lemma_listed_contents_keep_order(
    rows: Seq<RowView>,
    prefix: Seq<char>,
    delimiter: Option<char>,
    i: int,
    j: int,
)
    requires
        0 <= i < j < listed_contents(rows, prefix, delimiter).len(),
    ensures
        exists|k: int, m: int|
            0 <= k < m < rows.len() && #[trigger] is_object_of_row(
                rows,
                prefix,
                delimiter,
                listed_contents(rows, prefix, delimiter)[i],
                k,
            ) && #[trigger] is_object_of_row(
                rows,
                prefix,
                delimiter,
                listed_contents(rows, prefix, delimiter)[j],
                m,
            ),
    decreases rows.len(),
{
    let all = listed_contents(rows, prefix, delimiter);
    let rest_rows = rows.drop_last();
    let rest = listed_contents(rest_rows, prefix, delimiter);
    let last = rows.len() - 1;
    if j < rest.len() {
        lemma_listed_contents_keep_order(rest_rows, prefix, delimiter, i, j);
        let (k, m) = choose|k: int, m: int|
            0 <= k < m < rest_rows.len() && #[trigger] is_object_of_row(
                rest_rows,
                prefix,
                delimiter,
                rest[i],
                k,
            ) && #[trigger] is_object_of_row(rest_rows, prefix, delimiter, rest[j], m);
        assert(is_object_of_row(rows, prefix, delimiter, all[i], k));
        assert(is_object_of_row(rows, prefix, delimiter, all[j], m));
    } else {
        assert(rest.contains(rest[i]));
        lemma_listed_contents_members(rest_rows, prefix, delimiter, rest[i]);
        let k = choose|k: int| is_object_of_row(rest_rows, prefix, delimiter, rest[i], k);
        assert(is_object_of_row(rows, prefix, delimiter, all[i], k));
        assert(is_object_of_row(rows, prefix, delimiter, all[j], last));
    }
}

/// Rows in the order of their keys give objects in the order of their
/// keys, whatever the order is: where `less` holds of the keys of every two
/// rows, the earlier first, it holds of the keys of every two objects.
pub proof fn lemma_sorted_rows_give_sorted_contents(
    rows: Seq<RowView>,
    prefix: Seq<char>,
    delimiter: Option<char>,
    less: spec_fn(Seq<char>, Seq<char>) -> bool,
)
    requires
        forall|k: int, m: int|
            0 <= k < m < rows.len() ==> less((#[trigger] rows[k]).key, (#[trigger] rows[m]).key),
    ensures
        forall|i: int, j: int|
            0 <= i < j < listed_contents(rows, prefix, delimiter).len() ==> less(
                (#[trigger] listed_contents(rows, prefix, delimiter)[i]).key,
                (#[trigger] listed_contents(rows, prefix, delimiter)[j]).key,
            ),
{
    let all = listed_contents(rows, prefix, delimiter);
    assert forall|i: int, j: int| 0 <= i < j < all.len() implies less(
        (#[trigger] all[i]).key,
        (#[trigger] all[j]).key,
    ) by {
        lemma_listed_contents_keep_order(rows, prefix, delimiter, i, j);
        let (k, m) = choose|k: int, m: int|
            0 <= k < m < rows.len() && #[trigger] is_object_of_row(
                rows,
                prefix,
                delimiter,
                all[i],
                k,
            ) && #[trigger] is_object_of_row(rows, prefix, delimiter, all[j], m);
        assert(less(rows[k].key, rows[m].key));
    }
}

/// Every row is counted once at most: its key is listed as an object, or
/// falls under a common prefix, or does not begin with the request's
/// prefix, and no two of these hold together.
pub proof fn lemma_row_is_sorted_once(key: Seq<char>, prefix: Seq<char>, delimiter: Option<char>)
    ensures
        !(is_content(key, prefix, delimiter) && grouping_prefix(key, prefix, delimiter) is Some),
        prefix.is_prefix_of(key) <==> (is_content(key, prefix, delimiter) || grouping_prefix(
            key,
            prefix,
            delimiter,
        ) is Some),
{
}

/// Where no row has a key that begins with the request's prefix, the
/// listing holds no object and no common prefix but those that were there.
pub proof fn lemma_empty_listing(
    known: Seq<Seq<char>>,
    rows: Seq<RowView>,
    prefix: Seq<char>,
    delimiter: Option<char>,
)
    requires
        forall|k: int| 0 <= k < rows.len() ==> !prefix.is_prefix_of((#[trigger] rows[k]).key),
    ensures
        listed_contents(rows, prefix, delimiter) == Seq::<ObjectView>::empty(),
        merged_prefixes(known, rows, prefix, delimiter) == known,
        listed_prefixes(rows, prefix, delimiter) == Seq::<Seq<char>>::empty(),
    decreases rows.len(),
{
    if rows.len() > 0 {
        let rest = rows.drop_last();
        assert forall|k: int| 0 <= k < rest.len() implies !prefix.is_prefix_of(
            (#[trigger] rest[k]).key,
        ) by {
            assert(rest[k] == rows[k]);
        }
        lemma_empty_listing(known, rest, prefix, delimiter);
        lemma_empty_listing(Seq::empty(), rest, prefix, delimiter);
        assert(!prefix.is_prefix_of(rows[rows.len() - 1].key));
    }
}

/// The element named `tag` that holds `text`, or nothing where there is no
/// text.
pub open spec fn optional_element(tag: Seq<char>, text: Option<Seq<char>>) -> Seq<char> {
    match text {
        Some(t) => element(tag, t),
        None => Seq::empty(),
    }
}

/// The text of a truth value.
pub open spec fn bool_text(b: bool) -> Seq<char> {
    if b {
        "true"@
    } else {
        "false"@
    }
}

/// The text of an optional delimiter.
pub open spec fn delimiter_text(d: Option<char>) -> Option<Seq<char>> {
    match d {
        Some(c) => Some(seq![c]),
        None => None,
    }
}

/// One object of a listing, written out.
pub open spec fn object_xml(o: ObjectView) -> Seq<char> {
    "<Contents>"@ + element("Key"@, o.key) + element(
        "LastModified"@,
        listing_time(o.last_modified),
    ) + element("ETag"@, o.etag) + element("Size"@, decimal(o.size)) + element(
        "StorageClass"@,
        o.storage_class,
    ) + "</Contents>"@
}

/// The objects of a listing, written out one after the other.
pub open spec fn contents_xml(objects: Seq<ObjectView>) -> Seq<char>
    decreases objects.len(),
{
    if objects.len() == 0 {
        Seq::empty()
    } else {
        contents_xml(objects.drop_last()) + object_xml(objects.last())
    }
}

/// One common prefix of a listing, written out.
pub open spec fn prefix_xml(p: Seq<char>) -> Seq<char> {
    "<CommonPrefixes>"@ + element("Prefix"@, p) + "</CommonPrefixes>"@
}

/// The common prefixes of a listing, written out one after the other.
pub open spec fn prefixes_xml(prefixes: Seq<Seq<char>>) -> Seq<char>
    decreases prefixes.len(),
{
    if prefixes.len() == 0 {
        Seq::empty()
    } else {
        prefixes_xml(prefixes.drop_last()) + prefix_xml(prefixes.last())
    }
}

/// What a listing echoes of the request, and its counts: all that stands
/// before the objects.
pub open spec fn summary_xml(v: ListingView, variant: ListingVariant) -> Seq<char> {
    let opening =
        "<?xml version=\"1.0\" encoding=\"UTF-8\"?>\n<ListBucketResult xmlns=\"http://s3.amazonaws.com/doc/2006-03-01/\">"@
        + element("Name"@, v.name) + element("Prefix"@, v.prefix) + optional_element(
        "Delimiter"@,
        delimiter_text(v.delimiter),
    );
    let bounds = element("MaxKeys"@, signed_decimal(v.max_keys as int)) + element(
        "IsTruncated"@,
        bool_text(v.is_truncated),
    );
    match variant {
        ListingVariant::V1 => opening + bounds,
        ListingVariant::V2 => opening + optional_element("EncodingType"@, v.encoding_type)
            + optional_element("ContinuationToken"@, v.continuation_token) + element(
            "KeyCount"@,
            decimal(v.contents.len()),
        ) + bounds + optional_element("NextContinuationToken"@, v.next_continuation_token)
            + optional_element("StartAfter"@, v.start_after),
    }
}

/// A listing as an XML document in the shape `variant`: what it echoes,
/// then the objects, then the common prefixes. All text is escaped.
pub open spec fn listing_xml(v: ListingView, variant: ListingVariant) -> Seq<char> {
    summary_xml(v, variant) + contents_xml(v.contents) + prefixes_xml(v.common_prefixes)
        + "</ListBucketResult>"@
}

fn push_optional_element(out: &mut String, tag: &str, text: &Option<String>)
    ensures
        final(out)@ == old(out)@ + optional_element(tag@, text_view(*text)),
{
    match text {
        Some(t) => push_element(out, tag, t.as_str()),
        None => {
            assert(out@ =~= old(out)@ + optional_element(tag@, text_view(*text)));
        },
    }
}

fn push_object(out: &mut String, object: &S3Object)
    ensures
        final(out)@ == old(out)@ + object_xml(object@),
{
    out.append("<Contents>");
    push_element(out, "Key", object.key.as_str());
    let time = listing_time_text(object.last_modified);
    push_element(out, "LastModified", time.as_str());
    push_element(out, "ETag", object.etag.as_str());
    let size = decimal_string(object.size as u64);
    push_element(out, "Size", size.as_str());
    push_element(out, "StorageClass", object.storage_class.as_str());
    out.append("</Contents>");
    assert(out@ =~= old(out)@ + object_xml(object@));
}

impl ListBucketResult {
    fn push_summary(&self, out: &mut String, variant: ListingVariant)
        requires
            old(out)@.len() == 0,
        ensures
            final(out)@ == summary_xml(self@, variant),
    {
        out.append(
            "<?xml version=\"1.0\" encoding=\"UTF-8\"?>\n<ListBucketResult xmlns=\"http://s3.amazonaws.com/doc/2006-03-01/\">",
        );
        push_element(out, "Name", self.name.as_str());
        push_element(out, "Prefix", self.prefix.as_str());
        match self.delimiter {
            Some(d) => {
                let mut text = String::new();
                text.push(d);
                assert(text@ =~= seq![d]);
                push_element(out, "Delimiter", text.as_str());
            },
            None => {},
        }
        match variant {
            ListingVariant::V1 => {},
            ListingVariant::V2 => {
                push_optional_element(out, "EncodingType", &self.encoding_type);
                push_optional_element(out, "ContinuationToken", &self.continuation_token);
                let count = decimal_string(self.contents.len() as u64);
                push_element(out, "KeyCount", count.as_str());
            },
        }
        let mut bound = String::new();
        push_signed_decimal(&mut bound, self.max_keys as i64);
        assert(bound@ =~= signed_decimal(self.max_keys as int));
        push_element(out, "MaxKeys", bound.as_str());
        push_element(out, "IsTruncated", if self.is_truncated { "true" } else { "false" });
        match variant {
            ListingVariant::V1 => {},
            ListingVariant::V2 => {
                push_optional_element(
                    out,
                    "NextContinuationToken",
                    &self.next_continuation_token,
                );
                push_optional_element(out, "StartAfter", &self.start_after);
            },
        }
        assert(out@ =~= summary_xml(self@, variant));
    }

    /// The listing as an XML document in the shape `variant`.
    pub fn render(&self, variant: ListingVariant) -> (xml: String)
        ensures
            xml@ == listing_xml(self@, variant),
    {
        let mut xml = String::new();
        self.push_summary(&mut xml, variant);
        let ghost summary = xml@;
        let ghost objects = objects_view(self.contents@);
        let mut i: usize = 0;
        assert(xml@ =~= summary + contents_xml(objects.take(0)));
        while i < self.contents.len()
            invariant
                i <= self.contents.len(),
                objects == objects_view(self.contents@),
                xml@ == summary + contents_xml(objects.take(i as int)),
            decreases self.contents.len() - i,
        {
            proof {
                assert(objects.take(i + 1).drop_last() =~= objects.take(i as int));
                assert(objects.take(i + 1).last() == self.contents@[i as int]@);
            }
            push_object(&mut xml, &self.contents[i]);
            i += 1;
            assert(xml@ =~= summary + contents_xml(objects.take(i as int)));
        }
        assert(objects.take(i as int) =~= objects);
        let ghost listed = xml@;
        let ghost prefixes = prefixes_view(self.common_prefixes@);
        let mut j: usize = 0;
        assert(xml@ =~= listed + prefixes_xml(prefixes.take(0)));
        while j < self.common_prefixes.len()
            invariant
                j <= self.common_prefixes.len(),
                prefixes == prefixes_view(self.common_prefixes@),
                xml@ == listed + prefixes_xml(prefixes.take(j as int)),
            decreases self.common_prefixes.len() - j,
        {
            proof {
                assert(prefixes.take(j + 1).drop_last() =~= prefixes.take(j as int));
                assert(prefixes.take(j + 1).last() == self.common_prefixes@[j as int]@);
            }
            xml.append("<CommonPrefixes>");
            push_element(&mut xml, "Prefix", self.common_prefixes[j].prefix.as_str());
            xml.append("</CommonPrefixes>");
            j += 1;
            assert(xml@ =~= listed + prefixes_xml(prefixes.take(j as int)));
        }
        assert(prefixes.take(j as int) =~= prefixes);
        xml.append("</ListBucketResult>");
        xml
    }

    /// The listing as an XML document in the first shape: what it echoes of
    /// prefix, delimiter and bound, then objects and common prefixes.
    pub fn to_xml(&self) -> (xml: String)
        ensures
            xml@ == listing_xml(self@, ListingVariant::V1),
    {
        self.render(ListingVariant::V1)
    }

    /// The listing as an XML document in the second shape, which adds the
    /// key count, the encoding type, the continuation tokens and the
    /// start-after key.
    pub fn to_xml_v2(&self) -> (xml: String)
        ensures
            xml@ == listing_xml(self@, ListingVariant::V2),
    {
        self.render(ListingVariant::V2)
    }
}

} // verus!
