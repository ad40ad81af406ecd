//! The content digest of an import preview: the SHA-256 of the canonical preview written
//! as a compact JSON document. The document is assembled here, member by member; the
//! JSON text of each value, object and array is serde_json's.
use vstd::prelude::*;

use vstd::utf8::encode_utf8;

use crate::calendar::{iso_date, iso_date_text, CivilDate};
use crate::error::Error;
use crate::expense_types::{
    ExpenseImportAdapter, ExpenseImportPreviewInput, ExpenseImportPreviewRow, ExpenseSourceKind,
    NormalizedExpenseImport,
};
use crate::hashing::{sha256_hex, sha256_lower_hex};
use crate::import_digest::{canonical_preview, preview_of_import, preview_rows, sorted_by_key};
use crate::text::decimal;

verus! {

// ---------------------------------------------------------------------------------------
// JSON texts, as serde_json writes them
// ---------------------------------------------------------------------------------------

/// The text serde_json writes for a JSON string holding `s`, quotes and escapes included.
pub uninterp spec fn json_string_text(s: Seq<char>) -> Seq<char>;

/// The compact text serde_json writes for an object whose members are named by `keys`
/// and hold the values written in `values`.
pub uninterp spec fn json_object_text(keys: Seq<Seq<char>>, values: Seq<Seq<char>>) -> Seq<char>;

/// The compact text serde_json writes for an array of the values written in `items`.
pub uninterp spec fn json_array_text(items: Seq<Seq<char>>) -> Seq<char>;

/// The text of a JSON integer: its decimal digits, after a minus sign when negative.
pub open spec fn json_integer_text(i: int) -> Seq<char> {
    if i < 0 {
        "-"@ + decimal((-i) as nat)
    } else {
        decimal(i as nat)
    }
}

/// Whether `t` is a text serde_json writes for a value holding at most `depth` levels of
/// objects and arrays: a string, `null`, a boolean, an `i64`, or an object or array of
/// such values one level less deep.
pub open spec fn written_json(t: Seq<char>, depth: nat) -> bool
    decreases depth,
{
    ||| (exists|s: Seq<char>| t == #[trigger] json_string_text(s))
    ||| t == "null"@
    ||| t == "true"@
    ||| t == "false"@
    ||| (exists|i: int| i64::MIN <= i <= i64::MAX && t == #[trigger] json_integer_text(i))
    ||| (depth > 0 && exists|keys: Seq<Seq<char>>, values: Seq<Seq<char>>|
        keys.len() == values.len() && t == #[trigger] json_object_text(keys, values) && forall|k: int|
            0 <= k < values.len() ==> written_json(#[trigger] values[k], (depth - 1) as nat))
    ||| (depth > 0 && exists|items: Seq<Seq<char>>|
        t == #[trigger] json_array_text(items) && forall|k: int|
            0 <= k < items.len() ==> written_json(#[trigger] items[k], (depth - 1) as nat))
}

/// Every text of `vs` is written by serde_json with at most `depth` levels of nesting.
pub open spec fn all_written(vs: Seq<Seq<char>>, depth: nat) -> bool {
    forall|k: int| 0 <= k < vs.len() ==> written_json(#[trigger] vs[k], depth)
}

/// The nesting serde_json's reader accepts: its recursion limit of 128 refuses the 128th
/// level of objects and arrays.
pub open spec fn json_read_depth() -> nat {
    127
}

/// A string text is a written value at any depth.
pub(crate) proof fn lemma_string_written(s: Seq<char>, d: nat)
    ensures
        written_json(json_string_text(s), d),
{
}

/// An `i64`'s text is a written value at any depth.
pub(crate) proof fn lemma_integer_written(i: int, d: nat)
    requires
        i64::MIN <= i <= i64::MAX,
    ensures
        written_json(json_integer_text(i), d),
{
}

/// An object of written values is written one level deeper.
proof fn lemma_object_written(keys: Seq<Seq<char>>, values: Seq<Seq<char>>, d: nat)
    requires
        keys.len() == values.len(),
        all_written(values, d),
    ensures
        written_json(json_object_text(keys, values), d + 1),
{
    assert(((d + 1) - 1) as nat == d);
}

/// An array of written values is written one level deeper.
pub(crate) proof fn lemma_array_written(items: Seq<Seq<char>>, d: nat)
    requires
        all_written(items, d),
    ensures
        written_json(json_array_text(items), d + 1),
{
    assert(((d + 1) - 1) as nat == d);
}

/// `serde_json::Value::String(s).to_string()`.
#[verifier::external_body]
pub(crate) fn string_text(s: &str) -> (r: String)
    ensures
        r@ == json_string_text(s@),
{
    serde_json::Value::from(s).to_string()
}

/// `serde_json::Value::Null.to_string()`: the literal `null`.
#[verifier::external_body]
fn null_text() -> (r: String)
    ensures
        r@ == "null"@,
{
    serde_json::Value::Null.to_string()
}

/// `serde_json::Value::Bool(b).to_string()`: the literal `true` or `false`.
#[verifier::external_body]
pub(crate) fn bool_text(b: bool) -> (r: String)
    ensures
        r@ == (if b { "true"@ } else { "false"@ }),
{
    serde_json::Value::Bool(b).to_string()
}

/// `serde_json::Value::from(i).to_string()`: numbers are written by `itoa`, in decimal.
#[verifier::external_body]
pub(crate) fn integer_text(i: i64) -> (r: String)
    ensures
        r@ == json_integer_text(i as int),
{
    serde_json::Value::from(i).to_string()
}

/// Parses each value text with `serde_json::from_str`, puts the values under their keys
/// in a `serde_json::Map` and writes the object with `to_string`; none when a value text
/// does not parse. Every text serde_json wrote for a value within its reader's nesting
/// limit parses back.
#[verifier::external_body]
pub(crate) fn object_text(keys: &Vec<&str>, values: &Vec<String>) -> (r: Option<String>)
    requires
        keys@.len() == values@.len(),
    ensures
        all_written(values@.map_values(|v: String| v@), json_read_depth()) ==> r is Some,
        r matches Some(t) ==> t@ == json_object_text(
            keys@.map_values(|k: &str| k@),
            values@.map_values(|v: String| v@),
        ),
{
    let mut map = serde_json::Map::new();
    for (key, value) in keys.iter().zip(values.iter()) {
        map.insert((*key).to_owned(), serde_json::from_str(value).ok()?);
    }
    Some(serde_json::Value::Object(map).to_string())
}

/// Parses each item text with `serde_json::from_str` and writes the array with
/// `to_string`; none when an item text does not parse. Every text serde_json wrote for a
/// value within its reader's nesting limit parses back.
#[verifier::external_body]
pub(crate) fn array_text(items: &Vec<String>) -> (r: Option<String>)
    ensures
        all_written(items@.map_values(|v: String| v@), json_read_depth()) ==> r is Some,
        r matches Some(t) ==> t@ == json_array_text(items@.map_values(|v: String| v@)),
{
    let mut values = Vec::new();
    for item in items.iter() {
        values.push(serde_json::from_str::<serde_json::Value>(item).ok()?);
    }
    Some(serde_json::Value::Array(values).to_string())
}

// ---------------------------------------------------------------------------------------
// The preview document
// ---------------------------------------------------------------------------------------

/// A text that may be absent, as a JSON value: the string, or `null`.
pub open spec fn optional_json(s: Option<String>) -> Seq<char> {
    match s {
        Some(t) => json_string_text(t@),
        None => "null"@,
    }
}

/// The members of a preview row, in the order they are given.
pub open spec fn row_keys() -> Seq<Seq<char>> {
    seq![
        "stableKey"@,
        "rowSha256"@,
        "sourceRowNumber"@,
        "occurredAt"@,
        "postedDate"@,
        "direction"@,
        "amountMinor"@,
        "currency"@,
        "kind"@,
        "categoryHint"@,
        "merchantBlindIndex"@,
        "paymentMethodFingerprint"@,
        "externalReferenceFingerprint"@,
    ]
}

/// The values of a preview row's members, as JSON texts.
pub open spec fn row_values(r: ExpenseImportPreviewRow) -> Seq<Seq<char>> {
    seq![
        json_string_text(r.stable_key@),
        json_string_text(r.row_sha256@),
        json_integer_text(r.source_row_number as int),
        json_string_text(r.occurred_at@),
        json_string_text(iso_date_text(r.posted_date)),
        json_string_text(r.direction.name()),
        json_integer_text(r.amount_minor as int),
        json_string_text(r.currency@),
        json_string_text(r.kind.name()),
        match r.category_hint {
            Some(c) => json_string_text(c.name()),
            None => "null"@,
        },
        optional_json(r.merchant_blind_index),
        optional_json(r.payment_method_fingerprint),
        optional_json(r.external_reference_fingerprint),
    ]
}

/// A preview row as a JSON object.
pub open spec fn row_json(r: ExpenseImportPreviewRow) -> Seq<char> {
    json_object_text(row_keys(), row_values(r))
}

/// The members of the preview document.
pub open spec fn document_keys() -> Seq<Seq<char>> {
    seq![
        "adapter"@,
        "sourceKind"@,
        "sourceFingerprint"@,
        "fileSha256"@,
        "coverageStart"@,
        "coverageEnd"@,
        "rejectedCount"@,
        "rows"@,
    ]
}

/// The preview document of a preview's fields and the given rows.
pub open spec fn preview_document(
    adapter: ExpenseImportAdapter,
    source_kind: ExpenseSourceKind,
    source_fingerprint: Seq<char>,
    file_sha256: Seq<char>,
    coverage_start: CivilDate,
    coverage_end: CivilDate,
    rejected_count: u32,
    rows: Seq<ExpenseImportPreviewRow>,
) -> Seq<char> {
    json_object_text(
        document_keys(),
        seq![
            json_string_text(adapter.name()),
            json_string_text(source_kind.name()),
            json_string_text(source_fingerprint),
            json_string_text(file_sha256),
            json_string_text(iso_date_text(coverage_start)),
            json_string_text(iso_date_text(coverage_end)),
            json_integer_text(rejected_count as int),
            json_array_text(rows.map_values(|r: ExpenseImportPreviewRow| row_json(r))),
        ],
    )
}

/// The content digest of a preview: the SHA-256, in lowercase hex, of the UTF-8 bytes of
/// its preview document, rows in stable-key order.
pub open spec fn preview_digest(p: ExpenseImportPreviewInput) -> Seq<char> {
    sha256_lower_hex(
        encode_utf8(
            preview_document(
                p.adapter,
                p.source_kind,
                p.source_fingerprint@,
                p.file_sha256@,
                p.coverage_start,
                p.coverage_end,
                p.rejected_count,
                sorted_by_key(p.rows@),
            ),
        ),
    )
}

/// The content digest of an import: that of its preview rows, in stable-key order, under
/// its own fields.
pub open spec fn import_digest(i: NormalizedExpenseImport) -> Seq<char> {
    sha256_lower_hex(
        encode_utf8(
            preview_document(
                i.adapter,
                i.source_kind,
                i.source_fingerprint@,
                i.file_sha256@,
                i.coverage_start,
                i.coverage_end,
                i.rejected_count,
                sorted_by_key(preview_rows(i.rows@)),
            ),
        ),
    )
}

/// An import and the preview it is sent as have the same digest, so a preview's receipt
/// matches the import it previewed.
pub proof fn lemma_import_digest_is_preview_digest(i: NormalizedExpenseImport, p: ExpenseImportPreviewInput)
    requires
        p.adapter == i.adapter,
        p.source_kind == i.source_kind,
        p.source_fingerprint == i.source_fingerprint,
        p.file_sha256 == i.file_sha256,
        p.coverage_start == i.coverage_start,
        p.coverage_end == i.coverage_end,
        p.rejected_count == i.rejected_count,
        p.rows@ == preview_rows(i.rows@),
    ensures
        preview_digest(p) == import_digest(i),
{
}

fn copy_preview_row(r: &ExpenseImportPreviewRow) -> (c: ExpenseImportPreviewRow)
    ensures
        c == *r,
{
    ExpenseImportPreviewRow {
        stable_key: r.stable_key.clone(),
        row_sha256: r.row_sha256.clone(),
        source_row_number: r.source_row_number,
        occurred_at: r.occurred_at.clone(),
        posted_date: r.posted_date,
        direction: r.direction,
        amount_minor: r.amount_minor,
        currency: r.currency.clone(),
        kind: r.kind,
        category_hint: r.category_hint,
        merchant_blind_index: match &r.merchant_blind_index {
            Some(t) => Some(t.clone()),
            None => None,
        },
        payment_method_fingerprint: match &r.payment_method_fingerprint {
            Some(t) => Some(t.clone()),
            None => None,
        },
        external_reference_fingerprint: match &r.external_reference_fingerprint {
            Some(t) => Some(t.clone()),
            None => None,
        },
    }
}

fn copy_preview(p: &ExpenseImportPreviewInput) -> (c: ExpenseImportPreviewInput)
    ensures
        c.adapter == p.adapter,
        c.source_kind == p.source_kind,
        c.source_fingerprint == p.source_fingerprint,
        c.file_sha256 == p.file_sha256,
        c.coverage_start == p.coverage_start,
        c.coverage_end == p.coverage_end,
        c.rejected_count == p.rejected_count,
        c.rows@ == p.rows@,
{
    let mut rows: Vec<ExpenseImportPreviewRow> = Vec::new();
    let mut i: usize = 0;
    while i < p.rows.len()
        invariant
            0 <= i <= p.rows@.len(),
            rows@ == p.rows@.take(i as int),
        decreases p.rows@.len() - i,
    {
        rows.push(copy_preview_row(&p.rows[i]));
        i = i + 1;
        assert(rows@ =~= p.rows@.take(i as int));
    }
    assert(p.rows@.take(i as int) =~= p.rows@);
    let c = ExpenseImportPreviewInput {
        adapter: p.adapter,
        source_kind: p.source_kind,
        source_fingerprint: p.source_fingerprint.clone(),
        file_sha256: p.file_sha256.clone(),
        normalized_sha256: p.normalized_sha256.clone(),
        coverage_start: p.coverage_start,
        coverage_end: p.coverage_end,
        rejected_count: p.rejected_count,
        rows,
    };
    assert(c.rows@ =~= p.rows@);
    c
}

fn optional_text(s: &Option<String>) -> (r: String)
    ensures
        r@ == optional_json(*s),
{
    match s {
        Some(t) => string_text(t.as_str()),
        None => null_text(),
    }
}

/// A text that may be absent is a written value at any depth.
proof fn lemma_optional_written(s: Option<String>, d: nat)
    ensures
        written_json(optional_json(s), d),
{
    if let Some(t) = s {
        lemma_string_written(t@, d);
    }
}

/// The member values of a preview row are written values at any depth.
proof fn lemma_row_values_written(r: ExpenseImportPreviewRow, d: nat)
    ensures
        all_written(row_values(r), d),
{
    lemma_string_written(r.stable_key@, d);
    lemma_string_written(r.row_sha256@, d);
    lemma_integer_written(r.source_row_number as int, d);
    lemma_string_written(r.occurred_at@, d);
    lemma_string_written(iso_date_text(r.posted_date), d);
    lemma_string_written(r.direction.name(), d);
    lemma_integer_written(r.amount_minor as int, d);
    lemma_string_written(r.currency@, d);
    lemma_string_written(r.kind.name(), d);
    if let Some(c) = r.category_hint {
        lemma_string_written(c.name(), d);
    }
    lemma_optional_written(r.merchant_blind_index, d);
    lemma_optional_written(r.payment_method_fingerprint, d);
    lemma_optional_written(r.external_reference_fingerprint, d);
    let vs = row_values(r);
    assert forall|k: int| 0 <= k < vs.len() implies written_json(#[trigger] vs[k], d) by {
        if k == 0 {
        } else if k == 1 {
        } else if k == 2 {
        } else if k == 3 {
        } else if k == 4 {
        } else if k == 5 {
        } else if k == 6 {
        } else if k == 7 {
        } else if k == 8 {
        } else if k == 9 {
        } else if k == 10 {
        } else if k == 11 {
        } else {
        }
    }
}

/// A preview row's object is a written value one level deeper than its members.
proof fn lemma_row_written(r: ExpenseImportPreviewRow, d: nat)
    ensures
        written_json(row_json(r), d + 1),
{
    lemma_row_values_written(r, d);
    lemma_object_written(row_keys(), row_values(r), d);
}

/// A preview row as a JSON object.
pub fn preview_row_json(r: &ExpenseImportPreviewRow) -> (t: String)
    ensures
        t@ == row_json(*r),
{
    let keys: Vec<&str> = vec![
        "stableKey",
        "rowSha256",
        "sourceRowNumber",
        "occurredAt",
        "postedDate",
        "direction",
        "amountMinor",
        "currency",
        "kind",
        "categoryHint",
        "merchantBlindIndex",
        "paymentMethodFingerprint",
        "externalReferenceFingerprint",
    ];
    let category = match r.category_hint {
        Some(c) => string_text(c.as_str()),
        None => null_text(),
    };
    let values: Vec<String> = vec![
        string_text(r.stable_key.as_str()),
        string_text(r.row_sha256.as_str()),
        integer_text(r.source_row_number as i64),
        string_text(r.occurred_at.as_str()),
        string_text(iso_date(r.posted_date).as_str()),
        string_text(r.direction.as_str()),
        integer_text(r.amount_minor),
        string_text(r.currency.as_str()),
        string_text(r.kind.as_str()),
        category,
        optional_text(&r.merchant_blind_index),
        optional_text(&r.payment_method_fingerprint),
        optional_text(&r.external_reference_fingerprint),
    ];
    assert(keys@.map_values(|k: &str| k@) =~= row_keys());
    assert(values@.map_values(|v: String| v@) =~= row_values(*r));
    proof {
        lemma_row_values_written(*r, json_read_depth());
    }
    object_text(&keys, &values).unwrap()
}

/// The preview document of a preview's fields and its rows, in the order they stand.
pub fn preview_document_text(p: &ExpenseImportPreviewInput) -> (t: String)
    ensures
        t@ == preview_document(
            p.adapter,
            p.source_kind,
            p.source_fingerprint@,
            p.file_sha256@,
            p.coverage_start,
            p.coverage_end,
            p.rejected_count,
            p.rows@,
        ),
{
    let ghost d = json_read_depth();
    let mut items: Vec<String> = Vec::new();
    let mut i: usize = 0;
    while i < p.rows.len()
        invariant
            0 <= i <= p.rows@.len(),
            items@.len() == i,
            forall|j: int| 0 <= j < i ==> (#[trigger] items@[j])@ == row_json(p.rows@[j]),
        decreases p.rows@.len() - i,
    {
        let item = preview_row_json(&p.rows[i]);
        items.push(item);
        i = i + 1;
    }
    let ghost row_texts = p.rows@.map_values(|r: ExpenseImportPreviewRow| row_json(r));
    assert(items@.map_values(|v: String| v@) =~= row_texts);
    proof {
        assert forall|k: int| 0 <= k < row_texts.len() implies written_json(#[trigger] row_texts[k], d) by {
            lemma_row_written(p.rows@[k], (d - 1) as nat);
        }
        assert forall|k: int| 0 <= k < row_texts.len() implies written_json(#[trigger] row_texts[k], (d - 1) as nat) by {
            lemma_row_written(p.rows@[k], (d - 2) as nat);
        }
        assert(all_written(row_texts, (d - 1) as nat));
        lemma_array_written(row_texts, (d - 1) as nat);
    }
    let rows = array_text(&items).unwrap();
    let keys: Vec<&str> = vec![
        "adapter",
        "sourceKind",
        "sourceFingerprint",
        "fileSha256",
        "coverageStart",
        "coverageEnd",
        "rejectedCount",
        "rows",
    ];
    let values: Vec<String> = vec![
        string_text(p.adapter.as_str()),
        string_text(p.source_kind.as_str()),
        string_text(p.source_fingerprint.as_str()),
        string_text(p.file_sha256.as_str()),
        string_text(iso_date(p.coverage_start).as_str()),
        string_text(iso_date(p.coverage_end).as_str()),
        integer_text(p.rejected_count as i64),
        rows,
    ];
    assert(keys@.map_values(|k: &str| k@) =~= document_keys());
    let ghost vs = seq![
        json_string_text(p.adapter.name()),
        json_string_text(p.source_kind.name()),
        json_string_text(p.source_fingerprint@),
        json_string_text(p.file_sha256@),
        json_string_text(iso_date_text(p.coverage_start)),
        json_string_text(iso_date_text(p.coverage_end)),
        json_integer_text(p.rejected_count as int),
        json_array_text(row_texts),
    ];
    assert(values@.map_values(|v: String| v@) =~= vs);
    proof {
        lemma_string_written(p.adapter.name(), d);
        lemma_string_written(p.source_kind.name(), d);
        lemma_string_written(p.source_fingerprint@, d);
        lemma_string_written(p.file_sha256@, d);
        lemma_string_written(iso_date_text(p.coverage_start), d);
        lemma_string_written(iso_date_text(p.coverage_end), d);
        lemma_integer_written(p.rejected_count as int, d);
        assert forall|k: int| 0 <= k < vs.len() implies written_json(#[trigger] vs[k], d) by {
            if k == 0 {
            } else if k == 1 {
            } else if k == 2 {
            } else if k == 3 {
            } else if k == 4 {
            } else if k == 5 {
            } else if k == 6 {
            } else {
            }
        }
    }
    object_text(&keys, &values).unwrap()
}

/// The content digest of a preview: the SHA-256, in lowercase hex, of the preview
/// document of its canonical form (rows in stable-key order). It always succeeds.
pub fn preview_content_sha256(input: &ExpenseImportPreviewInput) -> (r: Result<String, Error>)
    ensures
        r is Ok,
        r matches Ok(h) ==> h@ == preview_digest(*input),
{
    let canonical = canonical_preview(copy_preview(input));
    let doc = preview_document_text(&canonical);
    Ok(sha256_hex(doc.as_str()))
}

/// The content digest of an import: that of the preview it would have been sent as. It
/// always succeeds.
pub fn import_content_sha256(input: &NormalizedExpenseImport) -> (r: Result<String, Error>)
    ensures
        r is Ok,
        r matches Ok(h) ==> h@ == import_digest(*input),
{
    let preview = preview_of_import(input);
    proof {
        lemma_import_digest_is_preview_digest(*input, preview);
    }
    preview_content_sha256(&preview)
}

} // verus!
