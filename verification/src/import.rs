//! Checking normalized bank, card and wallet exports before they reach the ledger, and
//! the decisions an import makes against what the ledger already holds.
use vstd::prelude::*;
use vstd::string::*;
use vstd::utf8::encode_utf8;

use crate::calendar::{date_before, date_lt, CivilDate};
use crate::error::{conflict, invalid, outcome, Error, ErrorKind};
use crate::expense::{
    initial_classification, initial_event_classification,
    currency_ok, encrypted_text_ok, expense_text_aad, label_ok, lower_sha256_ok, text_aad,
    validate_amount_minor, validate_currency, validate_encrypted_text, validate_label,
    validate_sha256, MAX_IMPORT_ROWS, MAX_SAFE_AMOUNT_MINOR,
};
use crate::expense_types::{
    ExpenseCategory, ExpenseEventStatus,
    EncryptedExpenseText, ExpenseEventKind, ExpenseImportAdapter, ExpenseImportPreviewInput,
    ExpenseImportPreviewRow, ExpenseImportResult, ExpenseSourceKind, NormalizedExpenseImport, NormalizedExpenseRow,
};
use crate::text::{same_text, str_eq};

verus! {

/// What `chrono::DateTime::parse_from_rfc3339` accepts: an RFC 3339 timestamp with an
/// offset.
pub uninterp spec fn rfc3339_with_offset(s: Seq<char>) -> bool;

/// `chrono::DateTime::parse_from_rfc3339(s).is_ok()`.
#[verifier::external_body]
fn accepts_rfc3339(s: &str) -> (r: bool)
    ensures
        r == rfc3339_with_offset(s@),
{
    chrono::DateTime::parse_from_rfc3339(s).is_ok()
}

/// The kind of source each export format comes from.
pub open spec fn source_kind_of(adapter: ExpenseImportAdapter) -> ExpenseSourceKind {
    match adapter {
        ExpenseImportAdapter::KbCardUsageV1 => ExpenseSourceKind::Card,
        ExpenseImportAdapter::KbAccountHistoryV1 => ExpenseSourceKind::Account,
        ExpenseImportAdapter::KakaopayMoneyV1 => ExpenseSourceKind::Wallet,
    }
}

/// The kind of source an export format comes from.
pub fn expected_source_kind(adapter: ExpenseImportAdapter) -> (k: ExpenseSourceKind)
    ensures
        k == source_kind_of(adapter),
{
    match adapter {
        ExpenseImportAdapter::KbCardUsageV1 => ExpenseSourceKind::Card,
        ExpenseImportAdapter::KbAccountHistoryV1 => ExpenseSourceKind::Account,
        ExpenseImportAdapter::KakaopayMoneyV1 => ExpenseSourceKind::Wallet,
    }
}

/// No two rows share a stable key.
pub open spec fn stable_keys_distinct(keys: Seq<Seq<char>>) -> bool {
    forall|i: int, j: int| 0 <= i < j < keys.len() ==> #[trigger] keys[i] != #[trigger] keys[j]
}

/// Whether a day lies inside the declared coverage window.
pub open spec fn inside_window(d: CivilDate, start: CivilDate, end: CivilDate) -> bool {
    !date_before(d, start) && !date_before(end, d)
}

/// The record context that binds an encrypted field: source fingerprint and stable key.
pub open spec fn row_context(source_fingerprint: Seq<char>, stable_key: Seq<char>) -> Seq<char> {
    source_fingerprint + ":"@ + stable_key
}

/// An encrypted field, if present, is well formed and bound to its record and field.
pub open spec fn field_ok(value: Option<EncryptedExpenseText>, context: Seq<char>, field: Seq<char>) -> bool {
    value matches Some(v) ==> encrypted_text_ok(v) && v.aad@ == text_aad(context, field)
}

/// An optional fingerprint, if present, is a lowercase SHA-256 digest.
pub open spec fn fingerprint_ok(value: Option<String>) -> bool {
    value matches Some(v) ==> lower_sha256_ok(encode_utf8(v@))
}

/// The rules the fields of one normalized row must meet, apart from key uniqueness.
pub open spec fn normalized_row_ok(input: NormalizedExpenseImport, row: NormalizedExpenseRow) -> bool {
    let context = row_context(input.source_fingerprint@, row.stable_key@);
    &&& label_ok(row.stable_key@, 256)
    &&& lower_sha256_ok(encode_utf8(row.row_sha256@))
    &&& 1 <= row.source_row_number <= MAX_IMPORT_ROWS
    &&& rfc3339_with_offset(row.occurred_at@)
    &&& inside_window(row.posted_date, input.coverage_start, input.coverage_end)
    &&& 0 < row.amount_minor <= MAX_SAFE_AMOUNT_MINOR
    &&& currency_ok(encode_utf8(row.currency@))
    &&& row.kind != ExpenseEventKind::ManualRecurring
    &&& field_ok(row.merchant, context, "merchant"@)
    &&& field_ok(row.counterparty, context, "counterparty"@)
    &&& field_ok(row.memo, context, "memo"@)
    &&& fingerprint_ok(row.payment_method_fingerprint)
    &&& fingerprint_ok(row.external_reference_fingerprint)
}

/// The rules a normalized import must meet.
pub open spec fn normalized_import_ok(input: NormalizedExpenseImport) -> bool {
    &&& lower_sha256_ok(encode_utf8(input.source_fingerprint@))
    &&& lower_sha256_ok(encode_utf8(input.file_sha256@))
    &&& lower_sha256_ok(encode_utf8(input.normalized_sha256@))
    &&& !date_before(input.coverage_end, input.coverage_start)
    &&& input.rows@.len() + input.rejected_count <= MAX_IMPORT_ROWS
    &&& stable_keys_distinct(input.rows@.map_values(|r: NormalizedExpenseRow| r.stable_key@))
    &&& forall|i: int| 0 <= i < input.rows@.len() ==> normalized_row_ok(input, #[trigger] input.rows@[i])
}

/// Whether `key` differs from the stable keys of the first `n` rows.
fn key_is_new(rows: &Vec<NormalizedExpenseRow>, n: usize, key: &String) -> (r: bool)
    requires
        n <= rows@.len(),
    ensures
        r == forall|k: int| 0 <= k < n ==> #[trigger] rows@[k].stable_key@ != key@,
{
    let mut k: usize = 0;
    while k < n
        invariant
            0 <= k <= n <= rows@.len(),
            forall|m: int| 0 <= m < k ==> #[trigger] rows@[m].stable_key@ != key@,
        decreases n - k,
    {
        if same_text(&rows[k].stable_key, key) {
            return false;
        }
        k = k + 1;
    }
    true
}

/// Checks an optional fingerprint.
fn check_fingerprint(name: &str, value: &Option<String>) -> (r: Result<(), Error>)
    ensures
        r is Ok <==> fingerprint_ok(*value),
        r is Err ==> r->Err_0 is Invalid,
{
    match value {
        Some(v) => validate_sha256(name, v.as_str()),
        None => Ok(()),
    }
}

/// Checks an optional encrypted field and its binding to the record.
fn check_field(name: &str, value: &Option<EncryptedExpenseText>, context: &str, field: &str) -> (r:
    Result<(), Error>)
    ensures
        r is Ok <==> field_ok(*value, context@, field@),
        r is Err ==> r->Err_0 is Invalid,
{
    match value {
        None => Ok(()),
        Some(v) => {
            validate_encrypted_text(name, v)?;
            let expected = expense_text_aad(context, field);
            if !same_text(&v.aad, &expected) {
                return Err(
                    invalid("an encrypted expense AAD must bind source fingerprint, stable row key, and field"),
                );
            }
            Ok(())
        },
    }
}

/// Checks one normalized row.
fn check_normalized_row(input: &NormalizedExpenseImport, row: &NormalizedExpenseRow) -> (r: Result<
    (),
    Error,
>)
    ensures
        r is Ok <==> normalized_row_ok(*input, *row),
        r is Err ==> r->Err_0 is Invalid,
{
    validate_label("expense stable row key", row.stable_key.as_str(), 256)?;
    validate_sha256("expense row SHA-256", row.row_sha256.as_str())?;
    if row.source_row_number == 0 || row.source_row_number > 5000 {
        return Err(invalid("expense source row number must be between 1 and 5000"));
    }
    if !accepts_rfc3339(row.occurred_at.as_str()) {
        return Err(invalid("expense occurredAt must be RFC 3339 with an offset"));
    }
    if date_lt(row.posted_date, input.coverage_start) || date_lt(input.coverage_end, row.posted_date) {
        return Err(invalid("expense row posted date must be inside the declared coverage window"));
    }
    validate_amount_minor("expense amountMinor", row.amount_minor)?;
    validate_currency(row.currency.as_str())?;
    if row.kind == ExpenseEventKind::ManualRecurring {
        return Err(invalid("manual recurring events cannot be supplied by a normalized import"));
    }
    let context = input.source_fingerprint.clone().concat(":").concat(row.stable_key.as_str());
    check_field("expense merchant", &row.merchant, context.as_str(), "merchant")?;
    check_field("expense counterparty", &row.counterparty, context.as_str(), "counterparty")?;
    check_field("expense memo", &row.memo, context.as_str(), "memo")?;
    check_fingerprint("expense payment method fingerprint", &row.payment_method_fingerprint)?;
    check_fingerprint(
        "expense external reference fingerprint",
        &row.external_reference_fingerprint,
    )?;
    Ok(())
}

/// Checks a normalized import: digests, a coverage window in order, at most 5000 rows
/// counting the rejected ones, distinct stable keys, and every row well formed, dated
/// inside the window and with its encrypted fields bound to source, key and field.
pub fn validate_normalized_import(input: &NormalizedExpenseImport) -> (r: Result<(), Error>)
    ensures
        r is Ok <==> normalized_import_ok(*input),
        r is Err ==> r->Err_0 is Invalid,
{
    validate_sha256("expense source fingerprint", input.source_fingerprint.as_str())?;
    validate_sha256("expense file SHA-256", input.file_sha256.as_str())?;
    validate_sha256("normalized expense SHA-256", input.normalized_sha256.as_str())?;
    if date_lt(input.coverage_end, input.coverage_start) {
        return Err(invalid("expense import coverage end cannot be before its start"));
    }
    if input.rows.len() > 5000 || input.rows.len() as u64 + input.rejected_count as u64 > 5000 {
        return Err(invalid("expense import cannot exceed 5000 rows"));
    }
    let ghost keys = input.rows@.map_values(|r: NormalizedExpenseRow| r.stable_key@);
    let mut i: usize = 0;
    while i < input.rows.len()
        invariant
            0 <= i <= input.rows@.len(),
            keys == input.rows@.map_values(|r: NormalizedExpenseRow| r.stable_key@),
            forall|a: int, b: int| 0 <= a < b < i ==> #[trigger] keys[a] != #[trigger] keys[b],
            forall|k: int| 0 <= k < i ==> normalized_row_ok(*input, #[trigger] input.rows@[k]),
        decreases input.rows@.len() - i,
    {
        let row = &input.rows[i];
        validate_label("expense stable row key", row.stable_key.as_str(), 256)?;
        if !key_is_new(&input.rows, i, &row.stable_key) {
            proof {
                let k = choose|k: int| 0 <= k < i && input.rows@[k].stable_key@ == row.stable_key@;
                assert(keys[k] == keys[i as int]);
            }
            return Err(invalid("expense import repeats a stable row key"));
        }
        check_normalized_row(input, row)?;
        proof {
            assert forall|a: int, b: int| 0 <= a < b < i + 1 implies #[trigger] keys[a]
                != #[trigger] keys[b] by {
                if b == i {
                    assert(keys[a] == input.rows@[a].stable_key@);
                }
            }
        }
        i = i + 1;
    }
    Ok(())
}

/// The rules the fields of one preview row must meet, apart from key uniqueness.
pub open spec fn preview_row_ok(input: ExpenseImportPreviewInput, row: ExpenseImportPreviewRow) -> bool {
    &&& label_ok(row.stable_key@, 256)
    &&& lower_sha256_ok(encode_utf8(row.row_sha256@))
    &&& 1 <= row.source_row_number <= MAX_IMPORT_ROWS
    &&& rfc3339_with_offset(row.occurred_at@)
    &&& inside_window(row.posted_date, input.coverage_start, input.coverage_end)
    &&& 0 < row.amount_minor <= MAX_SAFE_AMOUNT_MINOR
    &&& currency_ok(encode_utf8(row.currency@))
    &&& row.kind != ExpenseEventKind::ManualRecurring
    &&& fingerprint_ok(row.merchant_blind_index)
    &&& fingerprint_ok(row.payment_method_fingerprint)
    &&& fingerprint_ok(row.external_reference_fingerprint)
}

/// The rules an import preview must meet.
pub open spec fn preview_input_ok(input: ExpenseImportPreviewInput) -> bool {
    &&& input.source_kind == source_kind_of(input.adapter)
    &&& lower_sha256_ok(encode_utf8(input.source_fingerprint@))
    &&& lower_sha256_ok(encode_utf8(input.file_sha256@))
    &&& lower_sha256_ok(encode_utf8(input.normalized_sha256@))
    &&& !date_before(input.coverage_end, input.coverage_start)
    &&& input.rows@.len() + input.rejected_count <= MAX_IMPORT_ROWS
    &&& stable_keys_distinct(input.rows@.map_values(|r: ExpenseImportPreviewRow| r.stable_key@))
    &&& forall|i: int| 0 <= i < input.rows@.len() ==> preview_row_ok(input, #[trigger] input.rows@[i])
}

/// Whether `key` differs from the stable keys of the first `n` preview rows.
fn preview_key_is_new(rows: &Vec<ExpenseImportPreviewRow>, n: usize, key: &String) -> (r: bool)
    requires
        n <= rows@.len(),
    ensures
        r == forall|k: int| 0 <= k < n ==> #[trigger] rows@[k].stable_key@ != key@,
{
    let mut k: usize = 0;
    while k < n
        invariant
            0 <= k <= n <= rows@.len(),
            forall|m: int| 0 <= m < k ==> #[trigger] rows@[m].stable_key@ != key@,
        decreases n - k,
    {
        if same_text(&rows[k].stable_key, key) {
            return false;
        }
        k = k + 1;
    }
    true
}

/// Checks one preview row.
fn check_preview_row(input: &ExpenseImportPreviewInput, row: &ExpenseImportPreviewRow) -> (r: Result<
    (),
    Error,
>)
    ensures
        r is Ok <==> preview_row_ok(*input, *row),
        r is Err ==> r->Err_0 is Invalid,
{
    validate_label("expense stable row key", row.stable_key.as_str(), 256)?;
    validate_sha256("expense row SHA-256", row.row_sha256.as_str())?;
    if row.source_row_number == 0 || row.source_row_number > 5000 {
        return Err(invalid("expense preview source row number must be between 1 and 5000"));
    }
    if !accepts_rfc3339(row.occurred_at.as_str()) {
        return Err(invalid("expense occurredAt must be RFC 3339 with an offset"));
    }
    if date_lt(row.posted_date, input.coverage_start) || date_lt(input.coverage_end, row.posted_date) {
        return Err(invalid("expense preview posted date must be inside the declared coverage window"));
    }
    validate_amount_minor("expense amountMinor", row.amount_minor)?;
    validate_currency(row.currency.as_str())?;
    if row.kind == ExpenseEventKind::ManualRecurring {
        return Err(invalid("manual recurring events cannot be supplied by an import preview"));
    }
    check_fingerprint("expense merchant blind index", &row.merchant_blind_index)?;
    check_fingerprint("expense payment method fingerprint", &row.payment_method_fingerprint)?;
    check_fingerprint(
        "expense external reference fingerprint",
        &row.external_reference_fingerprint,
    )?;
    Ok(())
}

/// Checks an import preview: the export format fixes the source kind; digests, window,
/// row count, distinct keys and rows as for an import, with fingerprints in place of
/// encrypted fields.
pub fn validate_expense_preview_input(input: &ExpenseImportPreviewInput) -> (r: Result<(), Error>)
    ensures
        r is Ok <==> preview_input_ok(*input),
        r is Err ==> r->Err_0 is Invalid,
{
    if input.source_kind != expected_source_kind(input.adapter) {
        return Err(
            Error::Invalid(
                "adapter ".to_owned().concat(input.adapter.as_str()).concat(" requires source kind ").concat(
                    expected_source_kind(input.adapter).as_str(),
                ),
            ),
        );
    }
    validate_sha256("expense source fingerprint", input.source_fingerprint.as_str())?;
    validate_sha256("expense file SHA-256", input.file_sha256.as_str())?;
    validate_sha256("normalized expense SHA-256", input.normalized_sha256.as_str())?;
    if date_lt(input.coverage_end, input.coverage_start) {
        return Err(invalid("expense import preview coverageStart must not follow coverageEnd"));
    }
    if input.rows.len() > 5000 || input.rows.len() as u64 + input.rejected_count as u64 > 5000 {
        return Err(invalid("expense import preview cannot exceed 5000 rows"));
    }
    let ghost keys = input.rows@.map_values(|r: ExpenseImportPreviewRow| r.stable_key@);
    let mut i: usize = 0;
    while i < input.rows.len()
        invariant
            0 <= i <= input.rows@.len(),
            keys == input.rows@.map_values(|r: ExpenseImportPreviewRow| r.stable_key@),
            forall|a: int, b: int| 0 <= a < b < i ==> #[trigger] keys[a] != #[trigger] keys[b],
            forall|k: int| 0 <= k < i ==> preview_row_ok(*input, #[trigger] input.rows@[k]),
        decreases input.rows@.len() - i,
    {
        let row = &input.rows[i];
        validate_label("expense stable row key", row.stable_key.as_str(), 256)?;
        if !preview_key_is_new(&input.rows, i, &row.stable_key) {
            proof {
                let k = choose|k: int| 0 <= k < i && input.rows@[k].stable_key@ == row.stable_key@;
                assert(keys[k] == keys[i as int]);
            }
            return Err(invalid("expense import preview repeats a stable row key"));
        }
        check_preview_row(input, row)?;
        proof {
            assert forall|a: int, b: int| 0 <= a < b < i + 1 implies #[trigger] keys[a]
                != #[trigger] keys[b] by {
                if b == i {
                    assert(keys[a] == input.rows@[a].stable_key@);
                }
            }
        }
        i = i + 1;
    }
    Ok(())
}

/// A source already stored under the import's fingerprint.
#[derive(Debug, Clone, PartialEq, Eq)]
pub struct StoredSource {
    pub id: String,
    pub adapter: String,
    pub source_kind: String,
}

/// Where an import's rows go.
#[derive(Debug, Clone, PartialEq, Eq)]
pub enum SourceChoice {
    /// The source stored under the fingerprint.
    Existing(String),
    /// A new source, created for this fingerprint.
    Create,
}

/// The source an import uses: the export format must fit the source kind, and a
/// fingerprint already stored must belong to the same format and kind.
pub open spec fn source_outcome(input: NormalizedExpenseImport, stored: Option<StoredSource>) -> Result<
    SourceChoice,
    ErrorKind,
> {
    if input.source_kind != source_kind_of(input.adapter) {
        Err(ErrorKind::Invalid)
    } else {
        match stored {
            None => Ok(SourceChoice::Create),
            Some(s) => if s.adapter@ != input.adapter.name() || s.source_kind@
                != input.source_kind.name() {
                Err(ErrorKind::Conflict)
            } else {
                Ok(SourceChoice::Existing(s.id))
            },
        }
    }
}

/// Decides the source an import uses.
pub fn choose_import_source(input: &NormalizedExpenseImport, stored: &Option<StoredSource>) -> (r:
    Result<SourceChoice, Error>)
    ensures
        outcome(r) == source_outcome(*input, *stored),
{
    if input.source_kind != expected_source_kind(input.adapter) {
        return Err(
            Error::Invalid(
                "adapter ".to_owned().concat(input.adapter.as_str()).concat(" requires source kind ").concat(
                    expected_source_kind(input.adapter).as_str(),
                ),
            ),
        );
    }
    match stored {
        None => Ok(SourceChoice::Create),
        Some(s) => {
            if !str_eq(s.adapter.as_str(), input.adapter.as_str()) || !str_eq(
                s.source_kind.as_str(),
                input.source_kind.as_str(),
            ) {
                return Err(
                    conflict("expense source fingerprint was already used for another adapter"),
                );
            }
            Ok(SourceChoice::Existing(s.id.clone()))
        },
    }
}

/// A batch already imported from the same file.
#[derive(Debug, Clone, PartialEq, Eq)]
pub struct StoredBatch {
    pub normalized_sha256: String,
}

/// Whether a file already imported may be replayed: only with the same normalized
/// content.
pub fn check_replay(input: &NormalizedExpenseImport, stored: &StoredBatch) -> (r: Result<(), Error>)
    ensures
        r is Ok <==> stored.normalized_sha256@ == input.normalized_sha256@,
        r is Err ==> r->Err_0 is Conflict,
{
    if !same_text(&stored.normalized_sha256, &input.normalized_sha256) {
        return Err(
            conflict("expense file fingerprint was replayed with different normalized content"),
        );
    }
    Ok(())
}

/// What an import reports: its batch and source, how many rows it had, how many were
/// new, repeated or rejected, how many events were left out or await review, and
/// whether it replayed a batch imported before.
pub open spec fn import_result(
    batch_id: String,
    source_id: String,
    counts: (u32, u32, u32, u32),
    excluded_count: u32,
    review_count: u32,
    idempotent_replay: bool,
) -> ExpenseImportResult {
    ExpenseImportResult {
        batch_id,
        source_id,
        row_count: counts.0,
        new_count: counts.1,
        duplicate_count: counts.2,
        rejected_count: counts.3,
        excluded_count,
        review_count,
        idempotent_replay,
    }
}

/// The answer to a file imported before: refused unless the normalized content is the
/// same, else the stored batch's counts (rows, new, repeated, rejected), with the events
/// it left out and the reviews still pending, marked as a replay.
pub fn replayed_import_result(
    input: &NormalizedExpenseImport,
    stored: &StoredBatch,
    batch_id: String,
    source_id: String,
    stored_counts: (u32, u32, u32, u32),
    excluded_count: u32,
    review_count: u32,
) -> (r: Result<ExpenseImportResult, Error>)
    ensures
        r is Ok <==> stored.normalized_sha256@ == input.normalized_sha256@,
        r matches Ok(v) ==> v == import_result(batch_id, source_id, stored_counts, excluded_count, review_count, true),
        r matches Err(e) ==> e is Conflict,
{
    check_replay(input, stored)?;
    Ok(
        ExpenseImportResult {
            batch_id,
            source_id,
            row_count: stored_counts.0,
            new_count: stored_counts.1,
            duplicate_count: stored_counts.2,
            rejected_count: stored_counts.3,
            excluded_count,
            review_count,
            idempotent_replay: true,
        },
    )
}

/// The answer to a new import: its rows, the new and repeated ones, and the rows the
/// export rejected, with the events left out and the reviews opened.
pub fn new_import_result(
    input: &NormalizedExpenseImport,
    batch_id: String,
    source_id: String,
    row_count: u32,
    partition: &RowPartition,
    excluded_count: u32,
    review_count: u32,
) -> (r: ExpenseImportResult)
    requires
        partition.new_rows@.len() <= u32::MAX,
    ensures
        r == import_result(
            batch_id,
            source_id,
            (row_count, partition.new_rows@.len() as u32, partition.duplicate_count, input.rejected_count),
            excluded_count,
            review_count,
            false,
        ),
{
    ExpenseImportResult {
        batch_id,
        source_id,
        row_count,
        new_count: partition.new_rows.len() as u32,
        duplicate_count: partition.duplicate_count,
        rejected_count: input.rejected_count,
        excluded_count,
        review_count,
        idempotent_replay: false,
    }
}

/// The rows of an import that are new, and how many repeat rows already stored.
#[derive(Debug, Clone)]
pub struct RowPartition {
    /// Positions of the new rows, in input order.
    pub new_rows: Vec<usize>,
    pub duplicate_count: u32,
}

/// The positions, in order, of the rows no stored row has the stable key of.
pub open spec fn new_positions(stored: Seq<Option<String>>) -> Seq<usize>
    decreases stored.len(),
{
    if stored.len() == 0 {
        Seq::empty()
    } else {
        let prev = new_positions(stored.drop_last());
        if stored.last() is None {
            prev.push((stored.len() - 1) as usize)
        } else {
            prev
        }
    }
}

/// The number of rows stored before with the same content.
pub open spec fn repeat_count(stored: Seq<Option<String>>) -> int
    decreases stored.len(),
{
    if stored.len() == 0 {
        0
    } else {
        repeat_count(stored.drop_last()) + if stored.last() is Some {
            1int
        } else {
            0
        }
    }
}

/// Whether a row's stable key was stored before with other content.
pub open spec fn replayed_with_changes(row: NormalizedExpenseRow, stored: Option<String>) -> bool {
    stored matches Some(h) && h@ != row.row_sha256@
}

/// The error of a stable row key stored before with other content.
fn stable_key_replayed(row: &NormalizedExpenseRow) -> (e: Error)
    ensures
        e is Conflict && e->Conflict_0@ == "expense stable row key was replayed with different content: "@
            + row.stable_key@,
{
    Error::Conflict("expense stable row key was replayed with different content: ".to_owned().concat(
        row.stable_key.as_str(),
    ))
}

/// What a preview reports of its rows.
#[derive(Debug, Clone, Copy, PartialEq, Eq, Structural)]
pub struct PreviewCounts {
    pub new_count: u32,
    pub duplicate_count: u32,
    pub settlement_candidate_count: u32,
    pub unconfirmed_count: u32,
}

/// A new row that may settle a shared expense.
pub open spec fn settlement_candidate(kind: ExpenseEventKind) -> bool {
    kind is SettlementReceived || kind is SettlementSent || kind is UnknownP2p || kind is ExternalTransfer
}

/// A new row whose kind stays unconfirmed.
pub open spec fn unconfirmed_kind(kind: ExpenseEventKind) -> bool {
    kind is UnknownP2p || kind is ExternalTransfer
}

/// Whether the `i`-th row repeats: its stable key is stored, or its external reference
/// is already posted.
pub open spec fn row_repeats(stored: Seq<Option<String>>, posted_reference: Seq<bool>, i: int) -> bool {
    stored[i] is Some || posted_reference[i]
}

/// The counts of the first `n` rows: new rows, repeats, and new rows that may settle or
/// stay unconfirmed.
pub open spec fn preview_counts_of(
    rows: Seq<NormalizedExpenseRow>,
    stored: Seq<Option<String>>,
    posted_reference: Seq<bool>,
    n: nat,
) -> (int, int, int, int)
    decreases n,
{
    if n == 0 {
        (0, 0, 0, 0)
    } else {
        let (a, b, c, d) = preview_counts_of(rows, stored, posted_reference, (n - 1) as nat);
        let i = n - 1;
        if row_repeats(stored, posted_reference, i) {
            (a, b + 1, c, d)
        } else {
            (
                a + 1,
                b,
                c + if settlement_candidate(rows[i].kind) { 1int } else { 0 },
                d + if unconfirmed_kind(rows[i].kind) { 1int } else { 0 },
            )
        }
    }
}

proof fn lemma_preview_counts_bounded(
    rows: Seq<NormalizedExpenseRow>,
    stored: Seq<Option<String>>,
    posted_reference: Seq<bool>,
    n: nat,
)
    ensures
        ({
            let (a, b, c, d) = preview_counts_of(rows, stored, posted_reference, n);
            0 <= a && 0 <= b && 0 <= c <= a && 0 <= d <= c && a + b == n
        }),
    decreases n,
{
    if n > 0 {
        lemma_preview_counts_bounded(rows, stored, posted_reference, (n - 1) as nat);
    }
}

/// Counts what a preview would import: a row whose stable key is stored with the same
/// content, or whose external reference is already posted, repeats; a row stored under
/// its key with other content is refused (the first such row is named); the rest are
/// new, some of them settlement candidates and some unconfirmed. `stored[i]` is the
/// digest stored under row `i`'s key; `posted_reference[i]` whether its external
/// reference is already posted.
pub fn preview_counts(
    rows: &Vec<NormalizedExpenseRow>,
    stored: &Vec<Option<String>>,
    posted_reference: &Vec<bool>,
) -> (r: Result<PreviewCounts, Error>)
    requires
        stored@.len() == rows@.len(),
        posted_reference@.len() == rows@.len(),
        rows@.len() <= u32::MAX,
    ensures
        r is Ok <==> forall|i: int|
            0 <= i < rows@.len() ==> !replayed_with_changes(#[trigger] rows@[i], stored@[i]),
        r matches Ok(c) ==> ({
            let (a, b, s, u) = preview_counts_of(rows@, stored@, posted_reference@, rows@.len());
            c.new_count == a && c.duplicate_count == b && c.settlement_candidate_count == s
                && c.unconfirmed_count == u
        }),
        r matches Err(e) ==> e is Conflict && exists|i: int|
            0 <= i < rows@.len() && replayed_with_changes(#[trigger] rows@[i], stored@[i])
                && e->Conflict_0@ == "expense stable row key was replayed with different content: "@
                + rows@[i].stable_key@,
{
    let mut counts = PreviewCounts { new_count: 0, duplicate_count: 0, settlement_candidate_count: 0, unconfirmed_count: 0 };
    let mut i: usize = 0;
    while i < rows.len()
        invariant
            0 <= i <= rows@.len() <= u32::MAX,
            stored@.len() == rows@.len(),
            posted_reference@.len() == rows@.len(),
            forall|k: int| 0 <= k < i ==> !replayed_with_changes(#[trigger] rows@[k], stored@[k]),
            ({
                let (a, b, s, u) = preview_counts_of(rows@, stored@, posted_reference@, i as nat);
                counts.new_count == a && counts.duplicate_count == b && counts.settlement_candidate_count == s
                    && counts.unconfirmed_count == u
            }),
        decreases rows@.len() - i,
    {
        proof {
            lemma_preview_counts_bounded(rows@, stored@, posted_reference@, i as nat);
        }
        let row = &rows[i];
        match &stored[i] {
            Some(h) => {
                if !same_text(h, &row.row_sha256) {
                    return Err(stable_key_replayed(row));
                }
                counts.duplicate_count = counts.duplicate_count + 1;
            },
            None => {
                if posted_reference[i] {
                    counts.duplicate_count = counts.duplicate_count + 1;
                } else {
                    counts.new_count = counts.new_count + 1;
                    if matches!(
                        row.kind,
                        ExpenseEventKind::SettlementReceived | ExpenseEventKind::SettlementSent
                            | ExpenseEventKind::UnknownP2p | ExpenseEventKind::ExternalTransfer
                    ) {
                        counts.settlement_candidate_count = counts.settlement_candidate_count + 1;
                    }
                    if matches!(row.kind, ExpenseEventKind::UnknownP2p | ExpenseEventKind::ExternalTransfer) {
                        counts.unconfirmed_count = counts.unconfirmed_count + 1;
                    }
                }
            },
        }
        i = i + 1;
    }
    Ok(counts)
}

/// Splits the rows of an import by what the ledger holds under their stable keys
/// (`stored[i]` is the content digest stored for row `i`'s key): a row stored with the
/// same digest repeats, a row stored with another digest is refused, and the rest are new.
pub fn partition_import_rows(rows: &Vec<NormalizedExpenseRow>, stored: &Vec<Option<String>>) -> (r:
    Result<RowPartition, Error>)
    requires
        stored@.len() == rows@.len(),
        rows@.len() <= u32::MAX,
    ensures
        r is Ok <==> forall|i: int|
            0 <= i < rows@.len() ==> !replayed_with_changes(#[trigger] rows@[i], stored@[i]),
        r matches Ok(p) ==> p.new_rows@ == new_positions(stored@) && p.duplicate_count
            == repeat_count(stored@),
        r matches Err(e) ==> e is Conflict && exists|i: int|
            0 <= i < rows@.len() && replayed_with_changes(#[trigger] rows@[i], stored@[i])
                && e->Conflict_0@ == "expense stable row key was replayed with different content: "@
                + rows@[i].stable_key@,
{
    let mut new_rows: Vec<usize> = Vec::new();
    let mut duplicates: u32 = 0;
    let mut i: usize = 0;
    while i < rows.len()
        invariant
            0 <= i <= rows@.len() <= u32::MAX,
            stored@.len() == rows@.len(),
            new_rows@ == new_positions(stored@.take(i as int)),
            duplicates == repeat_count(stored@.take(i as int)),
            duplicates <= i,
            forall|k: int| 0 <= k < i ==> !replayed_with_changes(#[trigger] rows@[k], stored@[k]),
        decreases rows@.len() - i,
    {
        let ghost prefix = stored@.take(i + 1);
        assert(prefix.drop_last() == stored@.take(i as int));
        assert(prefix.last() == stored@[i as int]);
        match &stored[i] {
            Some(h) => {
                if !same_text(h, &rows[i].row_sha256) {
                    return Err(stable_key_replayed(&rows[i]));
                }
                duplicates = duplicates + 1;
            },
            None => {
                new_rows.push(i);
            },
        }
        i = i + 1;
    }
    assert(stored@.take(stored@.len() as int) == stored@);
    Ok(RowPartition { new_rows, duplicate_count: duplicates })
}

/// The row count of a new batch (rows read plus rows rejected, saturating) and the
/// number accepted.
pub fn batch_counts(row_total: usize, rejected_count: u32, accepted: usize) -> (r: Result<
    (u32, u32),
    Error,
>)
    ensures
        r is Ok <==> row_total <= u32::MAX && accepted <= u32::MAX,
        r matches Ok((rows, acc)) ==> rows == (if row_total + rejected_count > u32::MAX {
            u32::MAX as int
        } else {
            row_total + rejected_count
        }) && acc == accepted,
        r matches Err(e) ==> e is Invalid,
{
    if row_total > 0xffff_ffff {
        return Err(invalid("expense import contains too many rows"));
    }
    let rows = (row_total as u32).saturating_add(rejected_count);
    if accepted > 0xffff_ffff {
        return Err(invalid("expense import contains too many rows"));
    }
    Ok((rows, accepted as u32))
}

/// Whether a stored classification rule is consulted for a row of this kind.
pub open spec fn rule_applies_to(kind: ExpenseEventKind) -> bool {
    kind is Purchase || kind is UnknownP2p || kind is ExternalTransfer
}

/// Whether a stored classification rule is consulted for a row of this kind.
pub fn consults_classification_rule(kind: ExpenseEventKind) -> (r: bool)
    ensures
        r == rule_applies_to(kind),
{
    matches!(
        kind,
        ExpenseEventKind::Purchase | ExpenseEventKind::UnknownP2p
            | ExpenseEventKind::ExternalTransfer
    )
}

/// How an imported row enters the ledger.
#[derive(Debug, Clone, Copy, PartialEq, Eq)]
pub struct ImportedEventPlan {
    pub kind: ExpenseEventKind,
    pub category: ExpenseCategory,
    pub status: ExpenseEventStatus,
    pub exclusion_reason: Option<&'static str>,
}

/// The event an imported row becomes: a rule's kind and category win over the row's,
/// and the kind then fixes the starting status and exclusion.
pub fn plan_imported_event(
    kind: ExpenseEventKind,
    category_hint: Option<ExpenseCategory>,
    rule: Option<(ExpenseEventKind, ExpenseCategory)>,
) -> (r: ImportedEventPlan)
    ensures
        ({
            let k = match rule {
                Some(x) => x.0,
                None => kind,
            };
            let hint = match rule {
                Some(x) => Some(x.1),
                None => category_hint,
            };
            let want = initial_classification(k, hint);
            &&& r.kind == k
            &&& r.status == want.0
            &&& r.category == want.2
            &&& (r.exclusion_reason matches Some(s) ==> want.1 == Some(s@))
            &&& (r.exclusion_reason is None ==> want.1 is None)
        }),
{
    let resolved_kind = match rule {
        Some(x) => x.0,
        None => kind,
    };
    let hint = match rule {
        Some(x) => Some(x.1),
        None => category_hint,
    };
    let (status, reason, category) = initial_event_classification(resolved_kind, hint);
    ImportedEventPlan { kind: resolved_kind, category, status, exclusion_reason: reason }
}

/// What follows the insertion of an imported event.
#[derive(Debug, Clone, Copy, PartialEq, Eq, Structural)]
pub struct ImportFollowUp {
    /// The event counts as excluded.
    pub excluded: bool,
    /// An unknown-transfer review is opened.
    pub unknown_transfer_review: bool,
    /// A category-confirmation review is opened.
    pub category_review: bool,
    /// Mirror, recurring-match and recurring-registration candidates are looked for.
    pub look_for_candidates: bool,
}

/// The follow-up of an imported event: duplicates, mirrors and excluded kinds count as
/// excluded; unconfirmed transfers get a review; a confirmed purchase no rule classified
/// gets its category confirmed; and confirmed purchases that are no duplicate are
/// matched against mirrors and recurring expenses.
pub open spec fn follow_up_of(
    status: ExpenseEventStatus,
    kind: ExpenseEventKind,
    rule_applied: bool,
    duplicate_or_mirror: bool,
) -> ImportFollowUp {
    let candidate = !duplicate_or_mirror && status == ExpenseEventStatus::Confirmed && kind
        == ExpenseEventKind::Purchase;
    ImportFollowUp {
        excluded: duplicate_or_mirror || status == ExpenseEventStatus::Excluded,
        unknown_transfer_review: status == ExpenseEventStatus::Unconfirmed,
        category_review: candidate && !rule_applied,
        look_for_candidates: candidate,
    }
}

/// The follow-up of an imported event.
pub fn import_follow_up(
    status: ExpenseEventStatus,
    kind: ExpenseEventKind,
    rule_applied: bool,
    duplicate_or_mirror: bool,
) -> (r: ImportFollowUp)
    ensures
        r == follow_up_of(status, kind, rule_applied, duplicate_or_mirror),
{
    let candidate = !duplicate_or_mirror && status == ExpenseEventStatus::Confirmed && kind
        == ExpenseEventKind::Purchase;
    ImportFollowUp {
        excluded: duplicate_or_mirror || status == ExpenseEventStatus::Excluded,
        unknown_transfer_review: status == ExpenseEventStatus::Unconfirmed,
        category_review: candidate && !rule_applied,
        look_for_candidates: candidate,
    }
}

/// How an imported row starts, for every kind and category hint, once a rule (if any)
/// has settled its kind: transfers to a person or account of unknown purpose start
/// unconfirmed, in the unconfirmed category, and only they open an unknown-transfer
/// review; card payments, wallet top-ups and internal transfers start excluded from
/// spending as transfers, and only they carry an exclusion reason, their kind's name;
/// every other kind starts confirmed, settlements as transfers and purchases, recurring
/// payments, refunds and fees in the hinted category, or else in other, refund income and
/// insurance, finance and tax.
pub proof fn lemma_imported_starting_status(
    kind: ExpenseEventKind,
    category_hint: Option<ExpenseCategory>,
    rule: Option<(ExpenseEventKind, ExpenseCategory)>,
    rule_applied: bool,
    duplicate_or_mirror: bool,
)
    ensures
        ({
            let k = match rule {
                Some(x) => x.0,
                None => kind,
            };
            let hint = match rule {
                Some(x) => Some(x.1),
                None => category_hint,
            };
            let status = initial_classification(k, hint).0;
            let transfer = k is UnknownP2p || k is ExternalTransfer;
            let moved = k is CardPayment || k is WalletTopup || k is InternalTransfer;
            &&& transfer ==> status == ExpenseEventStatus::Unconfirmed
            &&& moved ==> status == ExpenseEventStatus::Excluded
            &&& !transfer && !moved ==> status == ExpenseEventStatus::Confirmed
            &&& (initial_classification(k, hint).1 is Some) == moved
            &&& follow_up_of(status, k, rule_applied, duplicate_or_mirror).unknown_transfer_review == transfer
            &&& moved ==> follow_up_of(status, k, rule_applied, duplicate_or_mirror).excluded
            &&& moved ==> initial_classification(k, hint).1 == Some(k.name())
            &&& moved || k is SettlementReceived || k is SettlementSent ==> initial_classification(k, hint).2
                == ExpenseCategory::TransferSettlement
            &&& transfer ==> initial_classification(k, hint).2 == ExpenseCategory::Unconfirmed
            &&& (k is Purchase || k is ManualRecurring || k is Refund || k is Fee) ==> initial_classification(
                k,
                hint,
            ).2 == match hint {
                Some(c) => c,
                None => if k is Refund {
                    ExpenseCategory::RefundIncome
                } else if k is Fee {
                    ExpenseCategory::InsuranceFinanceTax
                } else {
                    ExpenseCategory::Other
                },
            }
        }),
{
}

/// A preview receipt as stored: what was previewed, and whether and until when it may
/// be used.
#[derive(Debug, Clone)]
pub struct PreviewReceipt {
    pub adapter: String,
    pub source_kind: String,
    pub source_fingerprint: String,
    pub file_sha256: String,
    pub normalized_sha256: String,
    pub content_sha256: String,
    pub coverage_start: CivilDate,
    pub coverage_end: CivilDate,
    pub row_count: u32,
    pub rejected_count: u32,
    /// The expiry, in milliseconds since the epoch; none when the stored text does not
    /// read as a time.
    pub expires_at_millis: Option<i64>,
    pub consumed: bool,
}

/// Whether an import is the one its receipt previewed.
pub open spec fn receipt_matches(
    receipt: PreviewReceipt,
    input: NormalizedExpenseImport,
    content_sha256: Seq<char>,
) -> bool {
    &&& receipt.adapter@ == input.adapter.name()
    &&& receipt.source_kind@ == input.source_kind.name()
    &&& receipt.source_fingerprint@ == input.source_fingerprint@
    &&& receipt.file_sha256@ == input.file_sha256@
    &&& receipt.normalized_sha256@ == input.normalized_sha256@
    &&& receipt.content_sha256@ == content_sha256
    &&& receipt.coverage_start == input.coverage_start
    &&& receipt.coverage_end == input.coverage_end
    &&& receipt.row_count == input.rows@.len() + input.rejected_count
    &&& receipt.rejected_count == input.rejected_count
}

/// Decides whether an import may consume its preview receipt at `now_millis`: once
/// only, before it expires, and only for the content previewed.
pub fn check_preview_receipt(
    receipt: &PreviewReceipt,
    input: &NormalizedExpenseImport,
    content_sha256: &str,
    now_millis: i64,
) -> (r: Result<(), Error>)
    ensures
        receipt.consumed ==> (r matches Err(e) && e is Conflict),
        !receipt.consumed && receipt.expires_at_millis is None ==> (r matches Err(e) && e is Invariant),
        (!receipt.consumed && (receipt.expires_at_millis matches Some(t) && t <= now_millis)) ==> (r matches Err(
            e,
        ) && e is Conflict),
        r is Ok <==> !receipt.consumed && (receipt.expires_at_millis matches Some(t) && t > now_millis)
            && input.rows@.len() + input.rejected_count <= u32::MAX && receipt_matches(*receipt, *input, content_sha256@),
        r matches Err(e) ==> (e is Conflict || e is Invariant || e is Invalid),
{
    if receipt.consumed {
        return Err(Error::Conflict("expense import preview session has already been consumed".to_owned()));
    }
    let expires = match receipt.expires_at_millis {
        Some(t) => t,
        None => {
            return Err(Error::Invariant("expense preview expiry is invalid".to_owned()));
        },
    };
    if expires <= now_millis {
        return Err(Error::Conflict("expense import preview session has expired".to_owned()));
    }
    if input.rows.len() > 0xffff_ffff || input.rows.len() as u64 + input.rejected_count as u64 > 0xffff_ffff {
        return Err(invalid("expense import row count overflow"));
    }
    let row_count = (input.rows.len() as u64 + input.rejected_count as u64) as u32;
    let same = str_eq(receipt.adapter.as_str(), input.adapter.as_str()) && str_eq(
        receipt.source_kind.as_str(),
        input.source_kind.as_str(),
    ) && same_text(&receipt.source_fingerprint, &input.source_fingerprint) && same_text(
        &receipt.file_sha256,
        &input.file_sha256,
    ) && same_text(&receipt.normalized_sha256, &input.normalized_sha256) && str_eq(
        receipt.content_sha256.as_str(),
        content_sha256,
    ) && receipt.coverage_start == input.coverage_start && receipt.coverage_end == input.coverage_end
        && receipt.row_count == row_count && receipt.rejected_count == input.rejected_count;
    if !same {
        return Err(Error::Conflict("expense import does not match its preview receipt".to_owned()));
    }
    Ok(())
}


// ---------------------------------------------------------------------------------------
// Importing the same rows again
// ---------------------------------------------------------------------------------------

/// What the stored rows, kept by stable key with their content digest, hold for each row
/// of an import.
pub open spec fn stored_for_rows(store: Map<Seq<char>, String>, rows: Seq<NormalizedExpenseRow>) -> Seq<
    Option<String>,
> {
    Seq::new(
        rows.len(),
        |i: int|
            if store.dom().contains(rows[i].stable_key@) {
                Some(store[rows[i].stable_key@])
            } else {
                None
            },
    )
}

/// The stored rows once the rows at `positions` are stored, each under its stable key.
pub open spec fn store_rows(
    store: Map<Seq<char>, String>,
    rows: Seq<NormalizedExpenseRow>,
    positions: Seq<usize>,
) -> Map<Seq<char>, String>
    decreases positions.len(),
{
    if positions.len() == 0 {
        store
    } else {
        let r = rows[positions.last() as int];
        store_rows(store, rows, positions.drop_last()).insert(r.stable_key@, r.row_sha256)
    }
}

proof fn lemma_new_positions_complete(stored: Seq<Option<String>>, i: int)
    requires
        0 <= i < stored.len() <= usize::MAX,
        stored[i] is None,
    ensures
        new_positions(stored).contains(i as usize),
    decreases stored.len(),
{
    if i < stored.len() - 1 {
        assert(stored.drop_last()[i] == stored[i]);
        lemma_new_positions_complete(stored.drop_last(), i);
        let prev = new_positions(stored.drop_last());
        let k = choose|k: int| 0 <= k < prev.len() && prev[k] == i as usize;
        if stored.last() is None {
            assert(new_positions(stored)[k] == i as usize);
        }
    } else {
        assert(new_positions(stored).last() == i as usize);
    }
}

proof fn lemma_store_rows_keeps(
    store: Map<Seq<char>, String>,
    rows: Seq<NormalizedExpenseRow>,
    positions: Seq<usize>,
    key: Seq<char>,
)
    ensures
        store.dom().contains(key) ==> store_rows(store, rows, positions).dom().contains(key),
        forall|j: int|
            0 <= j < positions.len() && key == rows[positions[j] as int].stable_key@
                ==> #[trigger] store_rows(store, rows, positions).dom().contains(key),
    decreases positions.len(),
{
    if positions.len() > 0 {
        lemma_store_rows_keeps(store, rows, positions.drop_last(), key);
        assert forall|j: int|
            0 <= j < positions.len() && key == rows[positions[j] as int].stable_key@
                implies #[trigger] store_rows(store, rows, positions).dom().contains(key) by {
            if j < positions.len() - 1 {
                assert(positions.drop_last()[j] == positions[j]);
            }
        }
    }
}

proof fn lemma_repeat_count_all(stored: Seq<Option<String>>)
    requires
        forall|i: int| 0 <= i < stored.len() ==> (#[trigger] stored[i]) is Some,
    ensures
        new_positions(stored) == Seq::<usize>::empty(),
        repeat_count(stored) == stored.len(),
    decreases stored.len(),
{
    if stored.len() > 0 {
        let prev = stored.drop_last();
        assert forall|i: int| 0 <= i < prev.len() implies (#[trigger] prev[i]) is Some by {
            assert(prev[i] == stored[i]);
        }
        lemma_repeat_count_all(prev);
        assert(stored.last() is Some);
    }
}

/// Importing rows twice adds them once: once the new rows of an import are stored, the
/// same rows find every stable key stored, so a second import of them has no new row and
/// counts every row as a repeat.
pub proof fn lemma_reimport_adds_nothing(store: Map<Seq<char>, String>, rows: Seq<NormalizedExpenseRow>)
    requires
        rows.len() <= usize::MAX,
    ensures
        ({
            let after = store_rows(store, rows, new_positions(stored_for_rows(store, rows)));
            &&& new_positions(stored_for_rows(after, rows)) == Seq::<usize>::empty()
            &&& repeat_count(stored_for_rows(after, rows)) == rows.len()
        }),
{
    let first = stored_for_rows(store, rows);
    let positions = new_positions(first);
    let after = store_rows(store, rows, positions);
    let second = stored_for_rows(after, rows);
    assert forall|i: int| 0 <= i < second.len() implies (#[trigger] second[i]) is Some by {
        let key = rows[i].stable_key@;
        lemma_store_rows_keeps(store, rows, positions, key);
        if !store.dom().contains(key) {
            assert(first[i] is None);
            lemma_new_positions_complete(first, i);
            let j = choose|j: int| 0 <= j < positions.len() && positions[j] == i as usize;
            assert(positions[j] as int == i);
            assert(key == rows[positions[j] as int].stable_key@);
        }
    }
    lemma_repeat_count_all(second);
}

} // verus!
