//! Rules of the expense ledger around its commands: the one-time key probe, replaying a
//! mutation under its idempotency key, and what an import preview shows and how long it
//! stays open.
use vstd::prelude::*;

use crate::error::Error;
use crate::expense::{crypto_probe_ok, validate_crypto_probe};
use crate::expense_types::{ExpenseCryptoProbe, NormalizedExpenseRow};
use crate::import::PreviewCounts;
use crate::occurrences::copy_encrypted;
use crate::text::{same_text, str_eq};

verus! {

// ---------------------------------------------------------------------------------------
// The key probe
// ---------------------------------------------------------------------------------------

/// What initializing the key probe comes to.
#[derive(Debug, Clone, Copy, PartialEq, Eq, Structural)]
pub enum ProbePlan {
    /// The same probe is stored already: it stands.
    AlreadyInitialized,
    /// The probe is stored now.
    Insert,
}

/// A probe by its values.
pub open spec fn probe_value(p: ExpenseCryptoProbe) -> (u32, Seq<char>, Seq<char>, Seq<char>) {
    (p.key_version, p.nonce@, p.ciphertext@, p.aad@)
}

/// Decides initializing the key probe: the probe must meet the probe rules; a stored
/// probe must then be this one; with none stored, the ledger must still be empty.
pub fn plan_probe_initialization(
    existing: &Option<ExpenseCryptoProbe>,
    has_ledger_state: bool,
    probe: &ExpenseCryptoProbe,
) -> (r: Result<ProbePlan, Error>)
    ensures
        !crypto_probe_ok(*probe) ==> (r matches Err(e) && e is Invalid),
        crypto_probe_ok(*probe) ==> match *existing {
            Some(e) => if probe_value(e) == probe_value(*probe) {
                r == Ok::<ProbePlan, Error>(ProbePlan::AlreadyInitialized)
            } else {
                r matches Err(err) && err is Conflict && err->Conflict_0@
                    == "expense encryption probe is already initialized"@
            },
            None => if has_ledger_state {
                r matches Err(err) && err is Conflict && err->Conflict_0@
                    == "expense encryption probe cannot be initialized after expense ledger state exists"@
            } else {
                r == Ok::<ProbePlan, Error>(ProbePlan::Insert)
            },
        },
{
    validate_crypto_probe(probe)?;
    match existing {
        Some(e) => {
            if e.key_version == probe.key_version && same_text(&e.nonce, &probe.nonce) && same_text(
                &e.ciphertext,
                &probe.ciphertext,
            ) && same_text(&e.aad, &probe.aad) {
                Ok(ProbePlan::AlreadyInitialized)
            } else {
                Err(Error::Conflict("expense encryption probe is already initialized".to_owned()))
            }
        },
        None => {
            if has_ledger_state {
                Err(
                    Error::Conflict(
                        "expense encryption probe cannot be initialized after expense ledger state exists".to_owned(),
                    ),
                )
            } else {
                Ok(ProbePlan::Insert)
            }
        },
    }
}

/// Initializing the key probe succeeds: the probe meets the probe rules, and it is the
/// stored probe, or none is stored and the ledger is still empty.
pub open spec fn probe_init_ok(
    stored: Option<ExpenseCryptoProbe>,
    has_ledger_state: bool,
    probe: ExpenseCryptoProbe,
) -> bool {
    &&& crypto_probe_ok(probe)
    &&& match stored {
        Some(e) => probe_value(e) == probe_value(probe),
        None => !has_ledger_state,
    }
}

fn copy_probe(p: &ExpenseCryptoProbe) -> (c: ExpenseCryptoProbe)
    ensures
        c == *p,
{
    ExpenseCryptoProbe {
        key_version: p.key_version,
        nonce: p.nonce.clone(),
        ciphertext: p.ciphertext.clone(),
        aad: p.aad.clone(),
    }
}

/// Initializes the key probe held in `stored`: a new probe is stored when none is and the
/// ledger is empty; the stored probe is answered when it is asked for again; any other
/// probe is refused. A stored probe is never replaced.
pub fn initialize_probe(
    stored: &mut Option<ExpenseCryptoProbe>,
    has_ledger_state: bool,
    probe: ExpenseCryptoProbe,
) -> (r: Result<ExpenseCryptoProbe, Error>)
    ensures
        r is Ok <==> probe_init_ok(*old(stored), has_ledger_state, probe),
        r matches Ok(p) ==> p == probe && (*final(stored) matches Some(s) && probe_value(s) == probe_value(p)),
        *old(stored) is Some ==> *final(stored) == *old(stored),
        r is Err ==> *final(stored) == *old(stored),
        *old(stored) is None && r is Ok ==> *final(stored) == Some(probe),
        r matches Err(e) ==> (e is Invalid || e is Conflict),
{
    match plan_probe_initialization(stored, has_ledger_state, &probe) {
        Ok(ProbePlan::AlreadyInitialized) => Ok(probe),
        Ok(ProbePlan::Insert) => {
            *stored = Some(copy_probe(&probe));
            Ok(probe)
        },
        Err(e) => Err(e),
    }
}

/// A key probe is initialized once: after a probe is stored, asking for it again succeeds
/// and leaves it stored, while any probe with other values is refused, whether the ledger
/// has state or not.
pub proof fn lemma_probe_initialized_once(
    p: ExpenseCryptoProbe,
    q: ExpenseCryptoProbe,
    has_ledger_state: bool,
)
    requires
        probe_init_ok(None, false, p),
        probe_value(q) != probe_value(p),
    ensures
        probe_init_ok(Some(p), has_ledger_state, p),
        !probe_init_ok(Some(p), has_ledger_state, q),
{
}

// ---------------------------------------------------------------------------------------
// Mutation receipts
// ---------------------------------------------------------------------------------------

/// The receipt stored under a key, by its operation and request digest.
pub open spec fn stored_receipt(stored: Option<(String, String)>) -> Option<(Seq<char>, Seq<char>)> {
    match stored {
        Some((op, sha)) => Some((op@, sha@)),
        None => None,
    }
}

/// What a mutation under an idempotency key comes to, given the receipt stored under the
/// key: `Some(false)` runs it (no receipt), `Some(true)` answers with the stored result,
/// `None` refuses it (the key was used for another operation or request).
pub open spec fn receipt_decision(
    stored: Option<(Seq<char>, Seq<char>)>,
    operation: Seq<char>,
    request_sha256: Seq<char>,
) -> Option<bool> {
    match stored {
        None => Some(false),
        Some((op, sha)) => if op == operation && sha == request_sha256 {
            Some(true)
        } else {
            None
        },
    }
}

/// Whether a mutation under an idempotency key replays its stored result: `true` to
/// answer with it (marked replayed), `false` when no receipt exists and the mutation
/// runs. A key used before for another operation or request is refused.
pub fn check_expense_receipt(stored: &Option<(String, String)>, operation: &str, request_sha256: &str) -> (r:
    Result<bool, Error>)
    ensures
        match receipt_decision(stored_receipt(*stored), operation@, request_sha256@) {
            Some(replay) => r == Ok::<bool, Error>(replay),
            None => r matches Err(e) && e is Conflict && e->Conflict_0@
                == "expense idempotency key was already used for another mutation"@,
        },
{
    match stored {
        None => Ok(false),
        Some((op, sha)) => {
            if str_eq(op.as_str(), operation) && str_eq(sha.as_str(), request_sha256) {
                Ok(true)
            } else {
                Err(Error::Conflict("expense idempotency key was already used for another mutation".to_owned()))
            }
        },
    }
}

/// The receipt a store of receipts, keyed by idempotency key, holds for `key`.
pub open spec fn receipt_for(
    receipts: Map<Seq<char>, (Seq<char>, Seq<char>)>,
    key: Seq<char>,
) -> Option<(Seq<char>, Seq<char>)> {
    if receipts.dom().contains(key) {
        Some(receipts[key])
    } else {
        None
    }
}

/// Once a mutation has run under a key and its receipt is stored, the same request under
/// that key is answered with the stored result, and a request that differs in operation
/// or digest is refused; other keys are unaffected.
pub proof fn lemma_receipt_replays_its_request(
    receipts: Map<Seq<char>, (Seq<char>, Seq<char>)>,
    key: Seq<char>,
    operation: Seq<char>,
    request_sha256: Seq<char>,
    other_key: Seq<char>,
    other_operation: Seq<char>,
    other_request_sha256: Seq<char>,
)
    requires
        receipt_decision(receipt_for(receipts, key), operation, request_sha256) == Some(false),
    ensures
        receipt_decision(receipt_for(receipts.insert(key, (operation, request_sha256)), key), operation, request_sha256)
            == Some(true),
        !(other_operation == operation && other_request_sha256 == request_sha256) ==> receipt_decision(
            receipt_for(receipts.insert(key, (operation, request_sha256)), key),
            other_operation,
            other_request_sha256,
        ) is None,
        other_key != key ==> receipt_for(receipts.insert(key, (operation, request_sha256)), other_key)
            == receipt_for(receipts, other_key),
{
}

// ---------------------------------------------------------------------------------------
// Import previews
// ---------------------------------------------------------------------------------------

/// The most rows a preview shows.
pub const PREVIEW_ITEM_LIMIT: usize = 100;

/// How long a preview session stays open, in milliseconds: ten minutes.
pub const PREVIEW_SESSION_MILLIS: i64 = 600_000;

/// How long a finished or expired preview session is kept, in milliseconds: a day.
pub const PREVIEW_RETENTION_MILLIS: i64 = 86_400_000;

fn copy_row(r: &NormalizedExpenseRow) -> (c: NormalizedExpenseRow)
    ensures
        c == *r,
{
    NormalizedExpenseRow {
        stable_key: r.stable_key.clone(),
        row_sha256: r.row_sha256.clone(),
        source_row_number: r.source_row_number,
        occurred_at: r.occurred_at.clone(),
        posted_date: r.posted_date,
        direction: r.direction,
        amount_minor: r.amount_minor,
        currency: r.currency.clone(),
        kind: r.kind,
        category_hint: r.category_hint,
        merchant: match &r.merchant {
            Some(t) => Some(copy_encrypted(t)),
            None => None,
        },
        counterparty: match &r.counterparty {
            Some(t) => Some(copy_encrypted(t)),
            None => None,
        },
        memo: match &r.memo {
            Some(t) => Some(copy_encrypted(t)),
            None => None,
        },
        payment_method_fingerprint: match &r.payment_method_fingerprint {
            Some(t) => Some(t.clone()),
            None => None,
        },
        external_reference_fingerprint: match &r.external_reference_fingerprint {
            Some(t) => Some(t.clone()),
            None => None,
        },
    }
}

/// The rows a preview shows: the first hundred, in order.
pub fn preview_items(rows: &Vec<NormalizedExpenseRow>) -> (r: Vec<NormalizedExpenseRow>)
    ensures
        r@ == rows@.take(if rows@.len() < PREVIEW_ITEM_LIMIT { rows@.len() as int } else { PREVIEW_ITEM_LIMIT as int }),
{
    let n = if rows.len() < PREVIEW_ITEM_LIMIT { rows.len() } else { PREVIEW_ITEM_LIMIT };
    let mut out: Vec<NormalizedExpenseRow> = Vec::new();
    let mut i: usize = 0;
    while i < n
        invariant
            0 <= i <= n <= rows@.len(),
            n == (if rows@.len() < PREVIEW_ITEM_LIMIT { rows@.len() } else { PREVIEW_ITEM_LIMIT as nat }),
            out@ == rows@.take(i as int),
        decreases n - i,
    {
        out.push(copy_row(&rows[i]));
        i = i + 1;
        assert(out@ =~= rows@.take(i as int));
    }
    out
}

/// When a preview session opened at `now` expires, and the time before which closed or
/// expired sessions are cleared; none outside `i64`.
pub fn preview_session_times(now_millis: i64) -> (r: Option<(i64, i64)>)
    ensures
        r is Some <==> now_millis + PREVIEW_SESSION_MILLIS <= i64::MAX && now_millis - PREVIEW_RETENTION_MILLIS
            >= i64::MIN,
        r matches Some((expires, cutoff)) ==> expires == now_millis + PREVIEW_SESSION_MILLIS && cutoff
            == now_millis - PREVIEW_RETENTION_MILLIS,
{
    let expires = match now_millis.checked_add(PREVIEW_SESSION_MILLIS) {
        Some(e) => e,
        None => return None,
    };
    let cutoff = match now_millis.checked_sub(PREVIEW_RETENTION_MILLIS) {
        Some(c) => c,
        None => return None,
    };
    Some((expires, cutoff))
}


/// What a preview answers: its session and when it expires, the rows it shows, and the
/// counts of new, repeated, settling, unconfirmed and rejected rows.
#[derive(Debug, Clone)]
pub struct ExpenseImportPreview {
    pub session_id: String,
    pub expires_at: String,
    pub items: Vec<NormalizedExpenseRow>,
    pub new_count: u32,
    pub duplicate_count: u32,
    pub settlement_candidate_count: u32,
    pub unconfirmed_count: u32,
    pub rejected_count: u32,
}

/// The answer to a redacted preview: its session, its counts, and no rows, as the
/// redacted input holds none to show.
pub fn redacted_preview(
    session_id: String,
    expires_at: String,
    counts: PreviewCounts,
    rejected_count: u32,
) -> (p: ExpenseImportPreview)
    ensures
        p.session_id == session_id,
        p.expires_at == expires_at,
        p.items@.len() == 0,
        p.new_count == counts.new_count,
        p.duplicate_count == counts.duplicate_count,
        p.settlement_candidate_count == counts.settlement_candidate_count,
        p.unconfirmed_count == counts.unconfirmed_count,
        p.rejected_count == rejected_count,
{
    ExpenseImportPreview {
        session_id,
        expires_at,
        items: Vec::new(),
        new_count: counts.new_count,
        duplicate_count: counts.duplicate_count,
        settlement_candidate_count: counts.settlement_candidate_count,
        unconfirmed_count: counts.unconfirmed_count,
        rejected_count,
    }
}

/// A preview of full rows: the redacted preview's answer, showing the first hundred rows.
pub fn preview_with_items(preview: ExpenseImportPreview, rows: &Vec<NormalizedExpenseRow>) -> (p: ExpenseImportPreview)
    ensures
        p.session_id == preview.session_id,
        p.expires_at == preview.expires_at,
        p.items@ == rows@.take(if rows@.len() < PREVIEW_ITEM_LIMIT { rows@.len() as int } else { PREVIEW_ITEM_LIMIT as int }),
        p.new_count == preview.new_count,
        p.duplicate_count == preview.duplicate_count,
        p.settlement_candidate_count == preview.settlement_candidate_count,
        p.unconfirmed_count == preview.unconfirmed_count,
        p.rejected_count == preview.rejected_count,
{
    ExpenseImportPreview { items: preview_items(rows), ..preview }
}

} // verus!
