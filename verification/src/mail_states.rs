//! The one-way states of mail records: an OAuth state is consumed at most once and only
//! before it expires; a triage batch leaves `claimed` once, by success or by failure.
use vstd::prelude::*;
use vstd::string::*;

use crate::error::{not_found, Error};
use crate::mail::{
    validate_triage_decisions, validate_triage_failure_code, triage_decision_ok, MailClassification, MailTriageDecision,
};

verus! {

// ---------------------------------------------------------------------------------------
// OAuth states
// ---------------------------------------------------------------------------------------

/// A stored OAuth state as its consumption reads it: when it expires and, once used,
/// when it was consumed (milliseconds since the Unix epoch).
#[derive(Debug, Clone, Copy, PartialEq, Eq, Structural)]
pub struct OAuthStateRecord {
    pub expires_at_millis: i64,
    pub consumed_at_millis: Option<i64>,
}

/// A state can be consumed at `as_of`: it was never consumed and has not expired.
pub open spec fn oauth_state_usable(s: OAuthStateRecord, as_of_millis: i64) -> bool {
    s.consumed_at_millis is None && s.expires_at_millis > as_of_millis
}

/// The state once consumed at `as_of`.
pub open spec fn oauth_state_consumed(s: OAuthStateRecord, as_of_millis: i64) -> OAuthStateRecord {
    OAuthStateRecord { expires_at_millis: s.expires_at_millis, consumed_at_millis: Some(as_of_millis) }
}

/// Consumes the state stored under a digest, if there is a usable one.
pub fn consume_oauth_state(stored: Option<OAuthStateRecord>, as_of_millis: i64) -> (r: Result<OAuthStateRecord, Error>)
    ensures
        r is Ok <==> (stored matches Some(s) && oauth_state_usable(s, as_of_millis)),
        r matches Ok(n) ==> n == oauth_state_consumed(stored->0, as_of_millis),
        r matches Err(e) ==> e is Conflict && e->Conflict_0@ == "mail OAuth state is invalid, expired, or already used"@,
{
    match stored {
        Some(s) => {
            if s.consumed_at_millis.is_none() && s.expires_at_millis > as_of_millis {
                return Ok(OAuthStateRecord { expires_at_millis: s.expires_at_millis, consumed_at_millis: Some(as_of_millis) });
            }
        },
        None => {},
    }
    Err(Error::Conflict("mail OAuth state is invalid, expired, or already used".to_owned()))
}

/// An OAuth state is single use: once consumed, no later consumption succeeds.
pub proof fn lemma_oauth_state_single_use(s: OAuthStateRecord, first: i64, later: i64)
    ensures
        !oauth_state_usable(oauth_state_consumed(s, first), later),
{
}

/// An expired state is never usable, whenever it is presented afterwards.
pub proof fn lemma_oauth_state_expiry(s: OAuthStateRecord, as_of: i64, later: i64)
    requires
        !oauth_state_usable(s, as_of),
        s.consumed_at_millis is None,
        as_of <= later,
    ensures
        !oauth_state_usable(s, later),
{
}

// ---------------------------------------------------------------------------------------
// Triage batches
// ---------------------------------------------------------------------------------------

/// Where a triage batch stands.
#[derive(Debug, Clone, Copy, PartialEq, Eq, Structural)]
pub enum TriageBatchStatus {
    Claimed,
    Succeeded,
    Failed,
}

/// What completing a batch requires: it is still claimed, and the response holds one
/// well-formed judgement per claimed message.
pub open spec fn triage_completion_ok(status: Option<TriageBatchStatus>, expected_count: i64, decisions: Seq<MailTriageDecision>) -> bool {
    &&& status == Some(TriageBatchStatus::Claimed)
    &&& expected_count == decisions.len()
    &&& forall|i: int| 0 <= i < decisions.len() ==> triage_decision_ok(#[trigger] decisions[i])
}

/// Completes a claimed batch with the model's judgements; gives back its new status.
/// A batch that is missing or no longer claimed is not found among the claimed ones.
pub fn complete_triage_batch(
    batch_id: &str,
    status: Option<TriageBatchStatus>,
    expected_count: i64,
    decisions: &Vec<MailTriageDecision>,
) -> (r: Result<TriageBatchStatus, Error>)
    ensures
        r is Ok <==> triage_completion_ok(status, expected_count, decisions@),
        r matches Ok(s) ==> s == TriageBatchStatus::Succeeded,
        status != Some(TriageBatchStatus::Claimed) ==> (r matches Err(e) && e is NotFound),
{
    if status != Some(TriageBatchStatus::Claimed) {
        return Err(not_found("claimed mail triage batch", batch_id));
    }
    validate_triage_decisions(expected_count, decisions)?;
    Ok(TriageBatchStatus::Succeeded)
}

/// Marks a claimed batch failed; gives back its new status.
pub fn fail_triage_batch(status: Option<TriageBatchStatus>, failure_code: &str) -> (r: Result<TriageBatchStatus, Error>)
    ensures
        r is Ok <==> 1 <= failure_code.spec_bytes().len() <= 80 && status == Some(TriageBatchStatus::Claimed),
        r matches Ok(s) ==> s == TriageBatchStatus::Failed,
        r matches Err(e) ==> (e is Invalid <==> !(1 <= failure_code.spec_bytes().len() <= 80)),
        r matches Err(e) ==> (e is Invalid || e is Conflict),
{
    validate_triage_failure_code(failure_code)?;
    if status != Some(TriageBatchStatus::Claimed) {
        return Err(Error::Conflict("mail triage batch was already completed".to_owned()));
    }
    Ok(TriageBatchStatus::Failed)
}

/// A message as triage reads and writes it.
#[derive(Debug, Clone, PartialEq, Eq)]
pub struct TriageItemState {
    pub id: String,
    pub version: u64,
    pub classification: MailClassification,
    pub importance_score: u8,
    pub confidence: u8,
    pub decision_source: String,
    pub decision_reason: String,
    pub action_ciphertext: Option<String>,
    /// The message was flagged sensitive; the model never reclassifies it.
    pub sensitive: bool,
}

/// A judgement takes effect on a message: it names the message at its current version,
/// the message still awaits review, and it is not sensitive.
pub open spec fn triage_applies(item: TriageItemState, d: MailTriageDecision) -> bool {
    &&& item.id@ == d.item_id@
    &&& item.version == d.expected_version
    &&& item.classification == MailClassification::Review
    &&& !item.sensitive
}

/// `after` is the message `before` once a judgement is applied: where it applies, the
/// model's classification, scores and reason, decided by `ai`, its action text when one
/// is given, one version on; elsewhere unchanged.
pub open spec fn is_triaged(after: TriageItemState, before: TriageItemState, d: MailTriageDecision) -> bool {
    if triage_applies(before, d) {
        &&& after.id == before.id
        &&& after.version == before.version + 1
        &&& after.classification == d.classification
        &&& after.importance_score == d.importance_score
        &&& after.confidence == d.confidence
        &&& after.decision_source@ == "ai"@
        &&& after.decision_reason@ == d.reason_code@
        &&& after.action_ciphertext == (if d.action_ciphertext is Some {
            d.action_ciphertext
        } else {
            before.action_ciphertext
        })
        &&& after.sensitive == before.sensitive
    } else {
        after == before
    }
}

/// The number of judgements that take effect on the messages they name.
pub open spec fn applied_count(items: Seq<TriageItemState>, decisions: Seq<MailTriageDecision>, n: nat) -> nat
    decreases n,
{
    if n == 0 {
        0
    } else {
        applied_count(items, decisions, (n - 1) as nat) + if triage_applies(items[n - 1], decisions[n - 1]) {
            1nat
        } else {
            0nat
        }
    }
}

/// Applies a judgement to the message it names; says whether it took effect.
pub fn apply_triage_decision(item: &mut TriageItemState, d: &MailTriageDecision) -> (changed: bool)
    requires
        old(item).version < u64::MAX,
    ensures
        changed == triage_applies(*old(item), *d),
        is_triaged(*final(item), *old(item), *d),
{
    if !(crate::text::str_eq(item.id.as_str(), d.item_id.as_str()) && item.version == d.expected_version
        && item.classification == MailClassification::Review && !item.sensitive) {
        return false;
    }
    item.classification = d.classification;
    item.importance_score = d.importance_score;
    item.confidence = d.confidence;
    item.decision_source = "ai".to_owned();
    item.decision_reason = d.reason_code.clone();
    if let Some(action) = &d.action_ciphertext {
        item.action_ciphertext = Some(action.clone());
    }
    item.version = item.version + 1;
    true
}

fn copy_triage_item(t: &TriageItemState) -> (r: TriageItemState)
    ensures
        r == *t,
{
    TriageItemState {
        id: t.id.clone(),
        version: t.version,
        classification: t.classification,
        importance_score: t.importance_score,
        confidence: t.confidence,
        decision_source: t.decision_source.clone(),
        decision_reason: t.decision_reason.clone(),
        action_ciphertext: match &t.action_ciphertext {
            Some(a) => Some(a.clone()),
            None => None,
        },
        sensitive: t.sensitive,
    }
}

/// Applies a batch's judgements, `items[i]` being the message `decisions[i]` names, as
/// read; gives back how many took effect.
pub fn apply_triage_decisions(items: &mut Vec<TriageItemState>, decisions: &Vec<MailTriageDecision>) -> (applied: u32)
    requires
        old(items)@.len() == decisions@.len(),
        decisions@.len() <= u32::MAX,
        forall|i: int| 0 <= i < old(items)@.len() ==> (#[trigger] old(items)@[i]).version < u64::MAX,
    ensures
        final(items)@.len() == old(items)@.len(),
        forall|i: int| 0 <= i < final(items)@.len() ==> is_triaged(#[trigger] final(items)@[i], old(items)@[i], decisions@[i]),
        applied == applied_count(old(items)@, decisions@, decisions@.len()),
{
    let ghost before = items@;
    let mut applied: u32 = 0;
    let mut i: usize = 0;
    while i < items.len()
        invariant
            0 <= i <= items@.len(),
            items@.len() == before.len() == decisions@.len() <= u32::MAX,
            forall|k: int| 0 <= k < before.len() ==> (#[trigger] before[k]).version < u64::MAX,
            forall|k: int| 0 <= k < i ==> is_triaged(#[trigger] items@[k], before[k], decisions@[k]),
            forall|k: int| i <= k < items@.len() ==> #[trigger] items@[k] == before[k],
            applied == applied_count(before, decisions@, i as nat),
            applied <= i,
        decreases items@.len() - i,
    {
        let mut item = copy_triage_item(&items[i]);
        let changed = apply_triage_decision(&mut item, &decisions[i]);
        items.set(i, item);
        if changed {
            applied = applied + 1;
        }
        i = i + 1;
    }
    applied
}

/// Completes a claimed batch and applies its judgements to the messages it claimed,
/// `items[i]` being the message `decisions[i]` names; gives back the batch's new status and
/// how many judgements took effect. A refused completion changes no message.
pub fn complete_triage_batch_with_items(
    batch_id: &str,
    status: Option<TriageBatchStatus>,
    expected_count: i64,
    decisions: &Vec<MailTriageDecision>,
    items: &mut Vec<TriageItemState>,
) -> (r: Result<(TriageBatchStatus, u32), Error>)
    requires
        old(items)@.len() == decisions@.len(),
        decisions@.len() <= u32::MAX,
        forall|i: int| 0 <= i < old(items)@.len() ==> (#[trigger] old(items)@[i]).version < u64::MAX,
    ensures
        r is Ok <==> triage_completion_ok(status, expected_count, decisions@),
        r is Err ==> final(items)@ == old(items)@,
        r matches Ok((s, applied)) ==> {
            &&& s == TriageBatchStatus::Succeeded
            &&& applied == applied_count(old(items)@, decisions@, decisions@.len())
            &&& final(items)@.len() == old(items)@.len()
            &&& forall|i: int|
                0 <= i < final(items)@.len() ==> is_triaged(#[trigger] final(items)@[i], old(items)@[i], decisions@[i])
        },
{
    let status = complete_triage_batch(batch_id, status, expected_count, decisions)?;
    let applied = apply_triage_decisions(items, decisions);
    Ok((status, applied))
}

/// Completing a batch twice applies its judgements once: once a completion has succeeded,
/// a second completion of the batch is refused and leaves every message as the first one
/// left it.
pub proof fn lemma_triage_applied_once(
    expected_count: i64,
    decisions: Seq<MailTriageDecision>,
    before: Seq<TriageItemState>,
    after: Seq<TriageItemState>,
)
    requires
        triage_completion_ok(Some(TriageBatchStatus::Claimed), expected_count, decisions),
        before.len() == decisions.len(),
        after.len() == before.len(),
        forall|i: int| 0 <= i < after.len() ==> is_triaged(#[trigger] after[i], before[i], decisions[i]),
    ensures
        !triage_completion_ok(Some(TriageBatchStatus::Succeeded), expected_count, decisions),
        forall|i: int|
            0 <= i < after.len() && triage_applies(before[i], decisions[i]) ==> !triage_applies(
                #[trigger] after[i],
                decisions[i],
            ),
{
    assert forall|i: int|
        0 <= i < after.len() && triage_applies(before[i], decisions[i]) implies !triage_applies(
            #[trigger] after[i],
            decisions[i],
        ) by {
        assert(is_triaged(after[i], before[i], decisions[i]));
    }
}

/// A claimed batch completes exactly once: after it succeeds or fails, no completion
/// of it is accepted.
pub proof fn lemma_triage_completes_once(expected_count: i64, decisions: Seq<MailTriageDecision>)
    ensures
        !triage_completion_ok(Some(TriageBatchStatus::Succeeded), expected_count, decisions),
        !triage_completion_ok(Some(TriageBatchStatus::Failed), expected_count, decisions),
{
}

// ---------------------------------------------------------------------------------------
// Mutation receipts
// ---------------------------------------------------------------------------------------

/// A receipt stored under an idempotency key: the operation and request digest it
/// answered.
#[derive(Debug, Clone, PartialEq, Eq)]
pub struct MailReceipt {
    pub operation: String,
    pub request_sha256: String,
}

/// Whether a request under an idempotency key replays its receipt: `true` to answer with
/// the stored response, `false` when no receipt exists yet and the mutation runs. A key
/// reused for another operation or request is refused.
pub fn check_mail_receipt(saved: &Option<MailReceipt>, operation: &str, request_sha256: &str) -> (r: Result<bool, Error>)
    ensures
        saved is None ==> r == Ok::<bool, Error>(false),
        saved matches Some(s) ==> match r {
            Ok(replay) => replay && s.operation@ == operation@ && s.request_sha256@ == request_sha256@,
            Err(e) => e is Conflict && !(s.operation@ == operation@ && s.request_sha256@ == request_sha256@)
                && e->Conflict_0@ == "mail idempotency key was reused with different data"@,
        },
{
    match saved {
        None => Ok(false),
        Some(s) => {
            if crate::text::str_eq(s.operation.as_str(), operation) && crate::text::str_eq(
                s.request_sha256.as_str(),
                request_sha256,
            ) {
                Ok(true)
            } else {
                Err(Error::Conflict("mail idempotency key was reused with different data".to_owned()))
            }
        },
    }
}


// ---------------------------------------------------------------------------------------
// AI candidates
// ---------------------------------------------------------------------------------------

/// A message as the AI candidate listing reads it: its triage state, whether it was
/// received before the listing's cut-off, and whether it was ever bound to a triage batch.
#[derive(Debug, Clone, PartialEq, Eq)]
pub struct CandidateRow {
    pub item: TriageItemState,
    pub ready: bool,
    pub ever_bound: bool,
}

/// A message awaits the model: the rules sent it to review as an AI candidate, it is not
/// sensitive, it is ready, and no triage batch ever took it, whatever became of that
/// batch, so a failed batch is never billed again automatically.
pub open spec fn is_ai_candidate(r: CandidateRow) -> bool {
    &&& r.item.classification == MailClassification::Review
    &&& r.item.decision_source@ == "rule"@
    &&& r.item.decision_reason@ == "ai_candidate"@
    &&& !r.item.sensitive
    &&& r.ready
    &&& !r.ever_bound
}

/// The positions of the candidates among the rows, in order.
pub open spec fn candidate_positions(rows: Seq<CandidateRow>) -> Seq<usize>
    decreases rows.len(),
{
    if rows.len() == 0 {
        Seq::empty()
    } else {
        let prev = candidate_positions(rows.drop_last());
        if is_ai_candidate(rows.last()) {
            prev.push((rows.len() - 1) as usize)
        } else {
            prev
        }
    }
}

proof fn lemma_candidate_positions_len(rows: Seq<CandidateRow>)
    ensures
        candidate_positions(rows).len() <= rows.len(),
    decreases rows.len(),
{
    if rows.len() > 0 {
        lemma_candidate_positions_len(rows.drop_last());
    }
}

/// The AI candidates among the rows (ordered by creation time and id), at most `limit` of
/// them, by position; the limit is 1 to 10.
pub fn ai_candidates(rows: &Vec<CandidateRow>, limit: u32) -> (r: Result<Vec<usize>, Error>)
    ensures
        r is Ok <==> 1 <= limit <= 10,
        r matches Ok(v) ==> v@ == candidate_positions(rows@).take(
            if candidate_positions(rows@).len() < limit { candidate_positions(rows@).len() as int } else { limit as int },
        ),
        r matches Err(e) ==> e is Invalid && e->Invalid_0@ == "mail AI candidate limit must be between 1 and 10"@,
{
    if limit < 1 || limit > 10 {
        return Err(Error::Invalid("mail AI candidate limit must be between 1 and 10".to_owned()));
    }
    let mut out: Vec<usize> = Vec::new();
    let mut i: usize = 0;
    while i < rows.len() && out.len() < limit as usize
        invariant
            0 <= i <= rows@.len(),
            1 <= limit <= 10,
            out@ == candidate_positions(rows@.take(i as int)),
            out@.len() <= limit,
        decreases rows@.len() - i,
    {
        let row = &rows[i];
        let candidate = row.item.classification == MailClassification::Review
            && crate::text::str_eq(row.item.decision_source.as_str(), "rule")
            && crate::text::str_eq(row.item.decision_reason.as_str(), "ai_candidate")
            && !row.item.sensitive && row.ready && !row.ever_bound;
        assert(rows@.take(i + 1).drop_last() =~= rows@.take(i as int));
        assert(rows@.take(i + 1).last() == rows@[i as int]);
        if candidate {
            out.push(i);
        }
        i = i + 1;
    }
    proof {
        lemma_candidate_prefix(rows@, i as int);
        lemma_candidate_positions_len(rows@.take(i as int));
    }
    Ok(out)
}

/// The candidates of a prefix are a prefix of all candidates, and once the prefix holds
/// fewer than all, it covers every row.
proof fn lemma_candidate_prefix(rows: Seq<CandidateRow>, i: int)
    requires
        0 <= i <= rows.len(),
    ensures
        candidate_positions(rows.take(i)) == candidate_positions(rows).take(
            candidate_positions(rows.take(i)).len() as int,
        ),
        candidate_positions(rows.take(i)).len() <= candidate_positions(rows).len(),
        i == rows.len() ==> candidate_positions(rows.take(i)) == candidate_positions(rows),
    decreases rows.len() - i,
{
    if i == rows.len() {
        assert(rows.take(i) =~= rows);
        assert(candidate_positions(rows).take(candidate_positions(rows).len() as int) =~= candidate_positions(rows));
    } else {
        lemma_candidate_prefix(rows, i + 1);
        let a = candidate_positions(rows.take(i));
        let b = candidate_positions(rows.take(i + 1));
        assert(rows.take(i + 1).drop_last() =~= rows.take(i));
        let all = candidate_positions(rows);
        if is_ai_candidate(rows[i]) {
            assert(b == a.push(i as usize));
            assert(a =~= b.take(a.len() as int));
            assert(all.take(a.len() as int) =~= all.take(b.len() as int).take(a.len() as int));
        } else {
            assert(b == a);
        }
    }
}

// ---------------------------------------------------------------------------------------
// Acknowledgement
// ---------------------------------------------------------------------------------------

/// A message as acknowledging reads and writes it.
#[derive(Debug, Clone, PartialEq, Eq)]
pub struct MailAckState {
    pub version: u64,
    pub acknowledged_at: Option<String>,
}

/// Acknowledges a message at `now`, only at the version the caller read: the first
/// acknowledgement time stays, and the message moves one version on.
pub fn acknowledge_item(item: &mut MailAckState, expected_version: u64, now: &str) -> (r: Result<(), Error>)
    requires
        old(item).version < u64::MAX,
    ensures
        r is Ok <==> old(item).version == expected_version,
        r is Ok ==> final(item).version == old(item).version + 1,
        r is Ok ==> (old(item).acknowledged_at is Some ==> final(item).acknowledged_at == old(item).acknowledged_at),
        r is Ok ==> crate::text::opt_view(final(item).acknowledged_at) == Some(
            match old(item).acknowledged_at {
                Some(t) => t@,
                None => now@,
            },
        ),
        r is Err ==> *final(item) == *old(item),
        r matches Err(e) ==> e is Conflict && e->Conflict_0@ == "mail item version changed"@,
{
    if item.version != expected_version {
        return Err(Error::Conflict("mail item version changed".to_owned()));
    }
    if item.acknowledged_at.is_none() {
        item.acknowledged_at = Some(now.to_owned());
    }
    item.version = item.version + 1;
    Ok(())
}

/// Acknowledges a message under an idempotency key: a repeated request answers as before
/// and changes nothing; a key reused for other data is refused; otherwise the message is
/// acknowledged. Gives back whether the request was replayed.
pub fn acknowledge_with_receipt(
    item: &mut MailAckState,
    saved: &Option<MailReceipt>,
    expected_version: u64,
    request_sha256: &str,
    now: &str,
) -> (r: Result<bool, Error>)
    requires
        old(item).version < u64::MAX,
    ensures
        r matches Ok(true) ==> *final(item) == *old(item) && saved is Some,
        r matches Ok(false) ==> saved is None && old(item).version == expected_version
            && final(item).version == old(item).version + 1,
        saved is None ==> (r is Ok <==> old(item).version == expected_version),
        saved matches Some(s) ==> (r is Ok <==> s.operation@ == "mail_acknowledge"@ && s.request_sha256@
            == request_sha256@),
        r is Err ==> *final(item) == *old(item),
{
    let replay = check_mail_receipt(saved, "mail_acknowledge", request_sha256)?;
    if replay {
        return Ok(true);
    }
    acknowledge_item(item, expected_version, now)?;
    Ok(false)
}

} // verus!
