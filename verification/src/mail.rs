//! The encrypted mail inbox: providers, classifications, the records the store keeps,
//! and the checks on what workers hand back.
use vstd::prelude::*;
use vstd::string::*;
use vstd::utf8::encode_utf8;

use crate::error::{broken, invalid, invalid_field, Error};
use crate::text::str_eq;

verus! {

/// Monthly spending cap of mail triage, in millionths of a dollar.
pub const MAIL_TRIAGE_MONTHLY_HARD_LIMIT_MICROUSD: u64 = 1_000_000;

/// Largest cost one mail triage call may reserve, in millionths of a dollar.
pub const MAIL_TRIAGE_MAXIMUM_COST_MICROUSD: u64 = 10_000;

/// Most mail triage calls in a month.
pub const MAIL_TRIAGE_MONTHLY_ATTEMPT_LIMIT: u32 = 100;

/// The name under which mail triage spends its AI allowance.
pub const MAIL_TRIAGE_OPERATION: &'static str = "mail_triage";

/// Days mail metadata is kept.
pub const MAIL_RETENTION_DAYS: i64 = 90;

/// Days mail reports are kept.
pub const MAIL_REPORT_RETENTION_DAYS: i64 = 366;

/// The mail services an account can belong to.
#[derive(Debug, Clone, Copy, PartialEq, Eq, Structural)]
pub enum MailProvider {
    Gmail,
    Naver,
}

impl MailProvider {
    /// The stored name of the provider.
    pub open spec fn name(self) -> Seq<char> {
        match self {
            MailProvider::Gmail => "gmail"@,
            MailProvider::Naver => "naver"@,
        }
    }

    /// The stored name of the provider.
    pub fn as_str(self) -> (s: &'static str)
        ensures
            s@ == self.name(),
    {
        match self {
            MailProvider::Gmail => "gmail",
            MailProvider::Naver => "naver",
        }
    }

    /// Reads a provider name; others are refused.
    pub fn parse(value: &str) -> (r: Result<MailProvider, Error>)
        ensures
            match r {
                Ok(p) => p.name() == value@,
                Err(e) => e is Invalid && forall|p: MailProvider| p.name() != value@,
            },
    {
        if str_eq(value, "gmail") {
            Ok(MailProvider::Gmail)
        } else if str_eq(value, "naver") {
            Ok(MailProvider::Naver)
        } else {
            Err(invalid("unsupported mail provider"))
        }
    }
}

/// How important a message is judged to be.
#[derive(Debug, Clone, Copy, PartialEq, Eq, Structural)]
pub enum MailClassification {
    Important,
    Review,
    NotImportant,
    Excluded,
}

impl MailClassification {
    /// The stored name of the classification.
    pub open spec fn name(self) -> Seq<char> {
        match self {
            MailClassification::Important => "important"@,
            MailClassification::Review => "review"@,
            MailClassification::NotImportant => "not_important"@,
            MailClassification::Excluded => "excluded"@,
        }
    }

    /// The stored name of the classification.
    pub fn as_str(self) -> (s: &'static str)
        ensures
            s@ == self.name(),
    {
        match self {
            MailClassification::Important => "important",
            MailClassification::Review => "review",
            MailClassification::NotImportant => "not_important",
            MailClassification::Excluded => "excluded",
        }
    }

    /// Reads a stored classification; others break an invariant of the store.
    pub fn parse(value: &str) -> (r: Result<MailClassification, Error>)
        ensures
            match r {
                Ok(c) => c.name() == value@,
                Err(e) => e is Invariant && forall|c: MailClassification| c.name() != value@,
            },
    {
        if str_eq(value, "important") {
            Ok(MailClassification::Important)
        } else if str_eq(value, "review") {
            Ok(MailClassification::Review)
        } else if str_eq(value, "not_important") {
            Ok(MailClassification::NotImportant)
        } else if str_eq(value, "excluded") {
            Ok(MailClassification::Excluded)
        } else {
            Err(broken("invalid persisted mail classification"))
        }
    }
}

/// A mail account as stored, with its encrypted fields.
#[derive(Debug, Clone, PartialEq, Eq)]
pub struct EncryptedMailAccount {
    pub id: String,
    pub provider: MailProvider,
    pub email_ciphertext: String,
    pub email_blind_index: String,
    pub display_name_ciphertext: Option<String>,
    pub status: String,
    pub last_success_at: Option<String>,
    pub next_expected_at: Option<String>,
    pub watch_expires_at: Option<String>,
    pub last_error_code: Option<String>,
    pub consecutive_failures: u32,
    pub created_at: String,
    pub updated_at: String,
    pub version: u64,
}

/// An account to connect or reconnect.
#[derive(Debug, Clone, PartialEq, Eq)]
pub struct StoreMailAccountInput {
    pub provider: MailProvider,
    pub email_ciphertext: String,
    pub email_blind_index: String,
    pub display_name_ciphertext: Option<String>,
    pub credential_kind: String,
    pub secret_ciphertext: String,
    pub scope: Option<String>,
}

/// The encrypted credential of an account.
#[derive(Debug, Clone, PartialEq, Eq)]
pub struct EncryptedMailCredential {
    pub account_id: String,
    pub credential_kind: String,
    pub secret_ciphertext: String,
    pub scope: Option<String>,
    pub token_expires_at: Option<String>,
    pub version: u64,
}

/// An account with what a sync needs.
#[derive(Debug, Clone, PartialEq, Eq)]
pub struct MailSyncAccount {
    pub account: EncryptedMailAccount,
    pub credential: EncryptedMailCredential,
    pub cursor_ciphertext: Option<String>,
    pub uid_validity: Option<String>,
}

/// A pending OAuth authorization.
#[derive(Debug, Clone, PartialEq, Eq)]
pub struct MailOAuthState {
    pub state_sha256: String,
    pub pkce_verifier_ciphertext: String,
    pub return_uri_ciphertext: String,
    pub expires_at: String,
}

/// The health of one account.
#[derive(Debug, Clone, PartialEq, Eq)]
pub struct MailAccountOpsStatus {
    pub account_id: String,
    pub provider: MailProvider,
    pub status: String,
    pub last_success_at: Option<String>,
    pub next_expected_at: Option<String>,
    pub watch_expires_at: Option<String>,
    pub last_error_code: Option<String>,
    pub consecutive_failures: u32,
}

/// The health of the mail feature.
#[derive(Debug, Clone, PartialEq, Eq)]
pub struct MailOpsStatus {
    pub account_count: u32,
    pub connected_count: u32,
    pub reconnect_required_count: u32,
    pub unacknowledged_important_count: u32,
    pub review_count: u32,
    pub latest_success_at: Option<String>,
    pub last_error_code: Option<String>,
    pub queue_depth: u32,
    pub retry_count: u32,
    pub dead_letter_count: u32,
    pub accounts: Vec<MailAccountOpsStatus>,
    pub triage_claimed_count: u32,
    pub latest_triage_status: Option<String>,
    pub latest_triage_failure_code: Option<String>,
    pub latest_triage_completed_at: Option<String>,
}

/// An AI judgement on one message of a triage batch.
#[derive(Debug, Clone, PartialEq, Eq)]
pub struct MailTriageDecision {
    pub item_id: String,
    pub expected_version: u64,
    pub importance_score: u8,
    pub confidence: u8,
    pub classification: MailClassification,
    pub reason_code: String,
    pub action_ciphertext: Option<String>,
}

/// A count as reported: negatives become zero and values past `u32` become its maximum.
pub open spec fn clamp_count(value: int) -> int {
    if value < 0 {
        0
    } else if value > u32::MAX {
        u32::MAX as int
    } else {
        value
    }
}

/// A stored count as reported.
pub fn nonnegative_u32(value: i64) -> (r: u32)
    ensures
        r == clamp_count(value as int),
{
    if value < 0 {
        0
    } else if value > 0xffff_ffff {
        0xffff_ffff
    } else {
        value as u32
    }
}

/// An ASCII hexadecimal digit, in either case.
pub open spec fn any_hex_byte(b: u8) -> bool {
    (0x30 <= b <= 0x39) || (0x41 <= b <= 0x46) || (0x61 <= b <= 0x66)
}

/// Checks a digest: 64 hexadecimal bytes, in either case.
pub fn validate_mail_sha256(value: &str, label: &str) -> (r: Result<(), Error>)
    ensures
        r is Ok <==> value.spec_bytes().len() == 64 && forall|i: int|
            0 <= i < 64 ==> any_hex_byte(#[trigger] value.spec_bytes()[i]),
        r matches Err(e) ==> e is Invalid && e->Invalid_0@ == label@ + " is invalid"@,
{
    let bytes = value.as_bytes();
    if bytes.len() != 64 {
        return Err(invalid_field(label, " is invalid"));
    }
    let mut i: usize = 0;
    while i < 64
        invariant
            0 <= i <= 64,
            bytes@.len() == 64,
            bytes@ == value.spec_bytes(),
            forall|k: int| 0 <= k < i ==> any_hex_byte(#[trigger] bytes@[k]),
        decreases 64 - i,
    {
        let b = bytes[i];
        if !((0x30 <= b && b <= 0x39) || (0x41 <= b && b <= 0x46) || (0x61 <= b && b <= 0x66)) {
            return Err(invalid_field(label, " is invalid"));
        }
        i = i + 1;
    }
    Ok(())
}

/// Checks a mutation receipt's key and digest: a digest as above and a key of 1 to 128
/// bytes.
pub fn validate_mail_receipt_input(idempotency_key: &str, request_sha256: &str) -> (r: Result<
    (),
    Error,
>)
    ensures
        r is Ok <==> (request_sha256.spec_bytes().len() == 64 && (forall|i: int|
            0 <= i < 64 ==> any_hex_byte(#[trigger] request_sha256.spec_bytes()[i]))) && 1
            <= idempotency_key.spec_bytes().len() <= 128,
        r matches Err(e) ==> e is Invalid,
{
    validate_mail_sha256(request_sha256, "mail mutation request digest")?;
    let n = idempotency_key.as_bytes().len();
    if n == 0 || n > 128 {
        return Err(invalid("mail idempotency key is invalid"));
    }
    Ok(())
}

/// Checks an account to connect: its blind index is a digest and its credential is an
/// OAuth refresh token or an app password.
pub fn validate_store_mail_account(input: &StoreMailAccountInput) -> (r: Result<(), Error>)
    ensures
        r is Ok <==> (encode_utf8(input.email_blind_index@).len()
            == 64 && (forall|i: int|
            0 <= i < 64 ==> any_hex_byte(#[trigger] encode_utf8(input.email_blind_index@)[i])))
            && (input.credential_kind@ == "oauth_refresh_token"@ || input.credential_kind@
            == "app_password"@),
        r matches Err(e) ==> e is Invalid,
{
    validate_mail_sha256(input.email_blind_index.as_str(), "mail email blind index")?;
    if !(str_eq(input.credential_kind.as_str(), "oauth_refresh_token") || str_eq(
        input.credential_kind.as_str(),
        "app_password",
    )) {
        return Err(invalid("mail credential kind is invalid"));
    }
    Ok(())
}

/// Whether an AI judgement is well formed: scores of at most 100 and a reason code of
/// 1 to 80 bytes.
pub open spec fn triage_decision_ok(d: MailTriageDecision) -> bool {
    d.importance_score <= 100 && d.confidence <= 100 && 1 <= encode_utf8(d.reason_code@).len() <= 80
}

/// Checks the AI judgements of a batch: one per claimed message, each well formed.
pub fn validate_triage_decisions(expected_count: i64, decisions: &Vec<MailTriageDecision>) -> (r:
    Result<(), Error>)
    ensures
        r is Ok <==> expected_count == decisions@.len() && forall|i: int|
            0 <= i < decisions@.len() ==> triage_decision_ok(#[trigger] decisions@[i]),
        r matches Err(e) ==> (e is Invariant <==> expected_count != decisions@.len()),
        r matches Err(e) ==> (e is Invariant || e is Invalid),
{
    if expected_count < 0 || expected_count as u64 != decisions.len() as u64 {
        return Err(broken("mail triage response count does not match its batch"));
    }
    let mut i: usize = 0;
    while i < decisions.len()
        invariant
            0 <= i <= decisions@.len(),
            expected_count == decisions@.len(),
            forall|k: int| 0 <= k < i ==> triage_decision_ok(#[trigger] decisions@[k]),
        decreases decisions@.len() - i,
    {
        let d = &decisions[i];
        let n = d.reason_code.as_str().as_bytes().len();
        if d.importance_score > 100 || d.confidence > 100 || n == 0 || n > 80 {
            return Err(invalid("mail triage decision is invalid"));
        }
        i = i + 1;
    }
    Ok(())
}

/// Checks a triage failure code: 1 to 80 bytes.
pub fn validate_triage_failure_code(failure_code: &str) -> (r: Result<(), Error>)
    ensures
        r is Ok <==> 1 <= failure_code.spec_bytes().len() <= 80,
        r matches Err(e) ==> e is Invalid,
{
    let n = failure_code.as_bytes().len();
    if n == 0 || n > 80 {
        return Err(invalid("mail triage failure code is invalid"));
    }
    Ok(())
}

/// How many accounts of the first `n` statuses count in the health report: those not
/// disabled, those connected, and those that must reconnect.
pub open spec fn account_tally(statuses: Seq<Seq<char>>, n: nat) -> (nat, nat, nat)
    decreases n,
{
    if n == 0 {
        (0, 0, 0)
    } else {
        let (a, c, r) = account_tally(statuses, (n - 1) as nat);
        let s = statuses[n - 1];
        (
            a + if s != "disabled"@ { 1nat } else { 0nat },
            c + if s == "connected"@ { 1nat } else { 0nat },
            r + if s == "reconnect_required"@ { 1nat } else { 0nat },
        )
    }
}

/// Connected accounts and accounts that must reconnect are among the accounts counted,
/// and never both at once.
pub proof fn lemma_account_tally_bounded(statuses: Seq<Seq<char>>, n: nat)
    ensures
        account_tally(statuses, n).1 + account_tally(statuses, n).2 <= account_tally(statuses, n).0 <= n,
    decreases n,
{
    reveal_strlit("disabled");
    reveal_strlit("connected");
    reveal_strlit("reconnect_required");
    assert("disabled"@.len() != "connected"@.len() && "disabled"@.len() != "reconnect_required"@.len()
        && "connected"@.len() != "reconnect_required"@.len());
    if n > 0 {
        lemma_account_tally_bounded(statuses, (n - 1) as nat);
    }
}

/// Counts the accounts the health report names, from the status of every account: not
/// disabled, connected, and reconnect required.
pub fn count_mail_accounts(statuses: &Vec<String>) -> (r: (u64, u64, u64))
    requires
        statuses@.len() <= u64::MAX,
    ensures
        (r.0 as nat, r.1 as nat, r.2 as nat) == account_tally(statuses@.map_values(|s: String| s@), statuses@.len()),
        r.1 + r.2 <= r.0,
{
    let ghost views = statuses@.map_values(|s: String| s@);
    let mut accounts: u64 = 0;
    let mut connected: u64 = 0;
    let mut reconnect: u64 = 0;
    let mut i: usize = 0;
    while i < statuses.len()
        invariant
            0 <= i <= statuses@.len() <= u64::MAX,
            views == statuses@.map_values(|s: String| s@),
            (accounts as nat, connected as nat, reconnect as nat) == account_tally(views, i as nat),
        decreases statuses@.len() - i,
    {
        proof {
            lemma_account_tally_bounded(views, i as nat);
        }
        assert(views[i as int] == statuses@[i as int]@);
        let s = statuses[i].as_str();
        if !str_eq(s, "disabled") {
            accounts = accounts + 1;
        }
        if str_eq(s, "connected") {
            connected = connected + 1;
        }
        if str_eq(s, "reconnect_required") {
            reconnect = reconnect + 1;
        }
        i = i + 1;
    }
    proof {
        lemma_account_tally_bounded(views, statuses@.len());
    }
    (accounts, connected, reconnect)
}

/// The counts behind the mail health report, as the store returns them.
#[derive(Debug, Clone, Copy, PartialEq, Eq, Structural)]
pub struct MailOpsCounts {
    pub account_count: i64,
    pub connected: i64,
    pub reconnect_required: i64,
    pub unacknowledged_important: i64,
    pub review: i64,
    pub queue_depth: i64,
    pub retry: i64,
    pub dead_letter: i64,
    pub triage_claimed: i64,
}

/// The counts behind the mail health report, the account counts taken from the status of
/// every account: not disabled, connected, and reconnect required.
pub fn mail_ops_counts(
    statuses: &Vec<String>,
    unacknowledged_important: i64,
    review: i64,
    queue_depth: i64,
    retry: i64,
    dead_letter: i64,
    triage_claimed: i64,
) -> (r: MailOpsCounts)
    requires
        statuses@.len() <= i64::MAX,
    ensures
        (r.account_count as nat, r.connected as nat, r.reconnect_required as nat) == account_tally(
            statuses@.map_values(|s: String| s@),
            statuses@.len(),
        ),
        0 <= r.connected && 0 <= r.reconnect_required,
        r.connected + r.reconnect_required <= r.account_count <= statuses@.len(),
        r.unacknowledged_important == unacknowledged_important,
        r.review == review,
        r.queue_depth == queue_depth,
        r.retry == retry,
        r.dead_letter == dead_letter,
        r.triage_claimed == triage_claimed,
{
    let (accounts, connected, reconnect) = count_mail_accounts(statuses);
    proof {
        lemma_account_tally_bounded(statuses@.map_values(|s: String| s@), statuses@.len());
    }
    MailOpsCounts {
        account_count: accounts as i64,
        connected: connected as i64,
        reconnect_required: reconnect as i64,
        unacknowledged_important,
        review,
        queue_depth,
        retry,
        dead_letter,
        triage_claimed,
    }
}

/// The latest triage batch: its status, failure code and completion time.
#[derive(Debug, Clone, PartialEq, Eq)]
pub struct LatestTriage {
    pub status: String,
    pub failure_code: Option<String>,
    pub completed_at: Option<String>,
}

/// Assembles the mail health report: every count clamped into `u32`, and the latest
/// triage batch split into its fields.
pub fn mail_ops_status(
    counts: MailOpsCounts,
    latest_success_at: Option<String>,
    last_error_code: Option<String>,
    accounts: Vec<MailAccountOpsStatus>,
    latest_triage: Option<LatestTriage>,
) -> (r: MailOpsStatus)
    ensures
        r.account_count == clamp_count(counts.account_count as int),
        r.connected_count == clamp_count(counts.connected as int),
        r.reconnect_required_count == clamp_count(counts.reconnect_required as int),
        r.unacknowledged_important_count == clamp_count(counts.unacknowledged_important as int),
        r.review_count == clamp_count(counts.review as int),
        r.queue_depth == clamp_count(counts.queue_depth as int),
        r.retry_count == clamp_count(counts.retry as int),
        r.dead_letter_count == clamp_count(counts.dead_letter as int),
        r.triage_claimed_count == clamp_count(counts.triage_claimed as int),
        r.latest_success_at == latest_success_at,
        r.last_error_code == last_error_code,
        r.accounts == accounts,
        0 <= counts.connected && 0 <= counts.reconnect_required && counts.connected
            + counts.reconnect_required <= counts.account_count <= u32::MAX ==> r.connected_count
            + r.reconnect_required_count <= r.account_count,
        r.latest_triage_status == (match latest_triage {
            Some(t) => Some(t.status),
            None => None,
        }),
        r.latest_triage_failure_code == (match latest_triage {
            Some(t) => t.failure_code,
            None => None,
        }),
        r.latest_triage_completed_at == (match latest_triage {
            Some(t) => t.completed_at,
            None => None,
        }),
{
    let (status, failure, completed) = match latest_triage {
        Some(t) => (Some(t.status), t.failure_code, t.completed_at),
        None => (None, None, None),
    };
    MailOpsStatus {
        account_count: nonnegative_u32(counts.account_count),
        connected_count: nonnegative_u32(counts.connected),
        reconnect_required_count: nonnegative_u32(counts.reconnect_required),
        unacknowledged_important_count: nonnegative_u32(counts.unacknowledged_important),
        review_count: nonnegative_u32(counts.review),
        latest_success_at,
        last_error_code,
        queue_depth: nonnegative_u32(counts.queue_depth),
        retry_count: nonnegative_u32(counts.retry),
        dead_letter_count: nonnegative_u32(counts.dead_letter),
        accounts,
        triage_claimed_count: nonnegative_u32(counts.triage_claimed),
        latest_triage_status: status,
        latest_triage_failure_code: failure,
        latest_triage_completed_at: completed,
    }
}

/// The mail health report from the status of every account and the queue counts: the
/// accounts not disabled, connected, and awaiting reconnection are counted from the
/// statuses, and, within `u32`, connected and reconnecting accounts never outnumber them.
pub fn mail_ops_report(
    statuses: &Vec<String>,
    unacknowledged_important: i64,
    review: i64,
    queue_depth: i64,
    retry: i64,
    dead_letter: i64,
    triage_claimed: i64,
    latest_success_at: Option<String>,
    last_error_code: Option<String>,
    accounts: Vec<MailAccountOpsStatus>,
    latest_triage: Option<LatestTriage>,
) -> (r: MailOpsStatus)
    requires
        statuses@.len() <= i64::MAX,
    ensures
        ({
            let t = account_tally(statuses@.map_values(|s: String| s@), statuses@.len());
            &&& r.account_count == clamp_count(t.0 as int)
            &&& r.connected_count == clamp_count(t.1 as int)
            &&& r.reconnect_required_count == clamp_count(t.2 as int)
        }),
        statuses@.len() <= u32::MAX ==> r.connected_count + r.reconnect_required_count <= r.account_count,
        r.unacknowledged_important_count == clamp_count(unacknowledged_important as int),
        r.review_count == clamp_count(review as int),
        r.queue_depth == clamp_count(queue_depth as int),
        r.retry_count == clamp_count(retry as int),
        r.dead_letter_count == clamp_count(dead_letter as int),
        r.triage_claimed_count == clamp_count(triage_claimed as int),
        r.latest_success_at == latest_success_at,
        r.last_error_code == last_error_code,
        r.accounts == accounts,
{
    let counts = mail_ops_counts(
        statuses,
        unacknowledged_important,
        review,
        queue_depth,
        retry,
        dead_letter,
        triage_claimed,
    );
    mail_ops_status(counts, latest_success_at, last_error_code, accounts, latest_triage)
}

/// What a triage batch claims: a request, a digest of its input, the prompt and model,
/// and 1 to 10 messages.
pub open spec fn triage_claim_ok(
    request_id: Seq<char>,
    prompt_version: Seq<char>,
    model: Seq<char>,
    item_count: nat,
) -> bool {
    &&& 1 <= encode_utf8(request_id).len() <= 160
    &&& 1 <= encode_utf8(prompt_version).len() <= 64
    &&& 1 <= encode_utf8(model).len() <= 128
    &&& 1 <= item_count <= 10
}

/// Checks the description of a triage batch before it is claimed.
pub fn validate_triage_claim(
    request_id: &str,
    input_sha256: &str,
    prompt_version: &str,
    model: &str,
    item_count: usize,
) -> (r: Result<(), Error>)
    ensures
        r is Ok <==> (input_sha256.spec_bytes().len() == 64 && forall|i: int|
            0 <= i < 64 ==> any_hex_byte(#[trigger] input_sha256.spec_bytes()[i])) && triage_claim_ok(
            request_id@,
            prompt_version@,
            model@,
            item_count as nat,
        ),
        r matches Err(e) ==> e is Invalid,
{
    validate_mail_sha256(input_sha256, "mail triage input digest")?;
    let r = request_id.as_bytes().len();
    let p = prompt_version.as_bytes().len();
    let m = model.as_bytes().len();
    if r == 0 || r > 160 || p == 0 || p > 64 || m == 0 || m > 128 || item_count == 0 || item_count > 10 {
        return Err(invalid("mail triage batch metadata is invalid"));
    }
    Ok(())
}

/// A claimed message: an ID of 1 to 80 bytes and the version it was read at.
pub open spec fn triage_item_ok(item: (String, u64)) -> bool {
    1 <= encode_utf8(item.0@).len() <= 80 && item.1 != 0
}

/// Checks the messages a triage batch claims.
pub fn validate_triage_items(items: &Vec<(String, u64)>) -> (r: Result<(), Error>)
    ensures
        r is Ok <==> forall|i: int| 0 <= i < items@.len() ==> triage_item_ok(#[trigger] items@[i]),
        r matches Err(e) ==> e is Invalid,
{
    let mut i: usize = 0;
    while i < items.len()
        invariant
            0 <= i <= items@.len(),
            forall|k: int| 0 <= k < i ==> triage_item_ok(#[trigger] items@[k]),
        decreases items@.len() - i,
    {
        let n = items[i].0.as_str().as_bytes().len();
        if n == 0 || n > 80 || items[i].1 == 0 {
            return Err(invalid("mail triage item binding is invalid"));
        }
        i = i + 1;
    }
    Ok(())
}

/// A triage batch counts toward the month's allowance of attempts.
pub fn check_triage_allowance(attempts_this_month: u64) -> (r: Result<(), Error>)
    ensures
        r is Ok <==> attempts_this_month < MAIL_TRIAGE_MONTHLY_ATTEMPT_LIMIT,
        r matches Err(e) ==> e is AiDailyLimitExceeded && e->operation@ == MAIL_TRIAGE_OPERATION@
            && e->limit == MAIL_TRIAGE_MONTHLY_ATTEMPT_LIMIT,
{
    crate::error::check_attempt_allowance(MAIL_TRIAGE_OPERATION, attempts_this_month, MAIL_TRIAGE_MONTHLY_ATTEMPT_LIMIT)
}

} // verus!
