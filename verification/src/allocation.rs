//! How ledger events share their amounts: personal shares of purchases and the
//! settlements (money received from or sent to others) linked to them.
use vstd::prelude::*;

use crate::error::{broken, invalid, not_found, conflict, outcome, version_conflict, Error, ErrorKind};
use crate::expense::{label_ok, safe_summary_amount, validate_label, MAX_SAFE_AMOUNT_MINOR};
use crate::expense_types::{
    ExpenseCategory, ExpenseDirection, ExpenseEventKind, ExpenseEventStatus, ExpenseReviewReason,
    ExpenseReviewStatus, ResolveExpenseReviewInput,
};
use crate::text::{opt_view, same_optional_text, same_text, str_eq};

verus! {

/// Largest magnitude of a linked settlement total that the rules take in; sums of
/// fewer than 2^37 stored `i64` amounts stay inside it.
pub const SETTLEMENT_TOTAL_BOUND: i128 = 1_267_650_600_228_229_401_496_703_205_376;

/// One stored allocation that points at an event.
#[derive(Debug, Clone, PartialEq, Eq)]
pub struct LinkedAllocation {
    pub allocation_kind: String,
    pub amount_minor: i64,
}

/// The stored allocation kind of money received back for an event.
pub open spec fn received_kind() -> Seq<char> {
    "settlement_received"@
}

/// The stored allocation kind of money paid out for an event.
pub open spec fn sent_kind() -> Seq<char> {
    "settlement_sent"@
}

/// The settlements received and sent that are linked to an event.
#[derive(Debug, Clone, Copy, PartialEq, Eq, Structural)]
pub struct SettlementTotals {
    pub received: i128,
    pub sent: i128,
}

/// The sum of the amounts of the allocations of one kind.
pub open spec fn allocation_sum(rows: Seq<LinkedAllocation>, kind: Seq<char>) -> int
    decreases rows.len(),
{
    if rows.len() == 0 {
        0
    } else {
        allocation_sum(rows.drop_last(), kind) + if rows.last().allocation_kind@ == kind {
            rows.last().amount_minor as int
        } else {
            0
        }
    }
}

/// Totals the settlements received and sent among the allocations linked to an event;
/// allocations of other kinds are ignored.
pub fn linked_settlement_totals(rows: &Vec<LinkedAllocation>) -> (r: SettlementTotals)
    ensures
        r.received == allocation_sum(rows@, received_kind()),
        r.sent == allocation_sum(rows@, sent_kind()),
{
    let mut received: i128 = 0;
    let mut sent: i128 = 0;
    let mut i: usize = 0;
    while i < rows.len()
        invariant
            0 <= i <= rows@.len(),
            received == allocation_sum(rows@.take(i as int), received_kind()),
            sent == allocation_sum(rows@.take(i as int), sent_kind()),
            -(i as int) * 0x8000_0000_0000_0000 <= received <= (i as int) * 0x7fff_ffff_ffff_ffff,
            -(i as int) * 0x8000_0000_0000_0000 <= sent <= (i as int) * 0x7fff_ffff_ffff_ffff,
        decreases rows@.len() - i,
    {
        let row = &rows[i];
        assert(rows@.take(i + 1).drop_last() == rows@.take(i as int));
        proof {
            reveal_strlit("settlement_received");
            reveal_strlit("settlement_sent");
            assert(received_kind().len() != sent_kind().len());
        }
        if str_eq(row.allocation_kind.as_str(), "settlement_received") {
            received = received + row.amount_minor as i128;
        } else if str_eq(row.allocation_kind.as_str(), "settlement_sent") {
            sent = sent + row.amount_minor as i128;
        }
        i = i + 1;
    }
    assert(rows@.take(rows@.len() as int) == rows@);
    SettlementTotals { received, sent }
}

/// Who set a personal share: the user, or the settlements linked to the purchase.
#[derive(Debug, Clone, Copy, PartialEq, Eq, Structural)]
pub enum AllocationSource {
    User,
    Settlement,
}

impl AllocationSource {
    /// The stored name of the source.
    pub open spec fn name(self) -> Seq<char> {
        match self {
            AllocationSource::User => "user"@,
            AllocationSource::Settlement => "settlement"@,
        }
    }

    /// The stored name of the source.
    pub fn as_str(self) -> (s: &'static str)
        ensures
            s@ == self.name(),
    {
        match self {
            AllocationSource::User => "user",
            AllocationSource::Settlement => "settlement",
        }
    }
}

/// A stored personal share of an event.
#[derive(Debug, Clone, PartialEq, Eq)]
pub struct StoredPersonalAllocation {
    pub amount_minor: i64,
    pub allocation_source: String,
}

/// Whether a stored personal share was set by the user.
pub open spec fn set_by_user(p: Option<StoredPersonalAllocation>) -> bool {
    p matches Some(a) && a.allocation_source@ == AllocationSource::User.name()
}

/// The personal share of a purchase once its linked settlements are counted.
pub open spec fn settled_share(amount: int, received: int, sent: int) -> int {
    amount + sent - received
}

/// Whether a settlement total lies inside the bound the rules take in.
pub open spec fn total_in_bound(t: SettlementTotals) -> bool {
    -SETTLEMENT_TOTAL_BOUND <= t.received <= SETTLEMENT_TOTAL_BOUND && -SETTLEMENT_TOTAL_BOUND
        <= t.sent <= SETTLEMENT_TOTAL_BOUND
}

/// A stored event, as the settlement rules read it.
#[derive(Debug, Clone, PartialEq, Eq)]
pub struct LinkedEventRow {
    pub event_kind: String,
    pub event_status: String,
    pub amount_minor: i64,
    pub currency: String,
}

/// What to do with the settlement-derived personal share of a purchase.
#[derive(Debug, Clone, PartialEq, Eq)]
pub enum PersonalShareAction {
    /// Leave the stored allocations as they are.
    Keep,
    /// Delete a personal share that settlements had derived.
    DeleteSettlementShare,
    /// Write the personal share, marked as derived from settlements.
    WriteSettlementShare { amount_minor: i64, currency: String },
}

/// The action, or the kind of failure, of recomputing a purchase's personal share.
pub open spec fn recompute_outcome(
    event: Option<LinkedEventRow>,
    totals: SettlementTotals,
    personal: Option<StoredPersonalAllocation>,
) -> Result<PersonalShareAction, ErrorKind> {
    match event {
        None => Ok(PersonalShareAction::Keep),
        Some(e) => {
            let share = settled_share(e.amount_minor as int, totals.received as int, totals.sent as int);
            if e.event_kind@ != ExpenseEventKind::Purchase.name() || e.event_status@
                != ExpenseEventStatus::Confirmed.name() {
                Ok(PersonalShareAction::DeleteSettlementShare)
            } else if totals.received == 0 && totals.sent == 0 {
                Ok(PersonalShareAction::DeleteSettlementShare)
            } else if share < 0 || share > e.amount_minor {
                Err(ErrorKind::Invalid)
            } else if set_by_user(personal) {
                if personal->0.amount_minor > share {
                    Err(ErrorKind::Invalid)
                } else {
                    Ok(PersonalShareAction::Keep)
                }
            } else if share == 0 {
                Ok(PersonalShareAction::DeleteSettlementShare)
            } else if share > MAX_SAFE_AMOUNT_MINOR {
                Err(ErrorKind::Invariant)
            } else {
                Ok(
                    PersonalShareAction::WriteSettlementShare {
                        amount_minor: share as i64,
                        currency: e.currency,
                    },
                )
            }
        },
    }
}

/// Recomputes the personal share of a purchase from its linked settlements: a share the
/// user set stands unless the settlements leave less than it, a share of zero is held by
/// deleting the row, and an event that is no confirmed purchase keeps no derived share.
pub fn plan_settlement_share(
    event: &Option<LinkedEventRow>,
    totals: SettlementTotals,
    personal: &Option<StoredPersonalAllocation>,
) -> (r: Result<PersonalShareAction, Error>)
    requires
        total_in_bound(totals),
    ensures
        outcome(r) == recompute_outcome(*event, totals, *personal),
{
    let e = match event {
        None => return Ok(PersonalShareAction::Keep),
        Some(e) => e,
    };
    if !str_eq(e.event_kind.as_str(), ExpenseEventKind::Purchase.as_str()) || !str_eq(
        e.event_status.as_str(),
        ExpenseEventStatus::Confirmed.as_str(),
    ) {
        return Ok(PersonalShareAction::DeleteSettlementShare);
    }
    let received = totals.received;
    let sent = totals.sent;
    if received == 0 && sent == 0 {
        return Ok(PersonalShareAction::DeleteSettlementShare);
    }
    let share: i128 = e.amount_minor as i128 + sent - received;
    if share < 0 || share > e.amount_minor as i128 {
        return Err(invalid("settlement allocations exceed the related purchase amount"));
    }
    if let Some(p) = personal {
        if str_eq(p.allocation_source.as_str(), AllocationSource::User.as_str()) {
            if p.amount_minor as i128 > share {
                return Err(
                    invalid("personal amount and linked settlements exceed the purchase amount"),
                );
            }
            return Ok(PersonalShareAction::Keep);
        }
    }
    if share == 0 {
        return Ok(PersonalShareAction::DeleteSettlementShare);
    }
    let amount = safe_summary_amount("settlement personal allocation", share)?;
    Ok(PersonalShareAction::WriteSettlementShare { amount_minor: amount, currency: e.currency.clone() })
}

/// The review being resolved, joined with its event and the event's primary posting.
#[derive(Debug, Clone, PartialEq, Eq)]
pub struct ReviewedEventRow {
    pub event_id: String,
    pub review_status: String,
    /// The review's version.
    pub version: u64,
    /// The reviewed event's version.
    pub event_version: u64,
    pub amount_minor: i64,
    pub currency: String,
    pub direction: Option<String>,
    pub source_id: Option<String>,
    pub review_reason: String,
    /// The merchant blind index of the event's primary posting, if it has one.
    pub merchant_blind_index: Option<String>,
    /// The payment method fingerprint of the event's primary posting, if it has one.
    pub payment_method_fingerprint: Option<String>,
}

/// The classification rule a decision asks for: events of this merchant, paid with this
/// payment method, are classified with the decided kind and category. A stored rule for
/// the same merchant and payment method is updated, else one is added.
#[derive(Debug, Clone, PartialEq, Eq)]
pub struct ClassificationRulePlan {
    pub merchant_blind_index: String,
    pub payment_method_fingerprint: Option<String>,
    pub event_kind: ExpenseEventKind,
    pub category: ExpenseCategory,
}

/// The event a review names as the original of a duplicate.
#[derive(Debug, Clone, PartialEq, Eq)]
pub struct DuplicateTargetRow {
    pub event_status: String,
    pub is_provisional: bool,
    pub amount_minor: i64,
    pub currency: String,
    pub duplicate_of_event_id: Option<String>,
    pub direction: Option<String>,
    pub source_id: Option<String>,
}

/// What the ledger holds that a review decision depends on. `duplicate_target` is the
/// event the decision names as original, `related_target` the purchase or refund it
/// names for a settlement; the totals are those of the settlements linked to the
/// reviewed event and to the related event (leaving out the reviewed event's own).
#[derive(Debug, Clone, PartialEq, Eq)]
pub struct ReviewResolutionContext {
    pub current: Option<ReviewedEventRow>,
    pub duplicate_target: Option<DuplicateTargetRow>,
    pub own_settlements: SettlementTotals,
    pub own_personal: Option<StoredPersonalAllocation>,
    pub related_target: Option<LinkedEventRow>,
    pub related_settlements: SettlementTotals,
    pub related_personal: Option<StoredPersonalAllocation>,
}

/// A personal share to write.
#[derive(Debug, Clone, PartialEq, Eq)]
pub struct PersonalAllocationPlan {
    pub event_id: String,
    pub amount_minor: i64,
    pub currency: String,
    pub source: AllocationSource,
}

/// Which side of a settlement an allocation records.
#[derive(Debug, Clone, Copy, PartialEq, Eq, Structural)]
pub enum SettlementAllocationKind {
    Received,
    Sent,
}

impl SettlementAllocationKind {
    /// The stored name of the allocation kind.
    pub open spec fn name(self) -> Seq<char> {
        match self {
            SettlementAllocationKind::Received => received_kind(),
            SettlementAllocationKind::Sent => sent_kind(),
        }
    }

    /// The stored name of the allocation kind.
    pub fn as_str(self) -> (s: &'static str)
        ensures
            s@ == self.name(),
    {
        match self {
            SettlementAllocationKind::Received => "settlement_received",
            SettlementAllocationKind::Sent => "settlement_sent",
        }
    }
}

/// A settlement allocation linking the reviewed event to a related event.
#[derive(Debug, Clone, PartialEq, Eq)]
pub struct SettlementAllocationPlan {
    pub kind: SettlementAllocationKind,
    pub related_event_id: String,
}

/// The allocation rows a decision writes or removes.
#[derive(Debug, Clone, PartialEq, Eq)]
pub struct AllocationChanges {
    pub personal: Option<PersonalAllocationPlan>,
    pub personal_removal: Option<String>,
    pub settlement: Option<SettlementAllocationPlan>,
}

/// Why an event is left out of spending.
#[derive(Debug, Clone, Copy, PartialEq, Eq, Structural)]
pub enum ExclusionReason {
    Duplicate,
    CardPayment,
    WalletTopup,
    InternalTransfer,
}

impl ExclusionReason {
    /// The stored name of the reason.
    pub open spec fn name(self) -> Seq<char> {
        match self {
            ExclusionReason::Duplicate => "duplicate"@,
            ExclusionReason::CardPayment => "card_payment"@,
            ExclusionReason::WalletTopup => "wallet_topup"@,
            ExclusionReason::InternalTransfer => "internal_transfer"@,
        }
    }

    /// The stored name of the reason.
    pub fn as_str(self) -> (s: &'static str)
        ensures
            s@ == self.name(),
    {
        match self {
            ExclusionReason::Duplicate => "duplicate",
            ExclusionReason::CardPayment => "card_payment",
            ExclusionReason::WalletTopup => "wallet_topup",
            ExclusionReason::InternalTransfer => "internal_transfer",
        }
    }
}

/// Everything a review decision changes.
#[derive(Debug, Clone, PartialEq, Eq)]
pub struct ReviewResolutionPlan {
    pub event_id: String,
    /// The event's kind and category become the decided ones.
    pub event_kind: ExpenseEventKind,
    pub event_category: ExpenseCategory,
    /// The event a duplicate decision names as the original.
    pub duplicate_of_event_id: Option<String>,
    /// The event's version after the resolution.
    pub event_version: u64,
    /// The review is resolved, at this version.
    pub review_version: u64,
    pub event_status: ExpenseEventStatus,
    pub exclusion_reason: Option<ExclusionReason>,
    /// Delete the allocations the reviewed event owns.
    pub clear_own_allocations: bool,
    /// Delete the allocations that other events hold against the reviewed event.
    pub clear_related_allocations: bool,
    pub changes: AllocationChanges,
    /// The classification rule to store, when the decision asks for one.
    pub rule: Option<ClassificationRulePlan>,
}

/// The posting direction a kind of event must have, where it fixes one.
pub open spec fn expected_direction(kind: ExpenseEventKind) -> Option<ExpenseDirection> {
    match kind {
        ExpenseEventKind::Purchase | ExpenseEventKind::Fee | ExpenseEventKind::CardPayment
        | ExpenseEventKind::WalletTopup | ExpenseEventKind::SettlementSent => Some(
            ExpenseDirection::Debit,
        ),
        ExpenseEventKind::Refund | ExpenseEventKind::SettlementReceived => Some(
            ExpenseDirection::Credit,
        ),
        _ => None,
    }
}

/// The posting direction a kind of event must have, where it fixes one.
pub fn expected_direction_of(kind: ExpenseEventKind) -> (r: Option<ExpenseDirection>)
    ensures
        r == expected_direction(kind),
{
    match kind {
        ExpenseEventKind::Purchase | ExpenseEventKind::Fee | ExpenseEventKind::CardPayment
        | ExpenseEventKind::WalletTopup | ExpenseEventKind::SettlementSent => Some(
            ExpenseDirection::Debit,
        ),
        ExpenseEventKind::Refund | ExpenseEventKind::SettlementReceived => Some(
            ExpenseDirection::Credit,
        ),
        _ => None,
    }
}

/// Whether a stored text names some direction.
pub open spec fn names_direction(s: Seq<char>) -> bool {
    exists|d: ExpenseDirection| d.name() == s
}

/// The failure, if any, of the stored posting direction against the decided kind.
pub open spec fn direction_failure(direction: Option<String>, kind: ExpenseEventKind) -> Option<
    ErrorKind,
> {
    match expected_direction(kind) {
        None => None,
        Some(expected) => match direction {
            None => Some(ErrorKind::Invalid),
            Some(s) => if !names_direction(s@) {
                Some(ErrorKind::Invariant)
            } else if s@ != expected.name() {
                Some(ErrorKind::Invalid)
            } else {
                None
            },
        },
    }
}

/// The failure, if any, of the event named as original of a duplicate: it must be
/// another confirmed, non-provisional, not itself duplicate event with the same amount,
/// currency and direction, and for an ambiguous mirror it must come from another source.
pub open spec fn duplicate_failure(
    c: ReviewedEventRow,
    duplicate_of: Option<String>,
    target: Option<DuplicateTargetRow>,
) -> Option<ErrorKind> {
    match duplicate_of {
        None => None,
        Some(d) => if d@ == c.event_id@ {
            Some(ErrorKind::Invalid)
        } else {
            match target {
                None => Some(ErrorKind::NotFound),
                Some(t) => if t.event_status@ != ExpenseEventStatus::Confirmed.name()
                    || t.is_provisional || t.amount_minor != c.amount_minor || t.currency@
                    != c.currency@ || t.duplicate_of_event_id is Some {
                    Some(ErrorKind::Invalid)
                } else if opt_view(c.direction) != opt_view(t.direction) {
                    Some(ErrorKind::Invalid)
                } else if c.review_reason@ == ExpenseReviewReason::AmbiguousMirror.name() && (
                c.source_id is None || opt_view(c.source_id) == opt_view(t.source_id)) {
                    Some(ErrorKind::Invalid)
                } else {
                    None
                },
            }
        },
    }
}

/// No allocation changes.
pub open spec fn no_changes() -> AllocationChanges {
    AllocationChanges { personal: None, personal_removal: None, settlement: None }
}

/// A personal amount the user sets on a purchase: positive, safe, at most the purchase
/// amount, and at most what the linked settlements leave.
pub open spec fn user_share_outcome(
    c: ReviewedEventRow,
    own: SettlementTotals,
    kind: ExpenseEventKind,
    amount: i64,
) -> Result<AllocationChanges, ErrorKind> {
    if kind != ExpenseEventKind::Purchase {
        Err(ErrorKind::Invalid)
    } else if !(0 < amount <= MAX_SAFE_AMOUNT_MINOR) {
        Err(ErrorKind::Invalid)
    } else if amount > c.amount_minor {
        Err(ErrorKind::Invalid)
    } else if amount > settled_share(c.amount_minor as int, own.received as int, own.sent as int) {
        Err(ErrorKind::Invalid)
    } else {
        Ok(
            AllocationChanges {
                personal: Some(
                    PersonalAllocationPlan {
                        event_id: c.event_id,
                        amount_minor: amount,
                        currency: c.currency,
                        source: AllocationSource::User,
                    },
                ),
                personal_removal: None,
                settlement: None,
            },
        )
    }
}

/// The settlement side a kind records.
pub open spec fn settlement_side(kind: ExpenseEventKind) -> SettlementAllocationKind {
    if kind is SettlementReceived {
        SettlementAllocationKind::Received
    } else {
        SettlementAllocationKind::Sent
    }
}

/// Whether a stored text names some event kind, and some event status.
pub open spec fn names_kind_and_status(kind: Seq<char>, status: Seq<char>) -> bool {
    (exists|k: ExpenseEventKind| k.name() == kind) && (exists|s: ExpenseEventStatus| s.name()
        == status)
}

/// A settlement related to a confirmed purchase or refund in the same currency: the
/// settlement is linked, and for a purchase the personal share is re-derived (a share
/// the user set must still fit), while for a refund the settlements may not exceed it.
pub open spec fn related_outcome(
    c: ReviewedEventRow,
    ctx: ReviewResolutionContext,
    kind: ExpenseEventKind,
    related: String,
) -> Result<AllocationChanges, ErrorKind> {
    if !(kind is SettlementReceived || kind is SettlementSent) {
        Err(ErrorKind::Invalid)
    } else if !label_ok(related@, 128) {
        Err(ErrorKind::Invalid)
    } else if related@ == c.event_id@ {
        Err(ErrorKind::Invalid)
    } else {
        match ctx.related_target {
            None => Err(ErrorKind::NotFound),
            Some(t) => {
                let received = ctx.related_settlements.received + if kind is SettlementReceived {
                    c.amount_minor as int
                } else {
                    0
                };
                let sent = ctx.related_settlements.sent + if kind is SettlementSent {
                    c.amount_minor as int
                } else {
                    0
                };
                let share = settled_share(t.amount_minor as int, received, sent);
                let settlement = Some(
                    SettlementAllocationPlan {
                        kind: settlement_side(kind),
                        related_event_id: related,
                    },
                );
                if !names_kind_and_status(t.event_kind@, t.event_status@) {
                    Err(ErrorKind::Invariant)
                } else if !((t.event_kind@ == ExpenseEventKind::Purchase.name() || t.event_kind@
                    == ExpenseEventKind::Refund.name()) && t.event_status@
                    == ExpenseEventStatus::Confirmed.name()) {
                    Err(ErrorKind::Invalid)
                } else if t.currency@ != c.currency@ {
                    Err(ErrorKind::Invalid)
                } else if t.event_kind@ == ExpenseEventKind::Purchase.name() {
                    if share < 0 || share > t.amount_minor {
                        Err(ErrorKind::Invalid)
                    } else if set_by_user(ctx.related_personal) {
                        if ctx.related_personal->0.amount_minor > share {
                            Err(ErrorKind::Invalid)
                        } else {
                            Ok(
                                AllocationChanges {
                                    personal: None,
                                    personal_removal: None,
                                    settlement,
                                },
                            )
                        }
                    } else if share == 0 {
                        Ok(
                            AllocationChanges {
                                personal: None,
                                personal_removal: Some(related),
                                settlement,
                            },
                        )
                    } else if share > MAX_SAFE_AMOUNT_MINOR {
                        Err(ErrorKind::Invariant)
                    } else {
                        Ok(
                            AllocationChanges {
                                personal: Some(
                                    PersonalAllocationPlan {
                                        event_id: related,
                                        amount_minor: share as i64,
                                        currency: t.currency,
                                        source: AllocationSource::Settlement,
                                    },
                                ),
                                personal_removal: None,
                                settlement,
                            },
                        )
                    }
                } else if received + sent > t.amount_minor {
                    Err(ErrorKind::Invalid)
                } else {
                    Ok(AllocationChanges { personal: None, personal_removal: None, settlement })
                }
            },
        }
    }
}

/// A purchase left without a personal amount or a related event: when settlements are
/// linked to it, its personal share is re-derived from them.
pub open spec fn own_settlement_outcome(c: ReviewedEventRow, ctx: ReviewResolutionContext) -> Result<
    AllocationChanges,
    ErrorKind,
> {
    let received = ctx.own_settlements.received;
    let sent = ctx.own_settlements.sent;
    let share = settled_share(c.amount_minor as int, received as int, sent as int);
    if received == 0 && sent == 0 {
        Ok(no_changes())
    } else if share < 0 || share > c.amount_minor {
        Err(ErrorKind::Invalid)
    } else if share == 0 {
        if set_by_user(ctx.own_personal) && ctx.own_personal->0.amount_minor > 0 {
            Err(ErrorKind::Invalid)
        } else {
            Ok(AllocationChanges { personal: None, personal_removal: Some(c.event_id), settlement: None })
        }
    } else if share > MAX_SAFE_AMOUNT_MINOR {
        Err(ErrorKind::Invariant)
    } else {
        Ok(
            AllocationChanges {
                personal: Some(
                    PersonalAllocationPlan {
                        event_id: c.event_id,
                        amount_minor: share as i64,
                        currency: c.currency,
                        source: AllocationSource::Settlement,
                    },
                ),
                personal_removal: None,
                settlement: None,
            },
        )
    }
}

/// The allocation changes of a decision; none when current allocations are preserved.
pub open spec fn allocation_outcome(
    c: ReviewedEventRow,
    ctx: ReviewResolutionContext,
    input: ResolveExpenseReviewInput,
    preserve: bool,
) -> Result<AllocationChanges, ErrorKind> {
    if preserve {
        Ok(no_changes())
    } else {
        match input.personal_amount_minor {
            Some(amount) => user_share_outcome(c, ctx.own_settlements, input.kind, amount),
            None => match input.related_event_id {
                Some(related) => related_outcome(c, ctx, input.kind, related),
                None => if input.kind == ExpenseEventKind::Purchase {
                    own_settlement_outcome(c, ctx)
                } else {
                    Ok(no_changes())
                },
            },
        }
    }
}

/// The status a decision gives the event: a duplicate, card payment, wallet top-up or
/// internal transfer is excluded, an unknown or external transfer stays unconfirmed,
/// and everything else is confirmed.
pub open spec fn resolved_status(kind: ExpenseEventKind, duplicate: bool) -> (
    ExpenseEventStatus,
    Option<ExclusionReason>,
) {
    if duplicate {
        (ExpenseEventStatus::Excluded, Some(ExclusionReason::Duplicate))
    } else {
        match kind {
            ExpenseEventKind::CardPayment => (
                ExpenseEventStatus::Excluded,
                Some(ExclusionReason::CardPayment),
            ),
            ExpenseEventKind::WalletTopup => (
                ExpenseEventStatus::Excluded,
                Some(ExclusionReason::WalletTopup),
            ),
            ExpenseEventKind::InternalTransfer => (
                ExpenseEventStatus::Excluded,
                Some(ExclusionReason::InternalTransfer),
            ),
            ExpenseEventKind::UnknownP2p | ExpenseEventKind::ExternalTransfer => (
                ExpenseEventStatus::Unconfirmed,
                None,
            ),
            _ => (ExpenseEventStatus::Confirmed, None),
        }
    }
}

/// The outcome of a review decision against the ledger.
pub open spec fn review_outcome(
    ctx: ReviewResolutionContext,
    input: ResolveExpenseReviewInput,
    preserve: bool,
) -> Result<ReviewResolutionPlan, ErrorKind> {
    match ctx.current {
        None => Err(ErrorKind::NotFound),
        Some(c) => if c.review_status@ != ExpenseReviewStatus::Pending.name() || c.version
            != input.expected_version {
            Err(ErrorKind::Conflict)
        } else if direction_failure(c.direction, input.kind) is Some {
            Err(direction_failure(c.direction, input.kind)->0)
        } else if input.related_event_id is Some && input.personal_amount_minor is Some {
            Err(ErrorKind::Invalid)
        } else if input.duplicate_of_event_id is Some && (input.related_event_id is Some
            || input.personal_amount_minor is Some) {
            Err(ErrorKind::Invalid)
        } else if duplicate_failure(c, input.duplicate_of_event_id, ctx.duplicate_target) is Some {
            Err(duplicate_failure(c, input.duplicate_of_event_id, ctx.duplicate_target)->0)
        } else {
            match allocation_outcome(c, ctx, input, preserve) {
                Err(k) => Err(k),
                Ok(changes) => if input.create_rule && c.merchant_blind_index is None {
                    Err(ErrorKind::Invalid)
                } else if c.version == u64::MAX || c.event_version == u64::MAX {
                    Err(ErrorKind::Invariant)
                } else {
                    let (status, reason) = resolved_status(
                        input.kind,
                        input.duplicate_of_event_id is Some,
                    );
                    Ok(
                        ReviewResolutionPlan {
                            event_id: c.event_id,
                            event_kind: input.kind,
                            event_category: input.category,
                            duplicate_of_event_id: input.duplicate_of_event_id,
                            event_version: (c.event_version + 1) as u64,
                            review_version: (c.version + 1) as u64,
                            event_status: status,
                            exclusion_reason: reason,
                            clear_own_allocations: !preserve,
                            clear_related_allocations: !preserve && !(input.kind is Purchase
                                || input.kind is Refund),
                            changes,
                            rule: if input.create_rule {
                                Some(
                                    ClassificationRulePlan {
                                        merchant_blind_index: c.merchant_blind_index->0,
                                        payment_method_fingerprint: c.payment_method_fingerprint,
                                        event_kind: input.kind,
                                        category: input.category,
                                    },
                                )
                            } else {
                                None
                            },
                        },
                    )
                },
            }
        },
    }
}

/// A resolution applies the decision: the event takes the decided kind and category and
/// moves one version on, the review is resolved one version past the one read, and a
/// classification rule is stored for the event's merchant exactly when one is asked for.
pub proof fn lemma_resolution_applies_decision(
    ctx: ReviewResolutionContext,
    input: ResolveExpenseReviewInput,
    preserve: bool,
)
    ensures
        review_outcome(ctx, input, preserve) matches Ok(p) ==> {
            &&& ctx.current matches Some(c)
            &&& p.event_kind == input.kind
            &&& p.event_category == input.category
            &&& p.duplicate_of_event_id == input.duplicate_of_event_id
            &&& p.event_version == c.event_version + 1
            &&& p.review_version == input.expected_version + 1
            &&& input.create_rule ==> c.merchant_blind_index is Some && p.rule == Some(
                ClassificationRulePlan {
                    merchant_blind_index: c.merchant_blind_index->0,
                    payment_method_fingerprint: c.payment_method_fingerprint,
                    event_kind: input.kind,
                    category: input.category,
                },
            )
            &&& !input.create_rule ==> p.rule is None
        },
{
}

/// The error of a decided kind whose posting runs the other way.
fn direction_error(kind: ExpenseEventKind, expected: ExpenseDirection) -> (e: Error)
    ensures
        e is Invalid && e->Invalid_0@ == "expense kind "@ + kind.name() + " requires a "@ + expected.name()
            + " posting"@,
{
    Error::Invalid(
        "expense kind ".to_owned().concat(kind.as_str()).concat(" requires a ").concat(expected.as_str()).concat(
            " posting",
        ),
    )
}

/// Checks the stored posting direction against the decided kind.
fn check_direction(direction: &Option<String>, kind: ExpenseEventKind) -> (r: Result<(), Error>)
    ensures
        r is Ok <==> direction_failure(*direction, kind) is None,
        r matches Err(e) ==> direction_failure(*direction, kind) == Some(e.kind()),
{
    let expected = match expected_direction_of(kind) {
        None => return Ok(()),
        Some(d) => d,
    };
    let actual = match direction {
        None => return Err(direction_error(kind, expected)),
        Some(s) => ExpenseDirection::parse(s.as_str())?,
    };
    if actual != expected {
        proof {
            ExpenseDirection::lemma_names_distinct();
        }
        return Err(direction_error(kind, expected));
    }
    Ok(())
}

/// Checks the event named as original of a duplicate.
fn check_duplicate(
    c: &ReviewedEventRow,
    duplicate_of: &Option<String>,
    target: &Option<DuplicateTargetRow>,
) -> (r: Result<(), Error>)
    ensures
        r is Ok <==> duplicate_failure(*c, *duplicate_of, *target) is None,
        r matches Err(e) ==> duplicate_failure(*c, *duplicate_of, *target) == Some(e.kind()),
{
    let duplicate_id = match duplicate_of {
        None => return Ok(()),
        Some(d) => d,
    };
    if same_text(duplicate_id, &c.event_id) {
        return Err(invalid("an expense event cannot duplicate itself"));
    }
    let t = match target {
        None => return Err(not_found("expense event", duplicate_id.as_str())),
        Some(t) => t,
    };
    if !str_eq(t.event_status.as_str(), ExpenseEventStatus::Confirmed.as_str()) || t.is_provisional
        || t.amount_minor != c.amount_minor || !same_text(&t.currency, &c.currency)
        || t.duplicate_of_event_id.is_some() {
        return Err(
            invalid(
                "a duplicate target must be a confirmed non-provisional event with the same amount and currency",
            ),
        );
    }
    if !same_optional_text(&c.direction, &t.direction) {
        return Err(invalid("a duplicate target must have the same posting direction"));
    }
    if str_eq(c.review_reason.as_str(), ExpenseReviewReason::AmbiguousMirror.as_str()) && (
    c.source_id.is_none() || same_optional_text(&c.source_id, &t.source_id)) {
        return Err(invalid("an ambiguous cross-source mirror must target another source"));
    }
    Ok(())
}

/// The changes of a personal amount the user sets.
fn user_share(c: &ReviewedEventRow, own: SettlementTotals, kind: ExpenseEventKind, amount: i64) -> (r:
    Result<AllocationChanges, Error>)
    requires
        total_in_bound(own),
    ensures
        outcome(r) == user_share_outcome(*c, own, kind, amount),
{
    if kind != ExpenseEventKind::Purchase {
        return Err(invalid("a personal amount allocation can only be applied to a purchase"));
    }
    if amount <= 0 || amount > MAX_SAFE_AMOUNT_MINOR {
        return Err(invalid("personal amountMinor must be between 1 and the safe maximum"));
    }
    if amount > c.amount_minor {
        return Err(invalid("personal amount must be between 1 and the purchase amount"));
    }
    let maximum: i128 = c.amount_minor as i128 + own.sent - own.received;
    if amount as i128 > maximum {
        return Err(
            invalid("personal amount and linked settlements exceed the purchase amount"),
        );
    }
    Ok(
        AllocationChanges {
            personal: Some(
                PersonalAllocationPlan {
                    event_id: c.event_id.clone(),
                    amount_minor: amount,
                    currency: c.currency.clone(),
                    source: AllocationSource::User,
                },
            ),
            personal_removal: None,
            settlement: None,
        },
    )
}

/// The changes of a settlement related to another event.
fn related_changes(
    c: &ReviewedEventRow,
    ctx: &ReviewResolutionContext,
    kind: ExpenseEventKind,
    related: &String,
) -> (r: Result<AllocationChanges, Error>)
    requires
        total_in_bound(ctx.related_settlements),
    ensures
        outcome(r) == related_outcome(*c, *ctx, kind, *related),
{
    if !matches!(kind, ExpenseEventKind::SettlementReceived | ExpenseEventKind::SettlementSent) {
        return Err(invalid("a related expense event can only be set for a settlement"));
    }
    validate_label("related expense event ID", related.as_str(), 128)?;
    if same_text(related, &c.event_id) {
        return Err(invalid("an expense event cannot be related to itself"));
    }
    let t = match &ctx.related_target {
        None => return Err(not_found("related expense event", related.as_str())),
        Some(t) => t,
    };
    let target_kind = ExpenseEventKind::parse(t.event_kind.as_str())?;
    let target_status = ExpenseEventStatus::parse(t.event_status.as_str())?;
    proof {
        ExpenseEventKind::lemma_names_distinct();
        ExpenseEventStatus::lemma_names_distinct();
    }
    if !matches!(target_kind, ExpenseEventKind::Purchase | ExpenseEventKind::Refund)
        || target_status != ExpenseEventStatus::Confirmed {
        return Err(invalid("a settlement must be related to a confirmed purchase or refund"));
    }
    if !same_text(&t.currency, &c.currency) {
        return Err(
            Error::Invalid(
                "settlement currency ".to_owned().concat(c.currency.as_str()).concat(
                    " does not match related event currency ",
                ).concat(t.currency.as_str()),
            ),
        );
    }
    let side = if kind == ExpenseEventKind::SettlementReceived {
        SettlementAllocationKind::Received
    } else {
        SettlementAllocationKind::Sent
    };
    let mut received: i128 = ctx.related_settlements.received;
    let mut sent: i128 = ctx.related_settlements.sent;
    if kind == ExpenseEventKind::SettlementReceived {
        received = received + c.amount_minor as i128;
    } else {
        sent = sent + c.amount_minor as i128;
    }
    let settlement = Some(
        SettlementAllocationPlan { kind: side, related_event_id: related.clone() },
    );
    if target_kind == ExpenseEventKind::Purchase {
        let share: i128 = t.amount_minor as i128 + sent - received;
        if share < 0 || share > t.amount_minor as i128 {
            return Err(invalid("settlement allocations exceed the related purchase amount"));
        }
        if let Some(p) = &ctx.related_personal {
            if str_eq(p.allocation_source.as_str(), AllocationSource::User.as_str()) {
                if p.amount_minor as i128 > share {
                    return Err(
                        invalid(
                            "personal amount and linked settlements exceed the purchase amount",
                        ),
                    );
                }
                return Ok(AllocationChanges { personal: None, personal_removal: None, settlement });
            }
        }
        if share == 0 {
            return Ok(
                AllocationChanges {
                    personal: None,
                    personal_removal: Some(related.clone()),
                    settlement,
                },
            );
        }
        let amount = safe_summary_amount("settlement personal allocation", share)?;
        return Ok(
            AllocationChanges {
                personal: Some(
                    PersonalAllocationPlan {
                        event_id: related.clone(),
                        amount_minor: amount,
                        currency: t.currency.clone(),
                        source: AllocationSource::Settlement,
                    },
                ),
                personal_removal: None,
                settlement,
            },
        );
    }
    if received + sent > t.amount_minor as i128 {
        return Err(invalid("settlement allocations exceed the related refund amount"));
    }
    Ok(AllocationChanges { personal: None, personal_removal: None, settlement })
}

/// The changes re-derived from the settlements linked to a purchase.
fn own_settlement_changes(c: &ReviewedEventRow, ctx: &ReviewResolutionContext) -> (r: Result<
    AllocationChanges,
    Error,
>)
    requires
        total_in_bound(ctx.own_settlements),
    ensures
        outcome(r) == own_settlement_outcome(*c, *ctx),
{
    let received = ctx.own_settlements.received;
    let sent = ctx.own_settlements.sent;
    if received == 0 && sent == 0 {
        return Ok(AllocationChanges { personal: None, personal_removal: None, settlement: None });
    }
    let share: i128 = c.amount_minor as i128 + sent - received;
    if share < 0 || share > c.amount_minor as i128 {
        return Err(invalid("settlement allocations exceed the purchase amount"));
    }
    if share == 0 {
        if let Some(p) = &ctx.own_personal {
            if str_eq(p.allocation_source.as_str(), AllocationSource::User.as_str())
                && p.amount_minor > 0 {
                return Err(
                    invalid("personal amount and linked settlements exceed the purchase amount"),
                );
            }
        }
        return Ok(
            AllocationChanges {
                personal: None,
                personal_removal: Some(c.event_id.clone()),
                settlement: None,
            },
        );
    }
    let amount = safe_summary_amount("settlement personal allocation", share)?;
    Ok(
        AllocationChanges {
            personal: Some(
                PersonalAllocationPlan {
                    event_id: c.event_id.clone(),
                    amount_minor: amount,
                    currency: c.currency.clone(),
                    source: AllocationSource::Settlement,
                },
            ),
            personal_removal: None,
            settlement: None,
        },
    )
}

/// The status a decision gives the event.
pub fn resolve_status(kind: ExpenseEventKind, duplicate: bool) -> (r: (
    ExpenseEventStatus,
    Option<ExclusionReason>,
))
    ensures
        r == resolved_status(kind, duplicate),
{
    if duplicate {
        return (ExpenseEventStatus::Excluded, Some(ExclusionReason::Duplicate));
    }
    match kind {
        ExpenseEventKind::CardPayment => (
            ExpenseEventStatus::Excluded,
            Some(ExclusionReason::CardPayment),
        ),
        ExpenseEventKind::WalletTopup => (
            ExpenseEventStatus::Excluded,
            Some(ExclusionReason::WalletTopup),
        ),
        ExpenseEventKind::InternalTransfer => (
            ExpenseEventStatus::Excluded,
            Some(ExclusionReason::InternalTransfer),
        ),
        ExpenseEventKind::UnknownP2p | ExpenseEventKind::ExternalTransfer => (
            ExpenseEventStatus::Unconfirmed,
            None,
        ),
        _ => (ExpenseEventStatus::Confirmed, None),
    }
}

/// Decides what resolving a pending review changes, from the ledger rows the decision
/// depends on. The review must still be pending at the expected version; the decided
/// kind must fit the posting direction; a duplicate decision names another matching
/// event and creates no allocation; a personal amount fits the purchase and its linked
/// settlements; a settlement is related to a confirmed purchase or refund in the same
/// currency; and a purchase's settlement-derived share is recomputed. With
/// `preserve_current_allocations` the allocation rows are left alone.
pub fn plan_review_resolution(
    review_id: &str,
    ctx: &ReviewResolutionContext,
    input: &ResolveExpenseReviewInput,
    preserve_current_allocations: bool,
) -> (r: Result<ReviewResolutionPlan, Error>)
    requires
        total_in_bound(ctx.own_settlements),
        total_in_bound(ctx.related_settlements),
    ensures
        outcome(r) == review_outcome(*ctx, *input, preserve_current_allocations),
        ({
            let relaxed = ResolveExpenseReviewInput { create_rule: false, ..*input };
            &&& input.create_rule
            &&& (ctx.current matches Some(c) && c.merchant_blind_index is None)
            &&& review_outcome(*ctx, relaxed, preserve_current_allocations) is Ok
        }) ==> (r matches Err(e) && e is Invalid && e->Invalid_0@
            == "a classification rule requires an encrypted merchant blind index"@),
{
    let c = match &ctx.current {
        None => return Err(not_found("expense review", review_id)),
        Some(c) => c,
    };
    if !str_eq(c.review_status.as_str(), ExpenseReviewStatus::Pending.as_str()) {
        return Err(Error::Conflict("expense review ".to_owned().concat(review_id).concat(" has already been resolved")));
    }
    if c.version != input.expected_version {
        return Err(version_conflict("expense review", review_id, input.expected_version, c.version));
    }
    check_direction(&c.direction, input.kind)?;
    if input.related_event_id.is_some() && input.personal_amount_minor.is_some() {
        return Err(
            invalid("an expense review cannot set a personal amount and a related event together"),
        );
    }
    if input.duplicate_of_event_id.is_some() && (input.related_event_id.is_some()
        || input.personal_amount_minor.is_some()) {
        return Err(invalid("a duplicate expense decision cannot also create an allocation"));
    }
    check_duplicate(c, &input.duplicate_of_event_id, &ctx.duplicate_target)?;
    let changes = if preserve_current_allocations {
        AllocationChanges { personal: None, personal_removal: None, settlement: None }
    } else {
        match (input.personal_amount_minor, &input.related_event_id) {
            (Some(amount), _) => user_share(c, ctx.own_settlements, input.kind, amount)?,
            (None, Some(related)) => related_changes(c, ctx, input.kind, related)?,
            (None, None) => if input.kind == ExpenseEventKind::Purchase {
                own_settlement_changes(c, ctx)?
            } else {
                AllocationChanges { personal: None, personal_removal: None, settlement: None }
            },
        }
    };
    let rule = if input.create_rule {
        match &c.merchant_blind_index {
            Some(merchant) => Some(
                ClassificationRulePlan {
                    merchant_blind_index: merchant.clone(),
                    payment_method_fingerprint: match &c.payment_method_fingerprint {
                        Some(f) => Some(f.clone()),
                        None => None,
                    },
                    event_kind: input.kind,
                    category: input.category,
                },
            ),
            None => return Err(invalid("a classification rule requires an encrypted merchant blind index")),
        }
    } else {
        None
    };
    if c.version == u64::MAX || c.event_version == u64::MAX {
        return Err(broken("expense review version overflowed"));
    }
    let (event_status, exclusion_reason) = resolve_status(
        input.kind,
        input.duplicate_of_event_id.is_some(),
    );
    let duplicate_of_event_id = match &input.duplicate_of_event_id {
        Some(id) => Some(id.clone()),
        None => None,
    };
    Ok(
        ReviewResolutionPlan {
            event_id: c.event_id.clone(),
            event_kind: input.kind,
            event_category: input.category,
            duplicate_of_event_id,
            event_version: c.event_version + 1,
            review_version: c.version + 1,
            event_status,
            exclusion_reason,
            clear_own_allocations: !preserve_current_allocations,
            clear_related_allocations: !preserve_current_allocations && !matches!(
                input.kind,
                ExpenseEventKind::Purchase | ExpenseEventKind::Refund
            ),
            changes,
            rule,
        },
    )
}

} // verus!
