use vstd::prelude::*;
use vstd::string::*;

use crate::calendar::CivilDate;
use crate::error::{broken_value, Error};
use crate::text::str_eq;

verus! {

/// The bank and wallet export formats an import understands.
#[derive(Debug, Clone, Copy, PartialEq, Eq, Structural)]
pub enum ExpenseImportAdapter {
    KbCardUsageV1,
    KbAccountHistoryV1,
    KakaopayMoneyV1,
}

impl ExpenseImportAdapter {
    /// The stored name of the value.
    pub open spec fn name(self) -> Seq<char> {
        match self {
            ExpenseImportAdapter::KbCardUsageV1 => "kb_card_usage_v1"@,
            ExpenseImportAdapter::KbAccountHistoryV1 => "kb_account_history_v1"@,
            ExpenseImportAdapter::KakaopayMoneyV1 => "kakaopay_money_v1"@,
        }
    }

    /// The stored name of the value.
    pub fn as_str(self) -> (s: &'static str)
        ensures
            s@ == self.name(),
    {
        match self {
            ExpenseImportAdapter::KbCardUsageV1 => "kb_card_usage_v1",
            ExpenseImportAdapter::KbAccountHistoryV1 => "kb_account_history_v1",
            ExpenseImportAdapter::KakaopayMoneyV1 => "kakaopay_money_v1",
        }
    }

    /// Parses a stored name; every other text is refused.
    pub fn parse(value: &str) -> (r: Result<ExpenseImportAdapter, Error>)
        ensures
            match r {
                Ok(v) => v.name() == value@,
                Err(e) => e is Invariant && forall|v: ExpenseImportAdapter| v.name() != value@,
            },
    {
        if str_eq(value, "kb_card_usage_v1") {
            Ok(ExpenseImportAdapter::KbCardUsageV1)
        } else if str_eq(value, "kb_account_history_v1") {
            Ok(ExpenseImportAdapter::KbAccountHistoryV1)
        } else if str_eq(value, "kakaopay_money_v1") {
            Ok(ExpenseImportAdapter::KakaopayMoneyV1)
        } else {
            Err(broken_value("unknown ExpenseImportAdapter value: ", value))
        }
    }

    /// Distinct values have distinct names.
    pub proof fn lemma_names_distinct()
        ensures
            forall|a: Self, b: Self| a.name() == b.name() ==> a == b,
    {
        reveal_strlit("kb_card_usage_v1");
        reveal_strlit("kb_account_history_v1");
        reveal_strlit("kakaopay_money_v1");
        assert forall|a: Self, b: Self| a.name() == b.name() implies a == b by {
            if a != b {
                let (x, y) = (a.name(), b.name());
                if x.len() == y.len() {
                    assert(exists|i: int| 0 <= i < x.len() && x[i] != y[i]) by {
                        match (a, b) {
                            _ => {},
                        }
                    }
                }
            }
        }
    }

}

/// The kind of money source an import comes from.
#[derive(Debug, Clone, Copy, PartialEq, Eq, Structural)]
pub enum ExpenseSourceKind {
    Card,
    Account,
    Wallet,
}

impl ExpenseSourceKind {
    /// The stored name of the value.
    pub open spec fn name(self) -> Seq<char> {
        match self {
            ExpenseSourceKind::Card => "card"@,
            ExpenseSourceKind::Account => "account"@,
            ExpenseSourceKind::Wallet => "wallet"@,
        }
    }

    /// The stored name of the value.
    pub fn as_str(self) -> (s: &'static str)
        ensures
            s@ == self.name(),
    {
        match self {
            ExpenseSourceKind::Card => "card",
            ExpenseSourceKind::Account => "account",
            ExpenseSourceKind::Wallet => "wallet",
        }
    }

    /// Parses a stored name; every other text is refused.
    pub fn parse(value: &str) -> (r: Result<ExpenseSourceKind, Error>)
        ensures
            match r {
                Ok(v) => v.name() == value@,
                Err(e) => e is Invariant && forall|v: ExpenseSourceKind| v.name() != value@,
            },
    {
        if str_eq(value, "card") {
            Ok(ExpenseSourceKind::Card)
        } else if str_eq(value, "account") {
            Ok(ExpenseSourceKind::Account)
        } else if str_eq(value, "wallet") {
            Ok(ExpenseSourceKind::Wallet)
        } else {
            Err(broken_value("unknown ExpenseSourceKind value: ", value))
        }
    }

    /// Distinct values have distinct names.
    pub proof fn lemma_names_distinct()
        ensures
            forall|a: Self, b: Self| a.name() == b.name() ==> a == b,
    {
        reveal_strlit("card");
        reveal_strlit("account");
        reveal_strlit("wallet");
        assert forall|a: Self, b: Self| a.name() == b.name() implies a == b by {
            if a != b {
                let (x, y) = (a.name(), b.name());
                if x.len() == y.len() {
                    assert(exists|i: int| 0 <= i < x.len() && x[i] != y[i]) by {
                        match (a, b) {
                            _ => {},
                        }
                    }
                }
            }
        }
    }

}

/// Whether money left or entered a source.
#[derive(Debug, Clone, Copy, PartialEq, Eq, Structural)]
pub enum ExpenseDirection {
    Debit,
    Credit,
}

impl ExpenseDirection {
    /// The stored name of the value.
    pub open spec fn name(self) -> Seq<char> {
        match self {
            ExpenseDirection::Debit => "debit"@,
            ExpenseDirection::Credit => "credit"@,
        }
    }

    /// The stored name of the value.
    pub fn as_str(self) -> (s: &'static str)
        ensures
            s@ == self.name(),
    {
        match self {
            ExpenseDirection::Debit => "debit",
            ExpenseDirection::Credit => "credit",
        }
    }

    /// Parses a stored name; every other text is refused.
    pub fn parse(value: &str) -> (r: Result<ExpenseDirection, Error>)
        ensures
            match r {
                Ok(v) => v.name() == value@,
                Err(e) => e is Invariant && forall|v: ExpenseDirection| v.name() != value@,
            },
    {
        if str_eq(value, "debit") {
            Ok(ExpenseDirection::Debit)
        } else if str_eq(value, "credit") {
            Ok(ExpenseDirection::Credit)
        } else {
            Err(broken_value("unknown ExpenseDirection value: ", value))
        }
    }

    /// Distinct values have distinct names.
    pub proof fn lemma_names_distinct()
        ensures
            forall|a: Self, b: Self| a.name() == b.name() ==> a == b,
    {
        reveal_strlit("debit");
        reveal_strlit("credit");
        assert forall|a: Self, b: Self| a.name() == b.name() implies a == b by {
            if a != b {
                let (x, y) = (a.name(), b.name());
                if x.len() == y.len() {
                    assert(exists|i: int| 0 <= i < x.len() && x[i] != y[i]) by {
                        match (a, b) {
                            _ => {},
                        }
                    }
                }
            }
        }
    }

}

/// The economic meaning of a ledger event.
#[derive(Debug, Clone, Copy, PartialEq, Eq, Structural)]
pub enum ExpenseEventKind {
    Purchase,
    Refund,
    CardPayment,
    WalletTopup,
    InternalTransfer,
    SettlementReceived,
    SettlementSent,
    Fee,
    ExternalTransfer,
    UnknownP2p,
    ManualRecurring,
}

impl ExpenseEventKind {
    /// The stored name of the value.
    pub open spec fn name(self) -> Seq<char> {
        match self {
            ExpenseEventKind::Purchase => "purchase"@,
            ExpenseEventKind::Refund => "refund"@,
            ExpenseEventKind::CardPayment => "card_payment"@,
            ExpenseEventKind::WalletTopup => "wallet_topup"@,
            ExpenseEventKind::InternalTransfer => "internal_transfer"@,
            ExpenseEventKind::SettlementReceived => "settlement_received"@,
            ExpenseEventKind::SettlementSent => "settlement_sent"@,
            ExpenseEventKind::Fee => "fee"@,
            ExpenseEventKind::ExternalTransfer => "external_transfer"@,
            ExpenseEventKind::UnknownP2p => "unknown_p2p"@,
            ExpenseEventKind::ManualRecurring => "manual_recurring"@,
        }
    }

    /// The stored name of the value.
    pub fn as_str(self) -> (s: &'static str)
        ensures
            s@ == self.name(),
    {
        match self {
            ExpenseEventKind::Purchase => "purchase",
            ExpenseEventKind::Refund => "refund",
            ExpenseEventKind::CardPayment => "card_payment",
            ExpenseEventKind::WalletTopup => "wallet_topup",
            ExpenseEventKind::InternalTransfer => "internal_transfer",
            ExpenseEventKind::SettlementReceived => "settlement_received",
            ExpenseEventKind::SettlementSent => "settlement_sent",
            ExpenseEventKind::Fee => "fee",
            ExpenseEventKind::ExternalTransfer => "external_transfer",
            ExpenseEventKind::UnknownP2p => "unknown_p2p",
            ExpenseEventKind::ManualRecurring => "manual_recurring",
        }
    }

    /// Parses a stored name; every other text is refused.
    pub fn parse(value: &str) -> (r: Result<ExpenseEventKind, Error>)
        ensures
            match r {
                Ok(v) => v.name() == value@,
                Err(e) => e is Invariant && forall|v: ExpenseEventKind| v.name() != value@,
            },
    {
        if str_eq(value, "purchase") {
            Ok(ExpenseEventKind::Purchase)
        } else if str_eq(value, "refund") {
            Ok(ExpenseEventKind::Refund)
        } else if str_eq(value, "card_payment") {
            Ok(ExpenseEventKind::CardPayment)
        } else if str_eq(value, "wallet_topup") {
            Ok(ExpenseEventKind::WalletTopup)
        } else if str_eq(value, "internal_transfer") {
            Ok(ExpenseEventKind::InternalTransfer)
        } else if str_eq(value, "settlement_received") {
            Ok(ExpenseEventKind::SettlementReceived)
        } else if str_eq(value, "settlement_sent") {
            Ok(ExpenseEventKind::SettlementSent)
        } else if str_eq(value, "fee") {
            Ok(ExpenseEventKind::Fee)
        } else if str_eq(value, "external_transfer") {
            Ok(ExpenseEventKind::ExternalTransfer)
        } else if str_eq(value, "unknown_p2p") {
            Ok(ExpenseEventKind::UnknownP2p)
        } else if str_eq(value, "manual_recurring") {
            Ok(ExpenseEventKind::ManualRecurring)
        } else {
            Err(broken_value("unknown ExpenseEventKind value: ", value))
        }
    }

    /// Distinct values have distinct names.
    pub proof fn lemma_names_distinct()
        ensures
            forall|a: Self, b: Self| a.name() == b.name() ==> a == b,
    {
        reveal_strlit("purchase");
        reveal_strlit("refund");
        reveal_strlit("card_payment");
        reveal_strlit("wallet_topup");
        reveal_strlit("internal_transfer");
        reveal_strlit("settlement_received");
        reveal_strlit("settlement_sent");
        reveal_strlit("fee");
        reveal_strlit("external_transfer");
        reveal_strlit("unknown_p2p");
        reveal_strlit("manual_recurring");
        assert forall|a: Self, b: Self| a.name() == b.name() implies a == b by {
            if a != b {
                let (x, y) = (a.name(), b.name());
                if x.len() == y.len() {
                    assert(exists|i: int| 0 <= i < x.len() && x[i] != y[i]) by {
                        match (a, b) {
                            (ExpenseEventKind::CardPayment, ExpenseEventKind::WalletTopup) => assert(x[0] != y[0]),
                            (ExpenseEventKind::WalletTopup, ExpenseEventKind::CardPayment) => assert(x[0] != y[0]),
                            (ExpenseEventKind::InternalTransfer, ExpenseEventKind::ExternalTransfer) => assert(x[0] != y[0]),
                            (ExpenseEventKind::ExternalTransfer, ExpenseEventKind::InternalTransfer) => assert(x[0] != y[0]),
                            _ => {},
                        }
                    }
                }
            }
        }
    }

}

/// Spending categories, in report order.
#[derive(Debug, Clone, Copy, PartialEq, Eq, Structural)]
pub enum ExpenseCategory {
    Food,
    Delivery,
    Cafe,
    Groceries,
    HousingUtilities,
    Transportation,
    OttSubscriptions,
    Shopping,
    Health,
    Leisure,
    Education,
    Travel,
    InsuranceFinanceTax,
    GiftsDues,
    RefundIncome,
    TransferSettlement,
    Other,
    Unconfirmed,
}

impl ExpenseCategory {
    /// The position of the category in report order.
    pub open spec fn rank(self) -> int {
        match self {
            ExpenseCategory::Food => 0,
            ExpenseCategory::Delivery => 1,
            ExpenseCategory::Cafe => 2,
            ExpenseCategory::Groceries => 3,
            ExpenseCategory::HousingUtilities => 4,
            ExpenseCategory::Transportation => 5,
            ExpenseCategory::OttSubscriptions => 6,
            ExpenseCategory::Shopping => 7,
            ExpenseCategory::Health => 8,
            ExpenseCategory::Leisure => 9,
            ExpenseCategory::Education => 10,
            ExpenseCategory::Travel => 11,
            ExpenseCategory::InsuranceFinanceTax => 12,
            ExpenseCategory::GiftsDues => 13,
            ExpenseCategory::RefundIncome => 14,
            ExpenseCategory::TransferSettlement => 15,
            ExpenseCategory::Other => 16,
            ExpenseCategory::Unconfirmed => 17,
        }
    }

    /// The position of the category in report order.
    pub fn position(self) -> (r: i64)
        ensures
            r == self.rank(),
    {
        match self {
            ExpenseCategory::Food => 0,
            ExpenseCategory::Delivery => 1,
            ExpenseCategory::Cafe => 2,
            ExpenseCategory::Groceries => 3,
            ExpenseCategory::HousingUtilities => 4,
            ExpenseCategory::Transportation => 5,
            ExpenseCategory::OttSubscriptions => 6,
            ExpenseCategory::Shopping => 7,
            ExpenseCategory::Health => 8,
            ExpenseCategory::Leisure => 9,
            ExpenseCategory::Education => 10,
            ExpenseCategory::Travel => 11,
            ExpenseCategory::InsuranceFinanceTax => 12,
            ExpenseCategory::GiftsDues => 13,
            ExpenseCategory::RefundIncome => 14,
            ExpenseCategory::TransferSettlement => 15,
            ExpenseCategory::Other => 16,
            ExpenseCategory::Unconfirmed => 17,
        }
    }

    /// The stored name of the value.
    pub open spec fn name(self) -> Seq<char> {
        match self {
            ExpenseCategory::Food => "food"@,
            ExpenseCategory::Delivery => "delivery"@,
            ExpenseCategory::Cafe => "cafe"@,
            ExpenseCategory::Groceries => "groceries"@,
            ExpenseCategory::HousingUtilities => "housing_utilities"@,
            ExpenseCategory::Transportation => "transportation"@,
            ExpenseCategory::OttSubscriptions => "ott_subscriptions"@,
            ExpenseCategory::Shopping => "shopping"@,
            ExpenseCategory::Health => "health"@,
            ExpenseCategory::Leisure => "leisure"@,
            ExpenseCategory::Education => "education"@,
            ExpenseCategory::Travel => "travel"@,
            ExpenseCategory::InsuranceFinanceTax => "insurance_finance_tax"@,
            ExpenseCategory::GiftsDues => "gifts_dues"@,
            ExpenseCategory::RefundIncome => "refund_income"@,
            ExpenseCategory::TransferSettlement => "transfer_settlement"@,
            ExpenseCategory::Other => "other"@,
            ExpenseCategory::Unconfirmed => "unconfirmed"@,
        }
    }

    /// The stored name of the value.
    pub fn as_str(self) -> (s: &'static str)
        ensures
            s@ == self.name(),
    {
        match self {
            ExpenseCategory::Food => "food",
            ExpenseCategory::Delivery => "delivery",
            ExpenseCategory::Cafe => "cafe",
            ExpenseCategory::Groceries => "groceries",
            ExpenseCategory::HousingUtilities => "housing_utilities",
            ExpenseCategory::Transportation => "transportation",
            ExpenseCategory::OttSubscriptions => "ott_subscriptions",
            ExpenseCategory::Shopping => "shopping",
            ExpenseCategory::Health => "health",
            ExpenseCategory::Leisure => "leisure",
            ExpenseCategory::Education => "education",
            ExpenseCategory::Travel => "travel",
            ExpenseCategory::InsuranceFinanceTax => "insurance_finance_tax",
            ExpenseCategory::GiftsDues => "gifts_dues",
            ExpenseCategory::RefundIncome => "refund_income",
            ExpenseCategory::TransferSettlement => "transfer_settlement",
            ExpenseCategory::Other => "other",
            ExpenseCategory::Unconfirmed => "unconfirmed",
        }
    }

    /// Parses a stored name; every other text is refused.
    pub fn parse(value: &str) -> (r: Result<ExpenseCategory, Error>)
        ensures
            match r {
                Ok(v) => v.name() == value@,
                Err(e) => e is Invariant && forall|v: ExpenseCategory| v.name() != value@,
            },
    {
        if str_eq(value, "food") {
            Ok(ExpenseCategory::Food)
        } else if str_eq(value, "delivery") {
            Ok(ExpenseCategory::Delivery)
        } else if str_eq(value, "cafe") {
            Ok(ExpenseCategory::Cafe)
        } else if str_eq(value, "groceries") {
            Ok(ExpenseCategory::Groceries)
        } else if str_eq(value, "housing_utilities") {
            Ok(ExpenseCategory::HousingUtilities)
        } else if str_eq(value, "transportation") {
            Ok(ExpenseCategory::Transportation)
        } else if str_eq(value, "ott_subscriptions") {
            Ok(ExpenseCategory::OttSubscriptions)
        } else if str_eq(value, "shopping") {
            Ok(ExpenseCategory::Shopping)
        } else if str_eq(value, "health") {
            Ok(ExpenseCategory::Health)
        } else if str_eq(value, "leisure") {
            Ok(ExpenseCategory::Leisure)
        } else if str_eq(value, "education") {
            Ok(ExpenseCategory::Education)
        } else if str_eq(value, "travel") {
            Ok(ExpenseCategory::Travel)
        } else if str_eq(value, "insurance_finance_tax") {
            Ok(ExpenseCategory::InsuranceFinanceTax)
        } else if str_eq(value, "gifts_dues") {
            Ok(ExpenseCategory::GiftsDues)
        } else if str_eq(value, "refund_income") {
            Ok(ExpenseCategory::RefundIncome)
        } else if str_eq(value, "transfer_settlement") {
            Ok(ExpenseCategory::TransferSettlement)
        } else if str_eq(value, "other") {
            Ok(ExpenseCategory::Other)
        } else if str_eq(value, "unconfirmed") {
            Ok(ExpenseCategory::Unconfirmed)
        } else {
            Err(broken_value("unknown ExpenseCategory value: ", value))
        }
    }

    /// Distinct values have distinct names.
    pub proof fn lemma_names_distinct()
        ensures
            forall|a: Self, b: Self| a.name() == b.name() ==> a == b,
    {
        reveal_strlit("food");
        reveal_strlit("delivery");
        reveal_strlit("cafe");
        reveal_strlit("groceries");
        reveal_strlit("housing_utilities");
        reveal_strlit("transportation");
        reveal_strlit("ott_subscriptions");
        reveal_strlit("shopping");
        reveal_strlit("health");
        reveal_strlit("leisure");
        reveal_strlit("education");
        reveal_strlit("travel");
        reveal_strlit("insurance_finance_tax");
        reveal_strlit("gifts_dues");
        reveal_strlit("refund_income");
        reveal_strlit("transfer_settlement");
        reveal_strlit("other");
        reveal_strlit("unconfirmed");
        assert forall|a: Self, b: Self| a.name() == b.name() implies a == b by {
            if a != b {
                let (x, y) = (a.name(), b.name());
                if x.len() == y.len() {
                    assert(exists|i: int| 0 <= i < x.len() && x[i] != y[i]) by {
                        match (a, b) {
                            (ExpenseCategory::Food, ExpenseCategory::Cafe) => assert(x[0] != y[0]),
                            (ExpenseCategory::Delivery, ExpenseCategory::Shopping) => assert(x[0] != y[0]),
                            (ExpenseCategory::Cafe, ExpenseCategory::Food) => assert(x[0] != y[0]),
                            (ExpenseCategory::Groceries, ExpenseCategory::Education) => assert(x[0] != y[0]),
                            (ExpenseCategory::HousingUtilities, ExpenseCategory::OttSubscriptions) => assert(x[0] != y[0]),
                            (ExpenseCategory::OttSubscriptions, ExpenseCategory::HousingUtilities) => assert(x[0] != y[0]),
                            (ExpenseCategory::Shopping, ExpenseCategory::Delivery) => assert(x[0] != y[0]),
                            (ExpenseCategory::Health, ExpenseCategory::Travel) => assert(x[0] != y[0]),
                            (ExpenseCategory::Education, ExpenseCategory::Groceries) => assert(x[0] != y[0]),
                            (ExpenseCategory::Travel, ExpenseCategory::Health) => assert(x[0] != y[0]),
                            _ => {},
                        }
                    }
                }
            }
        }
    }

}

/// Whether an event counts toward spending.
#[derive(Debug, Clone, Copy, PartialEq, Eq, Structural)]
pub enum ExpenseEventStatus {
    Confirmed,
    Unconfirmed,
    Excluded,
}

impl ExpenseEventStatus {
    /// The stored name of the value.
    pub open spec fn name(self) -> Seq<char> {
        match self {
            ExpenseEventStatus::Confirmed => "confirmed"@,
            ExpenseEventStatus::Unconfirmed => "unconfirmed"@,
            ExpenseEventStatus::Excluded => "excluded"@,
        }
    }

    /// The stored name of the value.
    pub fn as_str(self) -> (s: &'static str)
        ensures
            s@ == self.name(),
    {
        match self {
            ExpenseEventStatus::Confirmed => "confirmed",
            ExpenseEventStatus::Unconfirmed => "unconfirmed",
            ExpenseEventStatus::Excluded => "excluded",
        }
    }

    /// Parses a stored name; every other text is refused.
    pub fn parse(value: &str) -> (r: Result<ExpenseEventStatus, Error>)
        ensures
            match r {
                Ok(v) => v.name() == value@,
                Err(e) => e is Invariant && forall|v: ExpenseEventStatus| v.name() != value@,
            },
    {
        if str_eq(value, "confirmed") {
            Ok(ExpenseEventStatus::Confirmed)
        } else if str_eq(value, "unconfirmed") {
            Ok(ExpenseEventStatus::Unconfirmed)
        } else if str_eq(value, "excluded") {
            Ok(ExpenseEventStatus::Excluded)
        } else {
            Err(broken_value("unknown ExpenseEventStatus value: ", value))
        }
    }

    /// Distinct values have distinct names.
    pub proof fn lemma_names_distinct()
        ensures
            forall|a: Self, b: Self| a.name() == b.name() ==> a == b,
    {
        reveal_strlit("confirmed");
        reveal_strlit("unconfirmed");
        reveal_strlit("excluded");
        assert forall|a: Self, b: Self| a.name() == b.name() implies a == b by {
            if a != b {
                let (x, y) = (a.name(), b.name());
                if x.len() == y.len() {
                    assert(exists|i: int| 0 <= i < x.len() && x[i] != y[i]) by {
                        match (a, b) {
                            _ => {},
                        }
                    }
                }
            }
        }
    }

}

/// How trustworthy a month report is.
#[derive(Debug, Clone, Copy, PartialEq, Eq, Structural)]
pub enum ExpenseReportStatus {
    Confirmed,
    Provisional,
    Incomplete,
}

impl ExpenseReportStatus {
    /// The stored name of the value.
    pub open spec fn name(self) -> Seq<char> {
        match self {
            ExpenseReportStatus::Confirmed => "confirmed"@,
            ExpenseReportStatus::Provisional => "provisional"@,
            ExpenseReportStatus::Incomplete => "incomplete"@,
        }
    }

    /// The stored name of the value.
    pub fn as_str(self) -> (s: &'static str)
        ensures
            s@ == self.name(),
    {
        match self {
            ExpenseReportStatus::Confirmed => "confirmed",
            ExpenseReportStatus::Provisional => "provisional",
            ExpenseReportStatus::Incomplete => "incomplete",
        }
    }

    /// Parses a stored name; every other text is refused.
    pub fn parse(value: &str) -> (r: Result<ExpenseReportStatus, Error>)
        ensures
            match r {
                Ok(v) => v.name() == value@,
                Err(e) => e is Invariant && forall|v: ExpenseReportStatus| v.name() != value@,
            },
    {
        if str_eq(value, "confirmed") {
            Ok(ExpenseReportStatus::Confirmed)
        } else if str_eq(value, "provisional") {
            Ok(ExpenseReportStatus::Provisional)
        } else if str_eq(value, "incomplete") {
            Ok(ExpenseReportStatus::Incomplete)
        } else {
            Err(broken_value("unknown ExpenseReportStatus value: ", value))
        }
    }

    /// Distinct values have distinct names.
    pub proof fn lemma_names_distinct()
        ensures
            forall|a: Self, b: Self| a.name() == b.name() ==> a == b,
    {
        reveal_strlit("confirmed");
        reveal_strlit("provisional");
        reveal_strlit("incomplete");
        assert forall|a: Self, b: Self| a.name() == b.name() implies a == b by {
            if a != b {
                let (x, y) = (a.name(), b.name());
                if x.len() == y.len() {
                    assert(exists|i: int| 0 <= i < x.len() && x[i] != y[i]) by {
                        match (a, b) {
                            _ => {},
                        }
                    }
                }
            }
        }
    }

}

/// State of a review item.
#[derive(Debug, Clone, Copy, PartialEq, Eq, Structural)]
pub enum ExpenseReviewStatus {
    Pending,
    Resolved,
}

impl ExpenseReviewStatus {
    /// The stored name of the value.
    pub open spec fn name(self) -> Seq<char> {
        match self {
            ExpenseReviewStatus::Pending => "pending"@,
            ExpenseReviewStatus::Resolved => "resolved"@,
        }
    }

    /// The stored name of the value.
    pub fn as_str(self) -> (s: &'static str)
        ensures
            s@ == self.name(),
    {
        match self {
            ExpenseReviewStatus::Pending => "pending",
            ExpenseReviewStatus::Resolved => "resolved",
        }
    }

    /// Parses a stored name; every other text is refused.
    pub fn parse(value: &str) -> (r: Result<ExpenseReviewStatus, Error>)
        ensures
            match r {
                Ok(v) => v.name() == value@,
                Err(e) => e is Invariant && forall|v: ExpenseReviewStatus| v.name() != value@,
            },
    {
        if str_eq(value, "pending") {
            Ok(ExpenseReviewStatus::Pending)
        } else if str_eq(value, "resolved") {
            Ok(ExpenseReviewStatus::Resolved)
        } else {
            Err(broken_value("unknown ExpenseReviewStatus value: ", value))
        }
    }

    /// Distinct values have distinct names.
    pub proof fn lemma_names_distinct()
        ensures
            forall|a: Self, b: Self| a.name() == b.name() ==> a == b,
    {
        reveal_strlit("pending");
        reveal_strlit("resolved");
        assert forall|a: Self, b: Self| a.name() == b.name() implies a == b by {
            if a != b {
                let (x, y) = (a.name(), b.name());
                if x.len() == y.len() {
                    assert(exists|i: int| 0 <= i < x.len() && x[i] != y[i]) by {
                        match (a, b) {
                            _ => {},
                        }
                    }
                }
            }
        }
    }

}

/// Why an event needs review.
#[derive(Debug, Clone, Copy, PartialEq, Eq, Structural)]
pub enum ExpenseReviewReason {
    UnknownP2p,
    AmbiguousMirror,
    RecurringMatchCandidate,
    RecurringRegistrationCandidate,
    CategoryConfirmation,
    ImportRejected,
    ManualOverride,
}

impl ExpenseReviewReason {
    /// The stored name of the value.
    pub open spec fn name(self) -> Seq<char> {
        match self {
            ExpenseReviewReason::UnknownP2p => "unknown_p2p"@,
            ExpenseReviewReason::AmbiguousMirror => "ambiguous_mirror"@,
            ExpenseReviewReason::RecurringMatchCandidate => "recurring_match_candidate"@,
            ExpenseReviewReason::RecurringRegistrationCandidate => "recurring_registration_candidate"@,
            ExpenseReviewReason::CategoryConfirmation => "category_confirmation"@,
            ExpenseReviewReason::ImportRejected => "import_rejected"@,
            ExpenseReviewReason::ManualOverride => "manual_override"@,
        }
    }

    /// The stored name of the value.
    pub fn as_str(self) -> (s: &'static str)
        ensures
            s@ == self.name(),
    {
        match self {
            ExpenseReviewReason::UnknownP2p => "unknown_p2p",
            ExpenseReviewReason::AmbiguousMirror => "ambiguous_mirror",
            ExpenseReviewReason::RecurringMatchCandidate => "recurring_match_candidate",
            ExpenseReviewReason::RecurringRegistrationCandidate => "recurring_registration_candidate",
            ExpenseReviewReason::CategoryConfirmation => "category_confirmation",
            ExpenseReviewReason::ImportRejected => "import_rejected",
            ExpenseReviewReason::ManualOverride => "manual_override",
        }
    }

    /// Parses a stored name; every other text is refused.
    pub fn parse(value: &str) -> (r: Result<ExpenseReviewReason, Error>)
        ensures
            match r {
                Ok(v) => v.name() == value@,
                Err(e) => e is Invariant && forall|v: ExpenseReviewReason| v.name() != value@,
            },
    {
        if str_eq(value, "unknown_p2p") {
            Ok(ExpenseReviewReason::UnknownP2p)
        } else if str_eq(value, "ambiguous_mirror") {
            Ok(ExpenseReviewReason::AmbiguousMirror)
        } else if str_eq(value, "recurring_match_candidate") {
            Ok(ExpenseReviewReason::RecurringMatchCandidate)
        } else if str_eq(value, "recurring_registration_candidate") {
            Ok(ExpenseReviewReason::RecurringRegistrationCandidate)
        } else if str_eq(value, "category_confirmation") {
            Ok(ExpenseReviewReason::CategoryConfirmation)
        } else if str_eq(value, "import_rejected") {
            Ok(ExpenseReviewReason::ImportRejected)
        } else if str_eq(value, "manual_override") {
            Ok(ExpenseReviewReason::ManualOverride)
        } else {
            Err(broken_value("unknown ExpenseReviewReason value: ", value))
        }
    }

    /// Distinct values have distinct names.
    pub proof fn lemma_names_distinct()
        ensures
            forall|a: Self, b: Self| a.name() == b.name() ==> a == b,
    {
        reveal_strlit("unknown_p2p");
        reveal_strlit("ambiguous_mirror");
        reveal_strlit("recurring_match_candidate");
        reveal_strlit("recurring_registration_candidate");
        reveal_strlit("category_confirmation");
        reveal_strlit("import_rejected");
        reveal_strlit("manual_override");
        assert forall|a: Self, b: Self| a.name() == b.name() implies a == b by {
            if a != b {
                let (x, y) = (a.name(), b.name());
                if x.len() == y.len() {
                    assert(exists|i: int| 0 <= i < x.len() && x[i] != y[i]) by {
                        match (a, b) {
                            (ExpenseReviewReason::ImportRejected, ExpenseReviewReason::ManualOverride) => assert(x[0] != y[0]),
                            (ExpenseReviewReason::ManualOverride, ExpenseReviewReason::ImportRejected) => assert(x[0] != y[0]),
                            _ => {},
                        }
                    }
                }
            }
        }
    }

}

/// How a recurring amount is matched.
#[derive(Debug, Clone, Copy, PartialEq, Eq, Structural)]
pub enum RecurringAmountKind {
    Fixed,
    Estimate,
    Limit,
}

impl RecurringAmountKind {
    /// The stored name of the value.
    pub open spec fn name(self) -> Seq<char> {
        match self {
            RecurringAmountKind::Fixed => "fixed"@,
            RecurringAmountKind::Estimate => "estimate"@,
            RecurringAmountKind::Limit => "limit"@,
        }
    }

    /// The stored name of the value.
    pub fn as_str(self) -> (s: &'static str)
        ensures
            s@ == self.name(),
    {
        match self {
            RecurringAmountKind::Fixed => "fixed",
            RecurringAmountKind::Estimate => "estimate",
            RecurringAmountKind::Limit => "limit",
        }
    }

    /// Parses a stored name; every other text is refused.
    pub fn parse(value: &str) -> (r: Result<RecurringAmountKind, Error>)
        ensures
            match r {
                Ok(v) => v.name() == value@,
                Err(e) => e is Invariant && forall|v: RecurringAmountKind| v.name() != value@,
            },
    {
        if str_eq(value, "fixed") {
            Ok(RecurringAmountKind::Fixed)
        } else if str_eq(value, "estimate") {
            Ok(RecurringAmountKind::Estimate)
        } else if str_eq(value, "limit") {
            Ok(RecurringAmountKind::Limit)
        } else {
            Err(broken_value("unknown RecurringAmountKind value: ", value))
        }
    }

    /// Distinct values have distinct names.
    pub proof fn lemma_names_distinct()
        ensures
            forall|a: Self, b: Self| a.name() == b.name() ==> a == b,
    {
        reveal_strlit("fixed");
        reveal_strlit("estimate");
        reveal_strlit("limit");
        assert forall|a: Self, b: Self| a.name() == b.name() implies a == b by {
            if a != b {
                let (x, y) = (a.name(), b.name());
                if x.len() == y.len() {
                    assert(exists|i: int| 0 <= i < x.len() && x[i] != y[i]) by {
                        match (a, b) {
                            (RecurringAmountKind::Fixed, RecurringAmountKind::Limit) => assert(x[0] != y[0]),
                            (RecurringAmountKind::Limit, RecurringAmountKind::Fixed) => assert(x[0] != y[0]),
                            _ => {},
                        }
                    }
                }
            }
        }
    }

}

/// Which day of the month a recurring expense falls due.
#[derive(Debug, Clone, Copy, PartialEq, Eq, Structural)]
pub enum RecurringDueRule {
    SpecificDay,
    FirstDay,
    LastDay,
}

impl RecurringDueRule {
    /// The stored name of the value.
    pub open spec fn name(self) -> Seq<char> {
        match self {
            RecurringDueRule::SpecificDay => "specific_day"@,
            RecurringDueRule::FirstDay => "first_day"@,
            RecurringDueRule::LastDay => "last_day"@,
        }
    }

    /// The stored name of the value.
    pub fn as_str(self) -> (s: &'static str)
        ensures
            s@ == self.name(),
    {
        match self {
            RecurringDueRule::SpecificDay => "specific_day",
            RecurringDueRule::FirstDay => "first_day",
            RecurringDueRule::LastDay => "last_day",
        }
    }

    /// Parses a stored name; every other text is refused.
    pub fn parse(value: &str) -> (r: Result<RecurringDueRule, Error>)
        ensures
            match r {
                Ok(v) => v.name() == value@,
                Err(e) => e is Invariant && forall|v: RecurringDueRule| v.name() != value@,
            },
    {
        if str_eq(value, "specific_day") {
            Ok(RecurringDueRule::SpecificDay)
        } else if str_eq(value, "first_day") {
            Ok(RecurringDueRule::FirstDay)
        } else if str_eq(value, "last_day") {
            Ok(RecurringDueRule::LastDay)
        } else {
            Err(broken_value("unknown RecurringDueRule value: ", value))
        }
    }

    /// Distinct values have distinct names.
    pub proof fn lemma_names_distinct()
        ensures
            forall|a: Self, b: Self| a.name() == b.name() ==> a == b,
    {
        reveal_strlit("specific_day");
        reveal_strlit("first_day");
        reveal_strlit("last_day");
        assert forall|a: Self, b: Self| a.name() == b.name() implies a == b by {
            if a != b {
                let (x, y) = (a.name(), b.name());
                if x.len() == y.len() {
                    assert(exists|i: int| 0 <= i < x.len() && x[i] != y[i]) by {
                        match (a, b) {
                            _ => {},
                        }
                    }
                }
            }
        }
    }

}

/// State of a recurring expense.
#[derive(Debug, Clone, Copy, PartialEq, Eq, Structural)]
pub enum RecurringExpenseStatus {
    Active,
    Paused,
    Ended,
}

impl RecurringExpenseStatus {
    /// The stored name of the value.
    pub open spec fn name(self) -> Seq<char> {
        match self {
            RecurringExpenseStatus::Active => "active"@,
            RecurringExpenseStatus::Paused => "paused"@,
            RecurringExpenseStatus::Ended => "ended"@,
        }
    }

    /// The stored name of the value.
    pub fn as_str(self) -> (s: &'static str)
        ensures
            s@ == self.name(),
    {
        match self {
            RecurringExpenseStatus::Active => "active",
            RecurringExpenseStatus::Paused => "paused",
            RecurringExpenseStatus::Ended => "ended",
        }
    }

    /// Parses a stored name; every other text is refused.
    pub fn parse(value: &str) -> (r: Result<RecurringExpenseStatus, Error>)
        ensures
            match r {
                Ok(v) => v.name() == value@,
                Err(e) => e is Invariant && forall|v: RecurringExpenseStatus| v.name() != value@,
            },
    {
        if str_eq(value, "active") {
            Ok(RecurringExpenseStatus::Active)
        } else if str_eq(value, "paused") {
            Ok(RecurringExpenseStatus::Paused)
        } else if str_eq(value, "ended") {
            Ok(RecurringExpenseStatus::Ended)
        } else {
            Err(broken_value("unknown RecurringExpenseStatus value: ", value))
        }
    }

    /// Distinct values have distinct names.
    pub proof fn lemma_names_distinct()
        ensures
            forall|a: Self, b: Self| a.name() == b.name() ==> a == b,
    {
        reveal_strlit("active");
        reveal_strlit("paused");
        reveal_strlit("ended");
        assert forall|a: Self, b: Self| a.name() == b.name() implies a == b by {
            if a != b {
                let (x, y) = (a.name(), b.name());
                if x.len() == y.len() {
                    assert(exists|i: int| 0 <= i < x.len() && x[i] != y[i]) by {
                        match (a, b) {
                            (RecurringExpenseStatus::Active, RecurringExpenseStatus::Paused) => assert(x[0] != y[0]),
                            (RecurringExpenseStatus::Paused, RecurringExpenseStatus::Active) => assert(x[0] != y[0]),
                            _ => {},
                        }
                    }
                }
            }
        }
    }

}

/// State of an AI report attempt.
#[derive(Debug, Clone, Copy, PartialEq, Eq, Structural)]
pub enum ExpenseReportAttemptStatus {
    Claimed,
    Succeeded,
    Failed,
}

impl ExpenseReportAttemptStatus {
    /// The stored name of the value.
    pub open spec fn name(self) -> Seq<char> {
        match self {
            ExpenseReportAttemptStatus::Claimed => "claimed"@,
            ExpenseReportAttemptStatus::Succeeded => "succeeded"@,
            ExpenseReportAttemptStatus::Failed => "failed"@,
        }
    }

    /// The stored name of the value.
    pub fn as_str(self) -> (s: &'static str)
        ensures
            s@ == self.name(),
    {
        match self {
            ExpenseReportAttemptStatus::Claimed => "claimed",
            ExpenseReportAttemptStatus::Succeeded => "succeeded",
            ExpenseReportAttemptStatus::Failed => "failed",
        }
    }

    /// Parses a stored name; every other text is refused.
    pub fn parse(value: &str) -> (r: Result<ExpenseReportAttemptStatus, Error>)
        ensures
            match r {
                Ok(v) => v.name() == value@,
                Err(e) => e is Invariant && forall|v: ExpenseReportAttemptStatus| v.name() != value@,
            },
    {
        if str_eq(value, "claimed") {
            Ok(ExpenseReportAttemptStatus::Claimed)
        } else if str_eq(value, "succeeded") {
            Ok(ExpenseReportAttemptStatus::Succeeded)
        } else if str_eq(value, "failed") {
            Ok(ExpenseReportAttemptStatus::Failed)
        } else {
            Err(broken_value("unknown ExpenseReportAttemptStatus value: ", value))
        }
    }

    /// Distinct values have distinct names.
    pub proof fn lemma_names_distinct()
        ensures
            forall|a: Self, b: Self| a.name() == b.name() ==> a == b,
    {
        reveal_strlit("claimed");
        reveal_strlit("succeeded");
        reveal_strlit("failed");
        assert forall|a: Self, b: Self| a.name() == b.name() implies a == b by {
            if a != b {
                let (x, y) = (a.name(), b.name());
                if x.len() == y.len() {
                    assert(exists|i: int| 0 <= i < x.len() && x[i] != y[i]) by {
                        match (a, b) {
                            _ => {},
                        }
                    }
                }
            }
        }
    }

}

/// State of one occurrence of a recurring expense.
#[derive(Debug, Clone, Copy, PartialEq, Eq, Structural)]
pub enum RecurringOccurrenceStatus {
    Scheduled,
    DueToday,
    DueSoon,
    Overdue,
    Paid,
    Matched,
}

/// Text encrypted by the client, with the data needed to authenticate and index it.
#[derive(Debug, Clone, PartialEq, Eq)]
pub struct EncryptedExpenseText {
    pub key_version: u32,
    pub nonce: String,
    pub ciphertext: String,
    pub aad: String,
    pub blind_index: String,
}

/// The encrypted probe that proves which key the expense data uses.
#[derive(Debug, Clone, PartialEq, Eq)]
pub struct ExpenseCryptoProbe {
    pub key_version: u32,
    pub nonce: String,
    pub ciphertext: String,
    pub aad: String,
}

#[derive(Debug, Clone, PartialEq, Eq)]
pub struct ExpenseSourceStatus {
    pub id: String,
    pub adapter: ExpenseImportAdapter,
    pub source_kind: ExpenseSourceKind,
    pub required_for_complete_report: bool,
    pub is_active: bool,
    pub coverage_start: Option<CivilDate>,
    pub coverage_end: Option<CivilDate>,
    pub version: u64,
}

#[derive(Debug, Clone, PartialEq, Eq)]
pub struct UpdateExpenseSourceStatusInput {
    pub expected_version: u64,
    pub required_for_complete_report: bool,
    pub is_active: bool,
}

/// One normalized row of a bank or wallet export.
#[derive(Debug, Clone, PartialEq, Eq)]
pub struct NormalizedExpenseRow {
    pub stable_key: String,
    pub row_sha256: String,
    pub source_row_number: u32,
    pub occurred_at: String,
    pub posted_date: CivilDate,
    pub direction: ExpenseDirection,
    pub amount_minor: i64,
    pub currency: String,
    pub kind: ExpenseEventKind,
    pub category_hint: Option<ExpenseCategory>,
    pub merchant: Option<EncryptedExpenseText>,
    pub counterparty: Option<EncryptedExpenseText>,
    pub memo: Option<EncryptedExpenseText>,
    pub payment_method_fingerprint: Option<String>,
    pub external_reference_fingerprint: Option<String>,
}

/// A normalized export covering a window of days.
#[derive(Debug, Clone, PartialEq, Eq)]
pub struct NormalizedExpenseImport {
    pub adapter: ExpenseImportAdapter,
    pub source_kind: ExpenseSourceKind,
    pub source_fingerprint: String,
    pub file_sha256: String,
    pub normalized_sha256: String,
    pub coverage_start: CivilDate,
    pub coverage_end: CivilDate,
    pub rejected_count: u32,
    pub rows: Vec<NormalizedExpenseRow>,
}

#[derive(Debug, Clone, PartialEq, Eq)]
pub struct ExpenseImportResult {
    pub batch_id: String,
    pub source_id: String,
    pub row_count: u32,
    pub new_count: u32,
    pub duplicate_count: u32,
    pub rejected_count: u32,
    pub excluded_count: u32,
    pub review_count: u32,
    pub idempotent_replay: bool,
}

#[derive(Debug, Clone, PartialEq, Eq)]
pub struct ExpenseImportPreviewRow {
    pub stable_key: String,
    pub row_sha256: String,
    pub source_row_number: u32,
    pub occurred_at: String,
    pub posted_date: CivilDate,
    pub direction: ExpenseDirection,
    pub amount_minor: i64,
    pub currency: String,
    pub kind: ExpenseEventKind,
    pub category_hint: Option<ExpenseCategory>,
    pub merchant_blind_index: Option<String>,
    pub payment_method_fingerprint: Option<String>,
    pub external_reference_fingerprint: Option<String>,
}

#[derive(Debug, Clone, PartialEq, Eq)]
pub struct ExpenseImportPreviewInput {
    pub adapter: ExpenseImportAdapter,
    pub source_kind: ExpenseSourceKind,
    pub source_fingerprint: String,
    pub file_sha256: String,
    pub normalized_sha256: String,
    pub coverage_start: CivilDate,
    pub coverage_end: CivilDate,
    pub rejected_count: u32,
    pub rows: Vec<ExpenseImportPreviewRow>,
}

#[derive(Debug, Clone, PartialEq, Eq)]
pub struct ResolveExpenseReviewInput {
    pub expected_version: u64,
    pub kind: ExpenseEventKind,
    pub category: ExpenseCategory,
    pub duplicate_of_event_id: Option<String>,
    pub related_event_id: Option<String>,
    pub personal_amount_minor: Option<i64>,
    pub create_rule: bool,
}

#[derive(Debug, Clone, PartialEq, Eq)]
pub struct OverrideExpenseTransactionInput {
    pub expected_version: u64,
    pub kind: ExpenseEventKind,
    pub category: ExpenseCategory,
    pub duplicate_of_event_id: Option<String>,
    pub related_event_id: Option<String>,
    pub personal_amount_minor: Option<i64>,
    pub clear_personal_amount: bool,
    pub clear_related_event: bool,
    pub create_rule: bool,
}

/// Per-currency totals of a month.
#[derive(Debug, Clone, PartialEq, Eq)]
pub struct ExpenseCurrencySummary {
    pub currency: String,
    pub net_personal_spend_minor: i64,
    pub gross_purchase_minor: i64,
    pub refunds_minor: i64,
    pub settlement_received_minor: i64,
    pub settlement_sent_minor: i64,
    pub fees_minor: i64,
    pub unconfirmed_outflow_minor: i64,
    pub recurring_expected_minor: i64,
    pub recurring_paid_minor: i64,
    pub recurring_remaining_minor: i64,
}

#[derive(Debug, Clone, PartialEq, Eq)]
pub struct ExpenseCategoryTotal {
    pub category: ExpenseCategory,
    pub currency: String,
    pub amount_minor: i64,
}

#[derive(Debug, Clone, PartialEq, Eq)]
pub struct ExpenseDailyTotal {
    pub date: CivilDate,
    pub currency: String,
    pub amount_minor: i64,
}

#[derive(Debug, Clone, Copy, PartialEq, Eq)]
pub struct ExpenseDataCompleteness {
    pub active_source_count: u32,
    pub covered_source_count: u32,
    pub pending_review_count: u32,
    pub rejected_row_count: u32,
}

/// A recurring expense as the schedule reads it.
#[derive(Debug, Clone, PartialEq, Eq)]
pub struct RecurringExpenseItem {
    pub id: String,
    pub name: EncryptedExpenseText,
    pub category: ExpenseCategory,
    pub vendor: Option<EncryptedExpenseText>,
    pub amount_minor: i64,
    pub currency: String,
    pub payment_method_fingerprint: Option<String>,
    pub start_date: CivilDate,
    pub end_date: Option<CivilDate>,
    pub memo: Option<EncryptedExpenseText>,
    pub reminder_days: u8,
    pub amount_kind: RecurringAmountKind,
    pub interval_months: u8,
    pub due_rule: RecurringDueRule,
    pub due_day: Option<u8>,
    pub status: RecurringExpenseStatus,
    pub auto_match_enabled: bool,
    pub created_at: String,
    pub updated_at: String,
    pub version: u64,
}

#[derive(Debug, Clone, PartialEq, Eq)]
pub struct CreateRecurringExpenseInput {
    pub id: String,
    pub name: EncryptedExpenseText,
    pub category: ExpenseCategory,
    pub vendor: Option<EncryptedExpenseText>,
    pub amount_minor: i64,
    pub currency: String,
    pub payment_method_fingerprint: Option<String>,
    pub start_date: CivilDate,
    pub end_date: Option<CivilDate>,
    pub memo: Option<EncryptedExpenseText>,
    pub reminder_days: u8,
    pub amount_kind: RecurringAmountKind,
    pub interval_months: u8,
    pub due_rule: RecurringDueRule,
    pub due_day: Option<u8>,
    pub status: RecurringExpenseStatus,
}

#[derive(Debug, Clone, PartialEq, Eq)]
pub struct ConfirmRecurringPaidInput {
    pub expected_version: u64,
    pub amount_minor: Option<i64>,
    pub paid_date: Option<CivilDate>,
}

#[derive(Debug, Clone, PartialEq, Eq)]
pub struct MatchRecurringExpenseInput {
    pub expected_version: u64,
    pub event_id: String,
    pub enable_future_auto_match: bool,
}

#[derive(Debug, Clone, PartialEq, Eq)]
pub struct ExpenseReportFact {
    pub fact_id: String,
    pub metric: String,
    pub currency: String,
    pub amount_minor: i64,
}

#[derive(Debug, Clone, PartialEq, Eq)]
pub struct ExpenseReportObservation {
    pub text: String,
    pub fact_ids: Vec<String>,
}

#[derive(Debug, Clone, PartialEq, Eq)]
pub struct SaveExpenseReportInput {
    pub month_start: CivilDate,
    pub aggregate_sha256: String,
    pub prompt_version: String,
    pub model: String,
    pub title: String,
    pub summary: String,
    pub facts: Vec<ExpenseReportFact>,
    pub observations: Vec<ExpenseReportObservation>,
    pub alerts: Vec<ExpenseReportObservation>,
    pub next_month_checks: Vec<String>,
    pub input_tokens: u64,
    pub cached_input_tokens: u64,
    pub output_tokens: u64,
    pub total_tokens: u64,
    pub cost_microusd: u64,
    pub latency_ms: u64,
}

/// Whether a first expense key may be created: only for an empty ledger with no key yet.
#[derive(Debug, Clone, Copy, PartialEq, Eq, Structural)]
pub struct ExpenseKeyInitializationStatus {
    pub ledger_empty: bool,
    pub key_initialized: bool,
    pub key_initialization_allowed: bool,
}

} // verus!
