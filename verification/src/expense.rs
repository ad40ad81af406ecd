use vstd::prelude::*;
use vstd::string::*;
use vstd::utf8::encode_utf8;

use crate::error::{broken, invalid, invalid_field, Error};
use crate::expense_types::{
    EncryptedExpenseText, ExpenseCategory, ExpenseCryptoProbe, ExpenseDirection,
    ExpenseEventKind, ExpenseEventStatus, ExpenseKeyInitializationStatus,
    OverrideExpenseTransactionInput, RecurringExpenseStatus, ResolveExpenseReviewInput,
    UpdateExpenseSourceStatusInput,
};
use crate::text::{chars_of, is_control, is_control_char, string_of};

verus! {

/// Most rows one import may carry, rejected rows included.
pub const MAX_IMPORT_ROWS: usize = 5_000;

/// Largest page of transactions or reviews.
pub const MAX_PAGE_SIZE: u32 = 200;

/// Largest amount, in minor units, that stays exact in a JSON number.
pub const MAX_SAFE_AMOUNT_MINOR: i64 = 9_007_199_254_740_991;

/// The associated-data prefix shared by every encrypted expense field.
pub open spec fn aad_prefix() -> Seq<char> {
    "tm-expense:v1:"@
}

/// The associated data of the key probe.
pub open spec fn probe_aad() -> Seq<char> {
    "tm-expense:v1:crypto-probe:value"@
}

/// The associated data that binds an encrypted field to its record and field name.
pub open spec fn text_aad(record_context: Seq<char>, field: Seq<char>) -> Seq<char> {
    aad_prefix() + record_context + ":"@ + field
}

/// Builds the stable associated-data convention shared by every encryption caller.
/// `record_context` must itself be an opaque identifier or fingerprint, never plaintext.
pub fn expense_text_aad(record_context: &str, field: &str) -> (aad: String)
    ensures
        aad@ == text_aad(record_context@, field@),
{
    "tm-expense:v1:".to_owned().concat(record_context).concat(":").concat(field)
}

/// The page size used when a filter names none.
pub fn default_page_size() -> (n: u32)
    ensures
        n == 50,
{
    50
}

/// The reminder window used when a recurring expense names none.
pub fn default_reminder_days() -> (n: u8)
    ensures
        n == 7,
{
    7
}

/// The interval used when a recurring expense names none.
pub fn default_interval_months() -> (n: u8)
    ensures
        n == 1,
{
    1
}

/// The state of a new recurring expense when none is named.
pub fn default_recurring_status() -> (s: RecurringExpenseStatus)
    ensures
        s == RecurringExpenseStatus::Active,
{
    RecurringExpenseStatus::Active
}

/// The key version of an optional encrypted field.
pub fn envelope_key_version(value: &Option<EncryptedExpenseText>) -> (v: Option<u32>)
    ensures
        v == match value {
            Some(item) => Some(item.key_version),
            None => None::<u32>,
        },
{
    match value {
        Some(item) => Some(item.key_version),
        None => None,
    }
}

/// A text with between `minimum` and `maximum` characters.
pub open spec fn bounded_text_ok(value: Seq<char>, minimum: int, maximum: int) -> bool {
    minimum <= value.len() <= maximum
}

/// Checks the character count of a text.
pub fn validate_bounded_text(name: &str, value: &str, minimum: usize, maximum: usize) -> (r:
    Result<(), Error>)
    ensures
        r is Ok <==> bounded_text_ok(value@, minimum as int, maximum as int),
        r is Err ==> r->Err_0 is Invalid,
{
    let length = value.unicode_len();
    if length < minimum || length > maximum {
        return Err(invalid_field(name, " has the wrong number of characters"));
    }
    Ok(())
}

/// A label: 1 to `maximum` characters and no control character.
pub open spec fn label_ok(value: Seq<char>, maximum: int) -> bool {
    bounded_text_ok(value, 1, maximum) && forall|i: int|
        0 <= i < value.len() ==> !is_control_char(#[trigger] value[i])
}

/// Checks a label.
pub fn validate_label(name: &str, value: &str, maximum: usize) -> (r: Result<(), Error>)
    ensures
        r is Ok <==> label_ok(value@, maximum as int),
        r is Err ==> r->Err_0 is Invalid,
{
    validate_bounded_text(name, value, 1, maximum)?;
    let chars = chars_of(value);
    let mut i: usize = 0;
    while i < chars.len()
        invariant
            0 <= i <= chars@.len(),
            chars@ == value@,
            forall|k: int| 0 <= k < i ==> !is_control_char(#[trigger] chars@[k]),
        decreases chars@.len() - i,
    {
        if is_control(chars[i]) {
            return Err(invalid_field(name, " cannot contain control characters"));
        }
        i = i + 1;
    }
    Ok(())
}

/// A lowercase hexadecimal byte.
pub open spec fn lower_hex_byte(b: u8) -> bool {
    (0x30 <= b <= 0x39) || (0x61 <= b <= 0x66)
}

/// Exactly 64 lowercase hexadecimal bytes.
pub open spec fn lower_sha256_ok(bytes: Seq<u8>) -> bool {
    bytes.len() == 64 && forall|i: int| 0 <= i < bytes.len() ==> lower_hex_byte(#[trigger] bytes[i])
}

/// Checks a SHA-256 digest written in lowercase hexadecimal.
pub fn validate_sha256(name: &str, value: &str) -> (r: Result<(), Error>)
    ensures
        r is Ok <==> lower_sha256_ok(value.spec_bytes()),
        r is Err ==> r->Err_0 is Invalid,
{
    let bytes = value.as_bytes();
    if bytes.len() != 64 {
        return Err(invalid_field(name, " must be exactly 64 lowercase hexadecimal characters"));
    }
    let mut i: usize = 0;
    while i < bytes.len()
        invariant
            0 <= i <= bytes@.len(),
            bytes@ == value.spec_bytes(),
            forall|k: int| 0 <= k < i ==> lower_hex_byte(#[trigger] bytes@[k]),
        decreases bytes@.len() - i,
    {
        let b = bytes[i];
        if !((0x30 <= b && b <= 0x39) || (0x61 <= b && b <= 0x66)) {
            return Err(
                invalid_field(name, " must be exactly 64 lowercase hexadecimal characters"),
            );
        }
        i = i + 1;
    }
    Ok(())
}

/// Checks that an amount lies between 1 and the safe maximum.
pub fn validate_amount_minor(name: &str, value: i64) -> (r: Result<(), Error>)
    ensures
        r is Ok <==> 0 < value <= MAX_SAFE_AMOUNT_MINOR,
        r is Err ==> r->Err_0 is Invalid,
{
    if value <= 0 || value > MAX_SAFE_AMOUNT_MINOR {
        return Err(invalid_field(name, " must be between 1 and the safe maximum"));
    }
    Ok(())
}

/// Three uppercase ASCII letters.
pub open spec fn currency_ok(bytes: Seq<u8>) -> bool {
    bytes.len() == 3 && forall|i: int| 0 <= i < 3 ==> 0x41 <= #[trigger] bytes[i] <= 0x5A
}

/// Checks a three-letter uppercase currency code.
pub fn validate_currency(value: &str) -> (r: Result<(), Error>)
    ensures
        r is Ok <==> currency_ok(value.spec_bytes()),
        r is Err ==> r->Err_0 is Invalid,
{
    let bytes = value.as_bytes();
    if bytes.len() != 3 {
        return Err(invalid("expense currency must be a three-letter uppercase ISO code"));
    }
    let mut i: usize = 0;
    while i < 3
        invariant
            0 <= i <= 3,
            bytes@.len() == 3,
            bytes@ == value.spec_bytes(),
            forall|k: int| 0 <= k < i ==> 0x41 <= #[trigger] bytes@[k] <= 0x5A,
        decreases 3 - i,
    {
        if !(0x41 <= bytes[i] && bytes[i] <= 0x5A) {
            return Err(invalid("expense currency must be a three-letter uppercase ISO code"));
        }
        i = i + 1;
    }
    Ok(())
}

/// Checks a page size and returns it.
pub fn validate_page_limit(value: u32) -> (r: Result<u32, Error>)
    ensures
        r is Ok <==> 1 <= value <= MAX_PAGE_SIZE,
        r matches Ok(v) ==> v == value,
        r is Err ==> r->Err_0 is Invalid,
{
    if value == 0 || value > MAX_PAGE_SIZE {
        return Err(invalid("expense page limit must be between 1 and 200"));
    }
    Ok(value)
}

/// Converts a stored counter to a signed integer.
pub fn as_i64(value: u64, name: &str) -> (r: Result<i64, Error>)
    ensures
        r is Ok <==> value <= i64::MAX,
        r matches Ok(v) ==> v == value,
        r is Err ==> r->Err_0 is Invalid,
{
    if value > i64::MAX as u64 {
        return Err(invalid_field(name, " is too large"));
    }
    Ok(value as i64)
}

/// The rules an encrypted field must meet.
pub open spec fn encrypted_text_ok(value: EncryptedExpenseText) -> bool {
    &&& value.key_version != 0
    &&& bounded_text_ok(value.nonce@, 16, 128)
    &&& bounded_text_ok(value.ciphertext@, 16, 100_000)
    &&& bounded_text_ok(value.aad@, 1, 512)
    &&& aad_prefix().is_prefix_of(value.aad@)
    &&& lower_sha256_ok(encode_utf8(value.blind_index@))
}

/// Checks an encrypted field: key version, nonce, ciphertext, associated-data prefix
/// and blind index.
pub fn validate_encrypted_text(name: &str, value: &EncryptedExpenseText) -> (r: Result<(), Error>)
    ensures
        r is Ok <==> encrypted_text_ok(*value),
        r is Err ==> r->Err_0 is Invalid,
{
    if value.key_version == 0 {
        return Err(invalid_field(name, " key version must be positive"));
    }
    validate_bounded_text(name, value.nonce.as_str(), 16, 128)?;
    validate_bounded_text(name, value.ciphertext.as_str(), 16, 100_000)?;
    validate_bounded_text(name, value.aad.as_str(), 1, 512)?;
    if !starts_with_aad_prefix(value.aad.as_str()) {
        return Err(invalid_field(name, " AAD must use the expense context prefix"));
    }
    validate_sha256(name, value.blind_index.as_str())
}

/// Whether a text begins with the expense associated-data prefix.
pub fn starts_with_aad_prefix(value: &str) -> (r: bool)
    ensures
        r == aad_prefix().is_prefix_of(value@),
{
    let prefix = "tm-expense:v1:";
    proof {
        reveal_strlit("tm-expense:v1:");
    }
    let p = chars_of(prefix);
    let v = chars_of(value);
    if v.len() < p.len() {
        return false;
    }
    let mut i: usize = 0;
    while i < p.len()
        invariant
            0 <= i <= p@.len(),
            p@ == aad_prefix(),
            v@ == value@,
            p@.len() <= v@.len(),
            forall|k: int| 0 <= k < i ==> p@[k] == v@[k],
        decreases p@.len() - i,
    {
        if p[i] != v[i] {
            return false;
        }
        i = i + 1;
    }
    true
}

/// The rules the key probe must meet.
pub open spec fn crypto_probe_ok(probe: ExpenseCryptoProbe) -> bool {
    &&& probe.key_version != 0
    &&& bounded_text_ok(probe.nonce@, 16, 128)
    &&& bounded_text_ok(probe.ciphertext@, 16, 4096)
    &&& probe.aad@ == probe_aad()
}

/// Checks the key probe, which must use the fixed probe associated data.
pub fn validate_crypto_probe(probe: &ExpenseCryptoProbe) -> (r: Result<(), Error>)
    ensures
        r is Ok <==> crypto_probe_ok(*probe),
        r is Err ==> r->Err_0 is Invalid,
{
    if probe.key_version == 0 {
        return Err(invalid("expense crypto probe key version must be positive"));
    }
    validate_bounded_text("expense crypto probe nonce", probe.nonce.as_str(), 16, 128)?;
    validate_bounded_text("expense crypto probe ciphertext", probe.ciphertext.as_str(), 16, 4096)?;
    if !crate::text::str_eq(probe.aad.as_str(), "tm-expense:v1:crypto-probe:value") {
        return Err(invalid("expense crypto probe AAD must be tm-expense:v1:crypto-probe:value"));
    }
    Ok(())
}

/// Whether a first expense key may be created, from whether a key probe exists and
/// whether any expense state is stored.
pub fn key_initialization_status(key_initialized: bool, has_ledger_state: bool) -> (s:
    ExpenseKeyInitializationStatus)
    ensures
        s.ledger_empty == !has_ledger_state,
        s.key_initialized == key_initialized,
        s.key_initialization_allowed == (!has_ledger_state && !key_initialized),
{
    let ledger_empty = !has_ledger_state;
    ExpenseKeyInitializationStatus {
        ledger_empty,
        key_initialized,
        key_initialization_allowed: ledger_empty && !key_initialized,
    }
}


/// The cursor of a transaction page: its timestamp, `|`, and its identifier.
pub open spec fn cursor_text(timestamp: Seq<char>, id: Seq<char>) -> Seq<char> {
    timestamp + seq!['|'] + id
}

/// Writes a page cursor.
pub fn encode_cursor(timestamp: &str, id: &str) -> (c: String)
    ensures
        c@ == cursor_text(timestamp@, id@),
{
    let c = timestamp.to_owned().concat("|").concat(id);
    proof {
        reveal_strlit("|");
        assert("|"@ =~= seq!['|']);
    }
    c
}

/// Whether `i` is the position of the first `c` in `s`.
pub open spec fn first_at(s: Seq<char>, c: char, i: int) -> bool {
    0 <= i < s.len() && s[i] == c && forall|j: int| 0 <= j < i ==> s[j] != c
}

/// The position of the first `c` in a character vector, if any.
pub fn find_char(v: &Vec<char>, c: char) -> (r: Option<usize>)
    ensures
        match r {
            Some(i) => first_at(v@, c, i as int),
            None => forall|j: int| 0 <= j < v@.len() ==> v@[j] != c,
        },
{
    let mut i: usize = 0;
    while i < v.len()
        invariant
            0 <= i <= v@.len(),
            forall|j: int| 0 <= j < i ==> v@[j] != c,
        decreases v@.len() - i,
    {
        if v[i] == c {
            return Some(i);
        }
        i = i + 1;
    }
    None
}

/// The characters of `v` from `start` up to `end`, as a string.
pub fn substring(v: &Vec<char>, start: usize, end: usize) -> (s: String)
    requires
        start <= end <= v@.len(),
    ensures
        s@ == v@.subrange(start as int, end as int),
{
    let mut out: Vec<char> = Vec::new();
    let mut k: usize = start;
    while k < end
        invariant
            start <= k <= end <= v@.len(),
            out@ == v@.subrange(start as int, k as int),
        decreases end - k,
    {
        out.push(v[k]);
        k = k + 1;
        assert(out@ =~= v@.subrange(start as int, k as int));
    }
    string_of(out.as_slice())
}

/// When a cursor is accepted: at most 512 bytes, split at its first `|` into a
/// timestamp and an identifier that are both labels of at most 128 characters.
pub open spec fn cursor_accepted(value: Seq<char>, i: int) -> bool {
    &&& encode_utf8(value).len() <= 512
    &&& first_at(value, '|', i)
    &&& label_ok(value.subrange(0, i), 128)
    &&& label_ok(value.subrange(i + 1, value.len() as int), 128)
}

/// Reads an optional page cursor into its timestamp and identifier.
pub fn parse_cursor(value: Option<&str>) -> (r: Result<(Option<String>, Option<String>), Error>)
    ensures
        value is None ==> r == Ok::<(Option<String>, Option<String>), Error>((None, None)),
        value matches Some(v) ==> match r {
            Ok((Some(t), Some(id))) => exists|i: int|
                cursor_accepted(v@, i) && t@ == v@.subrange(0, i) && id@ == v@.subrange(
                    i + 1,
                    v@.len() as int,
                ),
            Ok(_) => false,
            Err(e) => e is Invalid && forall|i: int| !cursor_accepted(v@, i),
        },
{
    let value = match value {
        None => return Ok((None, None)),
        Some(v) => v,
    };
    if value.as_bytes().len() > 512 {
        return Err(invalid("expense cursor is too long"));
    }
    let chars = chars_of(value);
    let bar = match find_char(&chars, '|') {
        Some(i) => i,
        None => return Err(invalid("expense cursor is invalid")),
    };
    let timestamp = substring(&chars, 0, bar);
    let id = substring(&chars, bar + 1, chars.len());
    match validate_label("expense cursor timestamp", timestamp.as_str(), 128) {
        Ok(()) => {},
        Err(e) => {
            assert forall|i: int| !cursor_accepted(value@, i) by {
                if first_at(value@, '|', i) && i != bar {
                    if i < bar {
                        assert(value@[i] != '|');
                    } else {
                        assert(chars@[bar as int] == '|');
                    }
                }
            }
            return Err(e);
        },
    }
    match validate_label("expense cursor ID", id.as_str(), 128) {
        Ok(()) => {},
        Err(e) => {
            assert forall|i: int| !cursor_accepted(value@, i) by {
                if first_at(value@, '|', i) && i != bar {
                    if i < bar {
                        assert(value@[i] != '|');
                    } else {
                        assert(chars@[bar as int] == '|');
                    }
                }
            }
            return Err(e);
        },
    }
    assert(encode_utf8(value@).len() <= 512);
    assert(first_at(value@, '|', bar as int));
    assert(label_ok(value@.subrange(0, bar as int), 128));
    assert(label_ok(value@.subrange(bar + 1, value@.len() as int), 128));
    assert(cursor_accepted(value@, bar as int));
    Ok((Some(timestamp), Some(id)))
}

/// A written cursor reads back as the timestamp and identifier it was written from,
/// whenever the timestamp holds no `|` and both parts are valid labels.
pub proof fn lemma_cursor_round_trip(timestamp: Seq<char>, id: Seq<char>)
    requires
        forall|j: int| 0 <= j < timestamp.len() ==> timestamp[j] != '|',
        label_ok(timestamp, 128),
        label_ok(id, 128),
        encode_utf8(cursor_text(timestamp, id)).len() <= 512,
    ensures
        cursor_accepted(cursor_text(timestamp, id), timestamp.len() as int),
        cursor_text(timestamp, id).subrange(0, timestamp.len() as int) == timestamp,
        cursor_text(timestamp, id).subrange(
            timestamp.len() as int + 1,
            cursor_text(timestamp, id).len() as int,
        ) == id,
        forall|i: int|
            #![trigger first_at(cursor_text(timestamp, id), '|', i)]
            first_at(cursor_text(timestamp, id), '|', i) ==> i == timestamp.len(),
{
    let c = cursor_text(timestamp, id);
    assert(c.subrange(0, timestamp.len() as int) =~= timestamp);
    assert(c.subrange(timestamp.len() as int + 1, c.len() as int) =~= id);
    assert(c[timestamp.len() as int] == '|');
    assert forall|i: int| #![trigger first_at(c, '|', i)] first_at(c, '|', i) implies i
        == timestamp.len() by {
        if i < timestamp.len() {
            assert(c[i] == timestamp[i]);
        }
    }
}


/// How an imported event starts out: its status, the reason it is excluded from
/// spending (if it is), and its category.
pub open spec fn initial_classification(kind: ExpenseEventKind, hint: Option<ExpenseCategory>) -> (
    ExpenseEventStatus,
    Option<Seq<char>>,
    ExpenseCategory,
) {
    match kind {
        ExpenseEventKind::CardPayment => (
            ExpenseEventStatus::Excluded,
            Some("card_payment"@),
            ExpenseCategory::TransferSettlement,
        ),
        ExpenseEventKind::WalletTopup => (
            ExpenseEventStatus::Excluded,
            Some("wallet_topup"@),
            ExpenseCategory::TransferSettlement,
        ),
        ExpenseEventKind::InternalTransfer => (
            ExpenseEventStatus::Excluded,
            Some("internal_transfer"@),
            ExpenseCategory::TransferSettlement,
        ),
        ExpenseEventKind::UnknownP2p | ExpenseEventKind::ExternalTransfer => (
            ExpenseEventStatus::Unconfirmed,
            None,
            ExpenseCategory::Unconfirmed,
        ),
        ExpenseEventKind::Refund => (
            ExpenseEventStatus::Confirmed,
            None,
            match hint {
                Some(c) => c,
                None => ExpenseCategory::RefundIncome,
            },
        ),
        ExpenseEventKind::SettlementReceived | ExpenseEventKind::SettlementSent => (
            ExpenseEventStatus::Confirmed,
            None,
            ExpenseCategory::TransferSettlement,
        ),
        ExpenseEventKind::Fee => (
            ExpenseEventStatus::Confirmed,
            None,
            match hint {
                Some(c) => c,
                None => ExpenseCategory::InsuranceFinanceTax,
            },
        ),
        ExpenseEventKind::Purchase | ExpenseEventKind::ManualRecurring => (
            ExpenseEventStatus::Confirmed,
            None,
            match hint {
                Some(c) => c,
                None => ExpenseCategory::Other,
            },
        ),
    }
}

/// The starting status, exclusion reason and category of an imported event.
pub fn initial_event_classification(kind: ExpenseEventKind, category_hint: Option<ExpenseCategory>) -> (r: (
    ExpenseEventStatus,
    Option<&'static str>,
    ExpenseCategory,
))
    ensures
        ({
            let want = initial_classification(kind, category_hint);
            &&& r.0 == want.0
            &&& r.2 == want.2
            &&& match (r.1, want.1) {
                (Some(a), Some(b)) => a@ == b,
                (None, None) => true,
                _ => false,
            }
        }),
{
    match kind {
        ExpenseEventKind::CardPayment => (
            ExpenseEventStatus::Excluded,
            Some("card_payment"),
            ExpenseCategory::TransferSettlement,
        ),
        ExpenseEventKind::WalletTopup => (
            ExpenseEventStatus::Excluded,
            Some("wallet_topup"),
            ExpenseCategory::TransferSettlement,
        ),
        ExpenseEventKind::InternalTransfer => (
            ExpenseEventStatus::Excluded,
            Some("internal_transfer"),
            ExpenseCategory::TransferSettlement,
        ),
        ExpenseEventKind::UnknownP2p | ExpenseEventKind::ExternalTransfer => (
            ExpenseEventStatus::Unconfirmed,
            None,
            ExpenseCategory::Unconfirmed,
        ),
        ExpenseEventKind::Refund => (
            ExpenseEventStatus::Confirmed,
            None,
            match category_hint {
                Some(c) => c,
                None => ExpenseCategory::RefundIncome,
            },
        ),
        ExpenseEventKind::SettlementReceived | ExpenseEventKind::SettlementSent => (
            ExpenseEventStatus::Confirmed,
            None,
            ExpenseCategory::TransferSettlement,
        ),
        ExpenseEventKind::Fee => (
            ExpenseEventStatus::Confirmed,
            None,
            match category_hint {
                Some(c) => c,
                None => ExpenseCategory::InsuranceFinanceTax,
            },
        ),
        ExpenseEventKind::Purchase | ExpenseEventKind::ManualRecurring => (
            ExpenseEventStatus::Confirmed,
            None,
            match category_hint {
                Some(c) => c,
                None => ExpenseCategory::Other,
            },
        ),
    }
}

/// Which money directions an event kind may have.
pub open spec fn kind_accepts_direction(kind: ExpenseEventKind, direction: ExpenseDirection) -> bool {
    match kind {
        ExpenseEventKind::Purchase | ExpenseEventKind::Fee | ExpenseEventKind::CardPayment
        | ExpenseEventKind::WalletTopup | ExpenseEventKind::SettlementSent => direction is Debit,
        ExpenseEventKind::Refund | ExpenseEventKind::SettlementReceived => direction is Credit,
        ExpenseEventKind::InternalTransfer | ExpenseEventKind::ExternalTransfer
        | ExpenseEventKind::UnknownP2p => true,
        ExpenseEventKind::ManualRecurring => false,
    }
}

/// Whether an event kind may move money in the given direction.
pub fn expense_kind_accepts_direction(kind: ExpenseEventKind, direction: ExpenseDirection) -> (r:
    bool)
    ensures
        r == kind_accepts_direction(kind, direction),
{
    match kind {
        ExpenseEventKind::Purchase | ExpenseEventKind::Fee | ExpenseEventKind::CardPayment
        | ExpenseEventKind::WalletTopup | ExpenseEventKind::SettlementSent => direction
            == ExpenseDirection::Debit,
        ExpenseEventKind::Refund | ExpenseEventKind::SettlementReceived => direction
            == ExpenseDirection::Credit,
        ExpenseEventKind::InternalTransfer | ExpenseEventKind::ExternalTransfer
        | ExpenseEventKind::UnknownP2p => true,
        ExpenseEventKind::ManualRecurring => false,
    }
}

/// Applies a stored classification rule to a row moving money in `direction`: the
/// stored kind and category are read back, and the rule applies only when the kind
/// accepts the direction.
pub fn classification_rule_outcome(
    stored_kind: &str,
    stored_category: &str,
    direction: ExpenseDirection,
) -> (r: Result<Option<(ExpenseEventKind, ExpenseCategory)>, Error>)
    ensures
        match r {
            Ok(Some((kind, category))) => kind.name() == stored_kind@ && category.name()
                == stored_category@ && kind_accepts_direction(kind, direction),
            Ok(None) => exists|kind: ExpenseEventKind, category: ExpenseCategory|
                kind.name() == stored_kind@ && category.name() == stored_category@
                    && !kind_accepts_direction(kind, direction),
            Err(e) => e is Invariant && ((forall|k: ExpenseEventKind| k.name() != stored_kind@)
                || (forall|c: ExpenseCategory| c.name() != stored_category@)),
        },
{
    let kind = ExpenseEventKind::parse(stored_kind)?;
    let category = ExpenseCategory::parse(stored_category)?;
    if !expense_kind_accepts_direction(kind, direction) {
        return Ok(None);
    }
    Ok(Some((kind, category)))
}

/// The rules a review decision must meet.
pub open spec fn review_resolution_ok(
    kind: ExpenseEventKind,
    category: ExpenseCategory,
    duplicate_of: Option<String>,
    related: Option<String>,
) -> bool {
    &&& !(kind is UnknownP2p || kind is ExternalTransfer || kind is ManualRecurring)
    &&& !(category is Unconfirmed)
    &&& (duplicate_of matches Some(d) ==> label_ok(d@, 128))
    &&& (related matches Some(d) ==> label_ok(d@, 128))
}

/// Checks a review decision: it must settle the event's meaning, cannot invent a manual
/// recurring event, and cannot leave it unconfirmed.
pub fn validate_review_resolution(input: &ResolveExpenseReviewInput) -> (r: Result<(), Error>)
    ensures
        r is Ok <==> review_resolution_ok(
            input.kind,
            input.category,
            input.duplicate_of_event_id,
            input.related_event_id,
        ),
        r is Err ==> r->Err_0 is Invalid,
{
    check_resolution(
        input.kind,
        input.category,
        &input.duplicate_of_event_id,
        &input.related_event_id,
    )
}

fn check_resolution(
    kind: ExpenseEventKind,
    category: ExpenseCategory,
    duplicate_of: &Option<String>,
    related: &Option<String>,
) -> (r: Result<(), Error>)
    ensures
        r is Ok <==> review_resolution_ok(kind, category, *duplicate_of, *related),
        r is Err ==> r->Err_0 is Invalid,
{
    if matches!(
        kind,
        ExpenseEventKind::UnknownP2p | ExpenseEventKind::ExternalTransfer
            | ExpenseEventKind::ManualRecurring
    ) {
        return Err(
            invalid(
                "a resolved expense decision cannot remain an unknown transfer or create a manual recurring event",
            ),
        );
    }
    if category == ExpenseCategory::Unconfirmed {
        return Err(invalid("the unconfirmed category is reserved for unresolved transfers"));
    }
    if let Some(value) = duplicate_of {
        validate_label("duplicate expense event ID", value.as_str(), 128)?;
    }
    if let Some(value) = related {
        validate_label("related expense event ID", value.as_str(), 128)?;
    }
    Ok(())
}

/// The rules a manual override must meet.
pub open spec fn override_ok(event_id: Seq<char>, input: OverrideExpenseTransactionInput) -> bool {
    &&& label_ok(event_id, 128)
    &&& input.expected_version != 0
    &&& !(input.clear_personal_amount && input.personal_amount_minor is Some)
    &&& !(input.clear_related_event && input.related_event_id is Some)
    &&& review_resolution_ok(
        input.kind,
        input.category,
        input.duplicate_of_event_id,
        input.related_event_id,
    )
}

/// Checks a manual override of an event.
pub fn validate_expense_transaction_override(
    event_id: &str,
    input: &OverrideExpenseTransactionInput,
) -> (r: Result<(), Error>)
    ensures
        r is Ok <==> override_ok(event_id@, *input),
        r is Err ==> r->Err_0 is Invalid,
{
    validate_label("expense event ID", event_id, 128)?;
    if input.expected_version == 0 {
        return Err(invalid("expense event expected version must be positive"));
    }
    if input.clear_personal_amount && input.personal_amount_minor.is_some() {
        return Err(
            invalid("personalAmountMinor and clearPersonalAmount cannot be used together"),
        );
    }
    if input.clear_related_event && input.related_event_id.is_some() {
        return Err(invalid("relatedEventId and clearRelatedEvent cannot be used together"));
    }
    check_resolution(
        input.kind,
        input.category,
        &input.duplicate_of_event_id,
        &input.related_event_id,
    )
}

/// Checks an update of a source's reporting flags.
pub fn validate_expense_source_status_update(
    source_id: &str,
    input: &UpdateExpenseSourceStatusInput,
) -> (r: Result<(), Error>)
    ensures
        r is Ok <==> label_ok(source_id@, 128) && input.expected_version != 0,
        r is Err ==> r->Err_0 is Invalid,
{
    validate_label("expense source ID", source_id, 128)?;
    if input.expected_version == 0 {
        return Err(invalid("expense source expected version must be positive"));
    }
    Ok(())
}

/// Adds to a running financial total; a total that would leave the `i128` range is refused.
pub fn add_financial_aggregate(target: &mut i128, value: i128, name: &str) -> (r: Result<
    (),
    Error,
>)
    ensures
        r is Ok <==> i128::MIN <= *old(target) + value <= i128::MAX,
        r is Ok ==> *final(target) == *old(target) + value,
        r is Err ==> r->Err_0 is Invariant && *final(target) == *old(target),
{
    match target.checked_add(value) {
        Some(sum) => {
            *target = sum;
            Ok(())
        },
        None => Err(broken("expense aggregate overflowed")),
    }
}

/// Converts a total to a reported amount, which must stay within the safe range.
pub fn safe_summary_amount(name: &str, value: i128) -> (r: Result<i64, Error>)
    ensures
        r is Ok <==> -MAX_SAFE_AMOUNT_MINOR <= value <= MAX_SAFE_AMOUNT_MINOR,
        r matches Ok(v) ==> v == value,
        r is Err ==> r->Err_0 is Invariant,
{
    if value < -(MAX_SAFE_AMOUNT_MINOR as i128) || value > MAX_SAFE_AMOUNT_MINOR as i128 {
        return Err(broken("expense aggregate exceeds the safe amountMinor range"));
    }
    Ok(value as i64)
}

} // verus!
