use vstd::prelude::*;
use vstd::string::*;

verus! {

/// Unicode `White_Space`: the code points that `char::is_whitespace` accepts.
pub open spec fn is_space_char(c: char) -> bool {
    let v = c as u32;
    (0x09 <= v <= 0x0D) || v == 0x20 || v == 0x85 || v == 0xA0 || v == 0x1680 || (0x2000 <= v
        <= 0x200A) || v == 0x2028 || v == 0x2029 || v == 0x202F || v == 0x205F || v == 0x3000
}

/// Whether a character is Unicode white space.
pub fn is_space(c: char) -> (b: bool)
    ensures
        b == is_space_char(c),
{
    let v = c as u32;
    (0x09 <= v && v <= 0x0D) || v == 0x20 || v == 0x85 || v == 0xA0 || v == 0x1680 || (0x2000
        <= v && v <= 0x200A) || v == 0x2028 || v == 0x2029 || v == 0x202F || v == 0x205F || v
        == 0x3000
}

/// General category `Cc`: the characters `char::is_control` accepts.
pub open spec fn is_control_char(c: char) -> bool {
    let v = c as u32;
    v <= 0x1F || (0x7F <= v <= 0x9F)
}

/// Whether a character is a control character.
pub fn is_control(c: char) -> (b: bool)
    ensures
        b == is_control_char(c),
{
    let v = c as u32;
    v <= 0x1F || (0x7F <= v && v <= 0x9F)
}

pub open spec fn is_digit_char(c: char) -> bool {
    '0' <= c <= '9'
}

pub open spec fn is_upper_char(c: char) -> bool {
    'A' <= c <= 'Z'
}

pub open spec fn is_lower_char(c: char) -> bool {
    'a' <= c <= 'z'
}

pub open spec fn is_alnum_char(c: char) -> bool {
    is_digit_char(c) || is_upper_char(c) || is_lower_char(c)
}

pub open spec fn is_hex_char(c: char) -> bool {
    is_digit_char(c) || ('a' <= c <= 'f') || ('A' <= c <= 'F')
}

pub open spec fn is_digit_byte(b: u8) -> bool {
    0x30 <= b <= 0x39
}

pub open spec fn is_upper_byte(b: u8) -> bool {
    0x41 <= b <= 0x5A
}

pub open spec fn is_lower_byte(b: u8) -> bool {
    0x61 <= b <= 0x7A
}

pub open spec fn is_alnum_byte(b: u8) -> bool {
    is_digit_byte(b) || is_upper_byte(b) || is_lower_byte(b)
}

pub open spec fn is_hex_byte(b: u8) -> bool {
    is_digit_byte(b) || (0x61 <= b <= 0x66) || (0x41 <= b <= 0x46)
}

pub fn digit_byte(b: u8) -> (r: bool)
    ensures
        r == is_digit_byte(b),
{
    0x30 <= b && b <= 0x39
}

pub fn upper_byte(b: u8) -> (r: bool)
    ensures
        r == is_upper_byte(b),
{
    0x41 <= b && b <= 0x5A
}

pub fn alnum_byte(b: u8) -> (r: bool)
    ensures
        r == is_alnum_byte(b),
{
    (0x30 <= b && b <= 0x39) || (0x41 <= b && b <= 0x5A) || (0x61 <= b && b <= 0x7A)
}

pub fn hex_byte(b: u8) -> (r: bool)
    ensures
        r == is_hex_byte(b),
{
    (0x30 <= b && b <= 0x39) || (0x61 <= b && b <= 0x66) || (0x41 <= b && b <= 0x46)
}

pub fn digit_char(c: char) -> (r: bool)
    ensures
        r == is_digit_char(c),
{
    '0' <= c && c <= '9'
}

/// `char::to_ascii_uppercase`: lowercase ASCII letters map to uppercase, all else is kept.
pub open spec fn ascii_upper(c: char) -> char {
    if is_lower_char(c) {
        ((c as u32) - 32) as char
    } else {
        c
    }
}

/// `char::to_ascii_lowercase`: uppercase ASCII letters map to lowercase, all else is kept.
pub open spec fn ascii_lower(c: char) -> char {
    if is_upper_char(c) {
        ((c as u32) + 32) as char
    } else {
        c
    }
}

pub fn to_ascii_upper(c: char) -> (r: char)
    ensures
        r == ascii_upper(c),
{
    if 'a' <= c && c <= 'z' {
        ((c as u8) - 32) as char
    } else {
        c
    }
}


/// Equality of two texts, byte by byte: the UTF-8 encoding determines the characters.
pub(crate) fn str_eq(a: &str, b: &str) -> (r: bool)
    ensures
        r == (a@ == b@),
{
    let x = a.as_bytes();
    let y = b.as_bytes();
    proof {
        vstd::utf8::encode_utf8_decode_utf8(a@);
        vstd::utf8::encode_utf8_decode_utf8(b@);
    }
    if x.len() != y.len() {
        return false;
    }
    let mut i: usize = 0;
    while i < x.len()
        invariant
            x@ == vstd::utf8::encode_utf8(a@),
            y@ == vstd::utf8::encode_utf8(b@),
            x@.len() == y@.len(),
            0 <= i <= x@.len(),
            forall|j: int| 0 <= j < i ==> x@[j] == y@[j],
        decreases x@.len() - i,
    {
        if x[i] != y[i] {
            return false;
        }
        i = i + 1;
    }
    assert(x@ =~= y@);
    true
}

/// Equality of two owned strings by their characters.
pub fn same_text(a: &String, b: &String) -> (r: bool)
    ensures
        r == (a@ == b@),
{
    a.eq(b)
}

/// The characters of an optional string.
pub open spec fn opt_view(o: Option<String>) -> Option<Seq<char>> {
    match o {
        Some(s) => Some(s@),
        None => None,
    }
}

/// Equality of two optional strings by their characters.
pub fn same_optional_text(a: &Option<String>, b: &Option<String>) -> (r: bool)
    ensures
        r == (opt_view(*a) == opt_view(*b)),
{
    match (a, b) {
        (Some(x), Some(y)) => same_text(x, y),
        (None, None) => true,
        _ => false,
    }
}

/// The characters of a string, in order.
pub fn chars_of(s: &str) -> (v: Vec<char>)
    ensures
        v@ == s@,
{
    let mut v: Vec<char> = Vec::new();
    for c in it: s.chars()
        invariant
            v@ == it.seq().take(it.index() as int),
            it.seq() == s@,
    {
        v.push(c);
    }
    v
}

/// `String::push`: appends one character.
#[verifier::external_body]
pub(crate) fn push_char(s: &mut String, c: char)
    ensures
        final(s)@ == old(s)@.push(c),
{
    s.push(c);
}

/// A string holding exactly the given characters.
pub fn string_of(v: &[char]) -> (s: String)
    ensures
        s@ == v@,
{
    let mut s = String::new();
    let mut i: usize = 0;
    while i < v.len()
        invariant
            0 <= i <= v@.len(),
            s@ == v@.subrange(0, i as int),
        decreases v@.len() - i,
    {
        push_char(&mut s, v[i]);
        i = i + 1;
        assert(s@ =~= v@.subrange(0, i as int));
    }
    assert(v@.subrange(0, v@.len() as int) =~= v@);
    s
}

/// Drops leading white space.
pub open spec fn trim_start_seq(s: Seq<char>) -> Seq<char>
    decreases s.len(),
{
    if s.len() > 0 && is_space_char(s[0]) {
        trim_start_seq(s.drop_first())
    } else {
        s
    }
}

/// Drops trailing white space.
pub open spec fn trim_end_seq(s: Seq<char>) -> Seq<char>
    decreases s.len(),
{
    if s.len() > 0 && is_space_char(s.last()) {
        trim_end_seq(s.drop_last())
    } else {
        s
    }
}

/// `str::trim`: drops leading and trailing Unicode white space.
pub open spec fn trimmed(s: Seq<char>) -> Seq<char> {
    trim_end_seq(trim_start_seq(s))
}

/// The trimmed characters of a character sequence.
pub fn trim_chars(v: &Vec<char>) -> (r: Vec<char>)
    ensures
        r@ == trimmed(v@),
{
    let n = v.len();
    let mut i: usize = 0;
    assert(v@.subrange(0, n as int) =~= v@);
    while i < n && is_space(v[i])
        invariant
            0 <= i <= n,
            n == v@.len(),
            trim_start_seq(v@) == trim_start_seq(v@.subrange(i as int, n as int)),
        decreases n - i,
    {
        assert(v@.subrange(i as int, n as int).drop_first() =~= v@.subrange(i + 1, n as int));
        i = i + 1;
    }
    assert(trim_start_seq(v@) == v@.subrange(i as int, n as int));
    let mut j: usize = n;
    while j > i && is_space(v[j - 1])
        invariant
            i <= j <= n,
            n == v@.len(),
            trim_start_seq(v@) == v@.subrange(i as int, n as int),
            trim_end_seq(v@.subrange(i as int, n as int)) == trim_end_seq(
                v@.subrange(i as int, j as int),
            ),
        decreases j,
    {
        assert(v@.subrange(i as int, j as int).drop_last() =~= v@.subrange(i as int, j - 1));
        j = j - 1;
    }
    let mut r: Vec<char> = Vec::new();
    let mut k: usize = i;
    while k < j
        invariant
            i <= k <= j <= n,
            n == v@.len(),
            r@ == v@.subrange(i as int, k as int),
        decreases j - k,
    {
        r.push(v[k]);
        k = k + 1;
        assert(r@ =~= v@.subrange(i as int, k as int));
    }
    r
}

/// `str::trim` as an owned string.
pub fn trim(s: &str) -> (r: String)
    ensures
        r@ == trimmed(s@),
{
    let v = chars_of(s);
    let t = trim_chars(&v);
    string_of(t.as_slice())
}


/// The decimal digit character of a value below ten.
pub open spec fn digit_of(d: nat) -> char {
    ((d % 10) + 48) as char
}

/// The shortest decimal representation of a natural number, as `to_string` writes it.
pub open spec fn decimal(n: nat) -> Seq<char>
    decreases n,
{
    if n < 10 {
        seq![digit_of(n)]
    } else {
        decimal(n / 10).push(digit_of(n % 10))
    }
}

/// The decimal representation of a `u64`.
pub fn u64_to_decimal(n: u64) -> (s: String)
    ensures
        s@ == decimal(n as nat),
{
    let mut digits: Vec<char> = Vec::new();
    let mut m: u64 = n;
    assert(digits@.reverse() =~= Seq::<char>::empty());
    assert(decimal(n as nat) =~= decimal(m as nat) + digits@.reverse());
    while m >= 10
        invariant
            m <= n,
            decimal(n as nat) == decimal(m as nat) + digits@.reverse(),
        decreases m,
    {
        let d: u64 = m % 10;
        let c: char = ((d as u8) + 48) as char;
        assert(decimal(m as nat) == decimal((m / 10) as nat).push(c));
        let ghost before = digits@;
        digits.push(c);
        assert(digits@.reverse() =~= seq![c] + before.reverse());
        assert(decimal(m as nat) + before.reverse() =~= decimal((m / 10) as nat)
            + digits@.reverse());
        m = m / 10;
    }
    let c: char = ((m as u8) + 48) as char;
    assert(decimal(m as nat) == seq![c]);
    let ghost before = digits@;
    digits.push(c);
    assert(digits@.reverse() =~= seq![c] + before.reverse());
    assert(decimal(n as nat) =~= digits@.reverse());
    let mut out: Vec<char> = Vec::new();
    let mut i: usize = digits.len();
    while i > 0
        invariant
            i <= digits@.len(),
            out@ =~= digits@.subrange(i as int, digits@.len() as int).reverse(),
        decreases i,
    {
        i = i - 1;
        out.push(digits[i]);
        assert(out@ =~= digits@.subrange(i as int, digits@.len() as int).reverse());
    }
    assert(out@ =~= digits@.reverse());
    string_of(out.as_slice())
}

/// `n` written with at least `width` digits, zeros in front, as `{:0w}` writes it.
pub open spec fn zero_padded(n: nat, width: nat) -> Seq<char> {
    let d = decimal(n);
    if d.len() >= width {
        d
    } else {
        Seq::new((width - d.len()) as nat, |i: int| '0') + d
    }
}

/// A signed number as `{:0w}` writes it; the minus sign counts toward the width.
pub open spec fn signed_zero_padded(n: int, width: nat) -> Seq<char> {
    if n < 0 {
        seq!['-'] + zero_padded((-n) as nat, if width > 0 {
            (width - 1) as nat
        } else {
            0
        })
    } else {
        zero_padded(n as nat, width)
    }
}

/// `n` written with at least `width` digits.
pub fn padded_decimal(n: u64, width: usize) -> (s: String)
    ensures
        s@ == zero_padded(n as nat, width as nat),
{
    let digits = u64_to_decimal(n);
    let d = chars_of(digits.as_str());
    let mut out: Vec<char> = Vec::new();
    let mut k: usize = d.len();
    while k < width
        invariant
            d@ == decimal(n as nat),
            d@.len() <= k <= width || (k == d@.len() && width < k),
            out@ == Seq::new((k - d@.len()) as nat, |i: int| '0'),
        decreases width - k,
    {
        out.push('0');
        k = k + 1;
        assert(out@ =~= Seq::new((k - d@.len()) as nat, |i: int| '0'));
    }
    let mut i: usize = 0;
    let ghost zeros = out@;
    while i < d.len()
        invariant
            0 <= i <= d@.len(),
            out@ == zeros + d@.subrange(0, i as int),
        decreases d@.len() - i,
    {
        out.push(d[i]);
        i = i + 1;
        assert(out@ =~= zeros + d@.subrange(0, i as int));
    }
    assert(d@.subrange(0, d@.len() as int) == d@);
    proof {
        if d@.len() >= width {
            assert(zeros =~= Seq::<char>::empty());
            assert(out@ =~= d@);
        }
    }
    string_of(out.as_slice())
}

/// A signed number written as `{:0w}` writes it.
pub fn signed_padded_decimal(n: i64, width: usize) -> (s: String)
    ensures
        s@ == signed_zero_padded(n as int, width as nat),
{
    if n < 0 {
        let magnitude: u64 = if n == i64::MIN {
            0x8000_0000_0000_0000
        } else {
            (-n) as u64
        };
        let rest = padded_decimal(magnitude, if width > 0 { width - 1 } else { 0 });
        let mut out: Vec<char> = Vec::new();
        out.push('-');
        let r = chars_of(rest.as_str());
        let mut i: usize = 0;
        while i < r.len()
            invariant
                0 <= i <= r@.len(),
                out@ == seq!['-'] + r@.subrange(0, i as int),
            decreases r@.len() - i,
        {
            out.push(r[i]);
            i = i + 1;
            assert(out@ =~= seq!['-'] + r@.subrange(0, i as int));
        }
        assert(r@.subrange(0, r@.len() as int) == r@);
        string_of(out.as_slice())
    } else {
        padded_decimal(n as u64, width)
    }
}

/// The value of a string of decimal digits.
pub open spec fn digits_value(s: Seq<char>) -> nat
    decreases s.len(),
{
    if s.len() == 0 {
        0
    } else {
        digits_value(s.drop_last()) * 10 + ((s.last() as int - 48) as nat)
    }
}

/// Every character is a decimal digit.
pub open spec fn all_digits(s: Seq<char>) -> bool {
    forall|i: int| 0 <= i < s.len() ==> is_digit_char(#[trigger] s[i])
}

/// A text without its leading `+`, if it has one.
pub open spec fn unsigned_part(s: Seq<char>) -> Seq<char> {
    if s.len() > 0 && s[0] == '+' {
        s.drop_first()
    } else {
        s
    }
}

/// What `str::parse::<usize>` accepts: an optional `+`, then one or more digits, of a
/// value that fits `usize`; the value read.
pub open spec fn parsed_usize(s: Seq<char>) -> Option<nat> {
    let d = unsigned_part(s);
    if d.len() > 0 && all_digits(d) && digits_value(d) <= usize::MAX {
        Some(digits_value(d))
    } else {
        None
    }
}

/// A longer run of digits is worth at least as much as its prefix.
proof fn lemma_digits_value_grows(s: Seq<char>, k: int)
    requires
        0 <= k <= s.len(),
        all_digits(s),
    ensures
        digits_value(s.subrange(0, k)) <= digits_value(s),
    decreases s.len() - k,
{
    if k < s.len() {
        lemma_digits_value_grows(s, k + 1);
        let p = s.subrange(0, k + 1);
        assert(p.drop_last() =~= s.subrange(0, k));
        assert(is_digit_char(s[k]));
    }
    assert(s.subrange(0, s.len() as int) =~= s);
}

/// `str::parse::<usize>`.
pub fn parse_usize(value: &str) -> (r: Option<usize>)
    ensures
        r matches Some(v) ==> parsed_usize(value@) == Some(v as nat),
        r is None ==> parsed_usize(value@) is None,
{
    let chars = chars_of(value);
    let start: usize = if chars.len() > 0 && chars[0] == '+' { 1 } else { 0 };
    let ghost d = unsigned_part(value@);
    assert(d =~= chars@.subrange(start as int, chars@.len() as int));
    if start >= chars.len() {
        return None;
    }
    let mut total: usize = 0;
    let mut i: usize = start;
    while i < chars.len()
        invariant
            start <= i <= chars@.len(),
            chars@ == value@,
            d == chars@.subrange(start as int, chars@.len() as int),
            d == unsigned_part(value@),
            all_digits(chars@.subrange(start as int, i as int)),
            total == digits_value(chars@.subrange(start as int, i as int)),
        decreases chars@.len() - i,
    {
        let c = chars[i];
        let ghost prefix = chars@.subrange(start as int, i + 1);
        assert(prefix.drop_last() =~= chars@.subrange(start as int, i as int));
        if !('0' <= c && c <= '9') {
            proof {
                assert(d[i - start] == c);
                assert(!is_digit_char(d[i - start]));
                assert(!all_digits(d));
            }
            return None;
        }
        let digit: usize = ((c as u32) - 48) as usize;
        if total > (usize::MAX - digit) / 10 {
            proof {
                assert(prefix.last() == c);
                assert(digit == c as int - 48);
                assert(digits_value(prefix) == digits_value(prefix.drop_last()) * 10 + digit);
                assert(digits_value(prefix) == total * 10 + digit) by (nonlinear_arith)
                    requires
                        digits_value(prefix) == digits_value(prefix.drop_last()) * 10 + digit,
                        digits_value(prefix.drop_last()) == total,
                ;
                assert(total * 10 + digit > usize::MAX) by (nonlinear_arith)
                    requires
                        total > (usize::MAX - digit) / 10,
                        digit <= 9,
                ;
                if all_digits(d) {
                    assert(prefix =~= d.subrange(0, i + 1 - start));
                    lemma_digits_value_grows(d, i + 1 - start);
                    assert(digits_value(d) > usize::MAX);
                }
                assert(parsed_usize(value@) is None);
            }
            return None;
        }
        proof {
            assert(total * 10 + digit <= usize::MAX) by (nonlinear_arith)
                requires
                    total <= (usize::MAX - digit) / 10,
                    digit <= 9,
            ;
        }
        total = total * 10 + digit;
        i = i + 1;
        assert(all_digits(chars@.subrange(start as int, i as int)));
    }
    Some(total)
}

} // verus!
