//! The text of input records and output rows.
//!
//! An input record is a list of fields, `type, client, tx[, amount]`, each
//! given as its bytes with surrounding blanks already trimmed. Amounts are
//! decimals with at most four fractional digits, held as ten-thousandths.
use vstd::prelude::*;

use crate::process::Snapshot;
use crate::transaction::{Transaction, TransactionEnum};

verus! {

/// Why an input record could not be read.
#[derive(Clone, Copy, Debug, PartialEq, Eq, Structural)]
pub enum RecordError {
    /// The record has neither three nor four fields.
    InvalidLength,
    /// The type field names no transaction kind.
    InvalidType,
    /// The client field is not an integer that fits in `u16`.
    InvalidClient,
    /// The tx field is not an integer that fits in `u32`.
    InvalidTx,
    /// A deposit or withdrawal has no amount field.
    MissingAmount,
    /// The amount field is not a decimal with at most four fractional
    /// digits that fits in `u64` ten-thousandths.
    InvalidAmount,
}

pub open spec fn is_digit(b: u8) -> bool {
    48 <= b <= 57
}

pub open spec fn all_digits(s: Seq<u8>) -> bool {
    forall|i: int| 0 <= i < s.len() ==> is_digit(#[trigger] s[i])
}

/// The number that a string of decimal digits writes.
pub open spec fn digits_value(s: Seq<u8>) -> nat
    decreases s.len(),
{
    if s.len() == 0 {
        0
    } else {
        digits_value(s.drop_last()) * 10 + (s.last() - 48) as nat
    }
}

/// The value of an unsigned integer field, if it is one.
pub open spec fn uint_of(s: Seq<u8>) -> Option<nat> {
    if s.len() > 0 && all_digits(s) {
        Some(digits_value(s))
    } else {
        None
    }
}

/// How many digits follow the decimal point (0 when there is no point, or
/// when it is not followed by one to four characters).
pub open spec fn frac_len(s: Seq<u8>) -> int {
    if s.len() >= 2 && s[s.len() - 2] == 46 {
        1
    } else if s.len() >= 3 && s[s.len() - 3] == 46 {
        2
    } else if s.len() >= 4 && s[s.len() - 4] == 46 {
        3
    } else if s.len() >= 5 && s[s.len() - 5] == 46 {
        4
    } else {
        0
    }
}

pub open spec fn pow10(n: nat) -> nat
    decreases n,
{
    if n == 0 {
        1
    } else {
        10 * pow10((n - 1) as nat)
    }
}

/// The value in ten-thousandths of an amount field, if it is one: digits,
/// optionally followed by a point and one to four digits.
pub open spec fn amount_of(s: Seq<u8>) -> Option<nat> {
    let f = frac_len(s);
    let whole = if f == 0 {
        s
    } else {
        s.take(s.len() - f - 1)
    };
    let frac = s.skip(s.len() - f);
    if whole.len() > 0 && all_digits(whole) && all_digits(frac) {
        Some(digits_value(whole) * 10000 + digits_value(frac) * pow10((4 - f) as nat))
    } else {
        None
    }
}

pub open spec fn word_deposit() -> Seq<u8> {
    seq![100u8, 101, 112, 111, 115, 105, 116]
}

pub open spec fn word_withdrawal() -> Seq<u8> {
    seq![119u8, 105, 116, 104, 100, 114, 97, 119, 97, 108]
}

pub open spec fn word_dispute() -> Seq<u8> {
    seq![100u8, 105, 115, 112, 117, 116, 101]
}

pub open spec fn word_resolve() -> Seq<u8> {
    seq![114u8, 101, 115, 111, 108, 118, 101]
}

pub open spec fn word_chargeback() -> Seq<u8> {
    seq![99u8, 104, 97, 114, 103, 101, 98, 97, 99, 107]
}

/// An ASCII letter in lower case; other bytes are kept.
pub open spec fn lower_byte(b: u8) -> u8 {
    if 65 <= b <= 90 {
        (b + 32) as u8
    } else {
        b
    }
}

/// `s` spells `w` (a lower-case word) in any mix of cases.
pub open spec fn spells(s: Seq<u8>, w: Seq<u8>) -> bool {
    s.len() == w.len() && forall|i: int| 0 <= i < s.len() ==> lower_byte(#[trigger] s[i]) == w[i]
}

/// The transaction kind that a type field names, in any mix of cases.
pub open spec fn kind_of(s: Seq<u8>) -> Option<TransactionEnum> {
    if spells(s, word_deposit()) {
        Some(TransactionEnum::Deposit)
    } else if spells(s, word_withdrawal()) {
        Some(TransactionEnum::Withdrawal)
    } else if spells(s, word_dispute()) {
        Some(TransactionEnum::Dispute)
    } else if spells(s, word_resolve()) {
        Some(TransactionEnum::Resolve)
    } else if spells(s, word_chargeback()) {
        Some(TransactionEnum::Chargeback)
    } else {
        None
    }
}

proof fn lemma_prefix_value(s: Seq<u8>, k: int)
    requires
        0 <= k <= s.len(),
    ensures
        digits_value(s.take(k)) <= digits_value(s),
    decreases s.len(),
{
    if k < s.len() {
        assert(s.drop_last().take(k) =~= s.take(k));
        lemma_prefix_value(s.drop_last(), k);
    } else {
        assert(s.take(k) =~= s);
    }
}

proof fn lemma_value_bound(s: Seq<u8>)
    requires
        all_digits(s),
    ensures
        digits_value(s) < pow10(s.len()),
    decreases s.len(),
{
    if s.len() > 0 {
        let t = s.drop_last();
        assert(all_digits(t)) by {
            assert forall|i: int| 0 <= i < t.len() implies is_digit(#[trigger] t[i]) by {
                assert(t[i] == s[i]);
            }
        }
        lemma_value_bound(t);
        assert(is_digit(s[s.len() - 1]));
    }
}

/// Reads `s[start..end]` as an unsigned integer.
fn parse_digits(s: &Vec<u8>, start: usize, end: usize) -> (r: Option<u64>)
    requires
        start <= end <= s@.len(),
    ensures
        r == (match uint_of(s@.subrange(start as int, end as int)) {
            Some(v) => if v <= u64::MAX {
                Some(v as u64)
            } else {
                None
            },
            None => None,
        }),
{
    let ghost sub = s@.subrange(start as int, end as int);
    if start == end {
        return None;
    }
    let mut acc: u64 = 0;
    let mut i: usize = start;
    let mut overflow = false;
    while i < end
        invariant
            start <= i <= end <= s@.len(),
            sub == s@.subrange(start as int, end as int),
            all_digits(sub.take(i - start)),
            !overflow ==> acc == digits_value(sub.take(i - start)),
            overflow ==> digits_value(sub.take(i - start)) > u64::MAX,
        decreases end - i,
    {
        let b = s[i];
        if b < 48 || b > 57 {
            assert(sub[i - start] == b);
            assert(!all_digits(sub));
            return None;
        }
        let ghost pre = sub.take(i - start);
        let ghost next = sub.take(i + 1 - start);
        proof {
            assert(next.drop_last() =~= pre);
            assert(next.last() == b);
            lemma_prefix_value(next, i - start);
        }
        if !overflow {
            if acc > (u64::MAX - (b - 48) as u64) / 10 {
                overflow = true;
            } else {
                acc = acc * 10 + (b - 48) as u64;
            }
        }
        i = i + 1;
    }
    proof {
        assert(sub.take(end - start) =~= sub);
    }
    if overflow {
        None
    } else {
        Some(acc)
    }
}

/// The transaction that an input record describes, or why it cannot be read.
pub open spec fn record_spec(f: Seq<Seq<u8>>) -> Result<Transaction, RecordError> {
    if f.len() != 3 && f.len() != 4 {
        Err(RecordError::InvalidLength)
    } else if kind_of(f[0]) is None {
        Err(RecordError::InvalidType)
    } else if uint_of(f[1]) is None || uint_of(f[1])->0 > u16::MAX {
        Err(RecordError::InvalidClient)
    } else if uint_of(f[2]) is None || uint_of(f[2])->0 > u32::MAX {
        Err(RecordError::InvalidTx)
    } else {
        let kind = kind_of(f[0])->0;
        let client_id = uint_of(f[1])->0 as u16;
        let tx_id = uint_of(f[2])->0 as u32;
        if kind == TransactionEnum::Deposit || kind == TransactionEnum::Withdrawal {
            if f.len() == 3 {
                Err(RecordError::MissingAmount)
            } else if amount_of(f[3]) is None || amount_of(f[3])->0 > u64::MAX {
                Err(RecordError::InvalidAmount)
            } else {
                Ok(Transaction { tx_type: kind, client_id, tx_id, tx_amount: amount_of(f[3])->0 as u64 })
            }
        } else {
            Ok(Transaction { tx_type: kind, client_id, tx_id, tx_amount: 0 })
        }
    }
}

/// Reads a whole field as an unsigned integer.
pub fn parse_uint(s: &Vec<u8>) -> (r: Option<u64>)
    ensures
        r == (match uint_of(s@) {
            Some(v) => if v <= u64::MAX {
                Some(v as u64)
            } else {
                None
            },
            None => None,
        }),
{
    proof {
        assert(s@.subrange(0, s@.len() as int) =~= s@);
    }
    parse_digits(s, 0, s.len())
}

/// Reads an amount field as ten-thousandths of a unit.
pub fn parse_amount(s: &Vec<u8>) -> (r: Option<u64>)
    ensures
        r == (match amount_of(s@) {
            Some(v) => if v <= u64::MAX {
                Some(v as u64)
            } else {
                None
            },
            None => None,
        }),
{
    let n = s.len();
    let f: usize = if n >= 2 && s[n - 2] == 46 {
        1
    } else if n >= 3 && s[n - 3] == 46 {
        2
    } else if n >= 4 && s[n - 4] == 46 {
        3
    } else if n >= 5 && s[n - 5] == 46 {
        4
    } else {
        0
    };
    assert(f == frac_len(s@));
    let whole_end: usize = if f == 0 {
        n
    } else {
        n - f - 1
    };
    let ghost whole = if f == 0 {
        s@
    } else {
        s@.take(s@.len() - f - 1)
    };
    assert(s@.subrange(0, whole_end as int) =~= whole);
    assert(s@.subrange((n - f) as int, n as int) =~= s@.skip(n - f));
    let w = match parse_digits(s, 0, whole_end) {
        Some(w) => w,
        None => return None,
    };
    let (fv, scale): (u64, u64) = if f == 0 {
        assert(s@.skip(n - f).len() == 0);
        assert(digits_value(s@.skip(n - f)) == 0);
        (0, 10000)
    } else {
        match parse_digits(s, n - f, n) {
            Some(v) => {
                let scale: u64 = if f == 1 {
                    1000
                } else if f == 2 {
                    100
                } else if f == 3 {
                    10
                } else {
                    1
                };
                proof {
                    reveal_with_fuel(pow10, 4);
                }
                (v, scale)
            },
            None => {
                proof {
                    if all_digits(s@.skip(n - f)) {
                        lemma_value_bound(s@.skip(n - f));
                        reveal_with_fuel(pow10, 5);
                    }
                }
                return None;
            },
        }
    };
    proof {
        reveal_with_fuel(pow10, 5);
        assert(scale == pow10((4 - f) as nat));
        assert(uint_of(whole) == Some(w as nat));
        assert(all_digits(s@.skip(n - f)));
        assert(fv == digits_value(s@.skip(n - f)));
    }
    let ghost total: nat = (w as nat) * 10000 + (fv as nat) * (scale as nat);
    assert(amount_of(s@) == Some(total));
    let wv = match w.checked_mul(10000) {
        Some(x) => x,
        None => return None,
    };
    if fv > 0 && scale > u64::MAX / fv {
        proof {
            assert(fv * scale > u64::MAX) by (nonlinear_arith)
                requires fv > 0, scale > u64::MAX / fv;
            assert(total > u64::MAX) by (nonlinear_arith)
                requires total == (w as nat) * 10000 + (fv as nat) * (scale as nat), fv * scale > u64::MAX;
        }
        return None;
    }
    proof {
        if fv > 0 {
            assert(fv * scale <= u64::MAX) by (nonlinear_arith)
                requires fv > 0, scale <= u64::MAX / fv;
        }
    }
    let fs = fv * scale;
    match wv.checked_add(fs) {
        Some(x) => Some(x),
        None => None,
    }
}

/// Whether `s` spells the lower-case word `w` in any mix of cases.
fn spells_word(s: &Vec<u8>, w: &Vec<u8>) -> (r: bool)
    ensures
        r == spells(s@, w@),
{
    if s.len() != w.len() {
        return false;
    }
    let mut i: usize = 0;
    while i < s.len()
        invariant
            s@.len() == w@.len(),
            0 <= i <= s@.len(),
            forall|j: int| 0 <= j < i ==> lower_byte(#[trigger] s@[j]) == w@[j],
        decreases s@.len() - i,
    {
        let b = s[i];
        let lb: u8 = if 65 <= b && b <= 90 {
            b + 32
        } else {
            b
        };
        if lb != w[i] {
            return false;
        }
        i = i + 1;
    }
    true
}

/// Reads a type field as a transaction kind, in any mix of cases.
pub fn parse_kind(s: &Vec<u8>) -> (r: Option<TransactionEnum>)
    ensures
        r == kind_of(s@),
{
    let w: Vec<u8> = vec![100u8, 101, 112, 111, 115, 105, 116];
    assert(w@ =~= word_deposit());
    if spells_word(s, &w) {
        return Some(TransactionEnum::Deposit);
    }
    let w: Vec<u8> = vec![119u8, 105, 116, 104, 100, 114, 97, 119, 97, 108];
    assert(w@ =~= word_withdrawal());
    if spells_word(s, &w) {
        return Some(TransactionEnum::Withdrawal);
    }
    let w: Vec<u8> = vec![100u8, 105, 115, 112, 117, 116, 101];
    assert(w@ =~= word_dispute());
    if spells_word(s, &w) {
        return Some(TransactionEnum::Dispute);
    }
    let w: Vec<u8> = vec![114u8, 101, 115, 111, 108, 118, 101];
    assert(w@ =~= word_resolve());
    if spells_word(s, &w) {
        return Some(TransactionEnum::Resolve);
    }
    let w: Vec<u8> = vec![99u8, 104, 97, 114, 103, 101, 98, 97, 99, 107];
    assert(w@ =~= word_chargeback());
    if spells_word(s, &w) {
        return Some(TransactionEnum::Chargeback);
    }
    None
}

/// Reads one input record: `type, client, tx` and, for deposits and
/// withdrawals, `amount`. For the other kinds the amount is zero and a
/// fourth field, if present, is not read.
pub fn parse_record(fields: &Vec<Vec<u8>>) -> (r: Result<Transaction, RecordError>)
    ensures
        r == record_spec(fields.deep_view()),
{
    let ghost f = fields.deep_view();
    let n = fields.len();
    if n != 3 && n != 4 {
        return Err(RecordError::InvalidLength);
    }
    assert(f[0] == fields@[0]@ && f[1] == fields@[1]@ && f[2] == fields@[2]@);
    let kind = match parse_kind(&fields[0]) {
        Some(k) => k,
        None => return Err(RecordError::InvalidType),
    };
    let client_id: u16 = match parse_uint(&fields[1]) {
        Some(c) => {
            if c > 65535 {
                return Err(RecordError::InvalidClient);
            }
            c as u16
        },
        None => return Err(RecordError::InvalidClient),
    };
    let tx_id: u32 = match parse_uint(&fields[2]) {
        Some(t) => {
            if t > 4294967295 {
                return Err(RecordError::InvalidTx);
            }
            t as u32
        },
        None => return Err(RecordError::InvalidTx),
    };
    match kind {
        TransactionEnum::Deposit | TransactionEnum::Withdrawal => {
            if n == 3 {
                return Err(RecordError::MissingAmount);
            }
            assert(f[3] == fields@[3]@);
            match parse_amount(&fields[3]) {
                Some(a) => Ok(Transaction { tx_type: kind, client_id, tx_id, tx_amount: a }),
                None => Err(RecordError::InvalidAmount),
            }
        },
        _ => Ok(Transaction { tx_type: kind, client_id, tx_id, tx_amount: 0 }),
    }
}

/// The decimal digits of `n`, without leading zeros.
pub open spec fn decimal_digits(n: nat) -> Seq<u8>
    decreases n,
{
    if n < 10 {
        seq![(48 + n) as u8]
    } else {
        decimal_digits(n / 10).push((48 + n % 10) as u8)
    }
}

/// An amount in ten-thousandths written with exactly four fractional digits.
pub open spec fn amount_text(v: nat) -> Seq<u8> {
    decimal_digits(v / 10000) + seq![
        46u8,
        (48 + (v / 1000) % 10) as u8,
        (48 + (v / 100) % 10) as u8,
        (48 + (v / 10) % 10) as u8,
        (48 + v % 10) as u8,
    ]
}

pub open spec fn bool_text(b: bool) -> Seq<u8> {
    if b {
        seq![116u8, 114, 117, 101]
    } else {
        seq![102u8, 97, 108, 115, 101]
    }
}

/// The output row of a snapshot: `client, available, held, total, locked`.
pub open spec fn row_spec(s: Snapshot) -> Seq<Seq<u8>> {
    seq![
        decimal_digits(s.client_id as nat),
        amount_text(s.available as nat),
        amount_text(s.held as nat),
        amount_text(s.total as nat),
        bool_text(s.frozen),
    ]
}

/// Appends the decimal digits of `n`.
fn push_digits(n: u64, out: &mut Vec<u8>)
    ensures
        final(out)@ == old(out)@ + decimal_digits(n as nat),
    decreases n,
{
    if n >= 10 {
        push_digits(n / 10, out);
    }
    out.push((48 + n % 10) as u8);
    proof {
        if n < 10 {
            assert(n % 10 == n);
        }
        assert(final(out)@ =~= old(out)@ + decimal_digits(n as nat));
    }
}

/// The decimal digits of `n`.
pub fn format_uint(n: u64) -> (r: Vec<u8>)
    ensures
        r@ == decimal_digits(n as nat),
{
    let mut out: Vec<u8> = Vec::new();
    push_digits(n, &mut out);
    assert(out@ =~= decimal_digits(n as nat));
    out
}

/// An amount in ten-thousandths, written with four fractional digits.
pub fn format_amount(v: u64) -> (r: Vec<u8>)
    ensures
        r@ == amount_text(v as nat),
{
    let mut out = format_uint(v / 10000);
    out.push(46);
    out.push((48 + (v / 1000) % 10) as u8);
    out.push((48 + (v / 100) % 10) as u8);
    out.push((48 + (v / 10) % 10) as u8);
    out.push((48 + v % 10) as u8);
    assert(out@ =~= amount_text(v as nat));
    out
}

/// `true` or `false`.
pub fn format_bool(b: bool) -> (r: Vec<u8>)
    ensures
        r@ == bool_text(b),
{
    let r: Vec<u8> = if b {
        vec![116u8, 114, 117, 101]
    } else {
        vec![102u8, 97, 108, 115, 101]
    };
    assert(r@ =~= bool_text(b));
    r
}

/// The output row of a snapshot, one byte string per field.
pub fn format_row(s: &Snapshot) -> (r: Vec<Vec<u8>>)
    ensures
        r.deep_view() == row_spec(*s),
{
    let a = format_uint(s.client_id as u64);
    let b = format_amount(s.available);
    let c = format_amount(s.held);
    let d = format_amount(s.total);
    let e = format_bool(s.frozen);
    let mut r: Vec<Vec<u8>> = Vec::new();
    r.push(a);
    r.push(b);
    r.push(c);
    r.push(d);
    r.push(e);
    assert(r@ == seq![a, b, c, d, e]);
    assert(r.deep_view().len() == 5);
    assert(r.deep_view()[0] == a@);
    assert(r.deep_view()[1] == b@);
    assert(r.deep_view()[2] == c@);
    assert(r.deep_view()[3] == d@);
    assert(r.deep_view()[4] == e@);
    assert(r.deep_view() =~= row_spec(*s));
    r
}

} // verus!
