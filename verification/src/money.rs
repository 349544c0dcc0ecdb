//! Currency-tagged integer amounts with currency-safe addition.

use vstd::prelude::*;
use vstd::string::*;

use crate::text::alpha_run;
use crate::text::alpha_run_len;
use crate::text::dec_of_int;
use crate::text::i64_to_text;
use crate::text::is_ascii_alpha;
use crate::text::lemma_alpha_run_char;
use crate::text::lemma_dec_of_int_chars;
use crate::text::lemma_dec_of_int_not_alpha;
use crate::text::lemma_dec_roundtrip;
use crate::text::pipe_free;
use crate::text::parse_i64;
use crate::text::parse_i64_spec;
use crate::text::text_eq;

verus! {

/// The raw integer value of an [`Amount`].
pub type AmountValue = i64;

/// The currencies an auction may be denominated in.
#[derive(Debug, Clone, Copy, PartialEq, Eq, Structural)]
pub enum Currency {
    /// Virtual auction currency
    VAC,
    /// Swedish krona
    SEK,
    /// Danish krone
    DKK,
}

/// Mathematical model of an [`Amount`]: a currency together with an
/// unbounded integer value.
#[verifier::ext_equal]
pub struct AmountV {
    pub currency: Currency,
    pub value: int,
}

/// A currency-tagged integer amount. Immutable value type; arithmetic is
/// only defined between amounts of the same currency.
#[derive(Debug, Clone, Copy, PartialEq, Eq, Structural)]
pub struct Amount {
    currency: Currency,
    value: AmountValue,
}

impl View for Amount {
    type V = AmountV;

    closed spec fn view(&self) -> AmountV {
        AmountV { currency: self.currency, value: self.value as int }
    }
}

/// Failure of money arithmetic.
#[derive(Debug, Clone, Copy, PartialEq, Eq, Structural)]
pub enum MoneyError {
    /// The two operands carry different currencies.
    CurrencyMismatch,
}

/// The three-letter code a currency is written as.
pub open spec fn currency_code(c: Currency) -> Seq<char> {
    match c {
        Currency::VAC => "VAC"@,
        Currency::SEK => "SEK"@,
        Currency::DKK => "DKK"@,
    }
}

/// The currency a three-letter code names, if any.
pub open spec fn currency_from_code(s: Seq<char>) -> Option<Currency> {
    if s == "VAC"@ {
        Some(Currency::VAC)
    } else if s == "SEK"@ {
        Some(Currency::SEK)
    } else if s == "DKK"@ {
        Some(Currency::DKK)
    } else {
        None
    }
}

/// The display form of an amount: its currency code followed directly by
/// its signed decimal value, with no separator (`SEK12`, `VAC0`).
pub open spec fn amount_text(a: AmountV) -> Seq<char> {
    currency_code(a.currency) + dec_of_int(a.value)
}

/// The amount a text denotes: the longest leading letter run must name a
/// currency, and the remainder must be a signed decimal `i64`.
pub open spec fn amount_from_text(s: Seq<char>) -> Option<AmountV> {
    let k = alpha_run_len(s);
    if k == 0 {
        None
    } else {
        match currency_from_code(s.take(k)) {
            Some(c) => match parse_i64_spec(s.skip(k)) {
                Some(v) => Some(AmountV { currency: c, value: v }),
                None => None,
            },
            None => None,
        }
    }
}

/// Law (display/parse round trip): the display form of any representable
/// amount parses back to the same amount.
pub proof fn lemma_amount_text_roundtrip(a: AmountV)
    requires
        i64::MIN <= a.value <= i64::MAX,
    ensures
        amount_from_text(amount_text(a)) == Some(a),
{
    let code = currency_code(a.currency);
    let dec = dec_of_int(a.value);
    let s = code + dec;
    lemma_dec_of_int_not_alpha(a.value);
    match a.currency {
        Currency::VAC => {
            reveal_strlit("VAC");
        },
        Currency::SEK => {
            reveal_strlit("SEK");
        },
        Currency::DKK => {
            reveal_strlit("DKK");
        },
    }
    assert(code.len() == 3);
    assert(forall|j: int| 0 <= j < 3 ==> is_ascii_alpha(#[trigger] code[j]));
    assert(forall|j: int| 0 <= j < 3 ==> s[j] == code[j]);
    assert(s[3] == dec[0]);
    lemma_alpha_run_char(s, 3);
    assert(s.take(3) =~= code);
    reveal_strlit("VAC");
    reveal_strlit("SEK");
    reveal_strlit("DKK");
    assert(currency_from_code(code) == Some(a.currency)) by {
        match a.currency {
            Currency::VAC => {
                assert(code == "VAC"@);
            },
            Currency::SEK => {
                assert(code != "VAC"@);
            },
            Currency::DKK => {
                assert(code != "VAC"@);
                assert(code != "SEK"@);
            },
        }
    }
    assert(s.skip(3) =~= dec);
    lemma_dec_roundtrip(a.value);
}

/// An amount's display form holds letters, digits and a minus sign only,
/// so it never holds the field separator `|`.
pub proof fn lemma_amount_text_pipe_free(a: AmountV)
    ensures
        pipe_free(amount_text(a)),
{
    let code = currency_code(a.currency);
    let dec = dec_of_int(a.value);
    match a.currency {
        Currency::VAC => {
            reveal_strlit("VAC");
        },
        Currency::SEK => {
            reveal_strlit("SEK");
        },
        Currency::DKK => {
            reveal_strlit("DKK");
        },
    }
    lemma_dec_of_int_chars(a.value);
    assert forall|i: int| 0 <= i < amount_text(a).len() implies amount_text(a)[i] != '|' by {
        if i >= code.len() {
            assert(amount_text(a)[i] == dec[i - code.len()]);
        }
    }
}

impl Currency {
    /// The code this currency is written as.
    pub fn code(&self) -> (r: String)
        ensures
            r@ == currency_code(*self),
    {
        match self {
            Currency::VAC => "VAC".to_owned(),
            Currency::SEK => "SEK".to_owned(),
            Currency::DKK => "DKK".to_owned(),
        }
    }

    /// The currency a code names, if any.
    pub fn from_code(s: &str) -> (r: Option<Currency>)
        ensures
            r == currency_from_code(s@),
    {
        if text_eq(s, "VAC") {
            Some(Currency::VAC)
        } else if text_eq(s, "SEK") {
            Some(Currency::SEK)
        } else if text_eq(s, "DKK") {
            Some(Currency::DKK)
        } else {
            None
        }
    }
}

impl Amount {
    pub fn new(currency: Currency, value: AmountValue) -> (r: Amount)
        ensures
            r@ == (AmountV { currency, value: value as int }),
    {
        Amount { currency, value }
    }

    pub fn currency(&self) -> (r: Currency)
        ensures
            r == self@.currency,
    {
        self.currency
    }

    pub fn value(&self) -> (r: AmountValue)
        ensures
            r as int == self@.value,
    {
        self.value
    }

    /// Currency-safe addition: the sum of two amounts of the same currency,
    /// or `CurrencyMismatch` when the currencies differ.
    pub fn add(self, other: Amount) -> (r: Result<Amount, MoneyError>)
        requires
            self@.currency == other@.currency ==> i64::MIN <= self@.value + other@.value
                <= i64::MAX,
        ensures
            self@.currency == other@.currency ==> (r matches Ok(a) && a@ == (AmountV {
                currency: self@.currency,
                value: self@.value + other@.value,
            })),
            self@.currency != other@.currency ==> r matches Err(MoneyError::CurrencyMismatch),
    {
        if self.currency == other.currency {
            Ok(Amount { currency: self.currency, value: self.value + other.value })
        } else {
            Err(MoneyError::CurrencyMismatch)
        }
    }

    /// Writes the amount in its display form, `currency code` then value.
    pub fn to_text(&self) -> (r: String)
        ensures
            r@ == amount_text(self@),
    {
        let code = self.currency.code();
        let val = i64_to_text(self.value);
        code.concat(val.as_str())
    }

    /// Reads an amount back from its display form.
    pub fn from_text(s: &str) -> (r: Option<Amount>)
        ensures
            amount_from_text(s@) matches Some(av) ==> (r matches Some(a) && a@ == av),
            amount_from_text(s@) is None ==> r is None,
    {
        let n = s.unicode_len();
        let k = alpha_run(s);
        if k == 0 {
            return None;
        }
        let code_part = s.substring_char(0, k);
        proof {
            assert(code_part@ =~= s@.take(k as int));
        }
        let c = match Currency::from_code(code_part) {
            Some(c) => c,
            None => {
                return None;
            },
        };
        let val_part = s.substring_char(k, n);
        proof {
            assert(val_part@ =~= s@.skip(k as int));
        }
        let v = match parse_i64(val_part) {
            Some(v) => v,
            None => {
                return None;
            },
        };
        Some(Amount::new(c, v))
    }
}

} // verus!
