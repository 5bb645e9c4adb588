//! Currency conversion interface: an exchange-rate table over minor units.
//!
//! Rates are exact rationals against one base currency: each listed currency
//! carries a factor into the base and a factor out of it. Conversion is
//! integer arithmetic on minor-unit amounts with flooring division, through
//! the base currency.

use vstd::prelude::*;

use crate::dir::Currency;

verus! {

/// An exact positive rational factor.
#[derive(Clone, Copy, Debug, PartialEq, Eq, Structural)]
pub struct Ratio {
    pub num: u64,
    pub den: u64,
}

/// The two factors of one currency against the base currency.
#[derive(Clone, Copy, Debug, PartialEq, Eq, Structural)]
pub struct CurrencyFactors {
    /// Multiply by this to convert an amount of this currency into the base.
    pub to_base: Ratio,
    /// Multiply by this to convert a base amount into this currency.
    pub from_base: Ratio,
}

/// One row of the rate table.
#[derive(Clone, Copy, Debug, PartialEq, Eq, Structural)]
pub struct RateEntry {
    pub currency: Currency,
    pub factors: CurrencyFactors,
}

impl DeepView for RateEntry {
    type V = RateEntry;

    open spec fn deep_view(&self) -> RateEntry {
        *self
    }
}

/// An immutable snapshot of exchange rates against one base currency.
#[derive(Debug)]
pub struct ExchangeRates {
    pub base: Currency,
    pub entries: Vec<RateEntry>,
}

/// Mathematical model of an [`ExchangeRates`] table.
pub struct ExchangeRatesModel {
    pub base: Currency,
    pub entries: Seq<RateEntry>,
}

impl DeepView for ExchangeRates {
    type V = ExchangeRatesModel;

    open spec fn deep_view(&self) -> ExchangeRatesModel {
        ExchangeRatesModel { base: self.base, entries: self.entries.deep_view() }
    }
}

impl ExchangeRates {
    /// Every factor's denominator is positive.
    pub open spec fn wf(&self) -> bool {
        rates_wf(self.deep_view())
    }
}

/// Every factor's denominator is positive.
pub open spec fn rates_wf(t: ExchangeRatesModel) -> bool {
    forall|i: int|
        0 <= i < t.entries.len() ==> (#[trigger] t.entries[i]).factors.to_base.den > 0
            && t.entries[i].factors.from_base.den > 0
}

/// The identity factor used for the base currency itself.
pub open spec fn identity_factors() -> CurrencyFactors {
    CurrencyFactors {
        to_base: Ratio { num: 1, den: 1 },
        from_base: Ratio { num: 1, den: 1 },
    }
}

/// The factors in effect for currency `c`, scanning from position `i`.
pub open spec fn factors_from(t: ExchangeRatesModel, c: Currency, i: int) -> Option<CurrencyFactors>
    decreases t.entries.len() - i,
{
    if i < 0 || i >= t.entries.len() {
        None
    } else if t.entries[i].currency == c {
        Some(t.entries[i].factors)
    } else {
        factors_from(t, c, i + 1)
    }
}

/// The factors for currency `c`: the identity for the base currency, else
/// the first listed row.
pub open spec fn factors_of(t: ExchangeRatesModel, c: Currency) -> Option<CurrencyFactors> {
    if c == t.base {
        Some(identity_factors())
    } else {
        factors_from(t, c, 0)
    }
}

/// Why a conversion failed.
#[derive(Clone, Copy, Debug, PartialEq, Eq, Structural)]
pub enum ConversionError {
    /// The table lists no rate for this currency.
    MissingRate(Currency),
    /// An intermediate or final amount does not fit in a minor-unit amount.
    AmountOutOfRange,
}

/// The conversion's mathematical result: the amount taken into the base
/// currency and out again, flooring at each of the two steps.
pub open spec fn spec_convert(
    t: ExchangeRatesModel,
    from: Currency,
    to: Currency,
    amount: u64,
) -> Result<u64, ConversionError> {
    match factors_of(t, from) {
        Option::None => Result::Err(ConversionError::MissingRate(from)),
        Option::Some(f) => match factors_of(t, to) {
            Option::None => Result::Err(ConversionError::MissingRate(to)),
            Option::Some(g) => {
                let in_base = (amount * f.to_base.num) / (f.to_base.den as int);
                if in_base > u64::MAX {
                    Result::Err(ConversionError::AmountOutOfRange)
                } else {
                    let out = (in_base * g.from_base.num) / (g.from_base.den as int);
                    if out > u64::MAX {
                        Result::Err(ConversionError::AmountOutOfRange)
                    } else {
                        Result::Ok(out as u64)
                    }
                }
            },
        },
    }
}

#[verifier::loop_isolation(false)]
fn factors_exec(t: &ExchangeRates, c: Currency) -> (r: Option<CurrencyFactors>)
    ensures
        r == factors_of(t.deep_view(), c),
{
    let ghost tm = t.deep_view();
    if c == t.base {
        return Option::Some(
            CurrencyFactors {
                to_base: Ratio { num: 1, den: 1 },
                from_base: Ratio { num: 1, den: 1 },
            },
        );
    }
    let mut i: usize = 0;
    while i < t.entries.len()
        invariant
            i <= t.entries@.len(),
            factors_from(tm, c, 0) == factors_from(tm, c, i as int),
        decreases t.entries@.len() - i,
    {
        if t.entries[i].currency == c {
            return Option::Some(t.entries[i].factors);
        }
        i = i + 1;
    }
    Option::None
}

/// Convert a minor-unit amount between two listed currencies, through the
/// base currency with flooring division at each step.
pub fn convert_currency(t: &ExchangeRates, from: Currency, to: Currency, amount: u64) -> (r: Result<
    u64,
    ConversionError,
>)
    requires
        t.wf(),
    ensures
        r == spec_convert(t.deep_view(), from, to, amount),
{
    let ghost tm = t.deep_view();
    let f = match factors_exec(t, from) {
        Option::Some(f) => f,
        Option::None => {
            return Result::Err(ConversionError::MissingRate(from));
        },
    };
    let g = match factors_exec(t, to) {
        Option::Some(g) => g,
        Option::None => {
            return Result::Err(ConversionError::MissingRate(to));
        },
    };
    proof {
        lemma_factors_wf(tm, from, f);
        lemma_factors_wf(tm, to, g);
        assert((amount as u128) * (f.to_base.num as u128) <= u128::MAX) by (nonlinear_arith)
            requires
                amount <= u64::MAX,
                f.to_base.num <= u64::MAX,
        ;
    }
    let scaled: u128 = (amount as u128) * (f.to_base.num as u128);
    let in_base: u128 = scaled / (f.to_base.den as u128);
    if in_base > u64::MAX as u128 {
        return Result::Err(ConversionError::AmountOutOfRange);
    }
    let in_base64: u64 = in_base as u64;
    proof {
        assert((in_base64 as u128) * (g.from_base.num as u128) <= u128::MAX) by (nonlinear_arith)
            requires
                in_base64 <= u64::MAX,
                g.from_base.num <= u64::MAX,
        ;
    }
    let scaled_out: u128 = (in_base64 as u128) * (g.from_base.num as u128);
    let out: u128 = scaled_out / (g.from_base.den as u128);
    if out > u64::MAX as u128 {
        return Result::Err(ConversionError::AmountOutOfRange);
    }
    Result::Ok(out as u64)
}

proof fn lemma_factors_wf(t: ExchangeRatesModel, c: Currency, f: CurrencyFactors)
    requires
        rates_wf(t),
        factors_of(t, c) == Some(f),
    ensures
        f.to_base.den > 0,
        f.from_base.den > 0,
{
    if c == t.base {
    } else {
        lemma_factors_from_wf(t, c, 0, f);
    }
}

proof fn lemma_factors_from_wf(t: ExchangeRatesModel, c: Currency, i: int, f: CurrencyFactors)
    requires
        rates_wf(t),
        0 <= i,
        factors_from(t, c, i) == Some(f),
    ensures
        f.to_base.den > 0,
        f.from_base.den > 0,
    decreases t.entries.len() - i,
{
    if i < t.entries.len() {
        if t.entries[i].currency == c {
        } else {
            lemma_factors_from_wf(t, c, i + 1, f);
        }
    }
}

} // verus!
