//! Cumulative translation adjustment.
use vstd::prelude::*;

use crate::aggregate::translation::translate::TranslatedTb;
use crate::dec::{dec_add, dec_sub, fits_sum, Dec};

verus! {

/// One entity's CTA rollforward.
#[derive(Debug, Clone)]
pub struct CtaRollforward {
    pub entity_code: String,
    pub functional_currency: String,
    pub presentation_currency: String,
    pub opening_cta: Dec,
    pub period_cta: Dec,
    /// `opening_cta + period_cta`.
    pub closing_cta: Dec,
}

/// The period CTA of a translated trial balance: translated debits minus
/// translated credits.  `None` only on overflow.
pub fn compute_cta(translated: &TranslatedTb) -> (r: Option<Dec>)
    ensures
        fits_sum(
            translated.total_translated_debits,
            translated.total_translated_credits,
            translated.total_translated_debits.units() - translated.total_translated_credits.units(),
        ) ==> (r matches Some(x) && x.units() == translated.total_translated_debits.units()
            - translated.total_translated_credits.units()),
{
    dec_sub(translated.total_translated_debits, translated.total_translated_credits)
}

/// Roll the CTA forward: `closing = opening + period`.  `None` only on
/// overflow.
pub fn cta_rollforward(
    entity_code: &str,
    functional_currency: &str,
    presentation_currency: &str,
    opening_cta: Dec,
    period_cta: Dec,
) -> (r: Option<CtaRollforward>)
    ensures
        fits_sum(opening_cta, period_cta, opening_cta.units() + period_cta.units()) ==> r is Some,
        r matches Some(c) ==> {
            &&& c.entity_code@ == entity_code@
            &&& c.functional_currency@ == functional_currency@
            &&& c.presentation_currency@ == presentation_currency@
            &&& c.opening_cta == opening_cta
            &&& c.period_cta == period_cta
            &&& fits_sum(opening_cta, period_cta, opening_cta.units() + period_cta.units())
                ==> c.closing_cta.units() == opening_cta.units() + period_cta.units()
        },
{
    let closing_cta = dec_add(opening_cta, period_cta)?;
    Some(CtaRollforward {
        entity_code: entity_code.to_string(),
        functional_currency: functional_currency.to_string(),
        presentation_currency: presentation_currency.to_string(),
        opening_cta,
        period_cta,
        closing_cta,
    })
}

} // verus!
