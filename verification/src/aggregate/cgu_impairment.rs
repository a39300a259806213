//! Goodwill impairment tests of cash-generating units (IAS 36).
//!
//! For each unit under test the allocated goodwill is summed from the
//! plan, the other assets' carrying amount is taken from the input or
//! derived from the member entities' net assets, and the recoverable
//! amount is the larger of fair value less costs of disposal and value in
//! use (or a ratio of the carrying amount).  An impairment loss is the
//! excess of carrying amount over recoverable amount, allocated first to
//! goodwill and then to the other assets.
use vstd::prelude::*;
use vstd::string::*;

use crate::date::Date;
use crate::dec::{
    abs, abs_sum, dec_add, dec_lt, dec_mul, dec_sub, checked_sum, decimal_checked_add, decimal_checked_mul, decimal_checked_sub, fits_at, lemma_bound_sum_fits,
    lemma_bounded_fits, max_nat, max_scale, sum_decs, units_sum, Dec,
};
use crate::errors::GroupError;
use crate::manifest::cgu_plan::{CashGeneratingUnit, CguPlan, GoodwillAllocation};
use crate::sorted_map::{key_sorted, lemma_sm_at, sm_find, sm_map, sm_sorted, sort_keyed, SortKey};
use crate::text::str_eq;

verus! {

/// Per-period inputs for one unit under test.
#[derive(Debug, Clone)]
pub struct CguTestInputs {
    pub cgu_id: String,
    /// Carrying amount of the other assets; `None` derives it from the
    /// member entities' net assets less the allocated goodwill.
    pub other_carrying: Option<Dec>,
    pub fair_value_less_costs: Option<Dec>,
    pub value_in_use: Option<Dec>,
    /// Recoverable amount as a ratio of the carrying amount; overrides
    /// the two estimates when set.
    pub recoverable_ratio: Option<Dec>,
}

/// Outcome of one impairment test.
#[derive(Debug, Clone)]
pub struct CguImpairmentResult {
    pub cgu_id: String,
    pub test_date: Date,
    pub currency: String,
    pub allocated_goodwill: Dec,
    pub other_carrying: Dec,
    pub fair_value_less_costs: Dec,
    pub value_in_use: Dec,
    /// Goodwill plus other assets.
    pub carrying_total: Dec,
    /// The larger of fair value less costs and value in use.
    pub recoverable_amount: Dec,
    pub impairment_loss_total: Dec,
    pub impairment_loss_to_goodwill: Dec,
    pub impairment_loss_to_other_assets: Dec,
}

impl SortKey for CguImpairmentResult {
    open spec fn sort_key(&self) -> Seq<char> {
        self.cgu_id@
    }

    fn key_str(&self) -> (r: &str) {
        self.cgu_id.as_str()
    }
}

/// The four amounts of a test, together, are representable at their
/// largest scale (so every sum and difference of the test is exact).
pub open spec fn impairment_fits(g: Dec, o: Dec, f: Dec, v: Dec) -> bool {
    fits_at(
        2 * (abs(g.units()) + abs(o.units()) + abs(f.units()) + abs(v.units())),
        max_nat(max_nat(g.spec_scale(), o.spec_scale()), max_nat(f.spec_scale(), v.spec_scale())),
    )
}

/// The IAS 36 arithmetic of a result: recoverable amount the larger
/// estimate, carrying amount goodwill plus other assets, loss the excess
/// of carrying over recoverable (never negative), allocated first to
/// goodwill and the rest to other assets.
pub open spec fn ias36_ok(r: CguImpairmentResult) -> bool {
    let g = r.allocated_goodwill.units();
    let c = r.carrying_total.units();
    let rec = r.recoverable_amount.units();
    let loss = r.impairment_loss_total.units();
    &&& r.recoverable_amount == (if r.fair_value_less_costs.units() < r.value_in_use.units() {
        r.value_in_use
    } else {
        r.fair_value_less_costs
    })
    &&& impairment_fits(r.allocated_goodwill, r.other_carrying, r.fair_value_less_costs, r.value_in_use) ==> {
        &&& c == g + r.other_carrying.units()
        &&& loss == if c > rec {
            c - rec
        } else {
            0
        }
        &&& r.impairment_loss_to_goodwill.units() == if loss < g {
            loss
        } else {
            g
        }
        &&& r.impairment_loss_to_other_assets.units() == loss - r.impairment_loss_to_goodwill.units()
    }
}

/// Run one impairment test (IAS 36 § 18, § 104).
pub fn impairment_test(
    cgu_id: &str,
    test_date: Date,
    goodwill: Dec,
    other: Dec,
    fvlc: Dec,
    viu: Dec,
    currency: &str,
) -> (r: Result<CguImpairmentResult, GroupError>)
    ensures
        r is Err ==> r matches Err(GroupError::Aggregate(_)),
        impairment_fits(goodwill, other, fvlc, viu) ==> r is Ok,
        r matches Ok(res) ==> {
            &&& res.cgu_id@ == cgu_id@
            &&& res.test_date == test_date
            &&& res.currency@ == currency@
            &&& res.allocated_goodwill == goodwill
            &&& res.other_carrying == other
            &&& res.fair_value_less_costs == fvlc
            &&& res.value_in_use == viu
            &&& ias36_ok(res)
        },
{
    let recoverable = if dec_lt(fvlc, viu) {
        viu
    } else {
        fvlc
    };
    let ghost b = 2 * (abs(goodwill.units()) + abs(other.units()) + abs(fvlc.units()) + abs(viu.units()));
    let ghost sc = max_nat(max_nat(goodwill.spec_scale(), other.spec_scale()), max_nat(fvlc.spec_scale(), viu.spec_scale()));
    proof {
        if impairment_fits(goodwill, other, fvlc, viu) {
            lemma_bounded_fits(goodwill.units() + other.units(), b, sc, max_nat(goodwill.spec_scale(), other.spec_scale()));
        }
    }
    let carrying = match dec_add(goodwill, other) {
        Some(x) => x,
        None => {
            return Err(GroupError::Aggregate("cgu impairment: carrying amount overflows".to_string()));
        },
    };
    let zero = Dec::zero();
    let loss = if dec_lt(recoverable, carrying) {
        proof {
            if impairment_fits(goodwill, other, fvlc, viu) {
                lemma_bounded_fits(
                    carrying.units() - recoverable.units(),
                    b,
                    sc,
                    max_nat(carrying.spec_scale(), recoverable.spec_scale()),
                );
            }
        }
        match dec_sub(carrying, recoverable) {
            Some(x) => x,
            None => {
                return Err(GroupError::Aggregate("cgu impairment: impairment loss overflows".to_string()));
            },
        }
    } else {
        zero
    };
    let to_goodwill = if dec_lt(loss, goodwill) {
        loss
    } else {
        goodwill
    };
    proof {
        if impairment_fits(goodwill, other, fvlc, viu) {
            lemma_bounded_fits(
                loss.units() - to_goodwill.units(),
                b,
                sc,
                max_nat(loss.spec_scale(), to_goodwill.spec_scale()),
            );
        }
    }
    let to_other = match dec_sub(loss, to_goodwill) {
        Some(x) => x,
        None => {
            return Err(GroupError::Aggregate("cgu impairment: impairment loss overflows".to_string()));
        },
    };
    Ok(
        CguImpairmentResult {
            cgu_id: cgu_id.to_string(),
            test_date,
            currency: currency.to_string(),
            allocated_goodwill: goodwill,
            other_carrying: other,
            fair_value_less_costs: fvlc,
            value_in_use: viu,
            carrying_total: carrying,
            recoverable_amount: recoverable,
            impairment_loss_total: loss,
            impairment_loss_to_goodwill: to_goodwill,
            impairment_loss_to_other_assets: to_other,
        },
    )
}

/// The goodwill amounts allocated to unit `id`, in plan order.
pub open spec fn goodwill_amounts(allocs: Seq<GoodwillAllocation>, id: Seq<char>) -> Seq<Dec>
    decreases allocs.len(),
{
    if allocs.len() == 0 {
        Seq::empty()
    } else if allocs.last().cgu_id@ == id {
        goodwill_amounts(allocs.drop_last(), id).push(allocs.last().goodwill_amount)
    } else {
        goodwill_amounts(allocs.drop_last(), id)
    }
}

/// The first unit of the plan with id `id`.
pub open spec fn plan_cgu(cgus: Seq<CashGeneratingUnit>, id: Seq<char>) -> Option<CashGeneratingUnit>
    decreases cgus.len(),
{
    if cgus.len() == 0 {
        None
    } else if cgus[0].cgu_id@ == id {
        Some(cgus[0])
    } else {
        plan_cgu(cgus.subrange(1, cgus.len() as int), id)
    }
}

/// The members' net assets, zero for a member without an entry.
pub open spec fn member_nets(net: Map<Seq<char>, Dec>, members: Seq<String>) -> Seq<Dec> {
    members.map_values(|m: String| if net.contains_key(m@) { net[m@] } else { Dec::zero_spec() })
}

pub open spec fn opt_abs(o: Option<Dec>) -> int {
    match o {
        Some(d) => abs(d.units()),
        None => 0,
    }
}

pub open spec fn opt_scale(o: Option<Dec>) -> nat {
    match o {
        Some(d) => d.spec_scale(),
        None => 0,
    }
}

/// The input can be tested: its unit is in the plan, a given carrying
/// amount is not negative, and either a non-negative ratio or two
/// non-negative estimates are given.
pub open spec fn input_valid(plan: CguPlan, inp: CguTestInputs) -> bool {
    &&& plan_cgu(plan.cgus@, inp.cgu_id@) is Some
    &&& (inp.other_carrying matches Some(c) ==> c.units() >= 0)
    &&& match inp.recoverable_ratio {
        Some(q) => q.units() >= 0,
        None => {
            &&& inp.fair_value_less_costs matches Some(f) && f.units() >= 0
            &&& inp.value_in_use matches Some(v) && v.units() >= 0
        },
    }
}

/// The goodwill amounts and member net assets of the input's unit.
pub open spec fn input_goodwill(plan: CguPlan, inp: CguTestInputs) -> Seq<Dec> {
    goodwill_amounts(plan.goodwill_allocations@, inp.cgu_id@)
}

pub open spec fn input_nets(plan: CguPlan, inp: CguTestInputs, net: Seq<(String, Dec)>) -> Seq<Dec> {
    member_nets(sm_map(net), plan_cgu(plan.cgus@, inp.cgu_id@)->0.member_entity_codes@)
}

/// Every sum and difference of the input's test is exact: all the
/// amounts involved, together, fit at their largest scale.
pub open spec fn input_fits(plan: CguPlan, inp: CguTestInputs, net: Seq<(String, Dec)>) -> bool {
    let ga = input_goodwill(plan, inp);
    let mn = input_nets(plan, inp, net);
    fits_at(
        2 * (2 * abs_sum(ga) + abs_sum(mn) + opt_abs(inp.other_carrying) + opt_abs(inp.fair_value_less_costs) + opt_abs(
            inp.value_in_use,
        )),
        max_nat(
            max_nat(max_scale(ga), max_scale(mn)),
            max_nat(
                opt_scale(inp.other_carrying),
                max_nat(opt_scale(inp.fair_value_less_costs), opt_scale(inp.value_in_use)),
            ),
        ),
    )
}

/// The other assets' carrying amount of the test, in units: the given
/// one, or the members' net assets less the goodwill (never negative).
pub open spec fn other_units(plan: CguPlan, inp: CguTestInputs, net: Seq<(String, Dec)>) -> int {
    match inp.other_carrying {
        Some(c) => c.units(),
        None => {
            let d = units_sum(input_nets(plan, inp, net)) - units_sum(input_goodwill(plan, inp));
            if d < 0 {
                0
            } else {
                d
            }
        },
    }
}

/// `r` is the test of input `inp`.
pub open spec fn result_for(
    r: CguImpairmentResult,
    plan: CguPlan,
    inp: CguTestInputs,
    net: Seq<(String, Dec)>,
    date: Date,
    currency: Seq<char>,
) -> bool {
    &&& r.cgu_id@ == inp.cgu_id@
    &&& r.test_date == date
    &&& r.currency@ == currency
    &&& ias36_ok(r)
    &&& input_fits(plan, inp, net) ==> {
        &&& r.allocated_goodwill.units() == units_sum(input_goodwill(plan, inp))
        &&& r.other_carrying.units() == other_units(plan, inp, net)
    }
    &&& match inp.recoverable_ratio {
        None => r.fair_value_less_costs == inp.fair_value_less_costs->0 && r.value_in_use == inp.value_in_use->0,
        Some(q) => {
            &&& r.fair_value_less_costs == r.value_in_use
            &&& r.fair_value_less_costs == decimal_checked_mul(
                decimal_checked_add(r.allocated_goodwill, r.other_carrying)->0,
                q,
            )->0
        },
    }
}

/// `r` is the test of one of the inputs.
pub open spec fn result_of_some_input(
    r: CguImpairmentResult,
    plan: CguPlan,
    inputs: Seq<CguTestInputs>,
    net: Seq<(String, Dec)>,
    date: Date,
    currency: Seq<char>,
) -> bool {
    exists|i: int| 0 <= i < inputs.len() && result_for(r, plan, #[trigger] inputs[i], net, date, currency)
}

/// Some result is the test of `inp`.
pub open spec fn input_has_result(
    res: Seq<CguImpairmentResult>,
    plan: CguPlan,
    inp: CguTestInputs,
    net: Seq<(String, Dec)>,
    date: Date,
    currency: Seq<char>,
) -> bool {
    exists|k: int| 0 <= k < res.len() && result_for(#[trigger] res[k], plan, inp, net, date, currency)
}

fn find_cgu<'a>(cgus: &'a Vec<CashGeneratingUnit>, id: &str) -> (r: Option<&'a CashGeneratingUnit>)
    ensures
        match plan_cgu(cgus@, id@) {
            Some(c) => r matches Some(x) && *x == c,
            None => r is None,
        },
{
    let mut i: usize = 0;
    proof {
        assert(cgus@.subrange(0, cgus@.len() as int) =~= cgus@);
    }
    while i < cgus.len()
        invariant
            i <= cgus@.len(),
            plan_cgu(cgus@, id@) == plan_cgu(cgus@.subrange(i as int, cgus@.len() as int), id@),
        decreases cgus.len() - i,
    {
        proof {
            let t = cgus@.subrange(i as int, cgus@.len() as int);
            assert(t[0] == cgus@[i as int]);
            assert(t.subrange(1, t.len() as int) =~= cgus@.subrange(i + 1, cgus@.len() as int));
        }
        if str_eq(cgus[i].cgu_id.as_str(), id) {
            return Some(&cgus[i]);
        }
        i = i + 1;
    }
    None
}

fn goodwill_of(allocs: &Vec<GoodwillAllocation>, id: &str) -> (r: Vec<Dec>)
    ensures
        r@ == goodwill_amounts(allocs@, id@),
{
    let mut out: Vec<Dec> = Vec::new();
    let mut i: usize = 0;
    while i < allocs.len()
        invariant
            i <= allocs@.len(),
            out@ == goodwill_amounts(allocs@.take(i as int), id@),
        decreases allocs.len() - i,
    {
        proof {
            assert(allocs@.take(i + 1).drop_last() =~= allocs@.take(i as int));
        }
        if str_eq(allocs[i].cgu_id.as_str(), id) {
            out.push(allocs[i].goodwill_amount);
        }
        i = i + 1;
    }
    proof {
        assert(allocs@.take(i as int) =~= allocs@);
    }
    out
}

fn nets_of(net: &Vec<(String, Dec)>, members: &Vec<String>) -> (r: Vec<Dec>)
    requires
        sm_sorted(net@),
    ensures
        r@ == member_nets(sm_map(net@), members@),
{
    let zero = Dec::zero();
    let mut out: Vec<Dec> = Vec::new();
    let mut i: usize = 0;
    while i < members.len()
        invariant
            i <= members@.len(),
            sm_sorted(net@),
            zero == Dec::zero_spec(),
            out@ == member_nets(sm_map(net@), members@).take(i as int),
        decreases members.len() - i,
    {
        let (found, idx) = sm_find(net, members[i].as_str());
        if found {
            proof {
                lemma_sm_at(net@, idx as int);
            }
            out.push(net[idx].1);
        } else {
            out.push(zero);
        }
        proof {
            assert(out@ =~= member_nets(sm_map(net@), members@).take(i + 1));
        }
        i = i + 1;
    }
    proof {
        assert(member_nets(sm_map(net@), members@).take(i as int) =~= member_nets(sm_map(net@), members@));
    }
    out
}

/// Test one input against the plan.
/// The goodwill, other carrying amount and recoverable amount of a test
/// by ratio, as `rust_decimal` computes them (`None` when it reports an
/// overflow): the recoverable amount is the carrying amount times the
/// ratio.
pub open spec fn ratio_terms(plan: CguPlan, inp: CguTestInputs, net: Seq<(String, Dec)>) -> Option<(Dec, Dec, Dec)> {
    match checked_sum(input_goodwill(plan, inp)) {
        None => None,
        Some(g) => {
            let other = match inp.other_carrying {
                Some(c) => Some(c),
                None => match checked_sum(input_nets(plan, inp, net)) {
                    None => None,
                    Some(mn) => match decimal_checked_sub(mn, g) {
                        None => None,
                        Some(d) => Some(
                            if d.units() < 0 {
                                Dec::zero_spec()
                            } else {
                                d
                            },
                        ),
                    },
                },
            };
            match other {
                None => None,
                Some(o) => match decimal_checked_add(g, o) {
                    None => None,
                    Some(c) => match decimal_checked_mul(c, inp.recoverable_ratio->0) {
                        None => None,
                        Some(rv) => Some((g, o, rv)),
                    },
                },
            }
        },
    }
}

/// A test by ratio computes without overflow.
pub open spec fn ratio_test_computes(plan: CguPlan, inp: CguTestInputs, net: Seq<(String, Dec)>) -> bool {
    ratio_terms(plan, inp, net) matches Some(t) && impairment_fits(t.0, t.1, t.2, t.2)
}

/// The input's test goes through: it is valid, and either it gives its
/// estimates and its amounts fit, or it gives a ratio and the test by
/// ratio computes.
pub open spec fn input_passes(plan: CguPlan, inp: CguTestInputs, net: Seq<(String, Dec)>) -> bool {
    &&& input_valid(plan, inp)
    &&& match inp.recoverable_ratio {
        None => input_fits(plan, inp, net),
        Some(_) => ratio_test_computes(plan, inp, net),
    }
}

/// The error text of an input whose unit the plan does not define.
pub open spec fn no_cgu_text(id: Seq<char>) -> Seq<char> {
    "cgu impairment: test input references cgu_id `"@ + id + "` which has no matching definition in the manifest plan"@
}

/// The error text of an input with a negative other carrying amount.
pub open spec fn negative_other_text(id: Seq<char>) -> Seq<char> {
    "cgu impairment: cgu `"@ + id + "` has negative other_carrying"@
}

/// Every input before the `i`-th is valid, tested by its estimates, and
/// fits.
pub open spec fn inputs_pass_before(plan: CguPlan, ins: Seq<CguTestInputs>, net: Seq<(String, Dec)>, i: int) -> bool {
    forall|t: int| 0 <= t < i ==> {
        &&& input_valid(plan, #[trigger] ins[t])
        &&& ins[t].recoverable_ratio is None
        &&& input_fits(plan, ins[t], net)
    }
}

fn test_one(
    plan: &CguPlan,
    input: &CguTestInputs,
    entity_net_assets: &Vec<(String, Dec)>,
    test_date: Date,
    currency: &str,
) -> (r: Result<CguImpairmentResult, GroupError>)
    requires
        sm_sorted(entity_net_assets@),
    ensures
        r is Err ==> r matches Err(GroupError::Aggregate(_)),
        !input_valid(*plan, *input) ==> r is Err,
        input_valid(*plan, *input) && input.recoverable_ratio is None && input_fits(*plan, *input, entity_net_assets@) ==> r is Ok,
        input_passes(*plan, *input, entity_net_assets@) ==> r is Ok,
        r matches Ok(res) ==> result_for(res, *plan, *input, entity_net_assets@, test_date, currency@),
        plan_cgu(plan.cgus@, input.cgu_id@) is None ==> (r matches Err(GroupError::Aggregate(m)) && m@ == no_cgu_text(
            input.cgu_id@,
        )),
        (plan_cgu(plan.cgus@, input.cgu_id@) is Some && input_fits(*plan, *input, entity_net_assets@) && (input.other_carrying matches Some(
            c,
        ) && c.units() < 0)) ==> (r matches Err(GroupError::Aggregate(m)) && m@ == negative_other_text(input.cgu_id@)),
{
    proof {
        reveal_strlit("cgu impairment: test input references cgu_id `");
        reveal_strlit("` which has no matching definition in the manifest plan");
        reveal_strlit("cgu impairment: cgu `");
        reveal_strlit("` has negative other_carrying");
    }
    let ghost fits = input_fits(*plan, *input, entity_net_assets@);
    let cgu = match find_cgu(&plan.cgus, input.cgu_id.as_str()) {
        Some(c) => c,
        None => {
            return Err(GroupError::Aggregate(
                "cgu impairment: test input references cgu_id `".to_string().concat(input.cgu_id.as_str()).concat(
                    "` which has no matching definition in the manifest plan",
                ),
            ));
        },
    };
    let ga = goodwill_of(&plan.goodwill_allocations, input.cgu_id.as_str());
    let mn = nets_of(entity_net_assets, &cgu.member_entity_codes);
    let zero = Dec::zero();
    let ghost b = 2 * (2 * abs_sum(ga@) + abs_sum(mn@) + opt_abs(input.other_carrying) + opt_abs(input.fair_value_less_costs)
        + opt_abs(input.value_in_use));
    let ghost sc = max_nat(
        max_nat(max_scale(ga@), max_scale(mn@)),
        max_nat(opt_scale(input.other_carrying), max_nat(opt_scale(input.fair_value_less_costs), opt_scale(input.value_in_use))),
    );
    proof {
        if fits {
            crate::dec::lemma_sum_prefix(ga@, ga@.len() as int);
            crate::dec::lemma_sum_prefix(mn@, mn@.len() as int);
            assert(ga@.take(ga@.len() as int) =~= ga@);
            assert(mn@.take(mn@.len() as int) =~= mn@);
            lemma_bounded_fits(abs_sum(ga@), b, sc, max_scale(ga@));
            lemma_bounded_fits(abs_sum(mn@), b, sc, max_scale(mn@));
            lemma_bound_sum_fits(ga@);
            lemma_bound_sum_fits(mn@);
        }
    }
    let goodwill = match sum_decs(&ga) {
        Some(x) => x,
        None => {
            return Err(GroupError::Aggregate("cgu impairment: allocated goodwill overflows".to_string()));
        },
    };
    let other = match input.other_carrying {
        Some(c) => c,
        None => {
            let members_net = match sum_decs(&mn) {
                Some(x) => x,
                None => {
                    return Err(GroupError::Aggregate("cgu impairment: member net assets overflow".to_string()));
                },
            };
            proof {
                if fits {
                    lemma_bounded_fits(
                        members_net.units() - goodwill.units(),
                        b,
                        sc,
                        max_nat(members_net.spec_scale(), goodwill.spec_scale()),
                    );
                }
            }
            let diff = match dec_sub(members_net, goodwill) {
                Some(x) => x,
                None => {
                    return Err(GroupError::Aggregate("cgu impairment: other carrying overflows".to_string()));
                },
            };
            if dec_lt(diff, zero) {
                zero
            } else {
                diff
            }
        },
    };
    if dec_lt(other, zero) {
        return Err(GroupError::Aggregate(
            "cgu impairment: cgu `".to_string().concat(input.cgu_id.as_str()).concat("` has negative other_carrying"),
        ));
    }
    let (fvlc, viu) = match input.recoverable_ratio {
        Some(ratio) => {
            if dec_lt(ratio, zero) {
                return Err(GroupError::Aggregate(
                    "cgu impairment: cgu `".to_string().concat(input.cgu_id.as_str()).concat("` has negative recoverable_ratio"),
                ));
            }
            let carrying = match dec_add(goodwill, other) {
                Some(x) => x,
                None => {
                    return Err(GroupError::Aggregate("cgu impairment: carrying amount overflows".to_string()));
                },
            };
            let recoverable = match dec_mul(carrying, ratio) {
                Some(x) => x,
                None => {
                    return Err(GroupError::Aggregate("cgu impairment: recoverable amount overflows".to_string()));
                },
            };
            (recoverable, recoverable)
        },
        None => {
            let fvlc = match input.fair_value_less_costs {
                Some(x) => x,
                None => {
                    return Err(GroupError::Aggregate(
                        "cgu impairment: cgu `".to_string().concat(input.cgu_id.as_str()).concat(
                            "` needs fair_value_less_costs + value_in_use (or recoverable_ratio)",
                        ),
                    ));
                },
            };
            let viu = match input.value_in_use {
                Some(x) => x,
                None => {
                    return Err(GroupError::Aggregate(
                        "cgu impairment: cgu `".to_string().concat(input.cgu_id.as_str()).concat(
                            "` needs value_in_use (or recoverable_ratio)",
                        ),
                    ));
                },
            };
            if dec_lt(fvlc, zero) {
                return Err(GroupError::Aggregate(
                    "cgu impairment: test input for cgu `".to_string().concat(input.cgu_id.as_str()).concat(
                        "` has negative fair_value_less_costs",
                    ),
                ));
            }
            if dec_lt(viu, zero) {
                return Err(GroupError::Aggregate(
                    "cgu impairment: test input for cgu `".to_string().concat(input.cgu_id.as_str()).concat(
                        "` has negative value_in_use",
                    ),
                ));
            }
            (fvlc, viu)
        },
    };
    proof {
        if fits && input.recoverable_ratio is None {
            let u = 2 * (abs(goodwill.units()) + abs(other.units()) + abs(fvlc.units()) + abs(viu.units()));
            assert(abs(goodwill.units()) <= abs_sum(ga@));
            assert(u <= b);
            lemma_bounded_fits(
                u,
                b,
                sc,
                max_nat(max_nat(goodwill.spec_scale(), other.spec_scale()), max_nat(fvlc.spec_scale(), viu.spec_scale())),
            );
        }
    }
    impairment_test(input.cgu_id.as_str(), test_date, goodwill, other, fvlc, viu, currency)
}

/// Run the impairment test of every input against the plan; results
/// sorted by unit id.  `entity_net_assets` holds each entity's net
/// assets, keyed by entity code.
pub fn run_cgu_impairment_tests(
    cgu_plan: &CguPlan,
    test_inputs: &[CguTestInputs],
    entity_net_assets: &Vec<(String, Dec)>,
    test_date: Date,
    currency: &str,
) -> (r: Result<Vec<CguImpairmentResult>, GroupError>)
    requires
        sm_sorted(entity_net_assets@),
    ensures
        r is Err ==> r matches Err(GroupError::Aggregate(_)),
        (exists|i: int| 0 <= i < test_inputs@.len() && !input_valid(*cgu_plan, #[trigger] test_inputs@[i])) ==> r is Err,
        (forall|i: int| 0 <= i < test_inputs@.len() ==> input_passes(*cgu_plan, #[trigger] test_inputs@[i], entity_net_assets@))
            ==> r is Ok,
        r matches Ok(res) ==> {
            &&& res@.len() == test_inputs@.len()
            &&& key_sorted(res@)
            &&& res@.map_values(|x: CguImpairmentResult| x.cgu_id@).to_multiset() == test_inputs@.map_values(
                |t: CguTestInputs| t.cgu_id@,
            ).to_multiset()
            &&& forall|k: int| 0 <= k < res@.len() ==> result_of_some_input(
                #[trigger] res@[k],
                *cgu_plan,
                test_inputs@,
                entity_net_assets@,
                test_date,
                currency@,
            )
            &&& forall|i: int| 0 <= i < test_inputs@.len() ==> input_has_result(
                res@,
                *cgu_plan,
                #[trigger] test_inputs@[i],
                entity_net_assets@,
                test_date,
                currency@,
            )
        },
        forall|i: int| 0 <= i < test_inputs@.len() && #[trigger] inputs_pass_before(*cgu_plan, test_inputs@, entity_net_assets@, i) ==> {
            &&& plan_cgu(cgu_plan.cgus@, test_inputs@[i].cgu_id@) is None ==> (r matches Err(GroupError::Aggregate(m)) && m@
                == no_cgu_text(test_inputs@[i].cgu_id@))
            &&& (plan_cgu(cgu_plan.cgus@, test_inputs@[i].cgu_id@) is Some && input_fits(*cgu_plan, test_inputs@[i], entity_net_assets@)
                && (test_inputs@[i].other_carrying matches Some(c) && c.units() < 0)) ==> (r matches Err(GroupError::Aggregate(m)) && m@
                == negative_other_text(test_inputs@[i].cgu_id@))
        },
{
    broadcast use vstd::seq_lib::group_to_multiset_ensures;

    let ghost ins = test_inputs@;
    let ghost net = entity_net_assets@;
    let mut results: Vec<CguImpairmentResult> = Vec::new();
    let mut i: usize = 0;
    while i < test_inputs.len()
        invariant
            i <= ins.len(),
            ins == test_inputs@,
            net == entity_net_assets@,
            sm_sorted(net),
            results@.len() == i,
            forall|t: int| 0 <= t < i ==> input_valid(*cgu_plan, #[trigger] ins[t]),
            forall|t: int| 0 <= t < i ==> result_for(#[trigger] results@[t], *cgu_plan, ins[t], net, test_date, currency@),
        decreases ins.len() - i,
    {
        let res = match test_one(cgu_plan, &test_inputs[i], entity_net_assets, test_date, currency) {
            Ok(x) => x,
            Err(e) => {
                proof {
                    assert forall|k: int| 0 <= k < ins.len() && #[trigger] inputs_pass_before(*cgu_plan, ins, net, k) implies {
                        &&& plan_cgu(cgu_plan.cgus@, ins[k].cgu_id@) is None ==> (Err::<Vec<CguImpairmentResult>, GroupError>(
                            e,
                        ) matches Err(GroupError::Aggregate(m)) && m@ == no_cgu_text(ins[k].cgu_id@))
                        &&& (plan_cgu(cgu_plan.cgus@, ins[k].cgu_id@) is Some && input_fits(*cgu_plan, ins[k], net) && (
                        ins[k].other_carrying matches Some(c) && c.units() < 0)) ==> (Err::<
                            Vec<CguImpairmentResult>,
                            GroupError,
                        >(e) matches Err(GroupError::Aggregate(m)) && m@ == negative_other_text(ins[k].cgu_id@))
                    } by {
                        if k < i {
                            assert(input_valid(*cgu_plan, ins[k]));
                        } else if k > i {
                            assert(input_valid(*cgu_plan, ins[i as int]));
                        }
                    }
                }
                return Err(e);
            },
        };
        results.push(res);
        i = i + 1;
    }
    let ghost unsorted = results@;
    let sorted = sort_keyed(results);
    proof {
        assert forall|k: int| 0 <= k < ins.len() implies input_valid(*cgu_plan, #[trigger] ins[k]) by {}

        let srt = sorted@;
        let f = |x: CguImpairmentResult| x.cgu_id@;
        crate::sorted_map::lemma_multiset_map(srt, unsorted, f);
        assert(unsorted.map_values(f) =~= ins.map_values(|t: CguTestInputs| t.cgu_id@));
        assert(srt.map_values(f) =~= srt.map_values(|x: CguImpairmentResult| x.cgu_id@));
        assert(srt.to_multiset().len() == srt.len());
        assert(unsorted.to_multiset().len() == unsorted.len());
        assert forall|k: int| 0 <= k < srt.len() implies result_of_some_input(
            #[trigger] srt[k],
            *cgu_plan,
            ins,
            net,
            test_date,
            currency@,
        ) by {
            assert(srt.to_multiset().count(srt[k]) > 0);
            assert(unsorted.contains(srt[k]));
            let t = choose|t: int| 0 <= t < unsorted.len() && unsorted[t] == srt[k];
            assert(result_for(unsorted[t], *cgu_plan, ins[t], net, test_date, currency@));
        }
        assert forall|t: int| 0 <= t < ins.len() implies input_has_result(srt, *cgu_plan, #[trigger] ins[t], net, test_date, currency@) by {
            assert(unsorted.to_multiset().count(unsorted[t]) > 0);
            assert(srt.contains(unsorted[t]));
            let k = choose|k: int| 0 <= k < srt.len() && srt[k] == unsorted[t];
            assert(result_for(srt[k], *cgu_plan, ins[t], net, test_date, currency@));
        }
    }
    Ok(sorted)
}

} // verus!
