//! Three is not a fifth power in the Goldilocks field.
//!
//! The power `(p - 1) / 5` of three is a fifth root of unity other than
//! one. A fifth root of three would have that power as its power `p - 1`,
//! which is one.

use crate::fermat::{lemma_fermat, power_mod};
use crate::field::modulus;
use vstd::arithmetic::div_mod::*;
use vstd::arithmetic::power::*;
use vstd::prelude::*;

verus! {

/// `(p - 1) / 5`.
pub open spec fn fifth_of_group_order() -> nat {
    3689348813882916864
}

/// One squaring: from `b^e` to `b^(2 e)`, reduced.
proof fn lemma_power_square(b: int, e: nat, x: int, y: int)
    requires
        power_mod(b, e) == x,
        (x * x) % modulus() == y,
    ensures
        power_mod(b, 2 * e) == y,
{
    lemma_pow_adds(b, e, e);
    lemma_mul_mod_noop_general(pow(b, e), pow(b, e), modulus());
}

/// One more factor: from `b^e` to `b^(e + 1)`, reduced.
proof fn lemma_power_next(b: int, e: nat, x: int, y: int)
    requires
        power_mod(b, e) == x,
        (x * b) % modulus() == y,
    ensures
        power_mod(b, e + 1) == y,
{
    lemma_pow_adds(b, e, 1);
    lemma_pow1(b);
    lemma_mul_mod_noop_left(pow(b, e), b, modulus());
}

/// The power `(p - 1) / 5` of three, by squaring and multiplying over the
/// bits of the exponent.
pub proof fn lemma_power_of_three()
    ensures
        power_mod(3, fifth_of_group_order()) == 1041288259238279555,
{
    lemma_pow1(3);
    lemma_power_square(3, 1, 3, 9);
    lemma_power_next(3, 2, 9, 27);
    lemma_power_square(3, 3, 27, 729);
    lemma_power_square(3, 6, 729, 531441);
    lemma_power_square(3, 12, 531441, 282429536481);
    lemma_power_next(3, 24, 282429536481, 847288609443);
    lemma_power_square(3, 25, 847288609443, 6048742445210749892);
    lemma_power_next(3, 50, 6048742445210749892, 18146227335632249676);
    lemma_power_square(3, 51, 18146227335632249676, 10669354104183346223);
    lemma_power_square(3, 102, 10669354104183346223, 15611696015981275084);
    lemma_power_square(3, 204, 15611696015981275084, 688850029147429873);
    lemma_power_next(3, 408, 688850029147429873, 2066550087442289619);
    lemma_power_square(3, 409, 2066550087442289619, 6641018835053636522);
    lemma_power_next(3, 818, 6641018835053636522, 1476312435746325245);
    lemma_power_square(3, 819, 1476312435746325245, 13535948909986390881);
    lemma_power_square(3, 1638, 13535948909986390881, 7935231631159923523);
    lemma_power_square(3, 3276, 7935231631159923523, 16483618680673602688);
    lemma_power_next(3, 6552, 16483618680673602688, 12557367903191639422);
    lemma_power_square(3, 6553, 12557367903191639422, 2572709165936704143);
    lemma_power_next(3, 13106, 2572709165936704143, 7718127497810112429);
    lemma_power_square(3, 13107, 7718127497810112429, 6068713978674856348);
    lemma_power_square(3, 26214, 6068713978674856348, 8169699920958457831);
    lemma_power_square(3, 52428, 8169699920958457831, 1003642479704298780);
    lemma_power_next(3, 104856, 1003642479704298780, 3010927439112896340);
    lemma_power_square(3, 104857, 3010927439112896340, 6011653509259642276);
    lemma_power_next(3, 209714, 6011653509259642276, 18034960527778926828);
    lemma_power_square(3, 209715, 18034960527778926828, 11325333874358273911);
    lemma_power_square(3, 419430, 11325333874358273911, 2997605542811592760);
    lemma_power_square(3, 838860, 2997605542811592760, 10622174223691846024);
    lemma_power_next(3, 1677720, 10622174223691846024, 13419778601660953751);
    lemma_power_square(3, 1677721, 13419778601660953751, 7341259069638661229);
    lemma_power_next(3, 3355442, 7341259069638661229, 3577033139501399366);
    lemma_power_square(3, 3355443, 3577033139501399366, 14981225196852373245);
    lemma_power_square(3, 6710886, 14981225196852373245, 12702452853804122181);
    lemma_power_square(3, 13421772, 12702452853804122181, 16060613978868564369);
    lemma_power_next(3, 26843544, 16060613978868564369, 11288353797776524465);
    lemma_power_square(3, 26843545, 11288353797776524465, 3156524970406270080);
    lemma_power_next(3, 53687090, 3156524970406270080, 9469574911218810240);
    lemma_power_square(3, 53687091, 9469574911218810240, 694256215993555443);
    lemma_power_square(3, 107374182, 694256215993555443, 9200844907964049424);
    lemma_power_square(3, 214748364, 9200844907964049424, 2018761291967249205);
    lemma_power_next(3, 429496728, 2018761291967249205, 6056283875901747615);
    lemma_power_square(3, 429496729, 6056283875901747615, 4687964269529880092);
    lemma_power_next(3, 858993458, 4687964269529880092, 14063892808589640276);
    lemma_power_square(3, 858993459, 14063892808589640276, 12205548321395415902);
    lemma_power_square(3, 1717986918, 12205548321395415902, 7216866819936995065);
    lemma_power_square(3, 3435973836, 7216866819936995065, 17549074363733854841);
    lemma_power_square(3, 6871947672, 17549074363733854841, 15423748610660725286);
    lemma_power_square(3, 13743895344, 15423748610660725286, 13595635941797573383);
    lemma_power_square(3, 27487790688, 13595635941797573383, 9842549597680612604);
    lemma_power_square(3, 54975581376, 9842549597680612604, 1337294358501982630);
    lemma_power_square(3, 109951162752, 1337294358501982630, 5325329911042243272);
    lemma_power_square(3, 219902325504, 5325329911042243272, 5221367999496604473);
    lemma_power_square(3, 439804651008, 5221367999496604473, 15412305368138815102);
    lemma_power_square(3, 879609302016, 15412305368138815102, 16191345338952709240);
    lemma_power_square(3, 1759218604032, 16191345338952709240, 2298967105118016451);
    lemma_power_square(3, 3518437208064, 2298967105118016451, 6447197367109474360);
    lemma_power_square(3, 7036874416128, 6447197367109474360, 8164661628442494246);
    lemma_power_square(3, 14073748832256, 8164661628442494246, 5380222146680643061);
    lemma_power_square(3, 28147497664512, 5380222146680643061, 1609244475207906152);
    lemma_power_square(3, 56294995329024, 1609244475207906152, 18332326853853973321);
    lemma_power_square(3, 112589990658048, 18332326853853973321, 2510387608370256761);
    lemma_power_square(3, 225179981316096, 2510387608370256761, 14373156502773339601);
    lemma_power_square(3, 450359962632192, 14373156502773339601, 6996469297471152138);
    lemma_power_square(3, 900719925264384, 6996469297471152138, 1900197295013585010);
    lemma_power_square(3, 1801439850528768, 1900197295013585010, 362112569578151335);
    lemma_power_square(3, 3602879701057536, 362112569578151335, 3118209301712560507);
    lemma_power_square(3, 7205759402115072, 3118209301712560507, 2921070153775533243);
    lemma_power_square(3, 14411518804230144, 2921070153775533243, 6356985805439647877);
    lemma_power_square(3, 28823037608460288, 6356985805439647877, 5797675593703447897);
    lemma_power_square(3, 57646075216920576, 5797675593703447897, 14236101464779796609);
    lemma_power_square(3, 115292150433841152, 14236101464779796609, 15587202262274831207);
    lemma_power_square(3, 230584300867682304, 15587202262274831207, 10296967901281711793);
    lemma_power_square(3, 461168601735364608, 10296967901281711793, 17073700798457888299);
    lemma_power_square(3, 922337203470729216, 17073700798457888299, 211587555138949697);
    lemma_power_square(3, 1844674406941458432, 211587555138949697, 1041288259238279555);
}

/// No residue has three as its fifth power.
pub proof fn lemma_three_is_no_fifth_power(beta: int)
    ensures
        power_mod(beta, 5) != 3,
{
    let p = modulus();
    let m = fifth_of_group_order();
    if power_mod(beta, 5) == 3 {
        if beta % p == 0 {
            // then the fifth power is zero
            lemma_pow_mod_noop(beta, 5, p);
            lemma0_pow(5);
        }
        lemma_fermat(beta);
        lemma_power_of_three();
        // beta^(p - 1) is (beta^5)^((p - 1) / 5), which is 3^((p - 1) / 5)
        lemma_pow_multiplies(beta, 5, m);
        lemma_pow_mod_noop(pow(beta, 5), m, p);
        assert(5 * m == p - 1);
    }
}

} // verus!
