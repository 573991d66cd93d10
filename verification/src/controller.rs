//! The action encoder: a flat action index selects one member of every
//! button-combo group by mixed-radix decomposition, and the members are ORed
//! into one button bitmask.

use std::collections::HashMap;
use vstd::arithmetic::div_mod::{
    lemma_fundamental_div_mod, lemma_fundamental_div_mod_converse, lemma_mod_pos_bound,
};
use vstd::arithmetic::mul::{lemma_mul_inequality, lemma_mul_is_associative};
use vstd::prelude::*;
use vstd::std_specs::bits::u64_leading_zeros;

verus! {

broadcast use vstd::std_specs::hash::group_hash_axioms;

/// The combo groups as sequences of bitmask values.
pub open spec fn combo_groups(button_combos: &Vec<Vec<u64>>) -> Seq<Seq<u64>> {
    Seq::new(button_combos@.len(), |g: int| button_combos@[g]@)
}

/// There is at least one group and no group is empty.
pub open spec fn groups_valid(groups: Seq<Seq<u64>>) -> bool {
    &&& groups.len() > 0
    &&& forall|g: int| 0 <= g < groups.len() ==> (#[trigger] groups[g]).len() > 0
}

/// Product of the cardinalities of the groups from `g` on.
pub open spec fn action_count_from(groups: Seq<Seq<u64>>, g: int) -> nat
    decreases groups.len() - g,
{
    if 0 <= g < groups.len() {
        groups[g].len() * action_count_from(groups, g + 1)
    } else {
        1
    }
}

/// Size of the action space: the product of all group cardinalities.
pub open spec fn action_count(groups: Seq<Seq<u64>>) -> nat {
    action_count_from(groups, 0)
}

/// What is left of the action index when the groups before `g` have taken
/// their digits: the index divided by each of their cardinalities in turn.
pub open spec fn rest(groups: Seq<Seq<u64>>, action: int, g: int) -> int
    decreases g,
{
    if g <= 0 {
        action
    } else {
        rest(groups, action, g - 1) / (groups[g - 1].len() as int)
    }
}

/// The digit of group `g`: which of its members the action selects.
pub open spec fn digit(groups: Seq<Seq<u64>>, action: int, g: int) -> int {
    rest(groups, action, g) % (groups[g].len() as int)
}

/// The bitmask value that the action selects from group `g`.
pub open spec fn chosen(groups: Seq<Seq<u64>>, action: int, g: int) -> u64 {
    groups[g][digit(groups, action, g)]
}

/// Bitwise OR of the values selected from the groups before `upto`.
pub open spec fn buttons_value(groups: Seq<Seq<u64>>, action: int, upto: int) -> u64
    decreases upto,
{
    if upto <= 0 {
        0
    } else {
        buttons_value(groups, action, upto - 1) | chosen(groups, action, upto - 1)
    }
}

/// Number of bits needed to write `v`: the least `n` with `v < 2^n`.
pub open spec fn bit_width(v: u64) -> nat
    decreases v,
{
    if v == 0 {
        0
    } else {
        1 + bit_width(v / 2)
    }
}

/// `n` is the least bit width that covers every value of every group: the
/// width of the largest of them.
pub open spec fn is_button_count(groups: Seq<Seq<u64>>, n: nat) -> bool {
    &&& forall|g: int, i: int|
        0 <= g < groups.len() && 0 <= i < groups[g].len() ==> bit_width(#[trigger] groups[g][i])
            <= n
    &&& exists|g: int, i: int|
        0 <= g < groups.len() && 0 <= i < groups[g].len() && bit_width(#[trigger] groups[g][i])
            == n
}

/// The low `num_buttons` bits of `value`, one entry per bit, bit 0 first.
pub open spec fn bitmask(value: u64, num_buttons: int) -> Seq<u8> {
    Seq::new(num_buttons as nat, |i: int| ((value >> (i as u64)) & 1) as u8)
}

/// The button bitmask of an action.
pub open spec fn action_bitmask(groups: Seq<Seq<u64>>, action: int, num_buttons: int) -> Seq<u8> {
    bitmask(buttons_value(groups, action, groups.len() as int), num_buttons)
}

/// The index that a digit per group stands for, counting the groups from `g`
/// on: digit `g` plus the cardinality of group `g` times the rest.
pub open spec fn compose_from(groups: Seq<Seq<u64>>, digits: Seq<int>, g: int) -> int
    decreases groups.len() - g,
{
    if 0 <= g < groups.len() {
        digits[g] + groups[g].len() * compose_from(groups, digits, g + 1)
    } else {
        0
    }
}

/// One digit per group, each below its group's cardinality.
pub open spec fn digits_valid(groups: Seq<Seq<u64>>, digits: Seq<int>) -> bool {
    &&& digits.len() == groups.len()
    &&& forall|g: int| 0 <= g < groups.len() ==> 0 <= #[trigger] digits[g] < groups[g].len()
}

/// The digits that an action index decomposes into.
pub open spec fn digits_of(groups: Seq<Seq<u64>>, action: int) -> Seq<int> {
    Seq::new(groups.len(), |g: int| digit(groups, action, g))
}

proof fn lemma_action_count_positive(groups: Seq<Seq<u64>>, g: int)
    requires
        groups_valid(groups),
        0 <= g <= groups.len(),
    ensures
        action_count_from(groups, g) >= 1,
    decreases groups.len() - g,
{
    if g < groups.len() {
        lemma_action_count_positive(groups, g + 1);
        assert(groups[g].len() > 0);
        assert(groups[g].len() * action_count_from(groups, g + 1) >= 1) by (nonlinear_arith)
            requires
                groups[g].len() >= 1,
                action_count_from(groups, g + 1) >= 1,
        ;
    }
}

/// What is left of a valid index before group `g` is below the product of
/// the cardinalities from `g` on, and the digits from `g` on compose to it.
proof fn lemma_rest_composes(groups: Seq<Seq<u64>>, action: int, g: int)
    requires
        groups_valid(groups),
        0 <= action < action_count(groups),
        0 <= g <= groups.len(),
    ensures
        0 <= rest(groups, action, g) < action_count_from(groups, g),
        rest(groups, action, g) == compose_from(groups, digits_of(groups, action), g),
    decreases groups.len() - g, 1int,
{
    lemma_rest_bounded(groups, action, g);
    if g < groups.len() {
        lemma_rest_composes(groups, action, g + 1);
        let k = groups[g].len() as int;
        let r = rest(groups, action, g);
        assert(k > 0);
        lemma_fundamental_div_mod(r, k);
        assert(rest(groups, action, g + 1) == r / k);
        assert(digits_of(groups, action)[g] == r % k);
    }
}

proof fn lemma_rest_bounded(groups: Seq<Seq<u64>>, action: int, g: int)
    requires
        groups_valid(groups),
        0 <= action < action_count(groups),
        0 <= g <= groups.len(),
    ensures
        0 <= rest(groups, action, g) < action_count_from(groups, g),
    decreases g, 0int,
{
    if g > 0 {
        lemma_rest_bounded(groups, action, g - 1);
        let k = groups[g - 1].len() as int;
        let r = rest(groups, action, g - 1);
        let p = action_count_from(groups, g) as int;
        assert(k > 0);
        assert(action_count_from(groups, g - 1) == k * p);
        lemma_fundamental_div_mod(r, k);
        lemma_mod_pos_bound(r, k);
        assert(0 <= r / k < p) by (nonlinear_arith)
            requires
                0 <= r < k * p,
                k > 0,
                r == k * (r / k) + r % k,
                0 <= r % k < k,
        ;
    }
}

/// Every index of the action space is the composition of its own digits, and
/// each digit lies within its group: decomposing and composing again gives
/// the index back.
pub proof fn lemma_decompose_then_compose(groups: Seq<Seq<u64>>, action: int)
    requires
        groups_valid(groups),
        0 <= action < action_count(groups),
    ensures
        digits_valid(groups, digits_of(groups, action)),
        compose_from(groups, digits_of(groups, action), 0) == action,
{
    lemma_rest_composes(groups, action, 0);
    assert forall|g: int| 0 <= g < groups.len() implies 0 <= #[trigger] digits_of(
        groups,
        action,
    )[g] < groups[g].len() by {
        assert(groups[g].len() > 0);
        lemma_rest_bounded(groups, action, g);
        lemma_mod_pos_bound(rest(groups, action, g), groups[g].len() as int);
    }
}

proof fn lemma_compose_bounded(groups: Seq<Seq<u64>>, digits: Seq<int>, g: int)
    requires
        groups_valid(groups),
        digits_valid(groups, digits),
        0 <= g <= groups.len(),
    ensures
        0 <= compose_from(groups, digits, g) < action_count_from(groups, g),
    decreases groups.len() - g,
{
    if g < groups.len() {
        lemma_compose_bounded(groups, digits, g + 1);
        let k = groups[g].len() as int;
        let d = digits[g];
        let c = compose_from(groups, digits, g + 1);
        let p = action_count_from(groups, g + 1) as int;
        assert(0 <= d < k);
        assert(0 <= d + k * c < k * p) by (nonlinear_arith)
            requires
                0 <= d < k,
                0 <= c < p,
        ;
    }
}

proof fn lemma_compose_rest(groups: Seq<Seq<u64>>, digits: Seq<int>, g: int)
    requires
        groups_valid(groups),
        digits_valid(groups, digits),
        0 <= g <= groups.len(),
    ensures
        rest(groups, compose_from(groups, digits, 0), g) == compose_from(groups, digits, g),
    decreases g,
{
    if g > 0 {
        lemma_compose_rest(groups, digits, g - 1);
        lemma_compose_bounded(groups, digits, g);
        let k = groups[g - 1].len() as int;
        let d = digits[g - 1];
        let c = compose_from(groups, digits, g);
        assert(0 <= d < k);
        assert(c * k == k * c) by (nonlinear_arith);
        lemma_fundamental_div_mod_converse(d + k * c, k, c, d);
    }
}

/// Every choice of one digit per group is the decomposition of exactly the
/// index that it composes to, and that index lies in the action space: the
/// indices and the digit choices correspond one to one.
pub proof fn lemma_compose_then_decompose(groups: Seq<Seq<u64>>, digits: Seq<int>)
    requires
        groups_valid(groups),
        digits_valid(groups, digits),
    ensures
        0 <= compose_from(groups, digits, 0) < action_count(groups),
        digits_of(groups, compose_from(groups, digits, 0)) == digits,
{
    let action = compose_from(groups, digits, 0);
    lemma_compose_bounded(groups, digits, 0);
    assert forall|g: int| 0 <= g < groups.len() implies digit(groups, action, g) == digits[g] by {
        lemma_compose_rest(groups, digits, g);
        lemma_compose_bounded(groups, digits, g + 1);
        let k = groups[g].len() as int;
        let d = digits[g];
        let c = compose_from(groups, digits, g + 1);
        assert(0 <= d < k);
        assert(c * k == k * c) by (nonlinear_arith);
        lemma_fundamental_div_mod_converse(d + k * c, k, c, d);
    }
    assert(digits_of(groups, action) =~= digits);
}

/// Two indices of the action space with the same digits are one index.
pub proof fn lemma_digits_determine_action(groups: Seq<Seq<u64>>, a: int, b: int)
    requires
        groups_valid(groups),
        0 <= a < action_count(groups),
        0 <= b < action_count(groups),
        digits_of(groups, a) == digits_of(groups, b),
    ensures
        a == b,
{
    lemma_decompose_then_compose(groups, a);
    lemma_decompose_then_compose(groups, b);
}

/// The bitmasks tell the selection: no value occurs twice in a group, and
/// values of different groups share no bit.
pub open spec fn groups_separable(groups: Seq<Seq<u64>>) -> bool {
    &&& forall|g: int, i: int, j: int|
        0 <= g < groups.len() && 0 <= i < j < groups[g].len() ==> #[trigger] groups[g][i]
            != #[trigger] groups[g][j]
    &&& forall|g: int, h: int, i: int, j: int|
        0 <= g < groups.len() && 0 <= h < groups.len() && g != h && 0 <= i < groups[g].len() && 0
            <= j < groups[h].len() ==> #[trigger] groups[g][i] & #[trigger] groups[h][j] == 0
}

/// The bits of `value` from bit `n` on are zero.
spec fn fits(value: u64, n: int) -> bool {
    n >= 64 || (0 <= n && value >> (n as u64) == 0)
}

proof fn lemma_bit_width_fits(value: u64, n: int)
    requires
        bit_width(value) <= n,
    ensures
        fits(value, n),
    decreases n,
{
    if n < 64 {
        let shift = n as u64;
        if value == 0 {
            assert(0u64 >> shift == 0) by (bit_vector);
        } else {
            lemma_bit_width_fits(value / 2, n - 1);
            let less = (n - 1) as u64;
            assert(value >> shift == 0) by (bit_vector)
                requires
                    (value / 2) >> less == 0,
                    shift == less + 1,
                    shift < 64,
            ;
        }
    }
}

/// Two values with the same low `n` bits and none above are equal.
proof fn lemma_equal_bits_equal_values(x: u64, y: u64, n: int)
    requires
        0 <= n <= 64,
        fits(x, n),
        fits(y, n),
        bitmask(x, n) == bitmask(y, n),
    ensures
        x == y,
{
    assert forall|i: u64| i < n implies (x >> i) & 1 == (y >> i) & 1 by {
        let a = (x >> i) & 1;
        let b = (y >> i) & 1;
        assert(bitmask(x, n)[i as int] == a as u8);
        assert(bitmask(y, n)[i as int] == b as u8);
        assert(a <= 1 && b <= 1) by (bit_vector)
            requires
                a == (x >> i) & 1,
                b == (y >> i) & 1,
        ;
    }
    lemma_low_bits_equal(x, y, n);
    if n < 64 {
        let shift = n as u64;
        assert(x == y) by (bit_vector)
            requires
                shift < 64,
                x >> shift == 0,
                y >> shift == 0,
                x & low_mask(shift) == y & low_mask(shift),
        ;
    } else {
        assert(x == y) by (bit_vector)
            requires
                x & low_mask(63) == y & low_mask(63),
                (x >> 63) & 1 == (y >> 63) & 1,
        ;
    }
}

/// The mask of the bits below bit `n`.
spec fn low_mask(n: u64) -> u64 {
    ((1u64 << n) - 1) as u64
}

proof fn lemma_low_bits_equal(x: u64, y: u64, n: int)
    requires
        0 <= n <= 64,
        forall|i: u64| i < n ==> (x >> i) & 1 == (y >> i) & 1,
    ensures
        n < 64 ==> x & low_mask(n as u64) == y & low_mask(n as u64),
        n == 64 ==> x & low_mask(63) == y & low_mask(63),
    decreases n,
{
    if n == 0 {
        assert(x & low_mask(0) == y & low_mask(0)) by (bit_vector);
    } else if n == 64 {
        lemma_low_bits_equal(x, y, 63);
    } else {
        lemma_low_bits_equal(x, y, n - 1);
        let k = (n - 1) as u64;
        let m = n as u64;
        assert((x >> k) & 1 == (y >> k) & 1);
        assert(x & low_mask(m) == y & low_mask(m)) by (bit_vector)
            requires
                m == k + 1,
                m < 64,
                x & low_mask(k) == y & low_mask(k),
                (x >> k) & 1 == (y >> k) & 1,
        ;
    }
}

/// The OR of the selected values fits the button count.
proof fn lemma_buttons_value_fits(groups: Seq<Seq<u64>>, action: int, upto: int, n: nat)
    requires
        groups_valid(groups),
        0 <= action < action_count(groups),
        0 <= upto <= groups.len(),
        is_button_count(groups, n),
    ensures
        fits(buttons_value(groups, action, upto), n as int),
    decreases upto,
{
    if n < 64 {
        let shift = n as u64;
        if upto <= 0 {
            assert(0u64 >> shift == 0) by (bit_vector);
        } else {
            lemma_buttons_value_fits(groups, action, upto - 1, n);
            lemma_decompose_then_compose(groups, action);
            let d = digits_of(groups, action)[upto - 1];
            let p = buttons_value(groups, action, upto - 1);
            let q = chosen(groups, action, upto - 1);
            assert(q == groups[upto - 1][d]);
            lemma_bit_width_fits(q, n as int);
            assert((p | q) >> shift == 0) by (bit_vector)
                requires
                    p >> shift == 0,
                    q >> shift == 0,
            ;
        }
    }
}

/// What a value of group `g` has in common with the OR of the selected
/// values, when values of different groups share no bit: what it has in
/// common with the value selected from its own group.
proof fn lemma_value_masked_by_member(
    groups: Seq<Seq<u64>>,
    action: int,
    upto: int,
    g: int,
    member: u64,
)
    requires
        groups_valid(groups),
        groups_separable(groups),
        0 <= action < action_count(groups),
        0 <= upto <= groups.len(),
        0 <= g < groups.len(),
        exists|i: int| 0 <= i < groups[g].len() && groups[g][i] == member,
    ensures
        buttons_value(groups, action, upto) & member == if g < upto {
            chosen(groups, action, g) & member
        } else {
            0
        },
    decreases upto,
{
    if upto <= 0 {
        assert(0u64 & member == 0) by (bit_vector);
    } else {
        lemma_value_masked_by_member(groups, action, upto - 1, g, member);
        lemma_decompose_then_compose(groups, action);
        let h = upto - 1;
        let d = digits_of(groups, action)[h];
        let p = buttons_value(groups, action, h);
        let q = chosen(groups, action, h);
        assert(q == groups[h][d]);
        assert((p | q) & member == (p & member) | (q & member)) by (bit_vector);
        if h == g {
            assert(p & member == 0);
            assert(0u64 | (q & member) == q & member) by (bit_vector);
        } else {
            let i = choose|i: int| 0 <= i < groups[g].len() && groups[g][i] == member;
            assert(groups[h][d] & groups[g][i] == 0);
            assert((p & member) | 0u64 == p & member) by (bit_vector);
        }
    }
}

/// Where the bitmasks tell the selection, an index can be read back from
/// its bitmask: two indices of the action space with the same bitmask are
/// one index.
pub proof fn lemma_bitmask_determines_action(
    groups: Seq<Seq<u64>>,
    num_buttons: nat,
    a: int,
    b: int,
)
    requires
        groups_valid(groups),
        groups_separable(groups),
        is_button_count(groups, num_buttons),
        num_buttons <= 64,
        0 <= a < action_count(groups),
        0 <= b < action_count(groups),
        action_bitmask(groups, a, num_buttons as int) == action_bitmask(
            groups,
            b,
            num_buttons as int,
        ),
    ensures
        a == b,
{
    let n = groups.len() as int;
    let va = buttons_value(groups, a, n);
    let vb = buttons_value(groups, b, n);
    lemma_buttons_value_fits(groups, a, n, num_buttons);
    lemma_buttons_value_fits(groups, b, n, num_buttons);
    lemma_equal_bits_equal_values(va, vb, num_buttons as int);
    lemma_decompose_then_compose(groups, a);
    lemma_decompose_then_compose(groups, b);
    assert forall|g: int| 0 <= g < groups.len() implies digit(groups, a, g) == digit(
        groups,
        b,
        g,
    ) by {
        let da = digits_of(groups, a)[g];
        let db = digits_of(groups, b)[g];
        let ca = chosen(groups, a, g);
        let cb = chosen(groups, b, g);
        assert(ca == groups[g][da]);
        assert(cb == groups[g][db]);
        lemma_value_masked_by_member(groups, a, n, g, ca);
        lemma_value_masked_by_member(groups, b, n, g, ca);
        lemma_value_masked_by_member(groups, a, n, g, cb);
        lemma_value_masked_by_member(groups, b, n, g, cb);
        assert(ca == cb) by (bit_vector)
            requires
                ca & ca == cb & ca,
                ca & cb == cb & cb,
        ;
        if da < db {
            assert(groups[g][da] != groups[g][db]);
        } else if db < da {
            assert(groups[g][db] != groups[g][da]);
        }
    }
    assert(digits_of(groups, a) =~= digits_of(groups, b));
    lemma_digits_determine_action(groups, a, b);
}

proof fn lemma_bit_width_monotone(a: u64, b: u64)
    requires
        a <= b,
    ensures
        bit_width(a) <= bit_width(b),
    decreases b,
{
    if a != 0 {
        lemma_bit_width_monotone(a / 2, b / 2);
    }
}

proof fn lemma_bit_width_leading_zeros(v: u64)
    ensures
        bit_width(v) == 64 - u64_leading_zeros(v),
    decreases v,
{
    reveal(u64_leading_zeros);
    if v != 0 {
        lemma_bit_width_leading_zeros(v / 2);
    }
}

/// Why a controller could not be built from the combo groups it was given.
#[derive(Clone, Copy, Debug, PartialEq, Eq, Structural)]
pub enum ControllerError {
    /// There is no group, so no bitmask value to take a width from.
    NoButtonValues,
    /// A group has no member to select.
    EmptyComboGroup,
    /// The product of the group cardinalities does not fit the index type.
    TooManyActions,
}

impl ControllerError {
    pub fn message(&self) -> (text: &'static str)
        ensures
            text@ == self.message_spec(),
    {
        match self {
            ControllerError::NoButtonValues => "no button bitmask value was supplied",
            ControllerError::EmptyComboGroup => "a button combo group is empty",
            ControllerError::TooManyActions => "the action space does not fit the index type",
        }
    }

    /// The cause of the error in words, for the report that setup aborts
    /// with.
    pub open spec fn message_spec(self) -> Seq<char> {
        match self {
            ControllerError::NoButtonValues => "no button bitmask value was supplied"@,
            ControllerError::EmptyComboGroup => "a button combo group is empty"@,
            ControllerError::TooManyActions => "the action space does not fit the index type"@,
        }
    }
}

/// The error that the groups are rejected with, if they are: no group at
/// all, else an empty group, else an action space beyond `usize`.
pub open spec fn construction_error(groups: Seq<Seq<u64>>) -> Option<ControllerError> {
    if groups.len() == 0 {
        Some(ControllerError::NoButtonValues)
    } else if !groups_valid(groups) {
        Some(ControllerError::EmptyComboGroup)
    } else if action_count(groups) > usize::MAX {
        Some(ControllerError::TooManyActions)
    } else {
        None
    }
}

/// Maps every action index to its button bitmask, computed once.
pub struct Controller {
    actions_to_buttons_bitmask_map: HashMap<usize, Vec<u8>>,
    num_buttons: usize,
    num_actions: usize,
    groups: Ghost<Seq<Seq<u64>>>,
}

impl Controller {
    /// The combo groups that the controller was built from.
    pub closed spec fn groups(&self) -> Seq<Seq<u64>> {
        self.groups@
    }

    pub closed spec fn spec_num_actions(&self) -> usize {
        self.num_actions
    }

    pub closed spec fn spec_num_buttons(&self) -> usize {
        self.num_buttons
    }

    pub closed spec fn wf(&self) -> bool {
        &&& groups_valid(self.groups@)
        &&& self.num_actions == action_count(self.groups@)
        &&& self.num_buttons <= 64
        &&& is_button_count(self.groups@, self.num_buttons as nat)
        &&& forall|a: usize|
            a < self.num_actions <==> #[trigger] self.actions_to_buttons_bitmask_map@.contains_key(
                a,
            )
        &&& forall|a: usize|
            a < self.num_actions ==> (#[trigger] self.actions_to_buttons_bitmask_map@[a])@
                == action_bitmask(self.groups@, a as int, self.num_buttons as int)
    }

    /// Builds the lookup table for the given groups. Fails when there is no
    /// group, when a group is empty, or when the action space does not fit
    /// `usize`; otherwise every action index has its bitmask.
    pub fn new(button_combos: Vec<Vec<u64>>) -> (result: Result<Controller, ControllerError>)
        ensures
            match result {
                Ok(controller) => {
                    &&& construction_error(combo_groups(&button_combos)) is None
                    &&& controller.wf()
                    &&& controller.groups() == combo_groups(&button_combos)
                    &&& controller.spec_num_actions() == action_count(controller.groups())
                    &&& is_button_count(controller.groups(), controller.spec_num_buttons() as nat)
                },
                Err(error) => construction_error(combo_groups(&button_combos)) == Some(error),
            },
    {
        let ghost groups = combo_groups(&button_combos);
        let n: usize = button_combos.len();
        if n == 0 {
            return Err(ControllerError::NoButtonValues);
        }
        let mut max_button_value: u64 = 0;
        let mut g: usize = 0;
        while g < n
            invariant
                n == button_combos@.len(),
                groups == combo_groups(&button_combos),
                g <= n,
                forall|h: int| 0 <= h < g ==> (#[trigger] groups[h]).len() > 0,
                forall|h: int, i: int|
                    0 <= h < g && 0 <= i < groups[h].len() ==> #[trigger] groups[h][i]
                        <= max_button_value,
                g == 0 ==> max_button_value == 0,
                g > 0 ==> exists|h: int, i: int|
                    0 <= h < g && 0 <= i < groups[h].len() && #[trigger] groups[h][i]
                        == max_button_value,
            decreases n - g,
        {
            let combo = &button_combos[g];
            let m: usize = combo.len();
            if m == 0 {
                assert(groups[g as int].len() == 0);
                return Err(ControllerError::EmptyComboGroup);
            }
            let mut i: usize = 0;
            while i < m
                invariant
                    n == button_combos@.len(),
                    groups == combo_groups(&button_combos),
                    g < n,
                    combo@ == groups[g as int],
                    m == combo@.len(),
                    i <= m,
                    forall|h: int, j: int|
                        0 <= h < g && 0 <= j < groups[h].len() ==> #[trigger] groups[h][j]
                            <= max_button_value,
                    forall|j: int| 0 <= j < i ==> #[trigger] groups[g as int][j] <= max_button_value,
                    g == 0 && i == 0 ==> max_button_value == 0,
                    g > 0 || i > 0 ==> exists|h: int, j: int|
                        0 <= h <= g && 0 <= j < groups[h].len() && (h == g ==> j < i)
                            && #[trigger] groups[h][j] == max_button_value,
                decreases m - i,
            {
                let value: u64 = combo[i];
                if value > max_button_value {
                    max_button_value = value;
                    assert(groups[g as int][i as int] == max_button_value);
                } else {
                    proof {
                        if g > 0 || i > 0 {
                            let (h0, j0) = choose|h: int, j: int|
                                0 <= h <= g && 0 <= j < groups[h].len() && (h == g ==> j < i)
                                    && #[trigger] groups[h][j] == max_button_value;
                            assert(groups[h0][j0] == max_button_value);
                        } else {
                            assert(groups[g as int][i as int] == max_button_value);
                        }
                    }
                }
                i += 1;
            }
            proof {
                let (h0, j0) = choose|h: int, j: int|
                    0 <= h <= g && 0 <= j < groups[h].len() && (h == g ==> j < m)
                        && #[trigger] groups[h][j] == max_button_value;
                assert(groups[h0][j0] == max_button_value);
                assert forall|h: int, j: int|
                    0 <= h < g + 1 && 0 <= j < groups[h].len() implies #[trigger] groups[h][j]
                    <= max_button_value by {
                    if h == g {
                        assert(groups[g as int][j] <= max_button_value);
                    }
                }
            }
            g += 1;
        }
        assert(groups_valid(groups));

        let zeros: u32 = max_button_value.leading_zeros();
        proof {
            lemma_bit_width_leading_zeros(max_button_value);
        }
        let num_buttons: usize = 64 - zeros as usize;
        proof {
            let (h0, j0) = choose|h: int, i: int|
                0 <= h < n && 0 <= i < groups[h].len() && #[trigger] groups[h][i]
                    == max_button_value;
            assert(bit_width(groups[h0][j0]) == num_buttons);
            assert forall|h: int, i: int|
                0 <= h < groups.len() && 0 <= i < groups[h].len() implies bit_width(
                #[trigger] groups[h][i],
            ) <= num_buttons by {
                lemma_bit_width_monotone(groups[h][i], max_button_value);
            }
        }

        let mut num_actions: usize = 1;
        let mut g: usize = 0;
        while g < n
            invariant
                n == button_combos@.len(),
                groups == combo_groups(&button_combos),
                groups_valid(groups),
                g <= n,
                num_actions * action_count_from(groups, g as int) == action_count(groups),
                num_actions >= 1,
            decreases n - g,
        {
            let m: usize = button_combos[g].len();
            proof {
                lemma_action_count_positive(groups, g + 1);
                assert(groups[g as int].len() == m);
                lemma_mul_is_associative(
                    num_actions as int,
                    m as int,
                    action_count_from(groups, g + 1) as int,
                );
            }
            match num_actions.checked_mul(m) {
                Some(product) => {
                    assert(num_actions * m >= 1) by (nonlinear_arith)
                        requires
                            num_actions >= 1,
                            m >= 1,
                    ;
                    num_actions = product;
                },
                None => {
                    proof {
                        lemma_mul_inequality(
                            1,
                            action_count_from(groups, g + 1) as int,
                            num_actions * m,
                        );
                    }
                    return Err(ControllerError::TooManyActions);
                },
            }
            g += 1;
        }

        assert(action_count_from(groups, n as int) == 1);
        assert(num_actions == action_count(groups)) by (nonlinear_arith)
            requires
                num_actions * action_count_from(groups, n as int) == action_count(groups),
                action_count_from(groups, n as int) == 1,
        ;

        let mut actions_to_buttons_bitmask_map: HashMap<usize, Vec<u8>> = HashMap::new();
        let mut action: usize = 0;
        while action < num_actions
            invariant
                groups == combo_groups(&button_combos),
                groups_valid(groups),
                num_buttons <= 64,
                action <= num_actions,
                num_actions == action_count(groups),
                forall|a: usize|
                    a < action <==> #[trigger] actions_to_buttons_bitmask_map@.contains_key(a),
                forall|a: usize|
                    a < action ==> (#[trigger] actions_to_buttons_bitmask_map@[a])@
                        == action_bitmask(groups, a as int, num_buttons as int),
            decreases num_actions - action,
        {
            let bits = Self::compute_button_bitmask(action, &button_combos, num_buttons);
            actions_to_buttons_bitmask_map.insert(action, bits);
            action += 1;
        }
        Ok(
            Controller {
                actions_to_buttons_bitmask_map,
                num_buttons,
                num_actions,
                groups: Ghost(groups),
            },
        )
    }

    /// The bitmask of one action: selects a member of each group by
    /// remainder and quotient, ORs the members, and expands the low
    /// `num_buttons` bits of the result.
    pub fn compute_button_bitmask(
        action: usize,
        button_combos: &Vec<Vec<u64>>,
        num_buttons: usize,
    ) -> (bits: Vec<u8>)
        requires
            forall|g: int|
                0 <= g < button_combos@.len() ==> (#[trigger] combo_groups(button_combos)[g]).len()
                    > 0,
            num_buttons <= 64,
        ensures
            bits@ == action_bitmask(combo_groups(button_combos), action as int, num_buttons as int),
    {
        let ghost groups = combo_groups(button_combos);
        let n: usize = button_combos.len();
        let mut remaining: usize = action;
        let mut buttons_value: u64 = 0;
        let mut g: usize = 0;
        while g < n
            invariant
                n == button_combos@.len(),
                groups == combo_groups(button_combos),
                forall|h: int| 0 <= h < n ==> (#[trigger] groups[h]).len() > 0,
                g <= n,
                remaining == rest(groups, action as int, g as int),
                buttons_value == self::buttons_value(groups, action as int, g as int),
            decreases n - g,
        {
            let combo = &button_combos[g];
            assert(combo@ == groups[g as int]);
            let current: usize = remaining % combo.len();
            remaining = remaining / combo.len();
            buttons_value = buttons_value | combo[current];
            g += 1;
        }
        let mut bits: Vec<u8> = Vec::new();
        let mut i: usize = 0;
        while i < num_buttons
            invariant
                num_buttons <= 64,
                i <= num_buttons,
                bits@ == bitmask(buttons_value, i as int),
            decreases num_buttons - i,
        {
            bits.push(((buttons_value >> (i as u64)) & 1) as u8);
            i += 1;
            assert(bits@ =~= bitmask(buttons_value, i as int));
        }
        bits
    }

    /// The precomputed bitmask of an action of the action space.
    pub fn get_button_bitmask(&self, action: usize) -> (bits: &Vec<u8>)
        requires
            self.wf(),
            action < self.spec_num_actions(),
        ensures
            bits@ == action_bitmask(self.groups(), action as int, self.spec_num_buttons() as int),
            bits@.len() == self.spec_num_buttons(),
    {
        assert(self.actions_to_buttons_bitmask_map@.contains_key(action));
        let found = self.actions_to_buttons_bitmask_map.get(&action);
        found.unwrap()
    }

    /// Size of the action space.
    pub fn num_actions(&self) -> (count: usize)
        requires
            self.wf(),
        ensures
            count == self.spec_num_actions(),
            count == action_count(self.groups()),
            count >= 1,
    {
        proof {
            lemma_action_count_positive(self.groups@, 0);
        }
        self.num_actions
    }

    /// Number of entries of every bitmask.
    pub fn num_buttons(&self) -> (count: usize)
        requires
            self.wf(),
        ensures
            count == self.spec_num_buttons(),
            count <= 64,
            is_button_count(self.groups(), count as nat),
    {
        self.num_buttons
    }
}

} // verus!
