//! Embedded-gadget catalogue and bit-decomposition synthesis.
//!
//! A catalogue entry is a built-in operation carried as-is until the
//! flattening step, where it is inlined into the caller's circuit. The one
//! concretely synthesized gadget decomposes a field element into bits by
//! the hint-and-constrain pattern: a directive asks an external solver for
//! candidate bits, and emitted constraints force any accepted witness to
//! make those bits consistent with the input.

use vstd::prelude::*;
use vstd::arithmetic::div_mod::{
    lemma_add_mod_noop, lemma_breakdown, lemma_mod_division_less_than_divisor,
    lemma_mod_sub_multiples_vanish, lemma_small_mod,
};
use vstd::arithmetic::power2::{
    lemma2_to64, lemma_pow2_pos, lemma_pow2_strictly_increases, lemma_pow2_unfold, pow2,
};
use crate::field::{no_zero_divisors, Field};
use crate::ir::{
    eval_expr, function_holds, stmt_holds, FlatDirective, FlatExpression, FlatExpressionList,
    FlatFunction, FlatParameter, FlatStatement, FlatVariable,
};
use crate::solver::Solver;
use crate::types::{FunctionKey, Signature, Type};

verus! {

/// A low-level built-in that introduces variables non-deterministically; it
/// is carried as-is until the flattening step, when it can be inlined.
#[derive(Debug, Clone, PartialEq, Hash)]
pub enum FlatEmbed {
    Unpack(usize),
    U8ToBits,
    U16ToBits,
    U32ToBits,
    U8FromBits,
    U16FromBits,
    U32FromBits,
}

/// The stable identifier of a catalogue entry, prefixed to keep it outside
/// the user-defined namespace.
pub open spec fn id_spec(e: FlatEmbed) -> Seq<char> {
    match e {
        FlatEmbed::Unpack(_) => "_UNPACK"@,
        FlatEmbed::U8ToBits => "_U8_TO_BITS"@,
        FlatEmbed::U16ToBits => "_U16_TO_BITS"@,
        FlatEmbed::U32ToBits => "_U32_TO_BITS"@,
        FlatEmbed::U8FromBits => "_U8_FROM_BITS"@,
        FlatEmbed::U16FromBits => "_U16_FROM_BITS"@,
        FlatEmbed::U32FromBits => "_U32_FROM_BITS"@,
    }
}

/// The declared input types of a catalogue entry.
pub open spec fn signature_inputs_spec(e: FlatEmbed) -> Seq<Type> {
    match e {
        FlatEmbed::Unpack(_) => seq![Type::FieldElement],
        FlatEmbed::U8ToBits => seq![Type::Uint(8)],
        FlatEmbed::U16ToBits => seq![Type::Uint(16)],
        FlatEmbed::U32ToBits => seq![Type::Uint(32)],
        FlatEmbed::U8FromBits => seq![Type::Array(Box::new(Type::Boolean), 8)],
        FlatEmbed::U16FromBits => seq![Type::Array(Box::new(Type::Boolean), 16)],
        FlatEmbed::U32FromBits => seq![Type::Array(Box::new(Type::Boolean), 32)],
    }
}

/// The declared output types of a catalogue entry.
pub open spec fn signature_outputs_spec(e: FlatEmbed) -> Seq<Type> {
    match e {
        FlatEmbed::Unpack(w) => seq![Type::Array(Box::new(Type::Boolean), w)],
        FlatEmbed::U8ToBits => seq![Type::Array(Box::new(Type::Boolean), 8)],
        FlatEmbed::U16ToBits => seq![Type::Array(Box::new(Type::Boolean), 16)],
        FlatEmbed::U32ToBits => seq![Type::Array(Box::new(Type::Boolean), 32)],
        FlatEmbed::U8FromBits => seq![Type::Uint(8)],
        FlatEmbed::U16FromBits => seq![Type::Uint(16)],
        FlatEmbed::U32FromBits => seq![Type::Uint(32)],
    }
}

impl FlatEmbed {
    /// The declared signature of this entry. Width-parameterized entries
    /// produce different output array lengths, hence different signatures.
    pub fn signature(&self) -> (r: Signature)
        ensures
            r.inputs@ == signature_inputs_spec(*self),
            r.outputs@ == signature_outputs_spec(*self),
    {
        let r = match self {
            FlatEmbed::Unpack(bitwidth) => Signature::new().inputs(vec![Type::FieldElement])
                .outputs(vec![Type::array(Type::Boolean, *bitwidth)]),
            FlatEmbed::U8ToBits => Signature::new().inputs(vec![Type::uint(8)]).outputs(
                vec![Type::array(Type::Boolean, 8)],
            ),
            FlatEmbed::U16ToBits => Signature::new().inputs(vec![Type::uint(16)]).outputs(
                vec![Type::array(Type::Boolean, 16)],
            ),
            FlatEmbed::U32ToBits => Signature::new().inputs(vec![Type::uint(32)]).outputs(
                vec![Type::array(Type::Boolean, 32)],
            ),
            FlatEmbed::U8FromBits => Signature::new().outputs(vec![Type::uint(8)]).inputs(
                vec![Type::array(Type::Boolean, 8)],
            ),
            FlatEmbed::U16FromBits => Signature::new().outputs(vec![Type::uint(16)]).inputs(
                vec![Type::array(Type::Boolean, 16)],
            ),
            FlatEmbed::U32FromBits => Signature::new().outputs(vec![Type::uint(32)]).inputs(
                vec![Type::array(Type::Boolean, 32)],
            ),
        };
        proof {
            assert(r.inputs@ =~= signature_inputs_spec(*self));
            assert(r.outputs@ =~= signature_outputs_spec(*self));
        }
        r
    }

    /// The resolution key of this entry: its identifier and signature
    /// together.
    pub fn key<T: Field>(&self) -> (r: FunctionKey)
        ensures
            r.id@ == id_spec(*self),
            r.signature.inputs@ == signature_inputs_spec(*self),
            r.signature.outputs@ == signature_outputs_spec(*self),
    {
        FunctionKey::with_id(self.id()).signature(self.signature())
    }

    /// The stable, namespaced identifier of this entry; width-parameterized
    /// entries share one identifier.
    pub fn id(&self) -> (r: &'static str)
        ensures
            r@ == id_spec(*self),
    {
        match self {
            FlatEmbed::Unpack(_) => "_UNPACK",
            FlatEmbed::U8ToBits => "_U8_TO_BITS",
            FlatEmbed::U16ToBits => "_U16_TO_BITS",
            FlatEmbed::U32ToBits => "_U32_TO_BITS",
            FlatEmbed::U8FromBits => "_U8_FROM_BITS",
            FlatEmbed::U16FromBits => "_U16_FROM_BITS",
            FlatEmbed::U32FromBits => "_U32_FROM_BITS",
        }
    }

    /// The `FlatFunction` this entry stands for. Only `Unpack` carries a
    /// synthesis body: the six integer/bit-array conversion markers are
    /// handled structurally by the surrounding compiler, and asking this
    /// catalogue to synthesize one of them is a caller error, excluded by
    /// the precondition. This gap is a fixed limitation of the catalogue.
    pub fn synthetize<T: Field>(&self) -> (r: FlatFunction<T>)
        requires
            (*self) matches FlatEmbed::Unpack(bw) && bw as nat <= T::required_bits_spec() && bw + 3
                <= usize::MAX,
        ensures
            (*self) matches FlatEmbed::Unpack(bw) ==> unpacked_shape(r, bw),
    {
        match self {
            FlatEmbed::Unpack(bitwidth) => unpack_to_bitwidth::<T>(*bitwidth),
            _ => vstd::pervasive::unreached(),
        }
    }
}

/// A reference to the variable with the given index.
pub open spec fn var_expr<T: Field>(i: int) -> FlatExpression<T> {
    FlatExpression::Identifier(FlatVariable { id: i as usize })
}

/// The booleanity constraint of variable `i`: it must equal its own square,
/// which over a prime field forces it to 0 or 1.
pub open spec fn booleanity_check<T: Field>(i: int) -> FlatStatement<T> {
    FlatStatement::Condition(
        var_expr(i),
        FlatExpression::Mult(Box::new(var_expr(i)), Box::new(var_expr(i))),
    )
}

/// A literal with the given field value.
pub open spec fn is_field_literal<T: Field>(e: FlatExpression<T>, v: nat) -> bool {
    match e {
        FlatExpression::Number(x) => x.as_nat() == v,
        _ => false,
    }
}

/// Term `k` of the recomposition sum: bit variable `bit_width - k` weighted
/// by `2^k`.
pub open spec fn is_weight_term<T: Field>(e: FlatExpression<T>, bit_width: int, k: int) -> bool {
    match e {
        FlatExpression::Mult(x, y) => *x == var_expr::<T>(bit_width - k) && is_field_literal(
            *y,
            pow2(k as nat),
        ),
        _ => false,
    }
}

/// The first `i` terms of the recomposition sum, left-nested onto a zero
/// literal, weights doubling LSB-first.
pub open spec fn is_partial_sum<T: Field>(e: FlatExpression<T>, bit_width: int, i: int) -> bool
    decreases i,
{
    if i <= 0 {
        is_field_literal(e, 0)
    } else {
        match e {
            FlatExpression::Add(a, b) => is_partial_sum(*a, bit_width, i - 1) && is_weight_term(
                *b,
                bit_width,
                i - 1,
            ),
            _ => false,
        }
    }
}

/// The recomposition constraint: the full weighted sum of the bit variables
/// equals the input variable times one.
pub open spec fn is_sum_check<T: Field>(s: FlatStatement<T>, bit_width: int) -> bool {
    match s {
        FlatStatement::Condition(l, r) => is_partial_sum(l, bit_width, bit_width) && (match r {
            FlatExpression::Mult(x, y) => *x == var_expr::<T>(0) && is_field_literal(*y, 1),
            _ => false,
        }),
        _ => false,
    }
}

/// The hint: a directive reading the input variable and declaring the
/// `bit_width` freshly allocated output variables, bound to the
/// bit-decomposition solver of the same width.
pub open spec fn is_bits_directive<T: Field>(s: FlatStatement<T>, bit_width: usize) -> bool {
    match s {
        FlatStatement::Directive(d) => {
            &&& d.inputs@.len() == 1
            &&& d.inputs@[0] == var_expr::<T>(0)
            &&& d.outputs@.len() == bit_width
            &&& forall|k: int|
                0 <= k < bit_width ==> d.outputs@[k] == (FlatVariable { id: (k + 1) as usize })
            &&& d.solver == Solver::Bits(bit_width)
        },
        _ => false,
    }
}

/// The terminal return of the output variables in declared (MSB-first)
/// order.
pub open spec fn is_return_of_outputs<T: Field>(s: FlatStatement<T>, bit_width: int) -> bool {
    match s {
        FlatStatement::Return(l) => l.expressions@.len() == bit_width && (forall|k: int|
            0 <= k < bit_width ==> l.expressions@[k] == var_expr::<T>(k + 1)),
        _ => false,
    }
}

/// The exact shape of the function `unpack_to_bitwidth` produces: one
/// private input parameter at index 0, then the directive, one booleanity
/// constraint per output variable, the recomposition constraint, and the
/// return of the outputs, `bit_width + 3` statements in all.
pub open spec fn unpacked_shape<T: Field>(f: FlatFunction<T>, bit_width: usize) -> bool {
    let w = bit_width as int;
    &&& f.arguments@.len() == 1
    &&& f.arguments@[0] == (FlatParameter { id: FlatVariable { id: 0 }, private: true })
    &&& f.statements@.len() == w + 3
    &&& is_bits_directive(f.statements@[0], bit_width)
    &&& forall|i: int| 1 <= i <= w ==> #[trigger] f.statements@[i] == booleanity_check::<T>(w + 1 - i)
    &&& is_sum_check(f.statements@[w + 1], w)
    &&& is_return_of_outputs(f.statements@[w + 2], w)
}

/// Hands out the next variable index from the function-local counter.
fn use_variable(index: &mut usize) -> (r: FlatVariable)
    requires
        *old(index) < usize::MAX,
    ensures
        r == (FlatVariable { id: *old(index) }),
        *final(index) == *old(index) + 1,
{
    let var = FlatVariable::new(*index);
    *index = *index + 1;
    var
}

/// A `FlatFunction` which returns a bit decomposition of a field element.
///
/// The hint-and-constrain pattern in full: a directive asks the solver for
/// the bits of the input, booleanity constraints force each hinted value to
/// 0 or 1, and the recomposition constraint forces their weighted sum back
/// to the input, so the output tuple is the binary representation of the
/// input under the stated weighting.
///
/// The return value is not deterministic if `bit_width` equals the field's
/// required bit count: decomposing over that many bits lets some elements
/// have two representations — zero, for example, is reached by the bits of
/// both `0` and the modulus. Callers needing a canonical representation
/// must range-check against the modulus themselves.
pub fn unpack_to_bitwidth<T: Field>(bit_width: usize) -> (r: FlatFunction<T>)
    requires
        bit_width as nat <= T::required_bits_spec(),
        bit_width + 3 <= usize::MAX,
    ensures
        unpacked_shape(r, bit_width),
{
    let nbits = T::required_bits();
    // a wider request than the field can represent is a configuration
    // error, ruled out before anything is allocated
    assert(bit_width <= nbits);

    let mut counter: usize = 0;

    let mut arguments: Vec<FlatParameter> = Vec::new();
    arguments.push(FlatParameter { id: FlatVariable::new(0), private: true });

    let mut directive_inputs: Vec<FlatExpression<T>> = Vec::new();
    directive_inputs.push(FlatExpression::Identifier(use_variable(&mut counter)));

    let mut directive_outputs: Vec<FlatVariable> = Vec::new();
    let mut idx: usize = 0;
    while idx < bit_width
        invariant
            idx <= bit_width,
            bit_width + 3 <= usize::MAX,
            counter == idx + 1,
            directive_outputs@.len() == idx,
            forall|k: int|
                0 <= k < idx ==> directive_outputs@[k] == (FlatVariable { id: (k + 1) as usize }),
        decreases bit_width - idx,
    {
        directive_outputs.push(use_variable(&mut counter));
        idx += 1;
    }

    let solver = Solver::bits(bit_width);

    let mut outputs: Vec<FlatExpression<T>> = Vec::new();
    let mut i: usize = 0;
    while i < directive_outputs.len()
        invariant
            i <= directive_outputs@.len(),
            directive_outputs@.len() == bit_width,
            forall|k: int|
                0 <= k < bit_width ==> directive_outputs@[k] == (FlatVariable {
                    id: (k + 1) as usize,
                }),
            outputs@.len() == i,
            forall|k: int| 0 <= k < i ==> outputs@[k] == var_expr::<T>(k + 1),
        decreases directive_outputs@.len() - i,
    {
        outputs.push(FlatExpression::Identifier(directive_outputs[i]));
        i += 1;
    }

    // one booleanity constraint per hinted output variable
    let mut statements: Vec<FlatStatement<T>> = Vec::new();
    let mut index: usize = 0;
    while index < bit_width
        invariant
            index <= bit_width,
            statements@.len() == index,
            forall|j: int|
                0 <= j < index ==> statements@[j] == booleanity_check::<T>(bit_width - j),
        decreases bit_width - index,
    {
        let bit = FlatExpression::<T>::Identifier(FlatVariable::new(bit_width - index));
        let bit_l = FlatExpression::<T>::Identifier(FlatVariable::new(bit_width - index));
        let bit_r = FlatExpression::<T>::Identifier(FlatVariable::new(bit_width - index));
        statements.push(
            FlatStatement::Condition(bit, FlatExpression::Mult(Box::new(bit_l), Box::new(bit_r))),
        );
        index += 1;
    }

    // sum check: the weighted sum of the bits, LSB-first, equals the input
    let mut lhs_sum: FlatExpression<T> = FlatExpression::Number(T::from_u64(0));
    proof {
        T::lemma_modulus_fits();
        vstd::arithmetic::power2::lemma_pow2_pos((T::required_bits_spec() - 1) as nat);
        vstd::arithmetic::div_mod::lemma_small_mod(0, T::modulus_spec());
        vstd::arithmetic::div_mod::lemma_small_mod(1, T::modulus_spec());
    }
    let mut term: usize = 0;
    while term < bit_width
        invariant
            term <= bit_width,
            bit_width as nat <= T::required_bits_spec(),
            is_partial_sum(lhs_sum, bit_width as int, term as int),
        decreases bit_width - term,
    {
        proof {
            T::lemma_modulus_fits();
        }
        lhs_sum = FlatExpression::Add(
            Box::new(lhs_sum),
            Box::new(
                FlatExpression::Mult(
                    Box::new(FlatExpression::Identifier(FlatVariable::new(bit_width - term))),
                    Box::new(FlatExpression::Number(T::pow_of_two(term))),
                ),
            ),
        );
        term += 1;
    }

    statements.push(
        FlatStatement::Condition(
            lhs_sum,
            FlatExpression::Mult(
                Box::new(FlatExpression::Identifier(FlatVariable::new(0))),
                Box::new(FlatExpression::Number(T::from_u64(1))),
            ),
        ),
    );

    // the directive comes first: its outputs must be declared before any
    // statement that reads them
    statements.insert(
        0,
        FlatStatement::Directive(
            FlatDirective { inputs: directive_inputs, outputs: directive_outputs, solver },
        ),
    );

    statements.push(FlatStatement::Return(FlatExpressionList { expressions: outputs }));

    FlatFunction { arguments, statements }
}

/// Bit `k` of `x`, of weight `2^k`.
pub open spec fn bit_of(x: nat, k: nat) -> nat {
    (x / pow2(k)) % 2
}

/// The weighted sum of the first `i` bit variables as the recomposition
/// constraint reads them, LSB-first: term `k` is `w[bit_width - k] * 2^k`.
pub open spec fn weighted_sum(w: Seq<nat>, bit_width: int, i: int) -> nat
    decreases i,
{
    if i <= 0 {
        0
    } else {
        weighted_sum(w, bit_width, i - 1) + w[bit_width - (i - 1)] * pow2((i - 1) as nat)
    }
}

/// The partial-sum expression evaluates to the weighted sum of the bit
/// variables, reduced modulo the field's modulus.
proof fn lemma_partial_sum_eval<T: Field>(e: FlatExpression<T>, w: Seq<nat>, bit_width: int, i: int)
    requires
        is_partial_sum(e, bit_width, i),
        0 <= i <= bit_width,
        bit_width <= usize::MAX,
        bit_width < w.len(),
        T::modulus_spec() >= 2,
    ensures
        eval_expr(e, w) == weighted_sum(w, bit_width, i) % T::modulus_spec(),
    decreases i,
{
    let p = T::modulus_spec();
    if i <= 0 {
        lemma_small_mod(0, p);
    } else {
        match e {
            FlatExpression::Add(a, b) => {
                lemma_partial_sum_eval(*a, w, bit_width, i - 1);
                let idx = bit_width - (i - 1);
                match *b {
                    FlatExpression::Mult(x, y) => {
                        assert(*x == var_expr::<T>(idx));
                        assert(eval_expr(*x, w) == w[idx]);
                        match *y {
                            FlatExpression::Number(n) => {
                                assert(eval_expr(*y, w) == n.as_nat());
                            },
                            _ => {
                                assert(false);
                            },
                        }
                        assert(eval_expr(*y, w) == pow2((i - 1) as nat));
                        assert(eval_expr(*b, w) == (w[idx] * pow2((i - 1) as nat)) % p);
                    },
                    _ => {
                        assert(false);
                    },
                }
                let s_prev = weighted_sum(w, bit_width, i - 1);
                let t = w[idx] * pow2((i - 1) as nat);
                lemma_add_mod_noop(s_prev as int, t as int, p as int);
                assert(weighted_sum(w, bit_width, i) == s_prev + t);
            },
            _ => {
                assert(false);
            },
        }
    }
}

/// A weighted sum of 0/1 bit values stays below `2^i`.
proof fn lemma_weighted_sum_bound(w: Seq<nat>, bit_width: int, i: int)
    requires
        0 <= i <= bit_width,
        bit_width < w.len(),
        forall|j: int| 1 <= j <= bit_width ==> #[trigger] w[j] == 0 || w[j] == 1,
    ensures
        weighted_sum(w, bit_width, i) < pow2(i as nat),
    decreases i,
{
    if i <= 0 {
        lemma_pow2_pos(0);
    } else {
        lemma_weighted_sum_bound(w, bit_width, i - 1);
        lemma_pow2_unfold(i as nat);
        assert(w[bit_width - (i - 1)] <= 1);
        assert(w[bit_width - (i - 1)] * pow2((i - 1) as nat) <= pow2((i - 1) as nat)) by (
        nonlinear_arith)
            requires
                w[bit_width - (i - 1)] <= 1,
        ;
    }
}

/// The true bits of `x` recompose to `x` modulo `2^i`.
proof fn lemma_bits_recompose(x: nat, w: Seq<nat>, bit_width: int, i: int)
    requires
        0 <= i <= bit_width,
        bit_width < w.len(),
        forall|j: int| 1 <= j <= bit_width ==> #[trigger] w[j] == bit_of(x, (bit_width - j) as nat),
    ensures
        weighted_sum(w, bit_width, i) == x % pow2(i as nat),
    decreases i,
{
    if i <= 0 {
        lemma2_to64();
        assert(x % 1 == 0);
    } else {
        lemma_bits_recompose(x, w, bit_width, i - 1);
        let y = pow2((i - 1) as nat);
        lemma_pow2_pos((i - 1) as nat);
        lemma_pow2_unfold(i as nat);
        lemma_breakdown(x as int, y as int, 2);
        assert(w[bit_width - (i - 1)] == bit_of(x, (i - 1) as nat));
        assert(x % pow2(i as nat) == y * ((x / y) % 2) + x % y);
    }
}

/// Every directive output variable has its booleanity constraint somewhere
/// among the middle statements.
pub proof fn lemma_booleanity_present<T: Field>(f: FlatFunction<T>, bit_width: usize)
    requires
        unpacked_shape(f, bit_width),
    ensures
        forall|v: int|
            1 <= v <= bit_width ==> 1 <= 1 + (bit_width - v) <= bit_width && #[trigger] f.statements@[1
                + (bit_width - v)] == booleanity_check::<T>(v),
{
    let w = bit_width as int;
    assert forall|v: int| 1 <= v <= bit_width implies 1 <= 1 + (w - v) <= w
        && #[trigger] f.statements@[1 + (w - v)] == booleanity_check::<T>(v) by {
        assert(f.statements@[1 + (w - v)] == booleanity_check::<T>(w + 1 - (1 + (w - v))));
    }
}

/// Exactly one recomposition constraint exists: the statement just before
/// the return, and no other.
pub proof fn lemma_sum_check_unique<T: Field>(f: FlatFunction<T>, bit_width: usize)
    requires
        unpacked_shape(f, bit_width),
    ensures
        forall|j: int|
            0 <= j < f.statements@.len() ==> (is_sum_check(
                #[trigger] f.statements@[j],
                bit_width as int,
            ) <==> j == bit_width + 1),
{
    let w = bit_width as int;
    assert forall|j: int| 0 <= j < f.statements@.len() implies (is_sum_check(
        #[trigger] f.statements@[j],
        w,
    ) <==> j == w + 1) by {
        if j == 0 {
            assert(!is_sum_check(f.statements@[0], w));
        } else if 1 <= j <= w {
            assert(f.statements@[j] == booleanity_check::<T>(w + 1 - j));
            assert(!is_sum_check(f.statements@[j], w));
        } else if j == w + 2 {
            assert(!is_sum_check(f.statements@[j], w));
        }
    }
}

/// Assigning the input variable a value and the output variables its true
/// MSB-first bits satisfies every emitted constraint.
pub proof fn lemma_true_bits_satisfy<T: Field>(
    f: FlatFunction<T>,
    bit_width: usize,
    x: nat,
    w: Seq<nat>,
)
    requires
        unpacked_shape(f, bit_width),
        bit_width as nat <= T::required_bits_spec(),
        x < T::modulus_spec(),
        x < pow2(bit_width as nat),
        w.len() == bit_width + 1,
        w[0] == x,
        forall|j: int| 1 <= j <= bit_width ==> #[trigger] w[j] == bit_of(x, (bit_width - j) as nat),
    ensures
        function_holds(f, w),
{
    let p = T::modulus_spec();
    let wid = bit_width as int;
    T::lemma_modulus_fits();
    lemma_pow2_pos((T::required_bits_spec() - 1) as nat);
    lemma_small_mod(1, p);
    assert forall|i: int| 0 <= i < f.statements@.len() implies stmt_holds(
        #[trigger] f.statements@[i],
        w,
    ) by {
        if 1 <= i <= wid {
            assert(f.statements@[i] == booleanity_check::<T>(wid + 1 - i));
            let v = wid + 1 - i;
            let b = w[v];
            assert(b == bit_of(x, (wid - v) as nat));
            lemma_mod_division_less_than_divisor((x / pow2((wid - v) as nat)) as int, 2);
            assert(b == 0 || b == 1);
            match f.statements@[i] {
                FlatStatement::Condition(l, r) => {
                    assert(eval_expr(l, w) == b);
                    assert(eval_expr(r, w) == (b * b) % p);
                    if b == 0 {
                        assert(b * b == 0) by (nonlinear_arith)
                            requires
                                b == 0,
                        ;
                        lemma_small_mod(0, p);
                    } else {
                        assert(b == 1);
                        assert(b * b == 1) by (nonlinear_arith)
                            requires
                                b == 1,
                        ;
                        lemma_small_mod(1, p);
                    }
                    assert(eval_expr(l, w) == eval_expr(r, w));
                    assert(stmt_holds(f.statements@[i], w));
                },
                _ => {
                    assert(false);
                },
            }
        } else if i == wid + 1 {
            match f.statements@[i] {
                FlatStatement::Condition(l, r) => {
                    lemma_partial_sum_eval(l, w, wid, wid);
                    lemma_bits_recompose(x, w, wid, wid);
                    lemma_small_mod(x, pow2(bit_width as nat));
                    lemma_small_mod(x, p);
                    assert(eval_expr(l, w) == x);
                    match r {
                        FlatExpression::Mult(mx, my) => {
                            assert(eval_expr(*mx, w) == x);
                            match *my {
                                FlatExpression::Number(n) => {
                                    assert(eval_expr(*my, w) == n.as_nat());
                                },
                                _ => {
                                    assert(false);
                                },
                            }
                            assert(eval_expr(*my, w) == 1);
                            assert(eval_expr(r, w) == (x * 1) % p);
                            assert(eval_expr(r, w) == x);
                        },
                        _ => {
                            assert(false);
                        },
                    }
                    assert(stmt_holds(f.statements@[i], w));
                },
                _ => {
                    assert(false);
                },
            }
        } else if i == 0 {
            match f.statements@[0] {
                FlatStatement::Directive(_) => {
                    assert(stmt_holds(f.statements@[0], w));
                },
                _ => {
                    assert(false);
                },
            }
        } else {
            assert(i == wid + 2);
            match f.statements@[i] {
                FlatStatement::Return(_) => {
                    assert(stmt_holds(f.statements@[i], w));
                },
                _ => {
                    assert(false);
                },
            }
        }
    }
}

/// A witness that gives any output variable a value other than 0 or 1
/// violates that variable's booleanity constraint: over a modulus with no
/// zero divisors, only 0 and 1 equal their own square.
pub proof fn lemma_nonboolean_violates<T: Field>(
    f: FlatFunction<T>,
    bit_width: usize,
    w: Seq<nat>,
    v: int,
)
    requires
        unpacked_shape(f, bit_width),
        no_zero_divisors(T::modulus_spec()),
        1 <= v <= bit_width,
        w.len() == bit_width + 1,
        w[v] < T::modulus_spec(),
        w[v] != 0,
        w[v] != 1,
    ensures
        !function_holds(f, w),
{
    let p = T::modulus_spec();
    let wid = bit_width as int;
    T::lemma_modulus_fits();
    lemma_pow2_pos((T::required_bits_spec() - 1) as nat);
    let i = 1 + (wid - v);
    assert(f.statements@[i] == booleanity_check::<T>(wid + 1 - i));
    assert(f.statements@[i] == booleanity_check::<T>(v));
    let b = w[v];
    match f.statements@[i] {
        FlatStatement::Condition(l, r) => {
            assert(eval_expr(l, w) == b);
            assert(eval_expr(r, w) == (b * b) % p);
            if eval_expr(l, w) == eval_expr(r, w) {
                let b1 = (b - 1) as nat;
                assert(b * b == b * b1 + b) by (nonlinear_arith)
                    requires
                        b >= 2,
                        b1 == b - 1,
                ;
                let m = (b * b1) % p;
                lemma_add_mod_noop((b * b1) as int, b as int, p as int);
                lemma_small_mod(b, p);
                lemma_mod_division_less_than_divisor((b * b1) as int, p as int);
                assert((m + b) % p == b);
                if m + b < p {
                    lemma_small_mod((m + b) as nat, p);
                    assert(m == 0);
                } else {
                    lemma_mod_sub_multiples_vanish((m + b) as int, p as int);
                    lemma_small_mod((m + b - p) as nat, p);
                    assert(false);
                }
                assert(((b * b1) % p) == 0);
                assert(b == 0 || b1 == 0);
                assert(false);
            }
            assert(!stmt_holds(f.statements@[i], w));
        },
        _ => {
            assert(false);
        },
    }
    assert(!function_holds(f, w));
}

/// A 0/1 witness whose weighted sum differs from the input violates the
/// recomposition constraint. Stated below the field's bit length, where the
/// weighted sum cannot wrap around the modulus; at the full bit length the
/// decomposition is deliberately non-injective.
pub proof fn lemma_wrong_sum_violates<T: Field>(f: FlatFunction<T>, bit_width: usize, w: Seq<nat>)
    requires
        unpacked_shape(f, bit_width),
        (bit_width as nat) < T::required_bits_spec(),
        w.len() == bit_width + 1,
        w[0] < T::modulus_spec(),
        forall|j: int| 1 <= j <= bit_width ==> #[trigger] w[j] == 0 || w[j] == 1,
        weighted_sum(w, bit_width as int, bit_width as int) != w[0],
    ensures
        !function_holds(f, w),
{
    let p = T::modulus_spec();
    let wid = bit_width as int;
    T::lemma_modulus_fits();
    lemma_pow2_pos((T::required_bits_spec() - 1) as nat);
    let sum = weighted_sum(w, wid, wid);
    lemma_weighted_sum_bound(w, wid, wid);
    if (bit_width as nat) < T::required_bits_spec() - 1 {
        lemma_pow2_strictly_increases(bit_width as nat, (T::required_bits_spec() - 1) as nat);
    }
    assert(sum < p);
    match f.statements@[wid + 1] {
        FlatStatement::Condition(l, r) => {
            lemma_partial_sum_eval(l, w, wid, wid);
            lemma_small_mod(sum, p);
            assert(eval_expr(l, w) == sum);
            match r {
                FlatExpression::Mult(mx, my) => {
                    lemma_small_mod(w[0], p);
                    assert(eval_expr(*mx, w) == w[0]);
                    match *my {
                        FlatExpression::Number(n) => {
                            assert(eval_expr(*my, w) == n.as_nat());
                        },
                        _ => {
                            assert(false);
                        },
                    }
                    assert(eval_expr(*my, w) == 1);
                    assert(eval_expr(r, w) == (w[0] * 1) % p);
                    assert(eval_expr(r, w) == w[0]);
                },
                _ => {
                    assert(false);
                },
            }
            assert(!stmt_holds(f.statements@[wid + 1], w));
        },
        _ => {
            assert(false);
        },
    }
    assert(!function_holds(f, w));
}

/// Two unpack widths share one identifier yet give distinct signatures —
/// their output array lengths differ — so their resolution keys differ.
pub proof fn lemma_unpack_keys_distinct(w1: usize, w2: usize)
    requires
        w1 != w2,
    ensures
        id_spec(FlatEmbed::Unpack(w1)) == id_spec(FlatEmbed::Unpack(w2)),
        signature_outputs_spec(FlatEmbed::Unpack(w1)) != signature_outputs_spec(
            FlatEmbed::Unpack(w2),
        ),
{
    let s1 = signature_outputs_spec(FlatEmbed::Unpack(w1));
    let s2 = signature_outputs_spec(FlatEmbed::Unpack(w2));
    assert(s1[0] == Type::Array(Box::new(Type::Boolean), w1));
    assert(s2[0] == Type::Array(Box::new(Type::Boolean), w2));
    if s1 == s2 {
        assert(s1[0] == s2[0]);
        assert(false);
    }
}

/// Resolution keys compare equal exactly when identifier and signature both
/// compare equal, entry against entry.
pub proof fn lemma_key_resolution(
    e1: FlatEmbed,
    e2: FlatEmbed,
    k1: FunctionKey,
    k2: FunctionKey,
)
    requires
        k1.id@ == id_spec(e1),
        k1.signature.inputs@ == signature_inputs_spec(e1),
        k1.signature.outputs@ == signature_outputs_spec(e1),
        k2.id@ == id_spec(e2),
        k2.signature.inputs@ == signature_inputs_spec(e2),
        k2.signature.outputs@ == signature_outputs_spec(e2),
    ensures
        (k1.id@ == k2.id@ && k1.signature.inputs@ == k2.signature.inputs@
            && k1.signature.outputs@ == k2.signature.outputs@) <==> (id_spec(e1) == id_spec(e2)
            && signature_inputs_spec(e1) == signature_inputs_spec(e2) && signature_outputs_spec(e1)
            == signature_outputs_spec(e2)),
{
}

} // verus!
