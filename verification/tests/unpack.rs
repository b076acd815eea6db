use zop_core::embed::unpack_to_bitwidth;
use zop_core::field::{Field, SmallField};
use zop_core::ir::{
    check_function, FlatExpression, FlatFunction, FlatStatement, FlatVariable,
};
use zop_core::solver::Solver;

fn f(v: u64) -> SmallField {
    SmallField::from_u64(v)
}

fn ident(i: usize) -> FlatExpression<SmallField> {
    FlatExpression::Identifier(FlatVariable::new(i))
}

// The example field has modulus 13, so four required bits; a width-3 unpack
// has one private input at index 0, outputs at indices 1..=3, and 6
// statements: directive, three booleanity checks, the sum check, the return.
#[test]
fn unpack3_shape() {
    let unpack: FlatFunction<SmallField> = unpack_to_bitwidth(3);

    assert_eq!(unpack.arguments.len(), 1);
    assert_eq!(unpack.arguments[0].id, FlatVariable::new(0));
    assert!(unpack.arguments[0].private);
    assert_eq!(unpack.statements.len(), 6);

    match &unpack.statements[0] {
        FlatStatement::Directive(d) => {
            assert_eq!(d.inputs, vec![ident(0)]);
            assert_eq!(
                d.outputs,
                vec![FlatVariable::new(1), FlatVariable::new(2), FlatVariable::new(3)]
            );
            assert_eq!(d.solver, Solver::Bits(3));
        }
        other => panic!("expected a directive first, found {:?}", other),
    }

    // booleanity checks cover variables 3, 2, 1 in that order
    for (offset, var) in [(1usize, 3usize), (2, 2), (3, 1)] {
        assert_eq!(
            unpack.statements[offset],
            FlatStatement::Condition(
                ident(var),
                FlatExpression::Mult(Box::new(ident(var)), Box::new(ident(var))),
            )
        );
    }

    match &unpack.statements[5] {
        FlatStatement::Return(list) => {
            assert_eq!(list.expressions, vec![ident(1), ident(2), ident(3)]);
        }
        other => panic!("expected a return last, found {:?}", other),
    }
}

// The recomposition constraint reads the bits LSB-first with doubling
// weights: (((0 + b3*1) + b2*2) + b1*4) == i0 * 1.
#[test]
fn unpack3_sum_check() {
    let unpack: FlatFunction<SmallField> = unpack_to_bitwidth(3);

    let sum = FlatExpression::Add(
        Box::new(FlatExpression::Add(
            Box::new(FlatExpression::Add(
                Box::new(FlatExpression::Number(f(0))),
                Box::new(FlatExpression::Mult(Box::new(ident(3)), Box::new(FlatExpression::Number(f(1))))),
            )),
            Box::new(FlatExpression::Mult(Box::new(ident(2)), Box::new(FlatExpression::Number(f(2))))),
        )),
        Box::new(FlatExpression::Mult(Box::new(ident(1)), Box::new(FlatExpression::Number(f(4))))),
    );
    let rhs = FlatExpression::Mult(Box::new(ident(0)), Box::new(FlatExpression::Number(f(1))));
    assert_eq!(unpack.statements[4], FlatStatement::Condition(sum, rhs));
}

// Decomposing 5 over three bits: the MSB-first bits 1,0,1 satisfy every
// constraint, since 1*4 + 0*2 + 1*1 = 5.
#[test]
fn unpack3_witness_five() {
    let unpack: FlatFunction<SmallField> = unpack_to_bitwidth(3);
    let witness = vec![f(5), f(1), f(0), f(1)];
    assert!(check_function(&unpack, &witness));
}

// A 0/1 tuple whose weighted sum differs from the input fails the
// recomposition constraint.
#[test]
fn unpack3_wrong_sum_rejected() {
    let unpack: FlatFunction<SmallField> = unpack_to_bitwidth(3);
    let witness = vec![f(5), f(1), f(1), f(1)];
    assert!(!check_function(&unpack, &witness));
}

// A tuple holding a value other than 0 or 1 fails its booleanity
// constraint even when the weighted sum matches.
#[test]
fn unpack3_nonboolean_rejected() {
    let unpack: FlatFunction<SmallField> = unpack_to_bitwidth(3);
    // 0*4 + 2*2 + 1*1 = 5, but 2 is not a bit
    let witness = vec![f(5), f(0), f(2), f(1)];
    assert!(!check_function(&unpack, &witness));
}

// A witness shorter than the declared variables is rejected outright.
#[test]
fn unpack3_short_witness_rejected() {
    let unpack: FlatFunction<SmallField> = unpack_to_bitwidth(3);
    let witness = vec![f(5), f(1), f(0)];
    assert!(!check_function(&unpack, &witness));
}

// Width 0 is degenerate but well-defined: no bits, and the sum check pins
// the input to zero.
#[test]
fn unpack0_pins_input_to_zero() {
    let unpack: FlatFunction<SmallField> = unpack_to_bitwidth(0);
    assert_eq!(unpack.statements.len(), 3);
    assert!(check_function(&unpack, &vec![f(0)]));
    assert!(!check_function(&unpack, &vec![f(7)]));
}

// The full field width is accepted, but decomposition is no longer
// injective there: zero is reached both by all-zero bits and by the bits
// of the modulus itself (13 = 1101).
#[test]
fn unpack_full_width_not_injective() {
    let unpack: FlatFunction<SmallField> = unpack_to_bitwidth(4);
    assert_eq!(unpack.statements.len(), 7);

    let zero_bits = vec![f(0), f(0), f(0), f(0), f(0)];
    assert!(check_function(&unpack, &zero_bits));

    let modulus_bits = vec![f(0), f(1), f(1), f(0), f(1)];
    assert!(check_function(&unpack, &modulus_bits));
}
