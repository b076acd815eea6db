use zop_core::embed::unpack_to_bitwidth;
use zop_core::field::{Bn128Field, Field};
use zop_core::ir::{
    FlatDirective, FlatExpression, FlatExpressionList, FlatFunction, FlatParameter, FlatStatement,
    FlatVariable,
};
use zop_core::solver::Solver;

#[test]
fn split254() {
    let unpack: FlatFunction<Bn128Field> = unpack_to_bitwidth(Bn128Field::required_bits());

    assert_eq!(
        unpack.arguments,
        vec![FlatParameter::private(FlatVariable::new(0))]
    );
    assert_eq!(
        unpack.statements.len(),
        Bn128Field::required_bits() + 1 + 1 + 1
    ); // 254 bit checks, 1 directive, 1 sum check, 1 return
    assert_eq!(
        unpack.statements[0],
        FlatStatement::Directive(FlatDirective::new(
            (0..Bn128Field::required_bits())
                .map(|i| FlatVariable::new(i + 1))
                .collect(),
            Solver::bits(Bn128Field::required_bits()),
            vec![FlatVariable::new(0)]
        ))
    );
    assert_eq!(
        *unpack.statements.last().unwrap(),
        FlatStatement::Return(FlatExpressionList {
            expressions: (0..Bn128Field::required_bits())
                .map(|i| FlatExpression::Identifier(FlatVariable::new(i + 1)))
                .collect()
        })
    );
}
