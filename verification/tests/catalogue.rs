use zop_core::embed::{unpack_to_bitwidth, FlatEmbed};
use zop_core::field::{Bn128Field, Field, FieldOps, SmallField};
use zop_core::ink::InkAbi;
use zop_core::ir::{evaluate, FlatExpression, FlatVariable};
use zop_core::types::{Signature, Type};

#[test]
fn identifiers_are_stable() {
    assert_eq!(FlatEmbed::Unpack(8).id(), "_UNPACK");
    assert_eq!(FlatEmbed::Unpack(254).id(), "_UNPACK");
    assert_eq!(FlatEmbed::U8ToBits.id(), "_U8_TO_BITS");
    assert_eq!(FlatEmbed::U16ToBits.id(), "_U16_TO_BITS");
    assert_eq!(FlatEmbed::U32ToBits.id(), "_U32_TO_BITS");
    assert_eq!(FlatEmbed::U8FromBits.id(), "_U8_FROM_BITS");
    assert_eq!(FlatEmbed::U16FromBits.id(), "_U16_FROM_BITS");
    assert_eq!(FlatEmbed::U32FromBits.id(), "_U32_FROM_BITS");
}

#[test]
fn unpack_signature_depends_on_width() {
    let sig = FlatEmbed::Unpack(4).signature();
    assert_eq!(
        sig,
        Signature::new()
            .inputs(vec![Type::FieldElement])
            .outputs(vec![Type::array(Type::Boolean, 4)])
    );

    let sig8 = FlatEmbed::U8ToBits.signature();
    assert_eq!(
        sig8,
        Signature::new()
            .inputs(vec![Type::uint(8)])
            .outputs(vec![Type::array(Type::Boolean, 8)])
    );

    let sig8r = FlatEmbed::U8FromBits.signature();
    assert_eq!(
        sig8r,
        Signature::new()
            .inputs(vec![Type::array(Type::Boolean, 8)])
            .outputs(vec![Type::uint(8)])
    );
}

// Two unpack widths share an identifier but resolve to distinct keys,
// because the output array lengths differ.
#[test]
fn unpack_keys_are_distinct() {
    let k8 = FlatEmbed::Unpack(8).key::<Bn128Field>();
    let k16 = FlatEmbed::Unpack(16).key::<Bn128Field>();
    assert_eq!(FlatEmbed::Unpack(8).id(), FlatEmbed::Unpack(16).id());
    assert_eq!(k8.id, k16.id);
    assert_ne!(k8, k16);
    assert_ne!(k8.signature, k16.signature);
}

#[test]
fn synthetize_unpack_matches_direct_call() {
    let via_catalogue = FlatEmbed::Unpack(3).synthetize::<SmallField>();
    let direct = unpack_to_bitwidth::<SmallField>(3);
    assert_eq!(via_catalogue, direct);
}

#[test]
fn ink_abi_versions() {
    assert!(matches!(InkAbi::from("v1"), Ok(InkAbi::V1)));
    assert!(matches!(InkAbi::from("v2"), Ok(InkAbi::V2)));
    assert!(matches!(InkAbi::from("v3"), Err("Invalid ABI version")));
    assert!(matches!(InkAbi::from(""), Err("Invalid ABI version")));
    assert!(matches!(InkAbi::from("V1"), Err("Invalid ABI version")));
}

#[test]
fn small_field_arithmetic() {
    let a = SmallField::from_u64(7);
    let b = SmallField::from_u64(9);
    assert!(a.add(&b).eq_value(&SmallField::from_u64(3))); // 16 mod 13
    assert!(a.mul(&b).eq_value(&SmallField::from_u64(11))); // 63 mod 13
    assert!(SmallField::from_u64(13).eq_value(&SmallField::from_u64(0)));
    assert!(SmallField::pow_of_two(3).eq_value(&SmallField::from_u64(8)));
    assert_eq!(SmallField::required_bits(), 4);
    assert_eq!(Bn128Field::required_bits(), 254);
}

#[test]
fn evaluate_expressions() {
    // (v0 + 11) * 2 over the witness v0 = 5 is 32, which is 6 mod 13
    let e: FlatExpression<SmallField> = FlatExpression::Mult(
        Box::new(FlatExpression::Add(
            Box::new(FlatExpression::Identifier(FlatVariable::new(0))),
            Box::new(FlatExpression::Number(SmallField::from_u64(11))),
        )),
        Box::new(FlatExpression::Number(SmallField::from_u64(2))),
    );
    let witness = vec![SmallField::from_u64(5)];
    let r = evaluate(&e, &witness).unwrap();
    assert!(r.eq_value(&SmallField::from_u64(6)));

    // reading a variable beyond the witness yields no value
    let oob: FlatExpression<SmallField> =
        FlatExpression::Identifier(FlatVariable::new(1));
    assert!(evaluate(&oob, &witness).is_none());
}
