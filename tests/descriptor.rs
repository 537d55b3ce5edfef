use bindgen_link::descriptor::{
    AbiMismatch, DecodeError, Descriptor, VectorKind, ANYREF, CHAR, CLAMPED, CLOSURE, F32, F64,
    FUNCTION, I32, I64, I8, OPTIONAL, REF, REFMUT, RUST_STRUCT, SLICE, STRING, U16, U32, U64, U8,
    UNIT, VECTOR,
};

fn decode(data: &[u32]) -> Descriptor {
    Descriptor::decode(data).unwrap()
}

#[test]
fn i64_takes_two_slots_through_pointer() {
    let d = decode(&[I64]);
    assert!(matches!(d, Descriptor::I64));
    assert_eq!(d.abi_arg_count(), 2);
    assert!(d.abi_returned_through_pointer());
    assert_eq!(d.get_64(), Some(true));
}

#[test]
fn f32_takes_one_native_slot() {
    let d = decode(&[F32]);
    assert_eq!(d.abi_arg_count(), 1);
    assert!(!d.abi_returned_through_pointer());
    assert!(d.is_wasm_native());
}

#[test]
fn u64_is_unsigned_64() {
    let d = decode(&[U64]);
    assert_eq!(d.get_64(), Some(false));
    assert_eq!(d.abi_arg_count(), 2);
}

#[test]
fn clamped_applies_through_wrappers() {
    let d = decode(&[CLAMPED, REF, SLICE, U8]);
    assert!(matches!(d.vector_kind(), Some(VectorKind::ClampedU8)));
    let plain = decode(&[REF, SLICE, U8]);
    assert!(matches!(plain.vector_kind(), Some(VectorKind::U8)));
    let inner = decode(&[REF, SLICE, CLAMPED, U8]);
    assert!(matches!(inner.vector_kind(), Some(VectorKind::ClampedU8)));
}

#[test]
fn clamped_leaves_other_types() {
    let d = decode(&[CLAMPED, I32]);
    assert!(matches!(d, Descriptor::I32));
}

#[test]
fn vector_kinds_and_sizes() {
    assert!(matches!(decode(&[STRING]).vector_kind(), Some(VectorKind::String)));
    assert!(matches!(decode(&[REF, STRING]).vector_kind(), Some(VectorKind::String)));
    assert!(matches!(decode(&[VECTOR, F64]).vector_kind(), Some(VectorKind::F64)));
    assert!(matches!(decode(&[REFMUT, SLICE, I8]).vector_kind(), Some(VectorKind::I8)));
    assert!(decode(&[REFMUT, STRING]).vector_kind().is_none());
    assert!(decode(&[VECTOR, STRING]).vector_kind().is_none());
    assert_eq!(VectorKind::F64.size(), 8);
    assert_eq!(VectorKind::U16.size(), 2);
    assert_eq!(VectorKind::Anyref.size(), 4);
    assert_eq!(VectorKind::String.size(), 1);
    assert_eq!(VectorKind::ClampedU8.js_ty(), "Uint8ClampedArray");
    assert_eq!(VectorKind::I64.js_ty(), "BigInt64Array");
    assert_eq!(VectorKind::Anyref.js_ty(), "any[]");
    assert_eq!(VectorKind::String.js_ty(), "string");
}

#[test]
fn vectors_return_through_pointer() {
    let d = decode(&[VECTOR, U32]);
    assert!(d.abi_returned_through_pointer());
    assert_eq!(d.abi_arg_count(), 2);
}

#[test]
fn rust_struct_name_is_read() {
    let name: Vec<u32> = "Point".chars().map(|c| c as u32).collect();
    let mut data = vec![REF, RUST_STRUCT, name.len() as u32];
    data.extend(name);
    let d = decode(&data);
    assert_eq!(d.rust_struct(), Some("Point"));
    assert!(d.is_by_ref());
    assert!(!d.is_mut_ref());
}

#[test]
fn function_and_closure_decode() {
    let f = decode(&[FUNCTION, 7, 2, I32, STRING, UNIT]);
    let f = f.unwrap_function();
    assert_eq!(f.shim_idx, 7);
    assert_eq!(f.arguments.len(), 2);
    assert!(matches!(f.arguments[1], Descriptor::String));
    assert!(matches!(f.ret, Descriptor::Unit));

    let c = decode(&[CLOSURE, 3, 4, REFMUT, FUNCTION, 9, 0, ANYREF]);
    let c = c.unwrap_closure();
    assert_eq!(c.shim_idx, 3);
    assert_eq!(c.dtor_idx, 4);
    assert!(c.mutable);
    assert_eq!(c.function.shim_idx, 9);
    assert!(c.function.arguments.is_empty());
    assert!(matches!(c.function.ret, Descriptor::Anyref));

    let immutable = decode(&[CLOSURE, 3, 4, REF, FUNCTION, 9, 0, UNIT]).unwrap_closure();
    assert!(!immutable.mutable);
}

#[test]
fn stack_closure_takes_two_slots() {
    let d = decode(&[REFMUT, FUNCTION, 1, 0, UNIT]);
    let (f, mutable) = d.stack_closure().unwrap();
    assert!(mutable);
    assert_eq!(f.shim_idx, 1);
    assert_eq!(d.abi_arg_count(), 2);
    assert!(!d.abi_returned_through_pointer());
}

#[test]
fn optional_counts() {
    let opt64 = decode(&[OPTIONAL, I64]);
    assert_eq!(opt64.abi_arg_count(), 4);
    assert!(opt64.abi_returned_through_pointer());
    let opt_ref_anyref = decode(&[OPTIONAL, REF, ANYREF]);
    assert_eq!(opt_ref_anyref.abi_arg_count(), 1);
    let opt_char = decode(&[OPTIONAL, CHAR]);
    assert!(!opt_char.abi_returned_through_pointer());
    assert_eq!(opt_char.abi_arg_count(), 1);
    let opt_u16 = decode(&[OPTIONAL, U16]);
    assert!(!opt_u16.abi_returned_through_pointer());
    let opt_f64 = decode(&[OPTIONAL, F64]);
    assert!(opt_f64.abi_returned_through_pointer());
    assert_eq!(opt_f64.abi_arg_count(), 2);
}

#[test]
fn number_classification() {
    assert!(decode(&[U32]).number().unwrap().is_u32());
    assert!(!decode(&[I8]).number().unwrap().is_u32());
    assert!(!decode(&[19, 5]).number().unwrap().is_u32());
    assert!(decode(&[I64]).number().is_none());
    assert!(decode(&[U16]).is_abi_as_u32());
    assert!(!decode(&[U32]).is_abi_as_u32());
}

#[test]
fn anyref_predicates() {
    assert!(decode(&[ANYREF]).is_anyref());
    assert!(decode(&[REF, ANYREF]).is_ref_anyref());
    assert!(!decode(&[REFMUT, ANYREF]).is_ref_anyref());
}

#[test]
fn empty_stream_is_truncated() {
    assert_eq!(Descriptor::decode(&[]).unwrap_err(), DecodeError::Truncated);
}

#[test]
fn unknown_opcode_is_rejected() {
    assert_eq!(Descriptor::decode(&[99]).unwrap_err(), DecodeError::UnknownOpcode(99));
}

#[test]
fn trailing_opcodes_are_rejected() {
    assert_eq!(Descriptor::decode(&[I32, I32]).unwrap_err(), DecodeError::TrailingData);
}

#[test]
fn surrogate_in_struct_name_is_rejected() {
    assert_eq!(
        Descriptor::decode(&[RUST_STRUCT, 1, 0xD800]).unwrap_err(),
        DecodeError::InvalidChar(0xD800)
    );
}

#[test]
fn closure_needs_function_opcode() {
    assert_eq!(
        Descriptor::decode(&[CLOSURE, 1, 2, REF, I32]).unwrap_err(),
        DecodeError::ClosureWithoutFunction(I32)
    );
}

#[test]
fn truncated_composites_fail() {
    let full = [FUNCTION, 0, 2, REF, SLICE, U8, OPTIONAL, I64, VECTOR, ANYREF];
    assert!(Descriptor::decode(&full).is_ok());
    for k in 0..full.len() {
        assert!(Descriptor::decode(&full[..k]).is_err(), "prefix of length {}", k);
    }
    let mut longer = full.to_vec();
    longer.push(UNIT);
    assert_eq!(Descriptor::decode(&longer).unwrap_err(), DecodeError::TrailingData);
    let name = [RUST_STRUCT, 3, 65, 66];
    assert_eq!(Descriptor::decode(&name).unwrap_err(), DecodeError::Truncated);
}

#[test]
fn return_count_assertions() {
    let ptr = decode(&[I64]);
    assert!(ptr.assert_abi_return_correct(3, 4).is_ok());
    assert_eq!(ptr.assert_abi_return_correct(3, 3), Err(AbiMismatch::Return));
    assert_eq!(ptr.assert_abi_return_correct(3, 5), Err(AbiMismatch::Return));
    let native = decode(&[I32]);
    assert!(native.assert_abi_return_correct(2, 2).is_ok());
    assert_eq!(native.assert_abi_return_correct(2, 3), Err(AbiMismatch::Return));
}

#[test]
fn arg_count_assertions() {
    let opt64 = decode(&[OPTIONAL, U64]);
    assert!(opt64.assert_abi_arg_correct(1, 5).is_ok());
    assert_eq!(opt64.assert_abi_arg_correct(1, 3), Err(AbiMismatch::Arguments));
    assert_eq!(opt64.assert_abi_arg_correct(5, 1), Err(AbiMismatch::Arguments));
    let unit = decode(&[UNIT]);
    assert!(unit.assert_abi_arg_correct(0, 1).is_ok());
}

#[test]
fn duplicate_keeps_structure() {
    let d = decode(&[FUNCTION, 2, 1, REF, RUST_STRUCT, 1, 65, CHAR]);
    let copy = d.duplicate().unwrap_function();
    assert_eq!(copy.shim_idx, 2);
    assert_eq!(copy.arguments[0].rust_struct(), Some("A"));
    assert!(matches!(copy.ret, Descriptor::Char));
}
