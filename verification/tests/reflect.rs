use config_crap::reflect::{
    is_typed_alike, is_well_formed, opt_err, update_reflect, MapEntry, ReflectData, ReflectValue, ScalarValue, UpdateError, VariantKind,
};

fn usize_value(x: usize) -> ReflectValue {
    ReflectValue { type_ident: "usize".to_string(), data: ReflectData::Scalar(ScalarValue::Usize(x)) }
}

fn u64_value(x: u64) -> ReflectValue {
    ReflectValue { type_ident: "u64".to_string(), data: ReflectData::Scalar(ScalarValue::U64(x)) }
}

fn bool_value(x: bool) -> ReflectValue {
    ReflectValue { type_ident: "bool".to_string(), data: ReflectData::Scalar(ScalarValue::Bool(x)) }
}

fn option_of(type_ident: &str, inner: Option<ReflectValue>) -> ReflectValue {
    let data = match inner {
        Some(v) => ReflectData::Enum("Some".to_string(), VariantKind::Tuple, vec![v]),
        None => ReflectData::Enum("None".to_string(), VariantKind::Unit, vec![]),
    };
    ReflectValue { type_ident: type_ident.to_string(), data }
}

fn opt_usize(x: Option<usize>) -> ReflectValue {
    option_of("core::option::Option<usize>", x.map(usize_value))
}

fn opt_bool(x: Option<bool>) -> ReflectValue {
    option_of("core::option::Option<bool>", x.map(bool_value))
}

/// `MyStruct { inner: Vec<Option<usize>> }`
fn my_struct(inner: Vec<Option<usize>>) -> ReflectValue {
    let list = ReflectValue {
        type_ident: "alloc::vec::Vec<core::option::Option<usize>>".to_string(),
        data: ReflectData::List(inner.into_iter().map(opt_usize).collect()),
    };
    ReflectValue { type_ident: "MyStruct".to_string(), data: ReflectData::Struct(vec![list]) }
}

/// `MyItem { field_a: BTreeMap<u64, Option<bool>> }`, entries in key order.
fn my_item(entries: Vec<(u64, Option<bool>)>) -> ReflectValue {
    let mut entries = entries;
    entries.sort_by_key(|e| e.0);
    let map = ReflectValue {
        type_ident: "alloc::collections::BTreeMap<u64, core::option::Option<bool>>".to_string(),
        data: ReflectData::Mapping(
            entries
                .into_iter()
                .map(|(k, v)| MapEntry { key: u64_value(k), value: opt_bool(v) })
                .collect(),
        ),
    };
    ReflectValue { type_ident: "MyItem".to_string(), data: ReflectData::Struct(vec![map]) }
}

#[test]
fn test_equal_length_no_change() {
    let mut old = my_struct(vec![Some(1), None, Some(3)]);
    let new = my_struct(vec![Some(1), None, Some(3)]);
    let result = update_reflect(&mut old, &new).unwrap();
    assert!(!result);
    assert_eq!(old, my_struct(vec![Some(1), None, Some(3)]));
}

#[test]
fn test_equal_length_with_changes() {
    let mut old = my_struct(vec![Some(1), None, Some(3)]);
    let new = my_struct(vec![Some(10), Some(20), None]);
    let result = update_reflect(&mut old, &new).unwrap();
    assert!(result);
    assert_eq!(old, my_struct(vec![Some(10), Some(20), None]));
}

#[test]
fn test_equal_length_partial_change() {
    let mut old = my_struct(vec![Some(1), None, Some(3)]);
    let new = my_struct(vec![Some(1), Some(2), Some(3)]);
    let result = update_reflect(&mut old, &new).unwrap();
    assert!(result);
    assert_eq!(old, my_struct(vec![Some(1), Some(2), Some(3)]));
}

#[test]
fn test_vector_grows() {
    let mut old = my_struct(vec![Some(1)]);
    let new = my_struct(vec![Some(1), Some(2), Some(3)]);
    let result = update_reflect(&mut old, &new).unwrap();
    assert!(result);
    assert_eq!(old, my_struct(vec![Some(1), Some(2), Some(3)]));
}

#[test]
fn test_vector_shrinks() {
    let mut old = my_struct(vec![Some(1), Some(2), Some(3)]);
    let new = my_struct(vec![Some(1)]);
    let result = update_reflect(&mut old, &new).unwrap();
    assert!(result);
    assert_eq!(old, my_struct(vec![Some(1)]));
}

#[test]
fn test_empty_to_populated() {
    let mut old = my_struct(vec![]);
    let new = my_struct(vec![Some(1), None, Some(3)]);
    let result = update_reflect(&mut old, &new).unwrap();
    assert!(result);
    assert_eq!(old, my_struct(vec![Some(1), None, Some(3)]));
}

#[test]
fn test_populated_to_empty() {
    let mut old = my_struct(vec![Some(1), None, Some(3)]);
    let new = my_struct(vec![]);
    let result = update_reflect(&mut old, &new).unwrap();
    assert!(result);
    assert_eq!(old, my_struct(vec![]));
}

#[test]
fn test_both_empty() {
    let mut old = my_struct(vec![]);
    let new = my_struct(vec![]);
    let result = update_reflect(&mut old, &new).unwrap();
    assert!(!result);
    assert_eq!(old, my_struct(vec![]));
}

#[test]
fn test_grow_with_value_changes() {
    let mut old = my_struct(vec![Some(1), Some(2)]);
    let new = my_struct(vec![Some(10), Some(20), Some(30), Some(40)]);
    let result = update_reflect(&mut old, &new).unwrap();
    assert!(result);
    assert_eq!(old, my_struct(vec![Some(10), Some(20), Some(30), Some(40)]));
}

#[test]
fn test_shrink_with_value_changes() {
    let mut old = my_struct(vec![Some(1), Some(2), Some(3), Some(4)]);
    let new = my_struct(vec![Some(10), Some(20)]);
    let result = update_reflect(&mut old, &new).unwrap();
    assert!(result);
    assert_eq!(old, my_struct(vec![Some(10), Some(20)]));
}

#[test]
fn test_none_to_some_transitions() {
    let mut old = my_struct(vec![None, None, None]);
    let new = my_struct(vec![Some(1), Some(2), Some(3)]);
    let result = update_reflect(&mut old, &new).unwrap();
    assert!(result);
    assert_eq!(old, my_struct(vec![Some(1), Some(2), Some(3)]));
}

#[test]
fn test_some_to_none_transitions() {
    let mut old = my_struct(vec![Some(1), Some(2), Some(3)]);
    let new = my_struct(vec![None, None, None]);
    let result = update_reflect(&mut old, &new).unwrap();
    assert!(result);
    assert_eq!(old, my_struct(vec![None, None, None]));
}

#[test]
fn test_option_none_equality() {
    let mut old = opt_usize(None);
    let new = opt_usize(None);
    let result = update_reflect(&mut old, &new).unwrap();
    assert!(!result, "no updates should occur");
    assert_eq!(&old, &new);
}

#[test]
fn test_option_some_equality() {
    let mut old = opt_usize(Some(1));
    let new = opt_usize(Some(1));
    let result = update_reflect(&mut old, &new).unwrap();
    assert!(!result, "no updates should occur");
    assert_eq!(&old, &new);
}

#[test]
fn test_map_no_change() {
    let mut old = my_item(vec![(1, Some(true)), (2, None), (3, Some(false))]);
    let new = my_item(vec![(1, Some(true)), (2, None), (3, Some(false))]);
    let result = update_reflect(&mut old, &new).unwrap();
    assert!(!result);
    assert_eq!(old, my_item(vec![(1, Some(true)), (2, None), (3, Some(false))]));
}

#[test]
fn test_map_same_keys_different_values() {
    let mut old = my_item(vec![(1, Some(true)), (2, None), (3, Some(false))]);
    let new = my_item(vec![(1, Some(false)), (2, Some(true)), (3, None)]);
    let result = update_reflect(&mut old, &new).unwrap();
    assert!(result);
    assert_eq!(old, my_item(vec![(1, Some(false)), (2, Some(true)), (3, None)]));
}

#[test]
fn test_map_add_keys() {
    let mut old = my_item(vec![(1, Some(true))]);
    let new = my_item(vec![(1, Some(true)), (2, Some(false)), (3, None)]);
    let result = update_reflect(&mut old, &new).unwrap();
    assert!(result);
    assert_eq!(old, my_item(vec![(1, Some(true)), (2, Some(false)), (3, None)]));
}

#[test]
fn test_map_remove_keys() {
    let mut old = my_item(vec![(1, Some(true)), (2, Some(false)), (3, None)]);
    let new = my_item(vec![(1, Some(true))]);
    let result = update_reflect(&mut old, &new).unwrap();
    assert!(result);
    assert_eq!(old, my_item(vec![(1, Some(true))]));
}

#[test]
fn test_map_both_empty() {
    let mut old = my_item(vec![]);
    let new = my_item(vec![]);
    let result = update_reflect(&mut old, &new).unwrap();
    assert!(!result);
    assert_eq!(old, my_item(vec![]));
}

#[test]
fn test_map_empty_to_populated() {
    let mut old = my_item(vec![]);
    let new = my_item(vec![(1, Some(true)), (2, None)]);
    let result = update_reflect(&mut old, &new).unwrap();
    assert!(result);
    assert_eq!(old, my_item(vec![(1, Some(true)), (2, None)]));
}

#[test]
fn test_map_populated_to_empty() {
    let mut old = my_item(vec![(1, Some(true)), (2, None)]);
    let new = my_item(vec![]);
    let result = update_reflect(&mut old, &new).unwrap();
    assert!(result);
    assert_eq!(old, my_item(vec![]));
}

#[test]
fn test_map_mixed_changes() {
    let mut old = my_item(vec![(1, Some(true)), (2, Some(false)), (3, None)]);
    let new = my_item(vec![(2, Some(true)), (3, None), (4, Some(false))]);
    let result = update_reflect(&mut old, &new).unwrap();
    assert!(result);
    assert_eq!(old, my_item(vec![(2, Some(true)), (3, None), (4, Some(false))]));
}

#[test]
fn test_map_disjoint_keys() {
    let mut old = my_item(vec![(1, Some(true)), (2, Some(false))]);
    let new = my_item(vec![(3, None), (4, Some(true))]);
    let result = update_reflect(&mut old, &new).unwrap();
    assert!(result);
    assert_eq!(old, my_item(vec![(3, None), (4, Some(true))]));
}

#[test]
fn test_map_single_value_change() {
    let mut old = my_item(vec![(1, Some(true)), (2, Some(false)), (3, None)]);
    let new = my_item(vec![(1, Some(true)), (2, Some(true)), (3, None)]);
    let result = update_reflect(&mut old, &new).unwrap();
    assert!(result);
    assert_eq!(old, my_item(vec![(1, Some(true)), (2, Some(true)), (3, None)]));
}

#[test]
fn test_map_none_to_some_values() {
    let mut old = my_item(vec![(1, None), (2, None), (3, None)]);
    let new = my_item(vec![(1, Some(true)), (2, Some(false)), (3, Some(true))]);
    let result = update_reflect(&mut old, &new).unwrap();
    assert!(result);
    assert_eq!(old, my_item(vec![(1, Some(true)), (2, Some(false)), (3, Some(true))]));
}

#[test]
fn test_map_some_to_none_values() {
    let mut old = my_item(vec![(1, Some(true)), (2, Some(false)), (3, Some(true))]);
    let new = my_item(vec![(1, None), (2, None), (3, None)]);
    let result = update_reflect(&mut old, &new).unwrap();
    assert!(result);
    assert_eq!(old, my_item(vec![(1, None), (2, None), (3, None)]));
}

#[test]
fn update_refuses_different_root_types() {
    let mut old = usize_value(1);
    let new = u64_value(1);
    let err = update_reflect(&mut old, &new).unwrap_err();
    assert_eq!(
        err,
        UpdateError::Incompatible { existing: "usize".to_string(), update: "u64".to_string() }
    );
    assert_eq!(old, usize_value(1));
}

#[test]
fn update_refuses_arrays_of_different_lengths() {
    let array = |xs: Vec<usize>| ReflectValue {
        type_ident: "[usize]".to_string(),
        data: ReflectData::Array(xs.into_iter().map(usize_value).collect()),
    };
    let mut old = array(vec![1, 2]);
    let new = array(vec![1, 2, 3]);
    assert_eq!(update_reflect(&mut old, &new), Err(UpdateError::UnequalArrays));
    let mut old = array(vec![]);
    assert_eq!(update_reflect(&mut old, &array(vec![])), Ok(false));
    let mut old = array(vec![1, 2]);
    assert_eq!(update_reflect(&mut old, &array(vec![1, 5])), Ok(true));
    assert_eq!(old, array(vec![1, 5]));
}

#[test]
fn update_refuses_maps_with_non_scalar_keys() {
    let key = opt_usize(Some(1));
    let map = |v: bool| ReflectValue {
        type_ident: "Map".to_string(),
        data: ReflectData::Mapping(vec![MapEntry {
            key: ReflectValue { type_ident: key.type_ident.clone(), data: ReflectData::Enum("Some".to_string(), VariantKind::Tuple, vec![usize_value(1)]) },
            value: bool_value(v),
        }]),
    };
    let mut old = map(true);
    assert_eq!(update_reflect(&mut old, &map(false)), Err(UpdateError::NonScalarKeys));
}

#[test]
fn update_refuses_scalars_of_different_kinds() {
    let mut old = ReflectValue { type_ident: "T".to_string(), data: ReflectData::Scalar(ScalarValue::U8(1)) };
    let new = ReflectValue { type_ident: "T".to_string(), data: ReflectData::Scalar(ScalarValue::U16(1)) };
    assert!(matches!(update_reflect(&mut old, &new), Err(UpdateError::Incompatible { .. })));
}

#[test]
fn update_switches_enum_variants_and_strings() {
    let mut old = opt_usize(Some(3));
    assert_eq!(update_reflect(&mut old, &opt_usize(None)), Ok(true));
    assert_eq!(old, opt_usize(None));
    let s = |x: &str| ReflectValue { type_ident: "String".to_string(), data: ReflectData::Scalar(ScalarValue::String(x.to_string())) };
    let mut old = s("a");
    assert_eq!(update_reflect(&mut old, &s("b")), Ok(true));
    assert_eq!(old, s("b"));
    assert_eq!(update_reflect(&mut old, &s("b")), Ok(false));
}

#[test]
fn update_replaces_opaque_values() {
    let o = |b: Vec<u8>| ReflectValue { type_ident: "Opaque".to_string(), data: ReflectData::Opaque(b) };
    let mut old = o(vec![1, 2]);
    assert_eq!(update_reflect(&mut old, &o(vec![1, 2])), Ok(false));
    assert_eq!(update_reflect(&mut old, &o(vec![3])), Ok(true));
    assert_eq!(old, o(vec![3]));
}

#[test]
fn second_update_reports_no_change() {
    let mut old = my_item(vec![(1, Some(true)), (5, None)]);
    let new = my_item(vec![(2, Some(false)), (5, Some(true))]);
    assert_eq!(update_reflect(&mut old, &new), Ok(true));
    assert_eq!(update_reflect(&mut old, &new), Ok(false));
    assert_eq!(old, new);
}

#[test]
fn opt_err_turns_inside_out() {
    assert_eq!(opt_err::<u8, u8>(None), Ok(None));
    assert_eq!(opt_err::<u8, u8>(Some(Ok(3))), Ok(Some(3)));
    assert_eq!(opt_err::<u8, u8>(Some(Err(4))), Err(4));
}

#[test]
fn scalars_of_one_type_are_overwritten_only_when_they_differ() {
    let mut x = u64_value(1);
    assert!(matches!(update_reflect(&mut x, &u64_value(1)), Ok(false)));
    assert!(matches!(update_reflect(&mut x, &u64_value(7)), Ok(true)));
    assert!(matches!(x.data, ReflectData::Scalar(ScalarValue::U64(7))));
    assert!(matches!(update_reflect(&mut x, &u64_value(7)), Ok(false)));
}

#[test]
fn scalars_of_one_name_but_two_kinds_are_incompatible() {
    let mut x = ReflectValue { type_ident: "T".to_string(), data: ReflectData::Scalar(ScalarValue::U8(1)) };
    let y = ReflectValue { type_ident: "T".to_string(), data: ReflectData::Scalar(ScalarValue::U16(1)) };
    match update_reflect(&mut x, &y) {
        Err(UpdateError::Incompatible { existing, update }) => {
            assert_eq!(existing, "T");
            assert_eq!(update, "T");
        }
        other => panic!("unexpected {:?}", other),
    }
    assert!(matches!(x.data, ReflectData::Scalar(ScalarValue::U8(1))));
}

fn map_of(keys: Vec<ReflectValue>) -> ReflectValue {
    let entries = keys.into_iter().map(|k| MapEntry { key: k, value: bool_value(true) }).collect();
    ReflectValue { type_ident: "Map".to_string(), data: ReflectData::Mapping(entries) }
}

fn array_of(xs: Vec<u64>) -> ReflectValue {
    ReflectValue { type_ident: "[u64]".to_string(), data: ReflectData::Array(xs.into_iter().map(u64_value).collect()) }
}

#[test]
fn map_keys_that_are_not_scalars_are_refused() {
    let mut a = map_of(vec![my_struct(vec![])]);
    let b = map_of(vec![]);
    assert!(is_well_formed(&a) && is_well_formed(&b) && is_typed_alike(&a, &b));
    assert!(matches!(update_reflect(&mut a, &b), Err(UpdateError::NonScalarKeys)));
}

#[test]
fn arrays_of_two_lengths_are_refused() {
    let mut a = array_of(vec![1, 2]);
    let b = array_of(vec![1, 2, 3]);
    assert!(is_typed_alike(&a, &b));
    assert!(matches!(update_reflect(&mut a, &b), Err(UpdateError::UnequalArrays)));
    let mut c = array_of(vec![1, 2]);
    assert!(matches!(update_reflect(&mut c, &array_of(vec![1, 5])), Ok(true)));
}

#[test]
fn well_formed_and_typed_alike_are_checked() {
    assert!(is_well_formed(&map_of(vec![u64_value(1), u64_value(2)])));
    assert!(!is_well_formed(&map_of(vec![u64_value(2), u64_value(1)])));
    assert!(!is_well_formed(&map_of(vec![u64_value(1), u64_value(1)])));
    assert!(is_typed_alike(&my_struct(vec![Some(1)]), &my_struct(vec![None, Some(2)])));
    let odd = ReflectValue { type_ident: "MyStruct".to_string(), data: ReflectData::Tuple(vec![]) };
    assert!(!is_typed_alike(&my_struct(vec![]), &odd));
    assert!(is_typed_alike(&u64_value(1), &bool_value(true)));
}
