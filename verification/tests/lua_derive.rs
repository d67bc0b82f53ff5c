use config_crap::lua_derive::{check_lua_integration, check_lua_kind, DataKind, DeriveRefusal};
use config_crap::lua_derive::{enum_meta_methods, struct_meta_methods, LuaMethod};
use config_crap::lua_derive::{lua_enum_eq, LuaOperand};
use config_crap::lua_derive::{
    decimal_string, exposed_fields, is_unit_enum, lua_name, to_snake_case, variant_method_names,
    AttrError, ContainerAttrs, MetaItem, MetaValue, StructError, StructFields, VariantAttrs,
    VariantFields,
};

#[test]
fn snake_case_names() {
    assert_eq!(to_snake_case("Idle"), "idle");
    assert_eq!(to_snake_case("HttpError"), "http_error");
    assert_eq!(to_snake_case("already_snake"), "already_snake");
    assert_eq!(to_snake_case("ABC"), "a_b_c");
    assert_eq!(to_snake_case(""), "");
}

#[test]
fn decimals() {
    assert_eq!(decimal_string(0), "0");
    assert_eq!(decimal_string(7), "7");
    assert_eq!(decimal_string(120), "120");
}

#[test]
fn renamed_unit_variant_method_names() {
    let attrs = VariantAttrs::from_options(&vec![MetaItem { name: "rename".to_string(), value: MetaValue::Str("world".to_string()) }]).unwrap();
    let name = lua_name("Hello", &attrs);
    assert_eq!(name, "world");
    assert_eq!(variant_method_names(&name, &VariantFields::Unit), vec!["is_world".to_string()]);
    let plain = lua_name("Foo", &VariantAttrs::default());
    assert_eq!(variant_method_names(&plain, &VariantFields::Unit), vec!["is_foo".to_string()]);
}

#[test]
fn tuple_and_struct_variant_methods() {
    assert_eq!(
        variant_method_names("Running", &VariantFields::Unnamed(1)),
        vec!["is_running".to_string(), "get_running".to_string()]
    );
    assert_eq!(
        variant_method_names("Point", &VariantFields::Unnamed(2)),
        vec!["is_point".to_string(), "get_point_0".to_string(), "get_point_1".to_string()]
    );
    assert_eq!(
        variant_method_names("ErrorCode", &VariantFields::Named(vec!["code".to_string(), "msg".to_string()])),
        vec!["is_error_code".to_string(), "get_error_code_code".to_string(), "get_error_code_msg".to_string()]
    );
}

#[test]
fn container_options() {
    assert_eq!(ContainerAttrs::from_options(&vec![]), Ok(ContainerAttrs { serde: false, eq: false }));
    assert_eq!(
        ContainerAttrs::from_options(&vec!["serde".to_string(), "Eq".to_string()]),
        Ok(ContainerAttrs { serde: true, eq: true })
    );
    assert_eq!(
        ContainerAttrs::from_options(&vec!["serde".to_string(), "eq".to_string(), "Eq".to_string()]),
        Err(AttrError::Unsupported("eq".to_string()))
    );
}

#[test]
fn variant_options() {
    let item = |name: &str, value: MetaValue| MetaItem { name: name.to_string(), value };
    assert_eq!(VariantAttrs::from_options(&vec![]), Ok(VariantAttrs { rename: None }));
    assert_eq!(
        VariantAttrs::from_options(&vec![item("rename", MetaValue::Str("a".to_string())), item("rename", MetaValue::Str("b".to_string()))]),
        Ok(VariantAttrs { rename: Some("b".to_string()) })
    );
    assert_eq!(VariantAttrs::from_options(&vec![item("rename", MetaValue::NonString)]), Err(AttrError::RenameNotString));
    assert_eq!(VariantAttrs::from_options(&vec![item("rename", MetaValue::Absent)]), Err(AttrError::MissingValue));
    assert_eq!(VariantAttrs::from_options(&vec![item("skip", MetaValue::Absent)]), Err(AttrError::Unsupported("skip".to_string())));
}

#[test]
fn unit_enums_and_struct_fields() {
    assert!(is_unit_enum(&vec![VariantFields::Unit, VariantFields::Unit]));
    assert!(!is_unit_enum(&vec![VariantFields::Unit, VariantFields::Unnamed(1)]));
    assert!(is_unit_enum(&vec![]));
    let fields = StructFields::Named(vec![("x".to_string(), true), ("secret".to_string(), false), ("y".to_string(), true)]);
    assert_eq!(exposed_fields(&fields), Ok(vec!["x".to_string(), "y".to_string()]));
    assert_eq!(exposed_fields(&StructFields::Unnamed), Err(StructError::TupleStruct));
    assert_eq!(exposed_fields(&StructFields::Unit), Err(StructError::UnitStruct));
}

#[test]
fn derives_apply_to_their_kinds() {
    assert_eq!(check_lua_integration(DataKind::Struct), Ok(()));
    assert_eq!(check_lua_integration(DataKind::Enum), Err(DeriveRefusal::EnumNeedsLuaKind));
    assert_eq!(check_lua_kind(DataKind::Enum), Ok(()));
    assert_eq!(check_lua_kind(DataKind::Struct), Err(DeriveRefusal::StructNeedsLuaIntegration));
    assert_eq!(check_lua_integration(DataKind::Union), Err(DeriveRefusal::UnionForIntegration));
    assert_eq!(DeriveRefusal::UnionForIntegration.message(), "LuaIntegration does not support unions");
    assert_eq!(
        DeriveRefusal::StructNeedsLuaIntegration.message(),
        "LuaKind is only for enums. Use LuaIntegration for structs."
    );
    assert_eq!(check_lua_kind(DataKind::Union).unwrap_err().message(), "LuaKind does not support unions");
    assert_eq!(
        DeriveRefusal::EnumNeedsLuaKind.message(),
        "LuaIntegration does not support enums. Use LuaKind instead."
    );
}

#[test]
fn generated_metamethods() {
    let both = ContainerAttrs { serde: true, eq: true };
    assert_eq!(struct_meta_methods(&both), vec![LuaMethod::ToString, LuaMethod::FromJson, LuaMethod::Eq]);
    assert_eq!(struct_meta_methods(&ContainerAttrs::default()), vec![]);
    assert_eq!(enum_meta_methods(&both), vec![LuaMethod::Eq, LuaMethod::ToString, LuaMethod::FromJson]);
    assert_eq!(enum_meta_methods(&ContainerAttrs { serde: false, eq: true }), vec![LuaMethod::Eq]);
}

#[test]
fn unit_enum_equality_with_strings_and_variants() {
    let names = vec!["world".to_string(), "foo".to_string(), "bar".to_string()];
    assert!(lua_enum_eq(1, &LuaOperand::Text("foo".to_string()), &names, true));
    assert!(!lua_enum_eq(1, &LuaOperand::Text("bar".to_string()), &names, true));
    assert!(!lua_enum_eq(1, &LuaOperand::Text("foo".to_string()), &names, false));
    assert!(lua_enum_eq(2, &LuaOperand::SameEnum(2), &names, true));
    assert!(!lua_enum_eq(2, &LuaOperand::SameEnum(0), &names, false));
    assert!(!lua_enum_eq(0, &LuaOperand::Other, &names, true));
}
