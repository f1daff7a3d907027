use convert_by_name::{Attribute, Convert, Data, DeriveInput, Fields, Members, Value, Variant};

fn into_attr(path: &str) -> Attribute {
    Attribute { path: "into".to_string(), args: Some(path.to_string()) }
}

fn fields_named(names: &[&str]) -> Fields {
    Fields::Named(names.iter().map(|n| n.to_string()).collect())
}

fn into_declaration(ident: &str, counterpart: &str, data: Data) -> Convert {
    let input = DeriveInput {
        attrs: vec![into_attr(counterpart)],
        ident: ident.to_string(),
        generics: String::new(),
        data,
    };
    Convert::new(input).unwrap()
}

fn variant_named(ident: &str, fields: Fields) -> Variant {
    Variant { ident: ident.to_string(), fields }
}

fn value_named(variant: Option<&str>, members: &[(&str, i32)]) -> Value<i32> {
    Value {
        variant: variant.map(|v| v.to_string()),
        members: Members::Named(members.iter().map(|(n, v)| (n.to_string(), *v)).collect()),
    }
}

fn value_tuple(variant: Option<&str>, members: &[i32]) -> Value<i32> {
    Value { variant: variant.map(|v| v.to_string()), members: Members::Unnamed(members.to_vec()) }
}

fn value_unit(variant: &str) -> Value<i32> {
    Value { variant: Some(variant.to_string()), members: Members::Unit }
}

fn widened(v: Value<i32>) -> Vec<f64> {
    match v.members {
        Members::Unnamed(vs) => vs.iter().map(|x| f64::from(*x)).collect(),
        _ => panic!("positional members expected"),
    }
}

fn color_src() -> Data {
    Data::Enum(vec![
        variant_named("Red", Fields::Unnamed(1)),
        variant_named("Green", fields_named(&["level"])),
        variant_named("Blue", Fields::Unit),
    ])
}

#[test]
fn test_into_struct() {
    let c = into_declaration("Point2D", "Vec2D", Data::Struct(fields_named(&["x", "y"])));
    let v = c.data.convert_value(&value_named(None, &[("x", 3), ("y", 4)]));
    assert_eq!(v, Some(value_named(None, &[("x", 3), ("y", 4)])));
}

#[test]
fn test_into_tuple_struct() {
    let c = into_declaration("Point2D", "Vec2D", Data::Struct(Fields::Unnamed(2)));
    let v = c.data.convert_value(&value_tuple(None, &[3, 4]));
    assert_eq!(v, Some(value_tuple(None, &[3, 4])));
}

#[test]
fn test_into_nested_conversions() {
    let c = into_declaration("Point2D", "Vec2D", Data::Struct(Fields::Unnamed(2)));
    let v = c.data.convert_value(&value_tuple(None, &[3, 4])).unwrap();
    assert_eq!(widened(v), vec![3.0, 4.0]);
}

#[test]
fn test_into_plain_enum() {
    let data = Data::Enum(vec![
        variant_named("Red", Fields::Unit),
        variant_named("Green", Fields::Unit),
        variant_named("Blue", Fields::Unit),
    ]);
    let c = into_declaration("ColorSrc", "ColorDst", data);

    let red = c.data.convert_value(&value_unit("Red"));
    assert_eq!(red, Some(value_unit("Red")));

    let green = c.data.convert_value(&value_unit("Green"));
    assert_eq!(green, Some(value_unit("Green")));

    let blue = c.data.convert_value(&value_unit("Blue"));
    assert_eq!(blue, Some(value_unit("Blue")));
}

#[test]
fn test_into_enum() {
    let c = into_declaration("ColorSrc", "ColorDst", color_src());

    let red = c.data.convert_value(&value_tuple(Some("Red"), &[4])).unwrap();
    assert_eq!(red.variant.as_deref(), Some("Red"));
    assert_eq!(widened(red), vec![4.0]);

    let green = c.data.convert_value(&value_named(Some("Green"), &[("level", 12)]));
    assert_eq!(green, Some(value_named(Some("Green"), &[("level", 12)])));

    let blue = c.data.convert_value(&value_unit("Blue"));
    assert_eq!(blue, Some(value_unit("Blue")));
}
