use convert_by_name::{
    concat_tokens, convert_by_name, directive::directive_of, template_from, template_into, Attribute, Convert, ConvertData,
    ConvertError, ConvertOpts, Data, DeriveInput, Fields, Members, Value, Variant,
};

fn attr(path: &str, args: Option<&str>) -> Attribute {
    Attribute { path: path.to_string(), args: args.map(|a| a.to_string()) }
}

fn names(ns: &[&str]) -> Fields {
    Fields::Named(ns.iter().map(|n| n.to_string()).collect())
}

fn input(attrs: Vec<Attribute>, ident: &str, data: Data) -> DeriveInput {
    DeriveInput { attrs, ident: ident.to_string(), generics: String::new(), data }
}

fn variant(ident: &str, fields: Fields) -> Variant {
    Variant { ident: ident.to_string(), fields }
}

fn color_variants() -> Vec<Variant> {
    vec![
        variant("Red", Fields::Unit),
        variant("Green", Fields::Unit),
        variant("Blue", Fields::Unit),
        variant("Rgb", names(&["r", "g", "b"])),
        variant("AnsiValue", Fields::Unnamed(1)),
    ]
}

fn point(x: i64, y: i64) -> Value<i64> {
    Value {
        variant: None,
        members: Members::Named(vec![("x".to_string(), x), ("y".to_string(), y)]),
    }
}

const VEC2D_FROM: &str = "impl std::convert::From<Point2D> for Vec2D { fn from(value: Point2D) -> Self { let Point2D { x, y, } = value; Self { x: std::convert::Into::into(x), y: std::convert::Into::into(y), } } }\n";
const VEC2D_INTO: &str = "#[allow(clippy::from_over_into)] impl std::convert::Into<Point2D> for Vec2D { fn into(self) -> Point2D { let value = self; let Self { x, y, } = value; Point2D { x: std::convert::Into::into(x), y: std::convert::Into::into(y), } } }\n";

#[test]
fn named_struct_both_directions_text() {
    let i = input(
        vec![attr("from", Some("Point2D")), attr("into", Some("Point2D"))],
        "Vec2D",
        Data::Struct(names(&["x", "y"])),
    );
    let text = convert_by_name(i).unwrap();
    assert_eq!(text, format!("{}{}", VEC2D_FROM, VEC2D_INTO));
}

#[test]
fn named_struct_round_trip() {
    let i = input(
        vec![attr("from", Some("Point2D")), attr("into", Some("Point2D"))],
        "Vec2D",
        Data::Struct(names(&["x", "y"])),
    );
    let c = Convert::new(i).unwrap();
    assert_eq!(c.opts, vec![ConvertOpts::From("Point2D".to_string()), ConvertOpts::Into("Point2D".to_string())]);
    let vector = c.data.convert_value(&point(3, 4)).unwrap();
    let back = c.data.convert_value(&vector).unwrap();
    assert_eq!(back, point(3, 4));
}

#[test]
fn named_members_matched_by_name_not_order() {
    let c = Convert::new(input(vec![attr("from", Some("P"))], "V", Data::Struct(names(&["x", "y"])))).unwrap();
    let swapped = Value {
        variant: None,
        members: Members::Named(vec![("y".to_string(), 4), ("x".to_string(), 3)]),
    };
    assert_eq!(c.data.convert_value(&swapped), Some(point(3, 4)));
    let other = Value {
        variant: None,
        members: Members::Named(vec![("x".to_string(), 3), ("z".to_string(), 4)]),
    };
    assert_eq!(c.data.convert_value(&other), None);
}

#[test]
fn positional_struct_text() {
    let i = input(vec![attr("from", Some("Point2D"))], "Vec2D", Data::Struct(Fields::Unnamed(2)));
    let text = convert_by_name(i).unwrap();
    assert_eq!(
        text,
        "impl std::convert::From<Point2D> for Vec2D { fn from(value: Point2D) -> Self { let Point2D (_0, _1, ) = value; Self (std::convert::Into::into(_0), std::convert::Into::into(_1), ) } }\n"
    );
}

#[test]
fn positional_bindings_past_ten() {
    let c = Convert::new(input(vec![attr("into", Some("T"))], "S", Data::Struct(Fields::Unnamed(12)))).unwrap();
    let text = c.generate_all();
    assert!(text.contains("_9, _10, _11, )"));
    assert!(text.contains("std::convert::Into::into(_11), )"));
    assert!(!text.contains("_12"));
}

#[test]
fn positional_widening_scenario() {
    let c = Convert::new(input(vec![attr("from", Some("Point2D"))], "Vec2D", Data::Struct(Fields::Unnamed(2)))).unwrap();
    let v = c.data.convert_value(&Value { variant: None, members: Members::Unnamed(vec![3i32, 4]) }).unwrap();
    let widened: Vec<f64> = match v.members {
        Members::Unnamed(vs) => vs.into_iter().map(f64::from).collect(),
        _ => Vec::new(),
    };
    assert_eq!(widened, vec![3.0, 4.0]);
}

#[test]
fn empty_and_unit_bodies() {
    let tuple = Convert::new(input(vec![attr("from", Some("T"))], "S", Data::Struct(Fields::Unnamed(0)))).unwrap();
    assert!(tuple.generate_all().contains("let T () = value; Self () "));
    let unit = Convert::new(input(vec![attr("from", Some("T"))], "S", Data::Struct(Fields::Unit))).unwrap();
    assert!(unit.generate_all().contains("let T  = value; Self  }"));
    let v = Value::<i64> { variant: None, members: Members::Unit };
    assert_eq!(unit.data.convert_value(&v), Some(Value { variant: None, members: Members::Unit }));
}

#[test]
fn enum_dispatches_every_variant_in_order() {
    let i = input(
        vec![attr("from", Some("module_a::Color")), attr("into", Some("module_a::Color"))],
        "Color",
        Data::Enum(color_variants()),
    );
    let text = convert_by_name(i).unwrap();
    let from_body = "match value { module_a::Color::Red  => Self::Red , module_a::Color::Green  => Self::Green , module_a::Color::Blue  => Self::Blue , module_a::Color::Rgb { r, g, b, } => Self::Rgb { r: std::convert::Into::into(r), g: std::convert::Into::into(g), b: std::convert::Into::into(b), }, module_a::Color::AnsiValue (_0, ) => Self::AnsiValue (std::convert::Into::into(_0), ), }";
    assert!(text.contains(from_body));
    assert_eq!(text.matches("=>").count(), 10);
    assert!(text.starts_with("impl std::convert::From<module_a::Color> for Color"));
}

#[test]
fn enum_converts_ansi_value() {
    let c = Convert::new(input(vec![attr("from", Some("module_a::Color"))], "Color", Data::Enum(color_variants()))).unwrap();
    let ansi = Value { variant: Some("AnsiValue".to_string()), members: Members::Unnamed(vec![7u8]) };
    assert_eq!(
        c.data.convert_value(&ansi),
        Some(Value { variant: Some("AnsiValue".to_string()), members: Members::Unnamed(vec![7u8]) })
    );
}

#[test]
fn counterpart_variant_mismatch_is_not_detected() {
    let i = input(vec![attr("into", Some("other::Color"))], "Color", Data::Enum(color_variants()));
    assert!(convert_by_name(i).is_ok());
    let c = Convert::new(input(vec![attr("from", Some("P"))], "Color", Data::Enum(color_variants()))).unwrap();
    let unknown = Value::<u8> { variant: Some("Cyan".to_string()), members: Members::Unit };
    assert_eq!(c.data.convert_value(&unknown), None);
}

#[test]
fn missing_directive() {
    let none = input(vec![], "S", Data::Struct(Fields::Unit));
    assert_eq!(convert_by_name(none), Err(ConvertError::MissingDirective));
    let unrelated = input(vec![attr("derive", Some("Debug")), attr("doc", None)], "S", Data::Struct(Fields::Unit));
    assert_eq!(Convert::new(unrelated).unwrap_err(), ConvertError::MissingDirective);
}

#[test]
fn union_is_unsupported() {
    let with = input(vec![attr("from", Some("T"))], "U", Data::Union);
    assert_eq!(convert_by_name(with), Err(ConvertError::UnsupportedShapeKind));
    let without = input(vec![], "U", Data::Union);
    assert_eq!(convert_by_name(without), Err(ConvertError::UnsupportedShapeKind));
}

#[test]
fn malformed_directive_argument() {
    let literal = input(vec![attr("doc", None), attr("from", Some("3")), attr("into", Some("!"))], "S", Data::Struct(Fields::Unit));
    match convert_by_name(literal) {
        Err(ConvertError::MalformedDirectiveArgument { attribute, message }) => {
            assert_eq!(attribute, 1);
            assert!(!message.is_empty());
        }
        other => panic!("unexpected {:?}", other),
    }
    let bare = input(vec![attr("into", None)], "S", Data::Struct(Fields::Unit));
    assert!(matches!(
        Convert::new(bare),
        Err(ConvertError::MalformedDirectiveArgument { attribute: 0, .. })
    ));
    let two = input(vec![attr("from", Some("A B"))], "S", Data::Struct(Fields::Unit));
    assert!(matches!(convert_by_name(two), Err(ConvertError::MalformedDirectiveArgument { .. })));
}

#[test]
fn from_attribute_reads_keywords() {
    assert_eq!(ConvertOpts::from_attribute(&attr("doc", Some("x"))), Ok(None));
    assert_eq!(
        ConvertOpts::from_attribute(&attr("from", Some("a::B<T>"))),
        Ok(Some(ConvertOpts::From("a::B<T>".to_string())))
    );
    assert_eq!(
        ConvertOpts::from_attribute(&attr("into", Some("B"))),
        Ok(Some(ConvertOpts::Into("B".to_string())))
    );
    assert!(ConvertOpts::from_attribute(&attr("from", Some("1.5"))).is_err());
}

#[test]
fn source_and_destination_types() {
    let f = ConvertOpts::From("A".to_string());
    let i = ConvertOpts::Into("B".to_string());
    assert_eq!(f.src_type(), "A");
    assert_eq!(f.dst_type(), "Self");
    assert_eq!(i.src_type(), "Self");
    assert_eq!(i.dst_type(), "B");
}

#[test]
fn duplicate_directives_give_one_routine_each() {
    let i = input(
        vec![attr("from", Some("Point2D")), attr("from", Some("Point2D"))],
        "Vec2D",
        Data::Struct(names(&["x", "y"])),
    );
    assert_eq!(convert_by_name(i).unwrap(), format!("{}{}", VEC2D_FROM, VEC2D_FROM));
}

#[test]
fn generics_are_repeated() {
    let mut i = input(vec![attr("into", Some("W<T>"))], "V", Data::Struct(Fields::Unnamed(1)));
    i.generics = "<T>".to_string();
    let text = convert_by_name(i).unwrap();
    assert!(text.starts_with("#[allow(clippy::from_over_into)] impl<T> std::convert::Into<W<T>> for V<T> { fn into(self) -> W<T> {"));
}

#[test]
fn templates_and_concatenation() {
    assert_eq!(template_from("A", "", "B", "x"), "impl std::convert::From<B> for A { fn from(value: B) -> Self { x } }\n");
    assert_eq!(
        template_into("A", "", "B", "x"),
        "#[allow(clippy::from_over_into)] impl std::convert::Into<B> for A { fn into(self) -> B { let value = self; x } }\n"
    );
    assert_eq!(concat_tokens("ab", "cd"), "abcd");
    assert_eq!(concat_tokens("", ""), "");
}

#[test]
fn from_data_rejects_union() {
    assert!(matches!(ConvertData::from_data(Data::Union), Err(ConvertError::UnsupportedShapeKind)));
    assert!(matches!(ConvertData::from_data(Data::Struct(Fields::Unit)), Ok(ConvertData::Struct(Fields::Unit))));
}

#[test]
fn directive_of_takes_the_parse_outcome() {
    let from = attr("from", Some("Point2D"));
    assert_eq!(directive_of(&from, Ok(())), Ok(Some(ConvertOpts::From("Point2D".to_string()))));
    assert_eq!(directive_of(&from, Err("bad".to_string())), Err("bad".to_string()));
    let into = attr("into", Some("a::B"));
    assert_eq!(directive_of(&into, Ok(())), Ok(Some(ConvertOpts::Into("a::B".to_string()))));
    assert!(directive_of(&attr("into", None), Ok(())).is_err());
    assert_eq!(directive_of(&attr("doc", Some("x")), Err("bad".to_string())), Ok(None));
}

#[test]
fn missing_counterpart_variant_keeps_all_arms_both_ways() {
    let i = input(
        vec![attr("from", Some("module_a::Color")), attr("into", Some("module_a::Color"))],
        "Color",
        Data::Enum(color_variants()),
    );
    let text = convert_by_name(i).unwrap();
    assert!(text.contains("module_a::Color::AnsiValue (_0, ) => Self::AnsiValue (std::convert::Into::into(_0), ), }"));
    assert!(text.contains("Self::AnsiValue (_0, ) => module_a::Color::AnsiValue (std::convert::Into::into(_0), ), }"));
    for v in ["Red", "Green", "Blue", "Rgb", "AnsiValue"] {
        assert_eq!(text.matches(&format!("Self::{} ", v)).count(), 2);
    }
}
