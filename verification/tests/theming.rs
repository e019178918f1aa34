use aurora_ui::theme::Color;
use aurora_ui::theming::{
    collect_sorted_keys, color_from_hex, get_val, parse_color, parse_hex_u32, profile_names, theme_plan, theme_plan_from_text,
    to_pascal_case, JsonValue, ThemeError,
};

fn s(x: &str) -> String {
    x.to_string()
}

fn obj(members: Vec<(&str, JsonValue)>) -> JsonValue {
    JsonValue::Object(members.into_iter().map(|(k, v)| (k.to_string(), v)).collect())
}

fn hex(x: &str) -> JsonValue {
    JsonValue::Str(x.to_string())
}

#[test]
fn pascal_case_names() {
    assert_eq!(to_pascal_case("high-contrast_dark"), "HighContrastDark");
    assert_eq!(to_pascal_case("__ocean  blue-"), "OceanBlue");
    assert_eq!(to_pascal_case(""), "");
    assert_eq!(to_pascal_case("ßeta"), "SSeta");
}

#[test]
fn hex_numbers() {
    let chars = |x: &str| x.chars().collect::<Vec<char>>();
    assert_eq!(parse_hex_u32(&chars("ff8000")), Some(0xff8000));
    assert_eq!(parse_hex_u32(&chars("+FF")), Some(255));
    assert_eq!(parse_hex_u32(&chars("+")), None);
    assert_eq!(parse_hex_u32(&chars("")), None);
    assert_eq!(parse_hex_u32(&chars("-1")), None);
    assert_eq!(parse_hex_u32(&chars("12g4")), None);
    assert_eq!(parse_hex_u32(&chars("ffffffff")), Some(u32::MAX));
    assert_eq!(parse_hex_u32(&chars("100000000")), None);
}

#[test]
fn hex_colors() {
    assert_eq!(color_from_hex(&s("#ff8000")), Color::new(255, 128, 0, 255));
    assert_eq!(color_from_hex(&s("##11223344")), Color::new(0x11, 0x22, 0x33, 0x44));
    assert_eq!(color_from_hex(&s("abc")), Color::new(0, 0, 0, 255));
    assert_eq!(color_from_hex(&s("#zzzzzz")), Color::new(0, 0, 0, 255));
    assert_eq!(color_from_hex(&s("#zzzzzzzz")), Color::new(0, 0, 0, 0));
    // Two bytes for the accented letter: eight bytes in all.
    assert_eq!(color_from_hex(&s("#é123456")), Color::new(0, 0, 0, 0));
}

#[test]
fn object_colors() {
    let v = obj(vec![
        ("red", JsonValue::Number(Some(10))),
        ("g", JsonValue::Number(Some(300))),
        ("b", hex("x")),
        ("blue", JsonValue::Number(Some(9))),
    ]);
    assert_eq!(parse_color(Some(&v)), Color::new(10, 44, 0, 255));
    assert_eq!(parse_color(None), Color::new(0, 0, 0, 255));
    assert_eq!(parse_color(Some(&JsonValue::Number(Some(5)))), Color::new(0, 0, 0, 255));
}

fn document() -> JsonValue {
    obj(vec![
        (
            "_",
            obj(vec![
                ("colors", obj(vec![("primary", hex("#112233")), ("brand", hex("#010203"))])),
                ("edges", obj(vec![("pad", JsonValue::Number(Some(4)))])),
            ]),
        ),
        ("dark", obj(vec![("colors", obj(vec![("brand", hex("#ffffff")), ("accent", hex("#000000"))]))])),
        ("light-blue", obj(vec![])),
    ])
}

#[test]
fn profiles_and_keys() {
    let doc = document();
    let root = match &doc {
        JsonValue::Object(es) => es,
        _ => unreachable!(),
    };
    let names = profile_names(root);
    assert_eq!(names, vec![s("_"), s("dark"), s("light-blue")]);
    assert_eq!(collect_sorted_keys(root, &names, "colors"), vec![s("accent"), s("brand"), s("primary")]);
    assert_eq!(collect_sorted_keys(root, &names, "edges"), vec![s("pad")]);
    assert!(collect_sorted_keys(root, &names, "corners").is_empty());
    let dark = &root[1].1;
    assert!(get_val(dark, "colors", "accent").is_some());
    assert!(get_val(dark, "colors", "primary").is_none());
    let reordered = obj(vec![("b", obj(vec![])), ("_", obj(vec![])), ("a", obj(vec![])), ("b", obj(vec![]))]);
    if let JsonValue::Object(es) = &reordered {
        assert_eq!(profile_names(es), vec![s("_"), s("a"), s("b")]);
    }
}

#[test]
fn plan_inherits_from_default() {
    let plan = theme_plan(&document()).ok().unwrap();
    assert_eq!(plan.variant_names, vec![s("Default"), s("Dark"), s("LightBlue")]);
    assert_eq!(plan.display_names, vec![s("default"), s("dark"), s("light-blue")]);
    assert_eq!(plan.color_keys, vec![s("accent"), s("brand"), s("primary")]);
    // dark: own accent and brand, inherited primary.
    assert_eq!(
        plan.profile_colors[1],
        vec![Color::new(0, 0, 0, 255), Color::new(255, 255, 255, 255), Color::new(0x11, 0x22, 0x33, 255)]
    );
    // default: no accent anywhere in it, so opaque black.
    assert_eq!(plan.profile_colors[0][0], Color::new(0, 0, 0, 255));
    // light-blue inherits everything.
    assert_eq!(plan.profile_colors[2][1], Color::new(1, 2, 3, 255));
    // Slot 7 is primary; slot 0 (background) keeps the built-in white.
    assert_eq!(plan.slot_colors[1][7], Color::new(0x11, 0x22, 0x33, 255));
    assert_eq!(plan.slot_colors[1][11], Color::new(0, 0, 0, 255));
    assert_eq!(plan.slot_colors[2][0], Color::new(255, 255, 255, 255));
    assert_eq!(plan.slot_colors[0].len(), 26);
}

#[test]
fn refused_documents() {
    assert_eq!(theme_plan(&JsonValue::Other).err(), Some(ThemeError::RootNotObject));
    assert_eq!(theme_plan(&hex("x")).err(), Some(ThemeError::RootNotObject));
    assert_eq!(theme_plan(&obj(vec![])).err(), Some(ThemeError::NoProfiles));
}

#[test]
fn plan_from_theme_text() {
    let plan = theme_plan_from_text(r##"{"b": {}, "_": {"colors": {"brand": "#010203"}}, "a": {}}"##).ok().unwrap();
    assert_eq!(plan.profile_names, vec![s("_"), s("a"), s("b")]);
    assert_eq!(plan.variant_names, vec![s("Default"), s("A"), s("B")]);
    assert_eq!(plan.profile_colors[2], vec![Color::new(1, 2, 3, 255)]);
    assert_eq!(theme_plan_from_text("{not json").err(), Some(ThemeError::InvalidJson));
    assert_eq!(theme_plan_from_text("[1, 2]").err(), Some(ThemeError::RootNotObject));
    assert_eq!(theme_plan_from_text("{}").err(), Some(ThemeError::NoProfiles));
}

#[test]
fn pascal_case_of_separators_only_is_empty() {
    assert_eq!(to_pascal_case("_- _"), "");
    assert_eq!(to_pascal_case("_a"), "A");
}
