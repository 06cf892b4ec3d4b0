use swc_core::ecma::ast::{Expr, Lit, ObjectLit, Prop, PropName, PropOrSpread};
use tailwind_literal::{parse_literal, properties_for, to_lit, InferredType, TailwindTheme};

fn pairs(v: &[(&str, &str)]) -> Vec<(String, String)> {
    v.iter().map(|(k, v)| (k.to_string(), v.to_string())).collect()
}

fn theme() -> TailwindTheme {
    TailwindTheme {
        colors: pairs(&[("red-500", "#ef4444"), ("black", "#000")]),
        font_family: vec![
            ("sans".to_string(), vec!["ui-sans-serif".to_string(), "system-ui".to_string()]),
            ("mono".to_string(), vec!["monospace".to_string()]),
        ],
        box_shadow: pairs(&[("lg", "0 10px 15px -3px rgb(0 0 0 / 0.1)")]),
        transition_property: pairs(&[("colors", "color, background-color")]),
        transition_delay: pairs(&[("100", "100ms")]),
        transition_duration: pairs(&[("200", "200ms")]),
        transition_timing_function: pairs(&[("in", "cubic-bezier(0.4, 0, 1, 1)")]),
        border_radius: pairs(&[("md", "0.375rem")]),
    }
}

fn infer(s: &str) -> InferredType {
    match s {
        "xl" => InferredType::Screen("1.25".to_string()),
        "2" => InferredType::Scalar("2".to_string()),
        "red-500" => InferredType::Color("#ef4444".to_string()),
        _ => InferredType::Other,
    }
}

fn props(o: &ObjectLit) -> Vec<(String, String)> {
    o.props
        .iter()
        .map(|p| match p {
            PropOrSpread::Prop(b) => match &**b {
                Prop::KeyValue(kv) => {
                    let key = match &kv.key {
                        PropName::Str(s) => s.value.to_string_lossy().to_string(),
                        _ => panic!("key is not a string"),
                    };
                    let value = match &*kv.value {
                        Expr::Lit(Lit::Str(s)) => s.value.to_string_lossy().to_string(),
                        _ => panic!("value is not a string"),
                    };
                    (key, value)
                }
                _ => panic!("not a key-value property"),
            },
            _ => panic!("spread"),
        })
        .collect()
}

fn parsed(s: &str) -> Vec<(String, String)> {
    props(&parse_literal(&theme(), s, infer).expect("literal expected"))
}

#[test]
fn to_lit_keeps_pairs_in_order() {
    let o = to_lit(&pairs(&[("a", "1"), ("b", "2")]));
    assert_eq!(props(&o), pairs(&[("a", "1"), ("b", "2")]));
    assert!(props(&to_lit(&Vec::new())).is_empty());
}

#[test]
fn sizes_take_any_argument() {
    assert_eq!(parsed("h-4"), pairs(&[("height", "4em")]));
    assert_eq!(parsed("w-1/2"), pairs(&[("width", "1/2em")]));
    assert_eq!(parsed("p-0.5"), pairs(&[("padding", "0.5em")]));
    assert_eq!(parsed("m-"), pairs(&[("margin", "em")]));
}

#[test]
fn the_argument_is_everything_after_the_first_dash() {
    assert_eq!(parsed("bg-red-500"), pairs(&[("backgroundColor", "#ef4444")]));
    assert_eq!(parsed("h-px-2"), pairs(&[("height", "px-2em")]));
}

#[test]
fn refused_classes_give_back_the_input() {
    let t = theme();
    assert_eq!(parse_literal(&t, "nodash", infer).unwrap_err(), "nodash");
    assert_eq!(parse_literal(&t, "", infer).unwrap_err(), "");
    assert_eq!(parse_literal(&t, "bg-blue", infer).unwrap_err(), "bg-blue");
    assert_eq!(parse_literal(&t, "unknown-x", infer).unwrap_err(), "unknown-x");
    assert_eq!(parse_literal(&t, "text-foo", infer).unwrap_err(), "text-foo");
    assert_eq!(parse_literal(&t, "border-foo", infer).unwrap_err(), "border-foo");
    assert_eq!(parse_literal(&t, "shadow-none", infer).unwrap_err(), "shadow-none");
    assert_eq!(parse_literal(&t, "rounded-xl", infer).unwrap_err(), "rounded-xl");
}

#[test]
fn text_uses_inference() {
    assert_eq!(parsed("text-xl"), pairs(&[("fontSize", "1.25em")]));
    assert_eq!(parsed("text-red-500"), pairs(&[("color", "#ef4444")]));
    // a scalar is no text size
    assert!(parse_literal(&theme(), "text-2", infer).is_err());
}

#[test]
fn border_uses_inference() {
    assert_eq!(parsed("border-2"), pairs(&[("borderWidth", "2px")]));
    assert_eq!(parsed("border-red-500"), pairs(&[("borderColor", "#ef4444")]));
    assert!(parse_literal(&theme(), "border-xl", infer).is_err());
}

#[test]
fn font_family_names_are_joined() {
    assert_eq!(parsed("font-sans"), pairs(&[("fontFamily", "ui-sans-serif, system-ui")]));
    assert_eq!(parsed("font-mono"), pairs(&[("fontFamily", "monospace")]));
}

#[test]
fn shadow_then_shadow_color() {
    assert_eq!(
        parsed("shadow-lg"),
        pairs(&[
            ("boxShadow", "var(--tw-shadow)"),
            ("--tw-shadow", "0 10px 15px -3px rgb(0 0 0 / 0.1)"),
            (
                "--tw-shadow-colored",
                "0 10px 15px -3px var(--tw-shadow-color), 0 4px 6px -4px var(--tw-shadow-color)"
            ),
        ])
    );
    assert_eq!(
        parsed("shadow-black"),
        pairs(&[("--tw-shadow-color", "#000"), ("--tw-shadow", "var(--tw-shadow-colored)")])
    );
}

#[test]
fn theme_tables() {
    assert_eq!(parsed("transition-colors"), pairs(&[("transition-property", "color, background-color")]));
    assert_eq!(parsed("delay-100"), pairs(&[("transition-delay", "100ms")]));
    assert_eq!(parsed("duration-200"), pairs(&[("transition-duration", "200ms")]));
    assert_eq!(parsed("ease-in"), pairs(&[("transition-timing-function", "cubic-bezier(0.4, 0, 1, 1)")]));
    assert_eq!(parsed("rounded-md"), pairs(&[("borderRadius", "0.375rem")]));
}

#[test]
fn a_name_is_found_among_others() {
    let mut t = theme();
    t.colors = pairs(&[("x", "first"), ("y", "second"), ("z", "third")]);
    let o = parse_literal(&t, "bg-y", infer).unwrap();
    assert_eq!(props(&o), pairs(&[("backgroundColor", "second")]));
}

#[test]
fn properties_for_ignores_inference_for_table_commands() {
    let t = theme();
    let r = properties_for(
        &t,
        &"bg".to_string(),
        &"black".to_string(),
        &InferredType::Color("#fff".to_string()),
    );
    assert_eq!(r, Some(pairs(&[("backgroundColor", "#000")])));
}
