use swc_core::common::DUMMY_SP;
use tailwind_literal::{
    select_argument, Css, Gap, Inset, Literal, LiteralConversionError, Min, Modifier, Plugin,
    PluginArgument, PluginArity, SubjectValue, Value,
};

#[test]
fn new_with_value_is_invalid_arguments() {
    let v = SubjectValue::Value(Value("x"));
    assert_eq!(
        LiteralConversionError::new(Plugin::Italic, Some(v)),
        LiteralConversionError::InvalidArguments(Plugin::Italic, v)
    );
}

#[test]
fn new_without_value_is_missing_arguments() {
    assert_eq!(
        LiteralConversionError::new(Plugin::Font, None),
        LiteralConversionError::MissingArguments(Plugin::Font)
    );
}

#[test]
fn arity_table() {
    assert_eq!(Plugin::Border(Modifier(0)).arity(), PluginArity::OptionalArbitraryBox);
    assert_eq!(Plugin::Col(Modifier(0)).arity(), PluginArity::RequiredBox);
    assert_eq!(Plugin::Italic.arity(), PluginArity::Singular);
    assert_eq!(Plugin::Truncate.arity(), PluginArity::Singular);
    assert_eq!(Plugin::Shadow.arity(), PluginArity::Optional);
    assert_eq!(Plugin::Font.arity(), PluginArity::Required);
    assert_eq!(Plugin::Text.arity(), PluginArity::RequiredArbitrary);
    assert_eq!(Plugin::Gap(None).arity(), PluginArity::RequiredArbitrary);
    assert_eq!(Plugin::Gap(Some(Gap::X)).arity(), PluginArity::Required);
    assert_eq!(Plugin::Inset(Some(Inset::Y)).arity(), PluginArity::RequiredArbitrary);
    assert_eq!(Plugin::Min(Min::W).arity(), PluginArity::RequiredArbitrary);
    assert_eq!(Plugin::Animate.arity(), PluginArity::Required);
}

#[test]
fn select_argument_cases() {
    let v = Value("2");
    let plain = Some(SubjectValue::Value(v));
    let css = Some(SubjectValue::Css(Css("#fff")));
    assert_eq!(select_argument(PluginArity::Required, plain), Some(PluginArgument::Value(v)));
    assert_eq!(select_argument(PluginArity::Required, css), None);
    assert_eq!(select_argument(PluginArity::Required, None), None);
    assert_eq!(select_argument(PluginArity::RequiredBox, plain), Some(PluginArgument::Value(v)));
    assert_eq!(
        select_argument(PluginArity::Optional, plain),
        Some(PluginArgument::MaybeValue(Some(v)))
    );
    assert_eq!(select_argument(PluginArity::Optional, None), Some(PluginArgument::MaybeValue(None)));
    assert_eq!(select_argument(PluginArity::Optional, css), None);
    assert_eq!(
        select_argument(PluginArity::RequiredArbitrary, css),
        Some(PluginArgument::Subject(SubjectValue::Css(Css("#fff"))))
    );
    assert_eq!(select_argument(PluginArity::RequiredArbitrary, None), None);
    assert_eq!(select_argument(PluginArity::Singular, None), Some(PluginArgument::Nothing));
    assert_eq!(select_argument(PluginArity::Singular, plain), None);
    assert_eq!(select_argument(PluginArity::OptionalArbitraryBox, plain), None);
    assert_eq!(select_argument(PluginArity::OptionalArbitraryBox, None), None);
}

fn literal(cmd: Plugin, value: Option<SubjectValue<'static>>) -> Literal<'static> {
    Literal { cmd, value, span: None }
}

fn bare(p: Plugin) -> (Plugin, PluginArgument<'static>) {
    (p, PluginArgument::Nothing)
}

fn echo(p: Plugin, a: PluginArgument<'static>) -> Result<(Plugin, PluginArgument<'static>), ()> {
    Ok((p, a))
}

#[test]
fn to_object_lit_calls_the_plugin_with_its_argument() {
    let v = Value("sans");
    let r = literal(Plugin::Font, Some(SubjectValue::Value(v))).to_object_lit(DUMMY_SP, bare, echo);
    assert_eq!(r, Ok((Plugin::Font, PluginArgument::Value(v))));

    let css = SubjectValue::Css(Css("#000"));
    let r = literal(Plugin::Bg, Some(css)).to_object_lit(DUMMY_SP, bare, echo);
    assert_eq!(r, Ok((Plugin::Bg, PluginArgument::Subject(css))));

    let r = literal(Plugin::Italic, None).to_object_lit(DUMMY_SP, bare, echo);
    assert_eq!(r, Ok((Plugin::Italic, PluginArgument::Nothing)));

    let r = literal(Plugin::Shadow, None).to_object_lit(DUMMY_SP, bare, echo);
    assert_eq!(r, Ok((Plugin::Shadow, PluginArgument::MaybeValue(None))));
}

#[test]
fn to_object_lit_refuses_a_value_that_does_not_fit() {
    let v = SubjectValue::Value(Value("x"));
    let r = literal(Plugin::Italic, Some(v)).to_object_lit(DUMMY_SP, bare, echo);
    assert_eq!(r, Err(LiteralConversionError::InvalidArguments(Plugin::Italic, v)));

    let r = literal(Plugin::Font, None).to_object_lit(DUMMY_SP, bare, echo);
    assert_eq!(r, Err(LiteralConversionError::MissingArguments(Plugin::Font)));

    let css = SubjectValue::Css(Css("1px"));
    let r = literal(Plugin::P, Some(css)).to_object_lit(DUMMY_SP, bare, echo);
    assert_eq!(r, Err(LiteralConversionError::InvalidArguments(Plugin::P, css)));
}

#[test]
fn to_object_lit_never_calls_plugins_with_a_modifier_and_optional_value() {
    let v = SubjectValue::Value(Value("2"));
    let r = literal(Plugin::Border(Modifier(1)), Some(v)).to_object_lit(DUMMY_SP, bare, echo);
    assert_eq!(r, Err(LiteralConversionError::InvalidArguments(Plugin::Border(Modifier(1)), v)));
    let r = literal(Plugin::Rounded(Modifier(0)), None).to_object_lit(DUMMY_SP, bare, echo);
    assert_eq!(r, Err(LiteralConversionError::MissingArguments(Plugin::Rounded(Modifier(0)))));
}

#[test]
fn to_object_lit_maps_a_plugin_failure() {
    let v = SubjectValue::Value(Value("nope"));
    let r = literal(Plugin::Font, Some(v))
        .to_object_lit(DUMMY_SP, |_p: Plugin| 0u8, |_p: Plugin, _a: PluginArgument<'static>| -> Result<u8, Vec<&str>> {
            Err(vec!["nope"])
        });
    assert_eq!(r, Err(LiteralConversionError::InvalidArguments(Plugin::Font, v)));
}

#[test]
fn to_object_lit_hands_the_modifier_to_the_plugin() {
    let v = Value("2");
    let span = literal(Plugin::Col(Modifier(1)), Some(SubjectValue::Value(v)))
        .to_object_lit(DUMMY_SP, bare, echo);
    let start = literal(Plugin::Col(Modifier(2)), Some(SubjectValue::Value(v)))
        .to_object_lit(DUMMY_SP, bare, echo);
    assert_eq!(span, Ok((Plugin::Col(Modifier(1)), PluginArgument::Value(v))));
    assert_eq!(start, Ok((Plugin::Col(Modifier(2)), PluginArgument::Value(v))));
    assert_ne!(span, start);
}

#[test]
fn to_object_lit_singular_plugins_cannot_fail() {
    let failing = |_p: Plugin, _a: PluginArgument<'static>| -> Result<&'static str, ()> { Err(()) };
    let r = literal(Plugin::Italic, None).to_object_lit(DUMMY_SP, |_p: Plugin| "fontStyle: italic", failing);
    assert_eq!(r, Ok("fontStyle: italic"));
    let r = literal(Plugin::Truncate, None).to_object_lit(DUMMY_SP, |_p: Plugin| "truncate", failing);
    assert_eq!(r, Ok("truncate"));
}
