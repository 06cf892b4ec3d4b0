use vstd::prelude::*;

use swc_core::common::Span;

use crate::plugin::{arity_of, Plugin, PluginArity};
use crate::subject::{SubjectValue, Value};

verus! {

/// A source position, `swc_common::Span`; carried through, never read.
#[verifier::external_type_specification]
#[verifier::external_body]
pub struct ExSpan(Span);

/// The core 'rule' of a tailwind directive.
///
/// Example: `text-2xl` is a `Plugin` with a value of `2xl`.
#[derive(Debug, PartialEq, Eq)]
pub struct Literal<'a> {
    pub cmd: Plugin,
    pub value: Option<SubjectValue<'a>>,
    pub span: Option<Span>,
}

/// Why a literal could not be turned into style properties.
#[derive(Debug, PartialEq, Eq, Clone, Copy)]
pub enum LiteralConversionError<'a> {
    /// The plugin needs an argument and got none.
    MissingArguments(Plugin),
    /// The plugin cannot take the argument it got.
    InvalidArguments(Plugin, SubjectValue<'a>),
}

/// The error for a plugin and the argument it got.
pub open spec fn conversion_error<'a>(
    cmd: Plugin,
    value: Option<SubjectValue<'a>>,
) -> LiteralConversionError<'a> {
    match value {
        Some(v) => LiteralConversionError::InvalidArguments(cmd, v),
        None => LiteralConversionError::MissingArguments(cmd),
    }
}

impl<'a> LiteralConversionError<'a> {
    /// The error for a plugin and the argument it got: an invalid argument
    /// when there is one, else a missing argument.
    pub fn new(cmd: Plugin, value: Option<SubjectValue<'a>>) -> (r: Self)
        ensures
            r == conversion_error(cmd, value),
    {
        match value {
            Some(value) => Self::InvalidArguments(cmd, value),
            None => Self::MissingArguments(cmd),
        }
    }
}

/// What a plugin is called with.
#[derive(Debug, PartialEq, Eq, Clone, Copy)]
pub enum PluginArgument<'a> {
    /// Nothing: a plugin that takes no argument.
    Nothing,
    /// A plain value.
    Value(Value<'a>),
    /// A plain value, or none.
    MaybeValue(Option<Value<'a>>),
    /// A value of either kind.
    Subject(SubjectValue<'a>),
}

/// The argument that a plugin of this arity is called with for the value
/// of a literal, or `None` when the value does not fit the arity. A plugin
/// with a modifier of its own that takes an optional value of either kind
/// is never called.
pub open spec fn plugin_argument<'a>(
    arity: PluginArity,
    value: Option<SubjectValue<'a>>,
) -> Option<PluginArgument<'a>> {
    match (arity, value) {
        (PluginArity::Required, Some(SubjectValue::Value(s))) => Some(PluginArgument::Value(s)),
        (PluginArity::Optional, Some(SubjectValue::Value(s))) => Some(
            PluginArgument::MaybeValue(Some(s)),
        ),
        (PluginArity::Optional, None) => Some(PluginArgument::MaybeValue(None)),
        (PluginArity::RequiredArbitrary, Some(v)) => Some(PluginArgument::Subject(v)),
        (PluginArity::Singular, None) => Some(PluginArgument::Nothing),
        (PluginArity::RequiredBox, Some(SubjectValue::Value(s))) => Some(PluginArgument::Value(s)),
        _ => None,
    }
}

/// The value that an argument hands on to the plugin.
pub open spec fn argument_value<'a>(arg: PluginArgument<'a>) -> Option<SubjectValue<'a>> {
    match arg {
        PluginArgument::Nothing => None,
        PluginArgument::Value(s) => Some(SubjectValue::Value(s)),
        PluginArgument::MaybeValue(Some(s)) => Some(SubjectValue::Value(s)),
        PluginArgument::MaybeValue(None) => None,
        PluginArgument::Subject(v) => Some(v),
    }
}

/// A plugin is handed the literal's own value, unchanged.
pub proof fn lemma_argument_is_the_literal_value<'a>(
    arity: PluginArity,
    value: Option<SubjectValue<'a>>,
)
    ensures
        plugin_argument(arity, value) matches Some(arg) ==> argument_value(arg) == value,
{
}

/// Which values each arity accepts: a plugin without argument accepts
/// none; a plugin that needs a plain value accepts exactly a plain value;
/// an optional plain value may also be missing; only a plugin that takes
/// a value of either kind accepts a bracketed css value; and a plugin with
/// a modifier of its own that takes an optional value accepts nothing.
pub proof fn lemma_accepted_values<'a>(arity: PluginArity, value: Option<SubjectValue<'a>>)
    ensures
        arity == PluginArity::Singular ==> (plugin_argument(arity, value) is Some <==> value is None),
        arity == PluginArity::Required || arity == PluginArity::RequiredBox ==> (plugin_argument(
            arity,
            value,
        ) is Some <==> value matches Some(SubjectValue::Value(_))),
        arity == PluginArity::Optional ==> (plugin_argument(arity, value) is Some <==> !(
        value matches Some(SubjectValue::Css(_)))),
        arity == PluginArity::RequiredArbitrary ==> (plugin_argument(arity, value) is Some
            <==> value is Some),
        arity == PluginArity::OptionalArbitraryBox ==> plugin_argument(arity, value) is None,
        value matches Some(SubjectValue::Css(_)) && plugin_argument(arity, value) is Some ==> arity
            == PluginArity::RequiredArbitrary,
{
}

/// Picks the argument that a plugin of this arity is called with.
pub fn select_argument<'a>(arity: PluginArity, value: Option<SubjectValue<'a>>) -> (r: Option<
    PluginArgument<'a>,
>)
    ensures
        r == plugin_argument(arity, value),
{
    match (arity, value) {
        (PluginArity::Required, Some(SubjectValue::Value(s))) => Some(PluginArgument::Value(s)),
        (PluginArity::Optional, Some(SubjectValue::Value(s))) => Some(
            PluginArgument::MaybeValue(Some(s)),
        ),
        (PluginArity::Optional, None) => Some(PluginArgument::MaybeValue(None)),
        (PluginArity::RequiredArbitrary, Some(v)) => Some(PluginArgument::Subject(v)),
        (PluginArity::Singular, None) => Some(PluginArgument::Nothing),
        (PluginArity::RequiredBox, Some(SubjectValue::Value(s))) => Some(PluginArgument::Value(s)),
        _ => None,
    }
}

/// What converting a literal answers, given what its plugin returned when
/// it was called: the plugin's output, or the error for the plugin and the
/// value when the value does not fit or the plugin failed.
pub open spec fn conversion_result<'a, T, E>(
    cmd: Plugin,
    value: Option<SubjectValue<'a>>,
    rendered: Result<T, E>,
) -> Result<T, LiteralConversionError<'a>> {
    match plugin_argument(arity_of(cmd), value) {
        None => Err(conversion_error(cmd, value)),
        Some(_) => match rendered {
            Ok(t) => Ok(t),
            Err(_) => Err(conversion_error(cmd, value)),
        },
    }
}

/// The shape of the argument a plugin is called with is fixed by its arity:
/// a plain value for one that needs a plain value, an optional plain value
/// for one that takes an optional value, the subject value itself, of
/// either kind, for one that takes a value of either kind, and nothing for
/// one without argument.
pub proof fn lemma_argument_shape_follows_arity<'a>(
    arity: PluginArity,
    value: Option<SubjectValue<'a>>,
)
    ensures
        plugin_argument(arity, value) matches Some(arg) ==> {
            &&& arity == PluginArity::Required || arity == PluginArity::RequiredBox ==> arg is Value
            &&& arity == PluginArity::Optional ==> arg is MaybeValue
            &&& arity == PluginArity::RequiredArbitrary ==> arg == PluginArgument::Subject(
                value->0,
            )
            &&& arity == PluginArity::Singular ==> arg is Nothing
        },
        arity == PluginArity::RequiredArbitrary ==> (value matches Some(v) ==> plugin_argument(
            arity,
            value,
        ) == Some(PluginArgument::Subject(v))),
{
}

/// Converting a literal depends on its plugin, its value and what the
/// plugin returns, and on nothing else (not on the span): two literals
/// with the same plugin and value, whose plugin calls return the same,
/// convert alike. A plugin without argument that gets none is called with
/// nothing but the plugin (see `to_object_lit`), so what it returns depends
/// on the plugin alone.
pub proof fn lemma_conversion_depends_on_plugin_and_value<'a, T, E>(
    cmd: Plugin,
    value: Option<SubjectValue<'a>>,
    rendered1: Result<T, E>,
    rendered2: Result<T, E>,
)
    ensures
        rendered1 == rendered2 ==> conversion_result(cmd, value, rendered1) == conversion_result(
            cmd,
            value,
            rendered2,
        ),
        plugin_argument(arity_of(cmd), value) is None ==> conversion_result(cmd, value, rendered1)
            == conversion_result(cmd, value, rendered2),
        arity_of(cmd) == PluginArity::Singular && value is None ==> plugin_argument(
            arity_of(cmd),
            value,
        ) == Some(PluginArgument::<'a>::Nothing),
{
}

impl<'a> Literal<'a> {
    /// Turns the literal into style properties: picks the argument that
    /// its plugin takes and calls the plugin. A plugin without argument,
    /// given no value, is `singular`, called with the plugin alone, and
    /// cannot fail; any other plugin is `render`, called with the plugin and
    /// its argument. When the value does not fit the plugin, or `render`
    /// fails, the error names the plugin and the value. `Not` is not
    /// supported.
    pub fn to_object_lit<
        T,
        E,
        S: FnOnce(Plugin) -> T,
        F: FnOnce(Plugin, PluginArgument<'a>) -> Result<T, E>,
    >(self, _span: Span, singular: S, render: F) -> (r: Result<T, LiteralConversionError<'a>>)
        requires
            !(self.cmd is Not),
            plugin_argument(arity_of(self.cmd), self.value) == Some(PluginArgument::<'a>::Nothing)
                ==> call_requires(singular, (self.cmd,)),
            plugin_argument(arity_of(self.cmd), self.value) matches Some(arg) ==> (arg
                != PluginArgument::<'a>::Nothing ==> call_requires(render, (self.cmd, arg))),
        ensures
            match plugin_argument(arity_of(self.cmd), self.value) {
                None => r == Err::<T, _>(conversion_error(self.cmd, self.value)),
                Some(PluginArgument::Nothing) => exists|t: T|
                    #[trigger] call_ensures(singular, (self.cmd,), t) && r == Ok::<
                        T,
                        LiteralConversionError<'a>,
                    >(t),
                Some(arg) => exists|out: Result<T, E>|
                    #[trigger] call_ensures(render, (self.cmd, arg), out) && r == conversion_result(
                        self.cmd,
                        self.value,
                        out,
                    ),
            },
            plugin_argument(arity_of(self.cmd), self.value) == Some(PluginArgument::<'a>::Nothing)
                ==> r is Ok,
    {
        let arity = self.cmd.arity();
        match select_argument(arity, self.value) {
            None => Err(LiteralConversionError::new(self.cmd, self.value)),
            Some(PluginArgument::Nothing) => Ok(singular(self.cmd)),
            Some(arg) => {
                let out = render(self.cmd, arg);
                match out {
                    Ok(t) => Ok(t),
                    Err(_) => Err(LiteralConversionError::new(self.cmd, self.value)),
                }
            },
        }
    }
}

} // verus!
