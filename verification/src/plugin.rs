use vstd::prelude::*;

verus! {

/// The axis of a `gap` plugin.
#[derive(Debug, PartialEq, Eq, Clone, Copy)]
pub enum Gap {
    X,
    Y,
}

/// The axis of an `inset` plugin.
#[derive(Debug, PartialEq, Eq, Clone, Copy)]
pub enum Inset {
    X,
    Y,
}

/// The dimension of a `min-` plugin.
#[derive(Debug, PartialEq, Eq, Clone, Copy)]
pub enum Min {
    H,
    W,
}

/// The dimension of a `max-` plugin.
#[derive(Debug, PartialEq, Eq, Clone, Copy)]
pub enum Max {
    H,
    W,
}

/// The modifier of a plugin that has one of its own, such as which of
/// `col-span`, `col-start` and `col-end` a `col` plugin is; numbered by the
/// code that reads the directive, and handed on to the plugin unchanged.
#[derive(Debug, PartialEq, Eq, Clone, Copy)]
pub struct Modifier(pub u32);

/// The command of a tailwind directive: `text` in `text-2xl`.
#[derive(Debug, PartialEq, Eq, Clone, Copy)]
pub enum Plugin {
    Border(Modifier),
    Rounded(Modifier),
    Position(Modifier),
    Visibility(Modifier),
    Display(Modifier),
    TextTransform(Modifier),
    TextDecoration(Modifier),
    Flex(Modifier),
    Grid(Modifier),
    Object(Modifier),
    Whitespace(Modifier),
    Divide(Modifier),
    AlignSelf(Modifier),
    Prose(Modifier),
    Translate(Modifier),
    Col(Modifier),
    Row(Modifier),
    Overflow(Modifier),
    Not(Modifier),
    Text,
    Font,
    Shadow,
    Transition,
    Placeholder,
    Delay,
    Duration,
    Rotate,
    Appearance,
    Pointer,
    Ease,
    LineClamp,
    Order,
    From,
    To,
    Outline,
    Mix,
    Content,
    Grow,
    Shrink,
    Basis,
    Italic,
    Justify,
    Items,
    Gap(Option<Gap>),
    Cursor,
    Scale,
    Box,
    Select,
    Top,
    Bottom,
    Left,
    Right,
    Tracking,
    Invert,
    Float,
    Space,
    Transform,
    Opacity,
    Blur,
    Ring,
    Sr,
    Bg,
    H,
    W,
    TransformOrigin,
    P,
    Px,
    Pl,
    Pr,
    VerticalAlign,
    Py,
    Pt,
    Pb,
    M,
    Mx,
    Ml,
    Mr,
    My,
    Mt,
    Mb,
    Z,
    Min(Min),
    Max(Max),
    Fill,
    Inset(Option<Inset>),
    Leading,
    Truncate,
    Animate,
}

/// What a plugin takes as its argument.
#[derive(Debug, PartialEq, Eq, Structural, Clone, Copy)]
pub enum PluginArity {
    /// No argument at all (`italic`).
    Singular,
    /// A plain value (`font-sans`).
    Required,
    /// A plain value, for a plugin with a modifier of its own (`col-span-2`).
    RequiredBox,
    /// An optional value of either kind, for a plugin with a modifier of
    /// its own (`border-t-2`).
    OptionalArbitraryBox,
    /// An optional plain value (`shadow`, `shadow-lg`).
    Optional,
    /// A value of either kind (`bg-red-500`, `bg-[#fff]`).
    RequiredArbitrary,
}

/// The arity of each plugin but `Not`, which has none.
pub open spec fn arity_of(p: Plugin) -> PluginArity {
    match p {
        Plugin::Border(_) | Plugin::Rounded(_) | Plugin::Position(_) | Plugin::Visibility(_)
        | Plugin::Display(_) | Plugin::TextTransform(_) | Plugin::TextDecoration(_) | Plugin::Flex(_)
        | Plugin::Grid(_) | Plugin::Object(_) | Plugin::Whitespace(_) | Plugin::Divide(_)
        | Plugin::AlignSelf(_) | Plugin::Prose(_) | Plugin::Translate(_) => PluginArity::OptionalArbitraryBox,
        Plugin::Col(_) | Plugin::Row(_) | Plugin::Overflow(_) => PluginArity::RequiredBox,
        Plugin::Italic | Plugin::Truncate => PluginArity::Singular,
        Plugin::Shadow | Plugin::Transition | Plugin::Duration | Plugin::Ease | Plugin::Outline
        | Plugin::Grow | Plugin::Shrink | Plugin::Invert | Plugin::Transform | Plugin::Blur
        | Plugin::Ring => PluginArity::Optional,
        Plugin::Text | Plugin::LineClamp | Plugin::Content | Plugin::Gap(None) | Plugin::Top
        | Plugin::Bottom | Plugin::Left | Plugin::Right | Plugin::Tracking | Plugin::Bg
        | Plugin::H | Plugin::W | Plugin::Min(_) | Plugin::Max(_) | Plugin::Inset(_) =>
            PluginArity::RequiredArbitrary,
        _ => PluginArity::Required,
    }
}

/// The arity of each plugin, plugin by plugin: what argument shape the
/// plugin function of each takes.
pub proof fn lemma_plugin_arities(m: Modifier, min: Min, max: Max, inset: Option<Inset>)
    ensures
        arity_of(Plugin::Border(m)) == PluginArity::OptionalArbitraryBox,
        arity_of(Plugin::Rounded(m)) == PluginArity::OptionalArbitraryBox,
        arity_of(Plugin::Position(m)) == PluginArity::OptionalArbitraryBox,
        arity_of(Plugin::Visibility(m)) == PluginArity::OptionalArbitraryBox,
        arity_of(Plugin::Display(m)) == PluginArity::OptionalArbitraryBox,
        arity_of(Plugin::TextTransform(m)) == PluginArity::OptionalArbitraryBox,
        arity_of(Plugin::TextDecoration(m)) == PluginArity::OptionalArbitraryBox,
        arity_of(Plugin::Flex(m)) == PluginArity::OptionalArbitraryBox,
        arity_of(Plugin::Grid(m)) == PluginArity::OptionalArbitraryBox,
        arity_of(Plugin::Object(m)) == PluginArity::OptionalArbitraryBox,
        arity_of(Plugin::Whitespace(m)) == PluginArity::OptionalArbitraryBox,
        arity_of(Plugin::Divide(m)) == PluginArity::OptionalArbitraryBox,
        arity_of(Plugin::AlignSelf(m)) == PluginArity::OptionalArbitraryBox,
        arity_of(Plugin::Prose(m)) == PluginArity::OptionalArbitraryBox,
        arity_of(Plugin::Translate(m)) == PluginArity::OptionalArbitraryBox,
        arity_of(Plugin::Col(m)) == PluginArity::RequiredBox,
        arity_of(Plugin::Row(m)) == PluginArity::RequiredBox,
        arity_of(Plugin::Overflow(m)) == PluginArity::RequiredBox,
        arity_of(Plugin::Italic) == PluginArity::Singular,
        arity_of(Plugin::Truncate) == PluginArity::Singular,
        arity_of(Plugin::Shadow) == PluginArity::Optional,
        arity_of(Plugin::Transition) == PluginArity::Optional,
        arity_of(Plugin::Duration) == PluginArity::Optional,
        arity_of(Plugin::Ease) == PluginArity::Optional,
        arity_of(Plugin::Outline) == PluginArity::Optional,
        arity_of(Plugin::Grow) == PluginArity::Optional,
        arity_of(Plugin::Shrink) == PluginArity::Optional,
        arity_of(Plugin::Invert) == PluginArity::Optional,
        arity_of(Plugin::Transform) == PluginArity::Optional,
        arity_of(Plugin::Blur) == PluginArity::Optional,
        arity_of(Plugin::Ring) == PluginArity::Optional,
        arity_of(Plugin::Text) == PluginArity::RequiredArbitrary,
        arity_of(Plugin::LineClamp) == PluginArity::RequiredArbitrary,
        arity_of(Plugin::Content) == PluginArity::RequiredArbitrary,
        arity_of(Plugin::Gap(None)) == PluginArity::RequiredArbitrary,
        arity_of(Plugin::Top) == PluginArity::RequiredArbitrary,
        arity_of(Plugin::Bottom) == PluginArity::RequiredArbitrary,
        arity_of(Plugin::Left) == PluginArity::RequiredArbitrary,
        arity_of(Plugin::Right) == PluginArity::RequiredArbitrary,
        arity_of(Plugin::Tracking) == PluginArity::RequiredArbitrary,
        arity_of(Plugin::Bg) == PluginArity::RequiredArbitrary,
        arity_of(Plugin::H) == PluginArity::RequiredArbitrary,
        arity_of(Plugin::W) == PluginArity::RequiredArbitrary,
        arity_of(Plugin::Min(min)) == PluginArity::RequiredArbitrary,
        arity_of(Plugin::Max(max)) == PluginArity::RequiredArbitrary,
        arity_of(Plugin::Inset(inset)) == PluginArity::RequiredArbitrary,
        arity_of(Plugin::Font) == PluginArity::Required,
        arity_of(Plugin::Placeholder) == PluginArity::Required,
        arity_of(Plugin::Delay) == PluginArity::Required,
        arity_of(Plugin::Rotate) == PluginArity::Required,
        arity_of(Plugin::Appearance) == PluginArity::Required,
        arity_of(Plugin::Pointer) == PluginArity::Required,
        arity_of(Plugin::Order) == PluginArity::Required,
        arity_of(Plugin::From) == PluginArity::Required,
        arity_of(Plugin::To) == PluginArity::Required,
        arity_of(Plugin::Mix) == PluginArity::Required,
        arity_of(Plugin::Basis) == PluginArity::Required,
        arity_of(Plugin::Justify) == PluginArity::Required,
        arity_of(Plugin::Items) == PluginArity::Required,
        arity_of(Plugin::Gap(Some(Gap::X))) == PluginArity::Required,
        arity_of(Plugin::Gap(Some(Gap::Y))) == PluginArity::Required,
        arity_of(Plugin::Cursor) == PluginArity::Required,
        arity_of(Plugin::Scale) == PluginArity::Required,
        arity_of(Plugin::Box) == PluginArity::Required,
        arity_of(Plugin::Select) == PluginArity::Required,
        arity_of(Plugin::Float) == PluginArity::Required,
        arity_of(Plugin::Space) == PluginArity::Required,
        arity_of(Plugin::Opacity) == PluginArity::Required,
        arity_of(Plugin::Sr) == PluginArity::Required,
        arity_of(Plugin::TransformOrigin) == PluginArity::Required,
        arity_of(Plugin::P) == PluginArity::Required,
        arity_of(Plugin::Px) == PluginArity::Required,
        arity_of(Plugin::Pl) == PluginArity::Required,
        arity_of(Plugin::Pr) == PluginArity::Required,
        arity_of(Plugin::VerticalAlign) == PluginArity::Required,
        arity_of(Plugin::Py) == PluginArity::Required,
        arity_of(Plugin::Pt) == PluginArity::Required,
        arity_of(Plugin::Pb) == PluginArity::Required,
        arity_of(Plugin::M) == PluginArity::Required,
        arity_of(Plugin::Mx) == PluginArity::Required,
        arity_of(Plugin::Ml) == PluginArity::Required,
        arity_of(Plugin::Mr) == PluginArity::Required,
        arity_of(Plugin::My) == PluginArity::Required,
        arity_of(Plugin::Mt) == PluginArity::Required,
        arity_of(Plugin::Mb) == PluginArity::Required,
        arity_of(Plugin::Z) == PluginArity::Required,
        arity_of(Plugin::Fill) == PluginArity::Required,
        arity_of(Plugin::Leading) == PluginArity::Required,
        arity_of(Plugin::Animate) == PluginArity::Required,
{
}

impl Plugin {
    /// What the plugin takes as its argument. `Not` is not supported.
    pub fn arity(&self) -> (r: PluginArity)
        requires
            !(*self is Not),
        ensures
            r == arity_of(*self),
    {
        match self {
            // plugins with a modifier of their own
            Plugin::Border(_) => PluginArity::OptionalArbitraryBox,
            Plugin::Rounded(_) => PluginArity::OptionalArbitraryBox,
            Plugin::Position(_) => PluginArity::OptionalArbitraryBox,
            Plugin::Visibility(_) => PluginArity::OptionalArbitraryBox,
            Plugin::Display(_) => PluginArity::OptionalArbitraryBox,
            Plugin::TextTransform(_) => PluginArity::OptionalArbitraryBox,
            Plugin::TextDecoration(_) => PluginArity::OptionalArbitraryBox,
            Plugin::Flex(_) => PluginArity::OptionalArbitraryBox,
            Plugin::Grid(_) => PluginArity::OptionalArbitraryBox,
            Plugin::Object(_) => PluginArity::OptionalArbitraryBox,
            Plugin::Whitespace(_) => PluginArity::OptionalArbitraryBox,
            Plugin::Divide(_) => PluginArity::OptionalArbitraryBox,
            Plugin::AlignSelf(_) => PluginArity::OptionalArbitraryBox,
            Plugin::Prose(_) => PluginArity::OptionalArbitraryBox,
            Plugin::Translate(_) => PluginArity::OptionalArbitraryBox,
            Plugin::Col(_) => PluginArity::RequiredBox,
            Plugin::Row(_) => PluginArity::RequiredBox,
            Plugin::Overflow(_) => PluginArity::RequiredBox,
            // excluded by the precondition
            Plugin::Not(_) => {
                proof {
                    assert(false);
                }
                PluginArity::Required
            },
            // all other plugins
            Plugin::Text => PluginArity::RequiredArbitrary,
            Plugin::Font => PluginArity::Required,
            Plugin::Shadow => PluginArity::Optional,
            Plugin::Transition => PluginArity::Optional,
            Plugin::Placeholder => PluginArity::Required,
            Plugin::Delay => PluginArity::Required,
            Plugin::Duration => PluginArity::Optional,
            Plugin::Rotate => PluginArity::Required,
            Plugin::Appearance => PluginArity::Required,
            Plugin::Pointer => PluginArity::Required,
            Plugin::Ease => PluginArity::Optional,
            Plugin::LineClamp => PluginArity::RequiredArbitrary,
            Plugin::Order => PluginArity::Required,
            Plugin::From => PluginArity::Required,
            Plugin::To => PluginArity::Required,
            Plugin::Outline => PluginArity::Optional,
            Plugin::Mix => PluginArity::Required,
            Plugin::Content => PluginArity::RequiredArbitrary,
            Plugin::Grow => PluginArity::Optional,
            Plugin::Shrink => PluginArity::Optional,
            Plugin::Basis => PluginArity::Required,
            Plugin::Italic => PluginArity::Singular,
            Plugin::Justify => PluginArity::Required,
            Plugin::Items => PluginArity::Required,
            Plugin::Gap(None) => PluginArity::RequiredArbitrary,
            Plugin::Gap(Some(Gap::X)) => PluginArity::Required,
            Plugin::Gap(Some(Gap::Y)) => PluginArity::Required,
            Plugin::Cursor => PluginArity::Required,
            Plugin::Scale => PluginArity::Required,
            Plugin::Box => PluginArity::Required,
            Plugin::Select => PluginArity::Required,
            Plugin::Top => PluginArity::RequiredArbitrary,
            Plugin::Bottom => PluginArity::RequiredArbitrary,
            Plugin::Left => PluginArity::RequiredArbitrary,
            Plugin::Right => PluginArity::RequiredArbitrary,
            Plugin::Tracking => PluginArity::RequiredArbitrary,
            Plugin::Invert => PluginArity::Optional,
            Plugin::Float => PluginArity::Required,
            Plugin::Space => PluginArity::Required,
            Plugin::Transform => PluginArity::Optional,
            Plugin::Opacity => PluginArity::Required,
            Plugin::Blur => PluginArity::Optional,
            Plugin::Ring => PluginArity::Optional,
            Plugin::Sr => PluginArity::Required,
            Plugin::Bg => PluginArity::RequiredArbitrary,
            Plugin::H => PluginArity::RequiredArbitrary,
            Plugin::W => PluginArity::RequiredArbitrary,
            Plugin::TransformOrigin => PluginArity::Required,
            Plugin::P => PluginArity::Required,
            Plugin::Px => PluginArity::Required,
            Plugin::Pl => PluginArity::Required,
            Plugin::Pr => PluginArity::Required,
            Plugin::VerticalAlign => PluginArity::Required,
            Plugin::Py => PluginArity::Required,
            Plugin::Pt => PluginArity::Required,
            Plugin::Pb => PluginArity::Required,
            Plugin::M => PluginArity::Required,
            Plugin::Mx => PluginArity::Required,
            Plugin::Ml => PluginArity::Required,
            Plugin::Mr => PluginArity::Required,
            Plugin::My => PluginArity::Required,
            Plugin::Mt => PluginArity::Required,
            Plugin::Mb => PluginArity::Required,
            Plugin::Z => PluginArity::Required,
            Plugin::Min(Min::H) => PluginArity::RequiredArbitrary,
            Plugin::Min(Min::W) => PluginArity::RequiredArbitrary,
            Plugin::Max(Max::H) => PluginArity::RequiredArbitrary,
            Plugin::Max(Max::W) => PluginArity::RequiredArbitrary,
            Plugin::Fill => PluginArity::Required,
            Plugin::Inset(None) => PluginArity::RequiredArbitrary,
            Plugin::Inset(Some(Inset::X)) => PluginArity::RequiredArbitrary,
            Plugin::Inset(Some(Inset::Y)) => PluginArity::RequiredArbitrary,
            Plugin::Leading => PluginArity::Required,
            Plugin::Truncate => PluginArity::Singular,
            Plugin::Animate => PluginArity::Required,
        }
    }
}

} // verus!
