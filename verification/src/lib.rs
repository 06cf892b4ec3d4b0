//! Parsing and classification of the literal part of tailwind directives:
//! the subject value that follows a plugin name (`2xl` in `text-2xl`,
//! `[#fff]` in `bg-[#fff]`), the check that a plugin gets the argument
//! shape it expects, and the translation of a shorthand class into
//! style properties.

mod charclass;
mod literal;
mod object;
mod plugin;
mod shorthand;
mod subject;

pub use charclass::{first_index_from, is_digit_byte, is_letter_byte, low_byte};
pub use literal::{
    argument_value, conversion_error, conversion_result, lemma_accepted_values,
    lemma_conversion_depends_on_plugin_and_value, lemma_argument_is_the_literal_value,
    plugin_argument, select_argument, Literal, LiteralConversionError, PluginArgument,
};
pub use object::{object_lit, object_of, pair_texts, string_prop, to_lit};
pub use plugin::{arity_of, lemma_plugin_arities, Gap, Inset, Max, Min, Modifier, Plugin, PluginArity};
pub use shorthand::{
    distinct_names, join_texts, lemma_join_keeps_every_item, lemma_lookup_is_map_lookup, lemma_shadow_falls_back_to_color, lemma_sizes_take_any_argument, literal_outcome,
    lookup, lookup_from, needs_inference, parse_literal, properties_for, properties_of, single,
    InferredType, TailwindTheme, SHADOW_COLORED,
};
pub use subject::{
    bracketed_shape, cut_offset, has_letter, has_separator, is_digit, is_letter, is_number_char, is_separator, is_value_char,
    lemma_plain_value_is_read, lemma_value_is_the_longest_run,
    lemma_number_state_is_never_left, lemma_refused_exactly_when_letter_follows_point,
    letter_after_point, scan, scan_from, scanned_shape, step, subject_shape, value_cut_fits, Css, ErrorKind, Mode,
    ParseError, Scan, Shape, Step, SubjectValue, Value,
};
