use vstd::prelude::*;

use swc_core::ecma::ast::ObjectLit;

use crate::charclass::{find_char, first_index_from, lemma_first_index};
use crate::object::{object_of, pair_texts, to_lit};

verus! {

/// The theme values that shorthand classes are looked up in, each table a
/// list of names with their values. A name is found at its first entry; in
/// a well-formed theme, whose tables name each entry once, that is the
/// entry of that name, as in a map (`lemma_lookup_is_map_lookup`).
pub struct TailwindTheme {
    pub colors: Vec<(String, String)>,
    pub font_family: Vec<(String, Vec<String>)>,
    pub box_shadow: Vec<(String, String)>,
    pub transition_property: Vec<(String, String)>,
    pub transition_delay: Vec<(String, String)>,
    pub transition_duration: Vec<(String, String)>,
    pub transition_timing_function: Vec<(String, String)>,
    pub border_radius: Vec<(String, String)>,
}

/// What the text after a `text-` or `border-` command was recognised as;
/// the payload is the text of the size or color.
pub enum InferredType {
    /// A font size, in `em`.
    Screen(String),
    /// A color.
    Color(String),
    /// A width, in `px`.
    Scalar(String),
    /// Anything else, or nothing.
    Other,
}

/// The value of the first entry named `key`, from position `i` on.
pub open spec fn lookup_from<V>(entries: Seq<(String, V)>, key: Seq<char>, i: int) -> Option<V>
    decreases entries.len() - i,
{
    if i < 0 || i >= entries.len() {
        None
    } else if entries[i].0@ == key {
        Some(entries[i].1)
    } else {
        lookup_from(entries, key, i + 1)
    }
}

/// The value of the first entry named `key`.
pub open spec fn lookup<V>(entries: Seq<(String, V)>, key: Seq<char>) -> Option<V> {
    lookup_from(entries, key, 0)
}

/// Whether no two entries of a table have the same name, as the keys of a
/// map.
pub open spec fn distinct_names<V>(entries: Seq<(String, V)>) -> bool {
    forall|i: int, j: int|
        0 <= i < j < entries.len() ==> #[trigger] entries[i].0@ != #[trigger] entries[j].0@
}

impl TailwindTheme {
    /// Whether each table of the theme names each entry once, as a map does.
    pub open spec fn well_formed(&self) -> bool {
        &&& distinct_names(self.colors@)
        &&& distinct_names(self.font_family@)
        &&& distinct_names(self.box_shadow@)
        &&& distinct_names(self.transition_property@)
        &&& distinct_names(self.transition_delay@)
        &&& distinct_names(self.transition_duration@)
        &&& distinct_names(self.transition_timing_function@)
        &&& distinct_names(self.border_radius@)
    }
}

proof fn lemma_lookup_from<V>(entries: Seq<(String, V)>, key: Seq<char>, i: int)
    requires
        0 <= i <= entries.len(),
    ensures
        lookup_from(entries, key, i) is None <==> forall|j: int|
            i <= j < entries.len() ==> #[trigger] entries[j].0@ != key,
        lookup_from(entries, key, i) matches Some(v) ==> exists|j: int|
            i <= j < entries.len() && #[trigger] entries[j].0@ == key && entries[j].1 == v && forall|
                m: int,
            | i <= m < j ==> #[trigger] entries[m].0@ != key,
    decreases entries.len() - i,
{
    if i < entries.len() {
        lemma_lookup_from(entries, key, i + 1);
        if entries[i].0@ == key {
            assert(entries[i].0@ == key);
        } else if let Some(v) = lookup_from(entries, key, i + 1) {
            let j = choose|j: int|
                i + 1 <= j < entries.len() && #[trigger] entries[j].0@ == key && entries[j].1 == v
                    && forall|m: int| i + 1 <= m < j ==> #[trigger] entries[m].0@ != key;
            assert(forall|m: int| i <= m < j ==> #[trigger] entries[m].0@ != key);
        }
    }
}

/// A name is found exactly when a table has an entry with that name; in a
/// table whose names are distinct, what is found is that entry's value, as
/// in a map.
pub proof fn lemma_lookup_is_map_lookup<V>(entries: Seq<(String, V)>, key: Seq<char>)
    ensures
        lookup(entries, key) is None <==> forall|j: int|
            0 <= j < entries.len() ==> #[trigger] entries[j].0@ != key,
        distinct_names(entries) ==> forall|j: int|
            0 <= j < entries.len() && #[trigger] entries[j].0@ == key ==> lookup(entries, key)
                == Some(entries[j].1),
{
    lemma_lookup_from(entries, key, 0);
    if distinct_names(entries) {
        assert forall|j: int|
            0 <= j < entries.len() && #[trigger] entries[j].0@ == key implies lookup(entries, key)
            == Some(entries[j].1) by {
            let v = lookup(entries, key)->0;
            let i = choose|i: int|
                0 <= i < entries.len() && #[trigger] entries[i].0@ == key && entries[i].1 == v
                    && forall|m: int| 0 <= m < i ==> #[trigger] entries[m].0@ != key;
            if i < j {
                assert(entries[i].0@ != entries[j].0@);
            } else if j < i {
                assert(entries[j].0@ != key);
            }
        }
    }
}

/// The items joined, with `sep` between each two of them.
pub open spec fn join_texts(items: Seq<Seq<char>>, sep: Seq<char>) -> Seq<char>
    decreases items.len(),
{
    if items.len() == 0 {
        Seq::empty()
    } else if items.len() == 1 {
        items[0]
    } else {
        join_texts(items.drop_last(), sep) + sep + items.last()
    }
}

/// The value of the shadow color variable.
pub const SHADOW_COLORED: &'static str =
    "0 10px 15px -3px var(--tw-shadow-color), 0 4px 6px -4px var(--tw-shadow-color)";

/// One property `key: value` when the value was found.
pub open spec fn single(key: Seq<char>, found: Option<String>) -> Option<
    Seq<(Seq<char>, Seq<char>)>,
> {
    match found {
        Some(v) => Some(seq![(key, v@)]),
        None => None,
    }
}

/// Whether the command reads its argument through type inference.
pub open spec fn needs_inference(cmd: Seq<char>) -> bool {
    cmd == "text"@ || cmd == "border"@
}

/// The style properties of a shorthand class with command `cmd` and
/// argument `rest`, given what the argument was inferred to be; `None`
/// when the class has none.
pub open spec fn properties_of(
    theme: TailwindTheme,
    cmd: Seq<char>,
    rest: Seq<char>,
    inferred: InferredType,
) -> Option<Seq<(Seq<char>, Seq<char>)>> {
    if cmd == "text"@ {
        match inferred {
            InferredType::Screen(x) => Some(seq![("fontSize"@, x@ + "em"@)]),
            InferredType::Color(x) => Some(seq![("color"@, x@)]),
            _ => None,
        }
    } else if cmd == "font"@ {
        match lookup(theme.font_family@, rest) {
            Some(names) => Some(
                seq![("fontFamily"@, join_texts(names@.map_values(|n: String| n@), ", "@))],
            ),
            None => None,
        }
    } else if cmd == "shadow"@ {
        match lookup(theme.box_shadow@, rest) {
            Some(v) => Some(
                seq![
                    ("boxShadow"@, "var(--tw-shadow)"@),
                    ("--tw-shadow"@, v@),
                    ("--tw-shadow-colored"@, SHADOW_COLORED@),
                ],
            ),
            None => match lookup(theme.colors@, rest) {
                Some(c) => Some(
                    seq![
                        ("--tw-shadow-color"@, c@),
                        ("--tw-shadow"@, "var(--tw-shadow-colored)"@),
                    ],
                ),
                None => None,
            },
        }
    } else if cmd == "transition"@ {
        single("transition-property"@, lookup(theme.transition_property@, rest))
    } else if cmd == "delay"@ {
        single("transition-delay"@, lookup(theme.transition_delay@, rest))
    } else if cmd == "duration"@ {
        single("transition-duration"@, lookup(theme.transition_duration@, rest))
    } else if cmd == "ease"@ {
        single("transition-timing-function"@, lookup(theme.transition_timing_function@, rest))
    } else if cmd == "border"@ {
        match inferred {
            InferredType::Scalar(x) => Some(seq![("borderWidth"@, x@ + "px"@)]),
            InferredType::Color(x) => Some(seq![("borderColor"@, x@)]),
            _ => None,
        }
    } else if cmd == "rounded"@ {
        single("borderRadius"@, lookup(theme.border_radius@, rest))
    } else if cmd == "bg"@ {
        single("backgroundColor"@, lookup(theme.colors@, rest))
    } else if cmd == "h"@ {
        Some(seq![("height"@, rest + "em"@)])
    } else if cmd == "w"@ {
        Some(seq![("width"@, rest + "em"@)])
    } else if cmd == "p"@ {
        Some(seq![("padding"@, rest + "em"@)])
    } else if cmd == "m"@ {
        Some(seq![("margin"@, rest + "em"@)])
    } else {
        None
    }
}

/// The sizing shorthands `h-`, `w-`, `p-` and `m-` take any argument as a
/// length in `em`.
pub proof fn lemma_sizes_take_any_argument(
    theme: TailwindTheme,
    rest: Seq<char>,
    inferred: InferredType,
)
    ensures
        properties_of(theme, "h"@, rest, inferred) == Some(seq![("height"@, rest + "em"@)]),
        properties_of(theme, "w"@, rest, inferred) == Some(seq![("width"@, rest + "em"@)]),
        properties_of(theme, "p"@, rest, inferred) == Some(seq![("padding"@, rest + "em"@)]),
        properties_of(theme, "m"@, rest, inferred) == Some(seq![("margin"@, rest + "em"@)]),
{
    reveal_strlit("text");
    assert("text"@.len() == 4);
    reveal_strlit("font");
    assert("font"@.len() == 4);
    reveal_strlit("shadow");
    assert("shadow"@.len() == 6);
    reveal_strlit("transition");
    assert("transition"@.len() == 10);
    reveal_strlit("delay");
    assert("delay"@.len() == 5);
    reveal_strlit("duration");
    assert("duration"@.len() == 8);
    reveal_strlit("ease");
    assert("ease"@.len() == 4);
    reveal_strlit("border");
    assert("border"@.len() == 6);
    reveal_strlit("rounded");
    assert("rounded"@.len() == 7);
    reveal_strlit("bg");
    assert("bg"@.len() == 2);
    reveal_strlit("h");
    assert("h"@.len() == 1);
    reveal_strlit("w");
    assert("w"@.len() == 1);
    reveal_strlit("p");
    assert("p"@.len() == 1);
    reveal_strlit("m");
    assert("m"@.len() == 1);
    assert("h"@[0] == 'h' && "w"@[0] == 'w' && "p"@[0] == 'p' && "m"@[0] == 'm');
}

/// A shadow name that the theme has no shadow for is read as a color.
pub proof fn lemma_shadow_falls_back_to_color(theme: TailwindTheme, rest: Seq<char>, inferred: InferredType)
    requires
        lookup(theme.box_shadow@, rest) is None,
    ensures
        properties_of(theme, "shadow"@, rest, inferred) == match lookup(theme.colors@, rest) {
            Some(c) => Some(
                seq![("--tw-shadow-color"@, c@), ("--tw-shadow"@, "var(--tw-shadow-colored)"@)],
            ),
            None => None,
        },
{
    reveal_strlit("text");
    reveal_strlit("font");
    reveal_strlit("shadow");
    assert("text"@.len() == 4 && "font"@.len() == 4 && "shadow"@.len() == 6);
}

/// The names joined, each in order, with `sep` between each two.
fn join_names(names: &Vec<String>, sep: &str) -> (r: String)
    ensures
        r@ == join_texts(names@.map_values(|n: String| n@), sep@),
{
    let ghost views = names@.map_values(|n: String| n@);
    let mut r = String::new();
    let n = names.len();
    for i in 0..n
        invariant
            n == names@.len(),
            views == names@.map_values(|n: String| n@),
            r@ == join_texts(views.take(i as int), sep@),
    {
        let ghost before = r@;
        if i > 0 {
            r.append(sep);
        }
        r.append(names[i].as_str());
        proof {
            assert(views.take(i + 1).drop_last() =~= views.take(i as int));
            assert(views.take(i + 1).last() == views[i as int]);
            if i == 0 {
                assert(views.take(1)[0] == views[0]);
                assert(before =~= Seq::<char>::empty());
                assert(r@ =~= views[0]);
            }
        }
    }
    proof {
        assert(views.take(n as int) =~= views);
    }
    r
}

/// Joining no items gives nothing, joining one gives that item, and
/// joining two non-empty lists one after the other gives the join of the
/// first, the separator, and the join of the second: every item is kept, in
/// order, with the separator between each two.
pub proof fn lemma_join_keeps_every_item(a: Seq<Seq<char>>, b: Seq<Seq<char>>, sep: Seq<char>)
    ensures
        join_texts(Seq::empty(), sep) == Seq::<char>::empty(),
        a.len() == 1 ==> join_texts(a, sep) == a[0],
        a.len() > 0 && b.len() > 0 ==> join_texts(a + b, sep) == join_texts(a, sep) + sep
            + join_texts(b, sep),
    decreases b.len(),
{
    if a.len() > 0 && b.len() > 0 {
        let ab = a + b;
        assert(ab.last() == b.last());
        if b.len() == 1 {
            assert(ab.drop_last() =~= a);
        } else {
            assert(ab.drop_last() =~= a + b.drop_last());
            lemma_join_keeps_every_item(a, b.drop_last(), sep);
            assert(join_texts(ab, sep) =~= join_texts(a, sep) + sep + join_texts(b, sep));
        }
    }
}

/// Whether `text` is `word`.
fn is_word(text: &String, word: &str) -> (r: bool)
    ensures
        r == (text@ == word@),
{
    let w = String::from_str(word);
    *text == w
}

/// The position of the first entry named `key`, if any.
fn find_entry<V>(entries: &Vec<(String, V)>, key: &String) -> (r: Option<usize>)
    ensures
        match lookup(entries@, key@) {
            Some(v) => r matches Some(i) && i < entries@.len() && entries@[i as int].1 == v,
            None => r is None,
        },
{
    let n = entries.len();
    let mut i: usize = 0;
    while i < n
        invariant
            n == entries@.len(),
            i <= n,
            lookup_from(entries@, key@, i as int) == lookup(entries@, key@),
        decreases n - i,
    {
        if entries[i].0 == *key {
            return Some(i);
        }
        i = i + 1;
    }
    None
}

/// A single property `key: value` when the name is found in the table.
fn single_from(key: &str, entries: &Vec<(String, String)>, name: &String) -> (r: Option<
    Vec<(String, String)>,
>)
    ensures
        match single(key@, lookup(entries@, name@)) {
            Some(p) => r matches Some(v) && pair_texts(v@) == p,
            None => r is None,
        },
{
    match find_entry(entries, name) {
        Some(i) => {
            let mut v: Vec<(String, String)> = Vec::new();
            v.push((String::from_str(key), entries[i].1.clone()));
            proof {
                assert(pair_texts(v@) =~= seq![(key@, entries@[i as int].1@)]);
            }
            Some(v)
        },
        None => None,
    }
}

/// One property `key: value`.
fn plain(key: &str, value: &String) -> (r: Vec<(String, String)>)
    ensures
        pair_texts(r@) == seq![(key@, value@)],
{
    let mut v: Vec<(String, String)> = Vec::new();
    v.push((String::from_str(key), value.clone()));
    proof {
        assert(pair_texts(v@) =~= seq![(key@, value@)]);
    }
    v
}

/// One property `key: value + suffix`.
fn suffixed(key: &str, value: &String, suffix: &str) -> (r: Vec<(String, String)>)
    ensures
        pair_texts(r@) == seq![(key@, value@ + suffix@)],
{
    let mut v: Vec<(String, String)> = Vec::new();
    v.push((String::from_str(key), value.clone().concat(suffix)));
    proof {
        assert(pair_texts(v@) =~= seq![(key@, value@ + suffix@)]);
    }
    v
}

/// The style properties of a shorthand class with command `cmd` and
/// argument `rest`, given what the argument was inferred to be.
pub fn properties_for(
    theme: &TailwindTheme,
    cmd: &String,
    rest: &String,
    inferred: &InferredType,
) -> (r: Option<Vec<(String, String)>>)
    ensures
        match properties_of(*theme, cmd@, rest@, *inferred) {
            Some(p) => r matches Some(v) && pair_texts(v@) == p,
            None => r is None,
        },
{
    if is_word(cmd, "text") {
        match inferred {
            InferredType::Screen(x) => Some(suffixed("fontSize", x, "em")),
            InferredType::Color(x) => Some(plain("color", x)),
            _ => None,
        }
    } else if is_word(cmd, "font") {
        match find_entry(&theme.font_family, rest) {
            Some(i) => {
                let joined = join_names(&theme.font_family[i].1, ", ");
                Some(plain("fontFamily", &joined))
            },
            None => None,
        }
    } else if is_word(cmd, "shadow") {
        match find_entry(&theme.box_shadow, rest) {
            Some(i) => {
                let mut v: Vec<(String, String)> = Vec::new();
                v.push((String::from_str("boxShadow"), String::from_str("var(--tw-shadow)")));
                v.push((String::from_str("--tw-shadow"), theme.box_shadow[i].1.clone()));
                v.push((String::from_str("--tw-shadow-colored"), String::from_str(SHADOW_COLORED)));
                proof {
                    assert(pair_texts(v@) =~= seq![
                        ("boxShadow"@, "var(--tw-shadow)"@),
                        ("--tw-shadow"@, theme.box_shadow@[i as int].1@),
                        ("--tw-shadow-colored"@, SHADOW_COLORED@),
                    ]);
                }
                Some(v)
            },
            None => match find_entry(&theme.colors, rest) {
                Some(i) => {
                    let mut v: Vec<(String, String)> = Vec::new();
                    v.push((String::from_str("--tw-shadow-color"), theme.colors[i].1.clone()));
                    v.push(
                        (String::from_str("--tw-shadow"), String::from_str("var(--tw-shadow-colored)")),
                    );
                    proof {
                        assert(pair_texts(v@) =~= seq![
                            ("--tw-shadow-color"@, theme.colors@[i as int].1@),
                            ("--tw-shadow"@, "var(--tw-shadow-colored)"@),
                        ]);
                    }
                    Some(v)
                },
                None => None,
            },
        }
    } else if is_word(cmd, "transition") {
        single_from("transition-property", &theme.transition_property, rest)
    } else if is_word(cmd, "delay") {
        single_from("transition-delay", &theme.transition_delay, rest)
    } else if is_word(cmd, "duration") {
        single_from("transition-duration", &theme.transition_duration, rest)
    } else if is_word(cmd, "ease") {
        single_from("transition-timing-function", &theme.transition_timing_function, rest)
    } else if is_word(cmd, "border") {
        match inferred {
            InferredType::Scalar(x) => Some(suffixed("borderWidth", x, "px")),
            InferredType::Color(x) => Some(plain("borderColor", x)),
            _ => None,
        }
    } else if is_word(cmd, "rounded") {
        single_from("borderRadius", &theme.border_radius, rest)
    } else if is_word(cmd, "bg") {
        single_from("backgroundColor", &theme.colors, rest)
    } else if is_word(cmd, "h") {
        Some(suffixed("height", rest, "em"))
    } else if is_word(cmd, "w") {
        Some(suffixed("width", rest, "em"))
    } else if is_word(cmd, "p") {
        Some(suffixed("padding", rest, "em"))
    } else if is_word(cmd, "m") {
        Some(suffixed("margin", rest, "em"))
    } else {
        None
    }
}

/// What `parse_literal` returns for the input `s` when the class has
/// these properties: the object literal of them, or else the input.
pub open spec fn literal_outcome<'a>(
    r: Result<ObjectLit, &'a str>,
    found: Option<Seq<(Seq<char>, Seq<char>)>>,
    s: Seq<char>,
) -> bool {
    match found {
        Some(pairs) => r == Ok::<ObjectLit, &'a str>(object_of(pairs)),
        None => r matches Err(e) && e@ == s,
    }
}

/// Translates a shorthand class such as `bg-red-500` into an object
/// literal of style properties. The class is split at its first `-` into
/// a command and an argument; `infer` tells what the argument of a `text`
/// or `border` command stands for, and the other commands look theirs up
/// in the theme, whose tables name each entry once. A class without a `-`,
/// or one without properties, is refused with the whole input as the error.
pub fn parse_literal<'a, F: Fn(&str) -> InferredType>(
    theme: &TailwindTheme,
    s: &'a str,
    infer: F,
) -> (r: Result<ObjectLit, &'a str>)
    requires
        theme.well_formed(),
        forall|x: &str| call_requires(infer, (x,)),
    ensures
        ({
            let d = first_index_from(s@, 0, '-');
            let cmd = s@.take(d as int);
            let rest = s@.skip(d as int + 1);
            if d == s@.len() {
                r matches Err(e) && e@ == s@
            } else if needs_inference(cmd) {
                exists|arg: &str, t: InferredType|
                    arg@ == rest && #[trigger] call_ensures(infer, (arg,), t) && literal_outcome(
                        r,
                        properties_of(*theme, cmd, rest, t),
                        s@,
                    )
            } else {
                literal_outcome(r, properties_of(*theme, cmd, rest, InferredType::Other), s@)
            }
        }),
{
    let n = s.unicode_len();
    let d = find_char(s, 0, '-');
    proof {
        lemma_first_index(s@, 0, '-');
    }
    if d == n {
        return Err(s);
    }
    let cmd_text = s.substring_char(0, d);
    let rest_text = s.substring_char(d + 1, n);
    let cmd = String::from_str(cmd_text);
    let rest = String::from_str(rest_text);
    let inferred = if is_word(&cmd, "text") || is_word(&cmd, "border") {
        infer(rest_text)
    } else {
        InferredType::Other
    };
    match properties_for(theme, &cmd, &rest, &inferred) {
        Some(props) => Ok(to_lit(props.as_slice())),
        None => Err(s),
    }
}

} // verus!
