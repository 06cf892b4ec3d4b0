use vstd::prelude::*;

use swc_core::common::DUMMY_SP;
use swc_core::ecma::ast::{Expr, KeyValueProp, Lit, ObjectLit, Prop, PropName, PropOrSpread, Str};

verus! {

/// An object literal of the ecmascript syntax tree, `swc_ecma_ast::ObjectLit`.
#[verifier::external_type_specification]
#[verifier::external_body]
pub struct ExObjectLit(ObjectLit);

/// One property of an object literal, `swc_ecma_ast::PropOrSpread`.
#[verifier::external_type_specification]
#[verifier::external_body]
pub struct ExPropOrSpread(PropOrSpread);

/// The property `key: value` with both sides string literals, as built by
/// `string_property`.
pub uninterp spec fn string_prop(key: Seq<char>, value: Seq<char>) -> PropOrSpread;

/// The object literal with these properties, in this order, as built by
/// `object_literal`.
pub uninterp spec fn object_lit(props: Seq<PropOrSpread>) -> ObjectLit;

/// Builds `PropOrSpread::Prop(Prop::KeyValue(..))` with a string-literal key
/// and a string-literal value, both without source span or raw text. The
/// result is named by `string_prop` of the two texts; nothing more is said
/// of it.
#[verifier::external_body]
fn string_property(key: &str, value: &str) -> (r: PropOrSpread)
    ensures
        r == string_prop(key@, value@),
{
    PropOrSpread::Prop(Box::new(Prop::KeyValue(KeyValueProp {
        key: PropName::Str(Str { span: DUMMY_SP, raw: None, value: key.into() }),
        value: Box::new(Expr::Lit(Lit::Str(Str { span: DUMMY_SP, raw: None, value: value.into() }))),
    })))
}

/// Builds `ObjectLit { span: DUMMY_SP, props }`. The result is named by
/// `object_lit` of the properties; nothing more is said of it.
#[verifier::external_body]
fn object_literal(props: Vec<PropOrSpread>) -> (r: ObjectLit)
    ensures
        r == object_lit(props@),
{
    ObjectLit { span: DUMMY_SP, props }
}

/// The texts of a list of property pairs.
pub open spec fn pair_texts(items: Seq<(String, String)>) -> Seq<(Seq<char>, Seq<char>)> {
    items.map_values(|p: (String, String)| (p.0@, p.1@))
}

/// The object literal whose properties are these `key: value` string pairs.
pub open spec fn object_of(pairs: Seq<(Seq<char>, Seq<char>)>) -> ObjectLit {
    object_lit(pairs.map_values(|p: (Seq<char>, Seq<char>)| string_prop(p.0, p.1)))
}

/// Builds an object literal with one string property per pair, in order.
pub fn to_lit(items: &[(String, String)]) -> (r: ObjectLit)
    ensures
        r == object_of(pair_texts(items@)),
{
    let mut props: Vec<PropOrSpread> = Vec::new();
    let n = items.len();
    let ghost want = pair_texts(items@).map_values(
        |p: (Seq<char>, Seq<char>)| string_prop(p.0, p.1),
    );
    for i in 0..n
        invariant
            n == items@.len(),
            want.len() == n,
            want == pair_texts(items@).map_values(
                |p: (Seq<char>, Seq<char>)| string_prop(p.0, p.1),
            ),
            props@ == want.take(i as int),
    {
        let (key, value) = &items[i];
        let prop = string_property(key.as_str(), value.as_str());
        proof {
            assert(want[i as int] == prop);
            assert(want.take(i + 1) =~= want.take(i as int).push(prop));
        }
        props.push(prop);
    }
    proof {
        assert(want.take(n as int) =~= want);
    }
    object_literal(props)
}

} // verus!
