//! The literal value extractor: from an argument expression to a
//! structured value.
use crate::ast::{CallExpr, Expr, ExprOrSpread, Lit, Prop, PropName};
use crate::json::{
    json_array, json_bool, json_null, json_object, json_of, json_seq, json_string, map_insert,
    map_new, map_of, no_entries, Json,
};
use crate::number::{number_json, number_value};
use crate::seqs::somes;
use vstd::prelude::*;

verus! {

/// The map that holds the entries that are present in a sequence, each
/// under its key; of two entries with one key the later one stays.
pub open spec fn entries_map(s: Seq<Option<(Seq<char>, Json)>>) -> Map<Seq<char>, Json>
    decreases s.len(),
{
    if s.len() == 0 {
        no_entries()
    } else {
        match s.last() {
            Some(entry) => entries_map(s.drop_last()).insert(entry.0, entry.1),
            None => entries_map(s.drop_last()),
        }
    }
}

/// The key of a property whose name is an identifier, a string or a number.
pub open spec fn key_text(name: PropName) -> Option<Seq<char>> {
    match name {
        PropName::Ident(s) => Some(s@),
        PropName::Str(s) => Some(s@),
        PropName::Num(raw) => Some(raw@),
        _ => None,
    }
}

/// The structured value of an expression: that of a literal, an array
/// literal or an object literal, and null for anything else.
///
/// An array keeps one item for each element that is there, null for a
/// spread; an object keeps the `key: value` properties whose key is an
/// identifier, a string or a number.
pub open spec fn expr_json(e: Expr) -> Json
    decreases e,
{
    match e {
        Expr::Lit(Lit::Str(s)) => Json::String(s@),
        Expr::Lit(Lit::Bool(b)) => Json::Bool(b),
        Expr::Lit(Lit::Num(raw)) => number_json(raw@),
        Expr::Array(elems) => Json::Array(somes(array_items(elems@))),
        Expr::Object(props) => Json::Object(entries_map(object_entries(props@))),
        _ => Json::Null,
    }
}

/// What each element of an array literal contributes.
pub open spec fn array_items(elems: Seq<Option<ExprOrSpread>>) -> Seq<Option<Json>>
    decreases elems,
{
    Seq::new(
        elems.len(),
        |i: int|
            if 0 <= i < elems.len() {
                elem_json(elems[i])
            } else {
                None
            },
    )
}

/// The item that an array element contributes, if the element is there.
pub open spec fn elem_json(elem: Option<ExprOrSpread>) -> Option<Json>
    decreases elem,
{
    match elem {
        Some(e) => Some(arg_json(e)),
        None => None,
    }
}

/// The structured value of an argument or array element: null for a spread.
pub open spec fn arg_json(arg: ExprOrSpread) -> Json
    decreases arg,
{
    if arg.spread {
        Json::Null
    } else {
        expr_json(arg.expr)
    }
}

/// What each property of an object literal contributes.
pub open spec fn object_entries(props: Seq<Prop>) -> Seq<Option<(Seq<char>, Json)>>
    decreases props,
{
    Seq::new(
        props.len(),
        |i: int|
            if 0 <= i < props.len() {
                prop_entry(props[i])
            } else {
                None
            },
    )
}

/// The entry that a property contributes, if any.
pub open spec fn prop_entry(prop: Prop) -> Option<(Seq<char>, Json)>
    decreases prop,
{
    match prop {
        Prop::KeyValue(name, value) => match key_text(name) {
            Some(key) => Some((key, expr_json(value))),
            None => None,
        },
        Prop::Other(_) => None,
    }
}

/// The structured values of the arguments of a call, one for each.
pub open spec fn args_json(args: Seq<ExprOrSpread>) -> Seq<Json> {
    Seq::new(args.len(), |i: int| arg_json(args[i]))
}

/// The key of a property, where its name gives one.
pub fn prop_key(name: &PropName) -> (r: Option<String>)
    ensures
        r is Some <==> key_text(*name) is Some,
        r is Some ==> r->0@ == key_text(*name)->0,
{
    match name {
        PropName::Ident(s) => Some(s.clone()),
        PropName::Str(s) => Some(s.clone()),
        PropName::Num(raw) => Some(raw.clone()),
        _ => None,
    }
}

/// The structured value of an expression.
pub fn expr_to_value(expr: &Expr) -> (r: serde_json::Value)
    ensures
        json_of(r) == expr_json(*expr),
    decreases expr,
{
    match expr {
        Expr::Lit(lit) => match lit {
            Lit::Str(s) => json_string(s.clone()),
            Lit::Bool(b) => json_bool(*b),
            Lit::Num(raw) => number_value(raw.as_str()),
            Lit::Other => json_null(),
        },
        Expr::Array(elems) => {
            let ghost items = array_items(elems@);
            let mut vals: Vec<serde_json::Value> = Vec::new();
            let mut i: usize = 0;
            while i < elems.len()
                invariant
                    i <= elems.len(),
                    items == array_items(elems@),
                    json_seq(vals@) == somes(items.take(i as int)),
                    *expr == Expr::Array(*elems),
                decreases elems.len() - i,
            {
                proof {
                    assert(items.take(i + 1).drop_last() =~= items.take(i as int));
                    assert(decreases_to!(*expr => expr->Array_0));
                    assert(decreases_to!(elems => elems[i as int]));
                }
                match &elems[i] {
                    Some(elem) => {
                        let v = expr_or_spread_to_value(elem);
                        let ghost before = vals@;
                        vals.push(v);
                        assert(json_seq(vals@) =~= json_seq(before).push(json_of(v)));
                    },
                    None => {},
                }
                i = i + 1;
            }
            assert(items.take(i as int) =~= items);
            json_array(vals)
        },
        Expr::Object(props) => {
            let ghost entries = object_entries(props@);
            let mut map = map_new();
            let mut i: usize = 0;
            while i < props.len()
                invariant
                    i <= props.len(),
                    entries == object_entries(props@),
                    map_of(map) == entries_map(entries.take(i as int)),
                    *expr == Expr::Object(*props),
                decreases props.len() - i,
            {
                proof {
                    assert(entries.take(i + 1).drop_last() =~= entries.take(i as int));
                    assert(decreases_to!(*expr => expr->Object_0));
                    assert(decreases_to!(props => props[i as int]));
                }
                match &props[i] {
                    Prop::KeyValue(name, value) => {
                        let key = prop_key(name);
                        let v = expr_to_value(value);
                        match key {
                            Some(key) => {
                                map_insert(&mut map, key, v);
                            },
                            None => {},
                        }
                    },
                    Prop::Other(_) => {},
                }
                i = i + 1;
            }
            assert(entries.take(i as int) =~= entries);
            json_object(map)
        },
        _ => json_null(),
    }
}

/// The structured value of an argument or array element.
pub fn expr_or_spread_to_value(arg: &ExprOrSpread) -> (r: serde_json::Value)
    ensures
        json_of(r) == arg_json(*arg),
    decreases arg,
{
    if arg.spread {
        json_null()
    } else {
        expr_to_value(&arg.expr)
    }
}

/// The structured values of the arguments of a call, one for each argument
/// and in their order.
pub fn get_args(call: &CallExpr) -> (r: Vec<serde_json::Value>)
    ensures
        json_seq(r@) == args_json(call.args@),
{
    let mut args: Vec<serde_json::Value> = Vec::new();
    let mut i: usize = 0;
    while i < call.args.len()
        invariant
            i <= call.args.len(),
            json_seq(args@) == args_json(call.args@).take(i as int),
        decreases call.args.len() - i,
    {
        let v = expr_or_spread_to_value(&call.args[i]);
        let ghost before = args@;
        args.push(v);
        assert(json_seq(args@) =~= json_seq(before).push(json_of(v)));
        assert(args_json(call.args@).take(i + 1) =~= args_json(call.args@).take(i as int).push(
            arg_json(call.args@[i as int]),
        ));
        i = i + 1;
    }
    assert(args_json(call.args@).take(i as int) =~= args_json(call.args@));
    args
}

} // verus!
