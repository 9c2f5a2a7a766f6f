//! The order in which call expressions are classified: depth first,
//! children before their parent, left to right.
use crate::ast::{Callee, CallExpr, Expr, ExprOrSpread, MemberExpr, MemberProp, Module, Prop, PropName};
use crate::seqs::concat;
use vstd::prelude::*;

verus! {

/// The call expressions in an expression, each behind the calls nested in
/// it.
pub open spec fn expr_calls(e: Expr) -> Seq<CallExpr>
    decreases e,
{
    match e {
        Expr::Array(elems) => concat(elems_calls(elems@)),
        Expr::Object(props) => concat(props_calls(props@)),
        Expr::Member(m) => member_calls(*m),
        Expr::Call(c) => call_calls(*c),
        Expr::Other(children) => concat(exprs_calls(children@)),
        _ => Seq::empty(),
    }
}

/// The calls in each of a sequence of expressions.
pub open spec fn exprs_calls(es: Seq<Expr>) -> Seq<Seq<CallExpr>>
    decreases es,
{
    Seq::new(
        es.len(),
        |i: int|
            if 0 <= i < es.len() {
                expr_calls(es[i])
            } else {
                Seq::empty()
            },
    )
}

/// The calls in each element of an array literal.
pub open spec fn elems_calls(elems: Seq<Option<ExprOrSpread>>) -> Seq<Seq<CallExpr>>
    decreases elems,
{
    Seq::new(
        elems.len(),
        |i: int|
            if 0 <= i < elems.len() {
                elem_calls(elems[i])
            } else {
                Seq::empty()
            },
    )
}

/// The calls in an element of an array literal, none for a hole.
pub open spec fn elem_calls(elem: Option<ExprOrSpread>) -> Seq<CallExpr>
    decreases elem,
{
    match elem {
        Some(e) => arg_calls(e),
        None => Seq::empty(),
    }
}

/// The calls in an argument or array element, spread or not.
pub open spec fn arg_calls(arg: ExprOrSpread) -> Seq<CallExpr>
    decreases arg,
{
    expr_calls(arg.expr)
}

/// The calls in each argument of a call.
pub open spec fn args_calls(args: Seq<ExprOrSpread>) -> Seq<Seq<CallExpr>>
    decreases args,
{
    Seq::new(
        args.len(),
        |i: int|
            if 0 <= i < args.len() {
                arg_calls(args[i])
            } else {
                Seq::empty()
            },
    )
}

/// The calls in each property of an object literal.
pub open spec fn props_calls(props: Seq<Prop>) -> Seq<Seq<CallExpr>>
    decreases props,
{
    Seq::new(
        props.len(),
        |i: int|
            if 0 <= i < props.len() {
                prop_calls(props[i])
            } else {
                Seq::empty()
            },
    )
}

/// The calls in a property: those of a computed key, then those of the
/// value.
pub open spec fn prop_calls(prop: Prop) -> Seq<CallExpr>
    decreases prop,
{
    match prop {
        Prop::KeyValue(name, value) => name_calls(name) + expr_calls(value),
        Prop::Other(children) => concat(exprs_calls(children@)),
    }
}

/// The calls in a property name, which only a computed name has.
pub open spec fn name_calls(name: PropName) -> Seq<CallExpr>
    decreases name,
{
    match name {
        PropName::Computed(e) => expr_calls(e),
        _ => Seq::empty(),
    }
}

/// The calls in a member access: those of the object, then those of a
/// computed property.
pub open spec fn member_calls(m: MemberExpr) -> Seq<CallExpr>
    decreases m,
{
    expr_calls(m.obj) + member_prop_calls(m.prop)
}

/// The calls in the property of a member access.
pub open spec fn member_prop_calls(prop: MemberProp) -> Seq<CallExpr>
    decreases prop,
{
    match prop {
        MemberProp::Computed(e) => expr_calls(e),
        _ => Seq::empty(),
    }
}

/// The calls in what is called.
pub open spec fn callee_calls(callee: Callee) -> Seq<CallExpr>
    decreases callee,
{
    match callee {
        Callee::Expr(e) => expr_calls(e),
        _ => Seq::empty(),
    }
}

/// The calls in a call expression: those of the callee, those of the
/// arguments from left to right, and last the call itself.
pub open spec fn call_calls(c: CallExpr) -> Seq<CallExpr>
    decreases c,
{
    (callee_calls(c.callee) + concat(args_calls(c.args@))).push(c)
}

/// The calls in a module, in the order in which they are classified.
pub open spec fn module_calls(m: Module) -> Seq<CallExpr> {
    concat(exprs_calls(m.body@))
}

} // verus!
