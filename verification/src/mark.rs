//! The call classifier and dispatcher, and the aggregator that collects
//! the match records and emits the annotation.
use crate::ast::{
    Callee, CallExpr, Comment, CommentKind, Expr, ExprOrSpread, Lit, MemberExpr, MemberProp, Module,
    Prop, PropName, SourcePos, Span,
};
use crate::comments::Comments;
use crate::config::{receiver_text, Config, PatternSet, Patterns, Receiver, ReceiverView};
use crate::extract::{args_json, get_args};
use crate::json::{compact_text, json_of, json_seq, pretty_text, to_string, to_string_pretty, Json};
use crate::magic::{magic_comments_at, magic_values};
use crate::position::{format_pos, position_text};
use crate::postorder::{
    args_calls, call_calls, callee_calls, elems_calls, expr_calls, exprs_calls, member_calls,
    member_prop_calls, module_calls, name_calls, prop_calls, props_calls,
};
use crate::record::{record_json, records_json, Record, RecordView};
use crate::seqs::{
    concat, lemma_concat_push, lemma_somes_add, lemma_somes_none, lemma_source_index,
    lemma_source_index_increases, somes, source_index,
};
use vstd::prelude::*;
use vstd::string::*;

verus! {

/// The receiver of a method call, where the object is an identifier or the
/// implicit receiver.
pub open spec fn callee_receiver(obj: Expr) -> Option<ReceiverView> {
    match obj {
        Expr::Ident(name) => Some(ReceiverView::Named(name@)),
        Expr::This => Some(ReceiverView::This),
        _ => None,
    }
}

/// The method name of a member access `obj.name` or `obj["name"]`.
pub open spec fn callee_method(prop: MemberProp) -> Option<Seq<char>> {
    match prop {
        MemberProp::Ident(name) => Some(name@),
        MemberProp::Computed(Expr::Lit(Lit::Str(name))) => Some(name@),
        _ => None,
    }
}

/// The object name and the method name of a member access that is a
/// tracked method call.
pub open spec fn method_match(p: PatternSet, m: MemberExpr) -> Option<(Seq<char>, Seq<char>)> {
    match (callee_receiver(m.obj), callee_method(m.prop)) {
        (Some(receiver), Some(method)) => if p.methods.contains((receiver, method)) {
            Some((receiver_text(receiver), method))
        } else {
            None
        },
        _ => None,
    }
}

/// The texts of a pair of strings.
pub open spec fn pair_text(pair: (String, String)) -> (Seq<char>, Seq<char>) {
    (pair.0@, pair.1@)
}

/// Where the magic comments of a dynamic import are looked for, and what
/// its record is stamped with: the first argument, or the `import` keyword
/// where there is no argument.
pub open spec fn import_site(c: CallExpr, keyword: SourcePos) -> SourcePos {
    if c.args@.len() > 0 {
        c.args@[0].pos
    } else {
        keyword
    }
}

/// The record of a call expression, if the call matches a pattern.
pub open spec fn call_record(p: PatternSet, comments: Seq<(u32, Comment)>, c: CallExpr) -> Option<
    RecordView,
> {
    match c.callee {
        Callee::Expr(Expr::Ident(name)) => if p.functions.contains(name@) {
            Some(
                RecordView::FunctionCall {
                    name: name@,
                    args: args_json(c.args@),
                    position: position_text(c.pos),
                },
            )
        } else {
            None
        },
        Callee::Expr(Expr::Member(m)) => match method_match(p, *m) {
            Some((object, method)) => Some(
                RecordView::MethodCall {
                    object,
                    method,
                    args: args_json(c.args@),
                    position: position_text(c.pos),
                },
            ),
            None => None,
        },
        Callee::Import(keyword) => {
            let site = import_site(c, keyword);
            let magic = magic_values(p.import_keys, comments, site.offset);
            if magic.len() > 0 {
                Some(
                    RecordView::DynamicImport {
                        magic_comments: magic,
                        args: args_json(c.args@),
                        position: position_text(site),
                    },
                )
            } else {
                None
            }
        },
        _ => None,
    }
}

/// The record of each call of a sequence, where it has one.
pub open spec fn call_records(p: PatternSet, comments: Seq<(u32, Comment)>, calls: Seq<CallExpr>) -> Seq<
    Option<RecordView>,
> {
    Seq::new(calls.len(), |i: int| call_record(p, comments, calls[i]))
}

/// The records of the calls of a sequence that match, in the order of the
/// calls.
pub open spec fn matches(p: PatternSet, comments: Seq<(u32, Comment)>, calls: Seq<CallExpr>) -> Seq<
    RecordView,
> {
    somes(call_records(p, comments, calls))
}

/// The values emitted for the calls of a sequence.
pub open spec fn emitted_for(p: PatternSet, comments: Seq<(u32, Comment)>, calls: Seq<CallExpr>) -> Seq<
    Json,
> {
    records_json(matches(p, comments, calls))
}

/// The text of the annotation: the body between a line that begins it and
/// a line that ends it, both with the title.
pub open spec fn annotation_text(title: Seq<char>, body: Seq<char>) -> Seq<char> {
    "---BEGIN "@ + title + "--- \n"@ + body + "\n---END "@ + title + "---"@
}

/// The body of the annotation: the emitted values as one JSON array,
/// pretty-printed or compact.
pub open spec fn annotation_body(p: PatternSet, values: Seq<Json>) -> Seq<char> {
    if p.pretty {
        pretty_text(values)
    } else {
        compact_text(values)
    }
}

/// Whether a comment is the annotation of a module for these values.
pub open spec fn is_annotation(c: Comment, p: PatternSet, span: Span, values: Seq<Json>) -> bool {
    &&& c.kind == CommentKind::Block
    &&& c.span == span
    &&& c.text@ == annotation_text(p.title, annotation_body(p, values))
}

/// How emitting changes the comment store: not at all where there is no
/// value, else by one block comment, the annotation, attached before the
/// start of the module.
pub open spec fn annotated(
    before: Seq<(u32, Comment)>,
    after: Seq<(u32, Comment)>,
    p: PatternSet,
    span: Span,
    values: Seq<Json>,
) -> bool {
    if values.len() == 0 {
        after == before
    } else {
        &&& after.len() == before.len() + 1
        &&& after.drop_last() == before
        &&& after.last().0 == span.lo
        &&& is_annotation(after.last().1, p, span, values)
    }
}

/// The records of two sequences of calls in a row are those of the first,
/// then those of the second.
pub proof fn lemma_matches_add(
    p: PatternSet,
    comments: Seq<(u32, Comment)>,
    a: Seq<CallExpr>,
    b: Seq<CallExpr>,
)
    ensures
        matches(p, comments, a + b) == matches(p, comments, a) + matches(p, comments, b),
        emitted_for(p, comments, a + b) == emitted_for(p, comments, a) + emitted_for(
            p,
            comments,
            b,
        ),
{
    assert(call_records(p, comments, a + b) =~= call_records(p, comments, a) + call_records(
        p,
        comments,
        b,
    ));
    lemma_somes_add(call_records(p, comments, a), call_records(p, comments, b));
    assert(emitted_for(p, comments, a + b) =~= emitted_for(p, comments, a) + emitted_for(
        p,
        comments,
        b,
    ));
}

/// One more call at the end adds its record, if it has one.
pub proof fn lemma_matches_push(
    p: PatternSet,
    comments: Seq<(u32, Comment)>,
    calls: Seq<CallExpr>,
    c: CallExpr,
)
    ensures
        emitted_for(p, comments, calls.push(c)) == (match call_record(p, comments, c) {
            Some(r) => emitted_for(p, comments, calls).push(record_json(r)),
            None => emitted_for(p, comments, calls),
        }),
{
    lemma_matches_add(p, comments, calls, seq![c]);
    assert(calls.push(c) =~= calls + seq![c]);
    let one = call_records(p, comments, seq![c]);
    assert(one.drop_last() =~= Seq::<Option<RecordView>>::empty());
    assert(somes(one.drop_last()) =~= Seq::<RecordView>::empty());
    match call_record(p, comments, c) {
        Some(r) => {
            assert(one.last() == Some(r));
            assert(matches(p, comments, seq![c]) =~= seq![r]);
            assert(emitted_for(p, comments, seq![c]) =~= seq![record_json(r)]);
            assert(emitted_for(p, comments, calls) + seq![record_json(r)] =~= emitted_for(
                p,
                comments,
                calls,
            ).push(record_json(r)));
        },
        None => {
            assert(one.last() is None);
            assert(matches(p, comments, seq![c]) =~= Seq::<RecordView>::empty());
            assert(emitted_for(p, comments, seq![c]) =~= Seq::<Json>::empty());
            assert(emitted_for(p, comments, calls) + Seq::<Json>::empty() =~= emitted_for(
                p,
                comments,
                calls,
            ));
        },
    }
}

/// The visitor: the patterns, the comment store, and the values emitted so
/// far for the calls that matched.
#[derive(Debug)]
pub struct MarkExpression {
    patterns: Patterns,
    comments: Comments,
    results: Vec<serde_json::Value>,
}

impl MarkExpression {
    /// The patterns that calls are matched against.
    pub closed spec fn patterns(&self) -> PatternSet {
        self.patterns@
    }

    /// The attachments of the comment store.
    pub closed spec fn store(&self) -> Seq<(u32, Comment)> {
        self.comments@
    }

    /// The values emitted so far, one for each match, in the order of the
    /// matches.
    pub closed spec fn emitted(&self) -> Seq<Json> {
        json_seq(self.results@)
    }

    /// Whether `after` is `self` with the calls of a sequence classified.
    pub open spec fn advanced(&self, after: MarkExpression, calls: Seq<CallExpr>) -> bool {
        &&& after.patterns() == self.patterns()
        &&& after.store() == self.store()
        &&& after.emitted() == self.emitted() + emitted_for(self.patterns(), self.store(), calls)
    }

    /// A visitor for one module, with the patterns of a configuration and
    /// nothing emitted yet.
    pub fn new(comments: Comments, config: &Config) -> (r: MarkExpression)
        ensures
            r.patterns() == config@,
            r.store() == comments@,
            r.emitted() == Seq::<Json>::empty(),
    {
        let r = MarkExpression { patterns: Patterns::new(config), comments, results: Vec::new() };
        assert(r.emitted() =~= Seq::<Json>::empty());
        r
    }

    /// The values emitted so far.
    pub fn results(&self) -> (r: &Vec<serde_json::Value>)
        ensures
            json_seq(r@) == self.emitted(),
    {
        &self.results
    }

    /// The comment store.
    pub fn comments(&self) -> (r: &Comments)
        ensures
            r@ == self.store(),
    {
        &self.comments
    }

    /// Attaches a comment before a position in the comment store, behind
    /// those already there. Nothing else changes.
    pub fn add_leading(&mut self, pos: u32, comment: Comment)
        ensures
            final(self).patterns() == old(self).patterns(),
            final(self).emitted() == old(self).emitted(),
            final(self).store() == old(self).store().push((pos, comment)),
    {
        self.comments.add_leading(pos, comment);
    }

    /// Gives the comment store back.
    pub fn into_comments(self) -> (r: Comments)
        ensures
            r@ == self.store(),
    {
        self.comments
    }

    /// The name of a tracked function, where a bare call of this name is
    /// one.
    pub fn check_fn_call(&self, callee: &String) -> (r: Option<String>)
        ensures
            r is Some <==> self.patterns().functions.contains(callee@),
            r is Some ==> r->0@ == callee@,
    {
        if self.patterns.is_tracked_function(callee) {
            Some(callee.clone())
        } else {
            None
        }
    }

    /// The object name and the method name of a tracked method call, where
    /// the member access is the callee of one.
    pub fn check_method_call(&self, callee: &MemberExpr) -> (r: Option<(String, String)>)
        ensures
            r is Some <==> method_match(self.patterns(), *callee) is Some,
            r is Some ==> pair_text(r->0) == method_match(self.patterns(), *callee)->0,
    {
        let receiver = match &callee.obj {
            Expr::Ident(name) => Receiver::Named(name.clone()),
            Expr::This => Receiver::This,
            _ => {
                return None;
            },
        };
        let method = match &callee.prop {
            MemberProp::Ident(name) => name,
            MemberProp::Computed(Expr::Lit(Lit::Str(name))) => name,
            _ => {
                return None;
            },
        };
        if self.patterns.is_tracked_method(&receiver, method) {
            Some((receiver.name(), method.clone()))
        } else {
            None
        }
    }

    /// The values of the magic comments before a position that select a
    /// dynamic import, in the order of the comments; `None` where no
    /// comment selects it.
    pub fn check_dynamic_import(&self, pos: u32) -> (r: Option<Vec<serde_json::Value>>)
        ensures
            r is Some <==> magic_values(self.patterns().import_keys, self.store(), pos).len() > 0,
            r is Some ==> json_seq(r->0@) == magic_values(
                self.patterns().import_keys,
                self.store(),
                pos,
            ),
    {
        magic_comments_at(&self.patterns.dynamic_imports, &self.comments, pos)
    }

    /// The record of a call expression, if the call matches a pattern.
    pub fn match_call(&self, call: &CallExpr) -> (r: Option<Record>)
        ensures
            r is Some <==> call_record(self.patterns(), self.store(), *call) is Some,
            r is Some ==> r->0@ == call_record(self.patterns(), self.store(), *call)->0,
    {
        match &call.callee {
            Callee::Expr(callee) => match callee {
                Expr::Ident(ident) => match self.check_fn_call(ident) {
                    Some(name) => Some(
                        Record::FunctionCall {
                            name,
                            args: get_args(call),
                            position: format_pos(&call.pos),
                        },
                    ),
                    None => None,
                },
                Expr::Member(member) => match self.check_method_call(member) {
                    Some((object, method)) => Some(
                        Record::MethodCall {
                            object,
                            method,
                            args: get_args(call),
                            position: format_pos(&call.pos),
                        },
                    ),
                    None => None,
                },
                _ => None,
            },
            Callee::Import(keyword) => {
                let site = if call.args.len() > 0 {
                    &call.args[0].pos
                } else {
                    keyword
                };
                match self.check_dynamic_import(site.offset) {
                    Some(magic_comments) => Some(
                        Record::DynamicImport {
                            magic_comments,
                            args: get_args(call),
                            position: format_pos(site),
                        },
                    ),
                    None => None,
                }
            },
            Callee::Super => None,
        }
    }

    /// Classifying one sequence of calls and then another classifies the
    /// two in a row.
    proof fn lemma_advanced_then(
        self,
        mid: MarkExpression,
        after: MarkExpression,
        first: Seq<CallExpr>,
        second: Seq<CallExpr>,
    )
        requires
            self.advanced(mid, first),
            mid.advanced(after, second),
        ensures
            self.advanced(after, first + second),
    {
        lemma_matches_add(self.patterns(), self.store(), first, second);
        assert(after.emitted() =~= self.emitted() + emitted_for(
            self.patterns(),
            self.store(),
            first + second,
        ));
    }

    /// Classifying no call changes nothing.
    proof fn lemma_advanced_none(self)
        ensures
            self.advanced(self, Seq::<CallExpr>::empty()),
    {
        assert(call_records(self.patterns(), self.store(), Seq::<CallExpr>::empty()) =~= Seq::<
            Option<RecordView>,
        >::empty());
        assert(self.emitted() + emitted_for(
            self.patterns(),
            self.store(),
            Seq::<CallExpr>::empty(),
        ) =~= self.emitted());
    }

    /// Before the first of a sequence of parts, no call is classified.
    proof fn lemma_advanced_start(self, parts: Seq<Seq<CallExpr>>)
        ensures
            self.advanced(self, concat(parts.take(0))),
    {
        self.lemma_advanced_none();
        assert(parts.take(0) =~= Seq::<Seq<CallExpr>>::empty());
    }

    /// With the calls of one more part classified, the calls of the parts
    /// up to it and of the part itself are classified.
    proof fn lemma_advanced_next(
        self,
        mid: MarkExpression,
        after: MarkExpression,
        parts: Seq<Seq<CallExpr>>,
        i: int,
    )
        requires
            0 <= i < parts.len(),
            self.advanced(mid, concat(parts.take(i))),
            mid.advanced(after, parts[i]),
        ensures
            self.advanced(after, concat(parts.take(i + 1))),
    {
        self.lemma_advanced_then(mid, after, concat(parts.take(i)), parts[i]);
        lemma_concat_push(parts.take(i), parts[i]);
        assert(parts.take(i + 1) =~= parts.take(i).push(parts[i]));
    }

    /// Classifies the calls in an expression.
    fn visit_expr(&mut self, expr: &Expr)
        ensures
            old(self).advanced(*final(self), expr_calls(*expr)),
        decreases expr,
    {
        match expr {
            Expr::Array(elems) => self.visit_elems(elems),
            Expr::Object(props) => self.visit_props(props),
            Expr::Member(member) => self.visit_member(member),
            Expr::Call(call) => self.visit_mut_call_expr(call),
            Expr::Other(children) => self.visit_exprs(children),
            _ => {
                proof {
                    self.lemma_advanced_none();
                }
            },
        }
    }

    /// Classifies the calls in a sequence of expressions, from left to
    /// right.
    fn visit_exprs(&mut self, exprs: &Vec<Expr>)
        ensures
            old(self).advanced(*final(self), concat(exprs_calls(exprs@))),
        decreases exprs,
    {
        let ghost parts = exprs_calls(exprs@);
        proof {
            self.lemma_advanced_start(parts);
        }
        let mut i: usize = 0;
        while i < exprs.len()
            invariant
                i <= exprs.len(),
                parts == exprs_calls(exprs@),
                old(self).advanced(*self, concat(parts.take(i as int))),
            decreases exprs.len() - i,
        {
            let ghost before = *self;
            proof {
                assert(decreases_to!(exprs => exprs[i as int]));
            }
            self.visit_expr(&exprs[i]);
            proof {
                old(self).lemma_advanced_next(before, *self, parts, i as int);
            }
            i = i + 1;
        }
        assert(parts.take(i as int) =~= parts);
    }

    /// Classifies the calls in the elements of an array literal.
    fn visit_elems(&mut self, elems: &Vec<Option<ExprOrSpread>>)
        ensures
            old(self).advanced(*final(self), concat(elems_calls(elems@))),
        decreases elems,
    {
        let ghost parts = elems_calls(elems@);
        proof {
            self.lemma_advanced_start(parts);
        }
        let mut i: usize = 0;
        while i < elems.len()
            invariant
                i <= elems.len(),
                parts == elems_calls(elems@),
                old(self).advanced(*self, concat(parts.take(i as int))),
            decreases elems.len() - i,
        {
            let ghost before = *self;
            proof {
                assert(decreases_to!(elems => elems[i as int]));
            }
            match &elems[i] {
                Some(elem) => self.visit_expr(&elem.expr),
                None => {
                    proof {
                        self.lemma_advanced_none();
                    }
                },
            }
            proof {
                old(self).lemma_advanced_next(before, *self, parts, i as int);
            }
            i = i + 1;
        }
        assert(parts.take(i as int) =~= parts);
    }

    /// Classifies the calls in the arguments of a call.
    fn visit_args(&mut self, args: &Vec<ExprOrSpread>)
        ensures
            old(self).advanced(*final(self), concat(args_calls(args@))),
        decreases args,
    {
        let ghost parts = args_calls(args@);
        proof {
            self.lemma_advanced_start(parts);
        }
        let mut i: usize = 0;
        while i < args.len()
            invariant
                i <= args.len(),
                parts == args_calls(args@),
                old(self).advanced(*self, concat(parts.take(i as int))),
            decreases args.len() - i,
        {
            let ghost before = *self;
            proof {
                assert(decreases_to!(args => args[i as int]));
            }
            self.visit_expr(&args[i].expr);
            proof {
                old(self).lemma_advanced_next(before, *self, parts, i as int);
            }
            i = i + 1;
        }
        assert(parts.take(i as int) =~= parts);
    }

    /// Classifies the calls in the properties of an object literal.
    fn visit_props(&mut self, props: &Vec<Prop>)
        ensures
            old(self).advanced(*final(self), concat(props_calls(props@))),
        decreases props,
    {
        let ghost parts = props_calls(props@);
        proof {
            self.lemma_advanced_start(parts);
        }
        let mut i: usize = 0;
        while i < props.len()
            invariant
                i <= props.len(),
                parts == props_calls(props@),
                old(self).advanced(*self, concat(parts.take(i as int))),
            decreases props.len() - i,
        {
            let ghost before = *self;
            proof {
                assert(decreases_to!(props => props[i as int]));
            }
            self.visit_prop(&props[i]);
            proof {
                old(self).lemma_advanced_next(before, *self, parts, i as int);
            }
            i = i + 1;
        }
        assert(parts.take(i as int) =~= parts);
    }

    /// Classifies the calls in a property.
    fn visit_prop(&mut self, prop: &Prop)
        ensures
            old(self).advanced(*final(self), prop_calls(*prop)),
        decreases prop,
    {
        match prop {
            Prop::KeyValue(name, value) => {
                match name {
                    PropName::Computed(key) => self.visit_expr(key),
                    _ => {
                        proof {
                            self.lemma_advanced_none();
                        }
                    },
                }
                let ghost mid = *self;
                self.visit_expr(value);
                proof {
                    old(self).lemma_advanced_then(mid, *self, name_calls(*name), expr_calls(*value));
                }
            },
            Prop::Other(children) => self.visit_exprs(children),
        }
    }

    /// Classifies the calls in a member access.
    fn visit_member(&mut self, member: &MemberExpr)
        ensures
            old(self).advanced(*final(self), member_calls(*member)),
        decreases member,
    {
        self.visit_expr(&member.obj);
        let ghost mid = *self;
        match &member.prop {
            MemberProp::Computed(key) => self.visit_expr(key),
            _ => {
                proof {
                    self.lemma_advanced_none();
                }
            },
        }
        proof {
            old(self).lemma_advanced_then(
                mid,
                *self,
                expr_calls(member.obj),
                member_prop_calls(member.prop),
            );
        }
    }

    /// Classifies a call expression: first the calls nested in its callee
    /// and in its arguments, then the call itself. Each match appends one
    /// value; nothing else changes.
    pub fn visit_mut_call_expr(&mut self, call: &CallExpr)
        ensures
            old(self).advanced(*final(self), call_calls(*call)),
        decreases call,
    {
        match &call.callee {
            Callee::Expr(callee) => self.visit_expr(callee),
            _ => {
                proof {
                    self.lemma_advanced_none();
                }
            },
        }
        let ghost mid = *self;
        self.visit_args(&call.args);
        let ghost inner = callee_calls(call.callee) + concat(args_calls(call.args@));
        proof {
            old(self).lemma_advanced_then(
                mid,
                *self,
                callee_calls(call.callee),
                concat(args_calls(call.args@)),
            );
            lemma_matches_push(old(self).patterns(), old(self).store(), inner, *call);
        }
        match self.match_call(call) {
            Some(record) => {
                let value = record.into_value();
                let ghost before = self.results@;
                self.results.push(value);
                assert(json_seq(self.results@) =~= json_seq(before).push(json_of(value)));
            },
            None => {},
        }
    }

    /// The text of the annotation for the values emitted so far; `None`
    /// where there is none, for an empty annotation is never emitted.
    pub fn annotation(&self) -> (r: Option<String>)
        ensures
            r is Some <==> self.emitted().len() > 0,
            r is Some ==> r->0@ == annotation_text(
                self.patterns().title,
                annotation_body(self.patterns(), self.emitted()),
            ),
    {
        if self.results.len() == 0 {
            return None;
        }
        let body = if self.patterns.pretty {
            to_string_pretty(&self.results)
        } else {
            to_string(&self.results)
        };
        let mut text = String::from_str("---BEGIN ");
        text.append(self.patterns.title.as_str());
        text.append("--- \n");
        text.append(body.as_str());
        text.append("\n---END ");
        text.append(self.patterns.title.as_str());
        text.append("---");
        Some(text)
    }

    /// Classifies every call of a module, children first and from left to
    /// right, and then emits: where a call has matched, now or before, one
    /// block comment with the annotation is attached before the start of
    /// the module; where none has, the comment store stays as it is.
    pub fn visit_mut_module(&mut self, module: &Module)
        ensures
            final(self).patterns() == old(self).patterns(),
            final(self).emitted() == old(self).emitted() + emitted_for(
                old(self).patterns(),
                old(self).store(),
                module_calls(*module),
            ),
            annotated(
                old(self).store(),
                final(self).store(),
                final(self).patterns(),
                module.span,
                final(self).emitted(),
            ),
    {
        self.visit_exprs(&module.body);
        let ghost visited = *self;
        match self.annotation() {
            Some(text) => {
                let comment = Comment { kind: CommentKind::Block, span: module.span, text };
                self.comments.add_leading(module.span.lo, comment);
                assert(self.store().drop_last() =~= visited.store());
            },
            None => {},
        }
    }
}

/// The comment store after one module was transformed: the store it was
/// given, with the annotation attached where a call of the module matches
/// a pattern of the configuration.
pub fn process_transform(module: &Module, comments: Comments, config: &Config) -> (r: Comments)
    ensures
        annotated(
            comments@,
            r@,
            config@,
            module.span,
            emitted_for(config@, comments@, module_calls(*module)),
        ),
{
    let mut visitor = MarkExpression::new(comments, config);
    visitor.visit_mut_module(module);
    assert(visitor.emitted() =~= emitted_for(config@, comments@, module_calls(*module)));
    visitor.into_comments()
}

/// The records keep the order of the calls: each record is that of a call,
/// and of two records the later one is that of the later call.
pub proof fn lemma_records_follow_calls(
    p: PatternSet,
    comments: Seq<(u32, Comment)>,
    calls: Seq<CallExpr>,
    j: int,
    k: int,
)
    requires
        0 <= j < k < matches(p, comments, calls).len(),
    ensures
        0 <= source_index(call_records(p, comments, calls), j) < source_index(
            call_records(p, comments, calls),
            k,
        ) < calls.len(),
        call_record(p, comments, calls[source_index(call_records(p, comments, calls), j)]) == Some(
            matches(p, comments, calls)[j],
        ),
        call_record(p, comments, calls[source_index(call_records(p, comments, calls), k)]) == Some(
            matches(p, comments, calls)[k],
        ),
{
    let slots = call_records(p, comments, calls);
    lemma_source_index(slots, j);
    lemma_source_index(slots, k);
    lemma_source_index_increases(slots, j, k);
}

/// Children first: among the calls in a call expression the call itself
/// comes last, behind every call nested in its callee and its arguments.
pub proof fn lemma_call_follows_nested(c: CallExpr)
    ensures
        call_calls(c).len() > 0,
        call_calls(c).last() == c,
        call_calls(c).drop_last() == callee_calls(c.callee) + concat(args_calls(c.args@)),
{
    assert(call_calls(c).drop_last() =~= callee_calls(c.callee) + concat(args_calls(c.args@)));
}

/// A module without a matching call is left as it is: nothing is emitted
/// for it, so no annotation is attached.
pub proof fn lemma_unmatched_module_unchanged(
    p: PatternSet,
    before: Seq<(u32, Comment)>,
    after: Seq<(u32, Comment)>,
    module: Module,
)
    requires
        forall|i: int|
            0 <= i < module_calls(module).len() ==> call_record(
                p,
                before,
                #[trigger] module_calls(module)[i],
            ) is None,
        annotated(before, after, p, module.span, emitted_for(p, before, module_calls(module))),
    ensures
        emitted_for(p, before, module_calls(module)) == Seq::<Json>::empty(),
        after == before,
{
    lemma_somes_none(call_records(p, before, module_calls(module)));
    assert(emitted_for(p, before, module_calls(module)) =~= Seq::<Json>::empty());
}

} // verus!
