use serde_json::Value;
use swc_plugin_mark_expressions::ast::{
    Callee, CallExpr, Comment, CommentKind, Expr, ExprOrSpread, Lit, MemberExpr, MemberProp,
    SourcePos, Span,
};
use swc_plugin_mark_expressions::comments::{clone_comment, Comments};
use swc_plugin_mark_expressions::config::{
    clone_strings, contains_name, Config, Patterns, Receiver,
};
use swc_plugin_mark_expressions::magic::{
    has_truthy_key, is_truthy, magic_comment_value, magic_comments_at,
};
use swc_plugin_mark_expressions::record::Record;
use swc_plugin_mark_expressions::MarkExpression;

fn m_pos(offset: u32, line: usize, col: usize) -> SourcePos {
    SourcePos { offset, file: "input.js".to_string(), line, col }
}

fn m_arg(offset: u32, expr: Expr) -> ExprOrSpread {
    ExprOrSpread { spread: false, pos: m_pos(offset, 1, offset as usize + 1), expr }
}

fn m_str(s: &str) -> Expr {
    Expr::Lit(Lit::Str(s.to_string()))
}

fn m_num(raw: &str) -> Expr {
    Expr::Lit(Lit::Num(raw.to_string()))
}

fn m_json(text: &str) -> Value {
    serde_json::from_str(text).unwrap()
}

fn m_names(names: &[&str]) -> Vec<String> {
    names.iter().map(|s| s.to_string()).collect()
}

fn m_block(text: &str) -> Comment {
    Comment { kind: CommentKind::Block, span: Span { lo: 0, hi: 0 }, text: text.to_string() }
}

fn m_line(text: &str) -> Comment {
    Comment { kind: CommentKind::Line, span: Span { lo: 0, hi: 0 }, text: text.to_string() }
}

fn m_config() -> Config {
    Config {
        title: Some("MARK_EXPRESSIONS".to_string()),
        functions: Some(m_names(&["markFnA", "markFnB", "markFnC"])),
        methods: Some(vec![
            ("window".to_string(), m_names(&["markWindowFnA", "markWindowFnB"])),
            ("this".to_string(), m_names(&["markThisFnA"])),
        ]),
        dynamic_imports: Some(m_names(&["shouldMark"])),
        pretty: None,
    }
}

fn m_empty_config() -> Config {
    Config { title: None, functions: None, methods: None, dynamic_imports: None, pretty: None }
}

fn m_visitor(config: &Config) -> MarkExpression {
    MarkExpression::new(Comments::new(), config)
}

fn m_member(obj: Expr, prop: MemberProp) -> MemberExpr {
    MemberExpr { obj, prop }
}

fn m_truthy(body: &str, keys: &[&str]) -> bool {
    let value = m_json(body);
    has_truthy_key(&m_names(keys), &value)
}

#[test]
fn patterns_of_empty_config_are_empty() {
    let patterns = Patterns::new(&m_empty_config());
    assert_eq!(patterns.title, "");
    assert!(patterns.functions.is_empty());
    assert!(patterns.methods.is_empty());
    assert!(patterns.dynamic_imports.is_empty());
    assert!(!patterns.pretty);
    assert!(!patterns.is_tracked_function(&"track".to_string()));
    assert!(!patterns.is_tracked_method(&Receiver::This, &"fire".to_string()));
    assert!(!patterns.is_dynamic_import_key(&"lazy".to_string()));
    assert!(patterns.tracked_methods_for(&Receiver::This).is_empty());
}

#[test]
fn patterns_hold_what_config_lists() {
    let mut config = m_config();
    config.pretty = Some(true);
    let patterns = Patterns::new(&config);
    assert_eq!(patterns.title, "MARK_EXPRESSIONS");
    assert!(patterns.pretty);
    assert!(patterns.is_tracked_function(&"markFnA".to_string()));
    assert!(patterns.is_tracked_function(&"markFnC".to_string()));
    assert!(!patterns.is_tracked_function(&"markfna".to_string()));
    assert!(!patterns.is_tracked_function(&"markFn".to_string()));
    assert!(!patterns.is_tracked_function(&"markWindowFnA".to_string()));
    assert!(patterns.is_dynamic_import_key(&"shouldMark".to_string()));
    assert!(!patterns.is_dynamic_import_key(&"ShouldMark".to_string()));
}

#[test]
fn tracked_methods_are_looked_up_by_receiver() {
    let patterns = Patterns::new(&m_config());
    let window = Receiver::Named("window".to_string());
    assert!(patterns.is_tracked_method(&window, &"markWindowFnA".to_string()));
    assert!(!patterns.is_tracked_method(&window, &"markThisFnA".to_string()));
    assert!(patterns.is_tracked_method(&Receiver::This, &"markThisFnA".to_string()));
    assert!(!patterns.is_tracked_method(&Receiver::This, &"markWindowFnA".to_string()));
    assert!(!patterns
        .is_tracked_method(&Receiver::Named("document".to_string()), &"markWindowFnA".to_string()));
    assert_eq!(patterns.tracked_methods_for(&window), m_names(&["markWindowFnA", "markWindowFnB"]));
    assert_eq!(patterns.tracked_methods_for(&Receiver::This), m_names(&["markThisFnA"]));
    assert!(patterns.tracked_methods_for(&Receiver::Named("document".to_string())).is_empty());
}

#[test]
fn object_named_this_is_no_implicit_receiver() {
    let patterns = Patterns::new(&m_config());
    assert!(!patterns
        .is_tracked_method(&Receiver::Named("this".to_string()), &"markThisFnA".to_string()));
    let visitor = m_visitor(&m_config());
    let member = m_member(
        Expr::Ident("this".to_string()),
        MemberProp::Ident("markThisFnA".to_string()),
    );
    assert_eq!(visitor.check_method_call(&member), None);
}

#[test]
fn method_entries_for_one_object_add_up() {
    let mut config = m_empty_config();
    config.methods = Some(vec![
        ("api".to_string(), m_names(&["get"])),
        ("api".to_string(), m_names(&["post"])),
    ]);
    let patterns = Patterns::new(&config);
    let api = Receiver::Named("api".to_string());
    assert!(patterns.is_tracked_method(&api, &"get".to_string()));
    assert!(patterns.is_tracked_method(&api, &"post".to_string()));
    assert_eq!(patterns.tracked_methods_for(&api), m_names(&["get", "post"]));
}

#[test]
fn receiver_names() {
    assert_eq!(Receiver::This.name(), "this");
    assert_eq!(Receiver::Named("window".to_string()).name(), "window");
    assert!(matches!(Receiver::from_key(&"this".to_string()), Receiver::This));
    assert!(matches!(Receiver::from_key(&"This".to_string()), Receiver::Named(_)));
    assert!(Receiver::This.same(&Receiver::This));
    assert!(!Receiver::This.same(&Receiver::Named("this".to_string())));
    assert!(Receiver::Named("a".to_string()).same(&Receiver::Named("a".to_string())));
    assert!(!Receiver::Named("a".to_string()).same(&Receiver::Named("b".to_string())));
}

#[test]
fn string_list_helpers() {
    let names = m_names(&["a", "b"]);
    assert_eq!(clone_strings(&names), names);
    assert!(contains_name(&names, &"b".to_string()));
    assert!(!contains_name(&names, &"c".to_string()));
    assert!(!contains_name(&Vec::new(), &"a".to_string()));
}

#[test]
fn check_fn_call_gives_the_name() {
    let visitor = m_visitor(&m_config());
    assert_eq!(visitor.check_fn_call(&"markFnB".to_string()), Some("markFnB".to_string()));
    assert_eq!(visitor.check_fn_call(&"other".to_string()), None);
}

#[test]
fn check_method_call_on_identifier() {
    let visitor = m_visitor(&m_config());
    let member = m_member(
        Expr::Ident("window".to_string()),
        MemberProp::Ident("markWindowFnB".to_string()),
    );
    assert_eq!(
        visitor.check_method_call(&member),
        Some(("window".to_string(), "markWindowFnB".to_string()))
    );
    let member =
        m_member(Expr::Ident("window".to_string()), MemberProp::Ident("other".to_string()));
    assert_eq!(visitor.check_method_call(&member), None);
    let member = m_member(
        Expr::Ident("self".to_string()),
        MemberProp::Ident("markWindowFnB".to_string()),
    );
    assert_eq!(visitor.check_method_call(&member), None);
}

#[test]
fn check_method_call_on_implicit_receiver() {
    let visitor = m_visitor(&m_config());
    let member = m_member(Expr::This, MemberProp::Ident("markThisFnA".to_string()));
    assert_eq!(
        visitor.check_method_call(&member),
        Some(("this".to_string(), "markThisFnA".to_string()))
    );
}

#[test]
fn check_method_call_with_string_in_brackets() {
    let visitor = m_visitor(&m_config());
    let member = m_member(
        Expr::Ident("window".to_string()),
        MemberProp::Computed(m_str("markWindowFnA")),
    );
    assert_eq!(
        visitor.check_method_call(&member),
        Some(("window".to_string(), "markWindowFnA".to_string()))
    );
    let member = m_member(
        Expr::Ident("window".to_string()),
        MemberProp::Computed(Expr::Ident("markWindowFnA".to_string())),
    );
    assert_eq!(visitor.check_method_call(&member), None);
    let member = m_member(Expr::Ident("window".to_string()), MemberProp::Other);
    assert_eq!(visitor.check_method_call(&member), None);
}

#[test]
fn check_method_call_on_other_object() {
    let visitor = m_visitor(&m_config());
    let inner = m_member(Expr::Ident("a".to_string()), MemberProp::Ident("window".to_string()));
    let member =
        m_member(Expr::Member(Box::new(inner)), MemberProp::Ident("markWindowFnA".to_string()));
    assert_eq!(visitor.check_method_call(&member), None);
}

#[test]
fn truthiness_table() {
    assert!(m_truthy(r#"{"flag": true}"#, &["flag"]));
    assert!(!m_truthy(r#"{"flag": false}"#, &["flag"]));
    assert!(!m_truthy(r#"{"flag": 0}"#, &["flag"]));
    assert!(m_truthy(r#"{"flag": "x"}"#, &["flag"]));
    assert!(!m_truthy(r#"{"flag": ""}"#, &["flag"]));
    assert!(m_truthy(r#"{"flag": []}"#, &["flag"]));
    assert!(!m_truthy(r#"{"other": true}"#, &["flag"]));
}

#[test]
fn truthiness_of_more_values() {
    assert!(!m_truthy(r#"{"flag": null}"#, &["flag"]));
    assert!(m_truthy(r#"{"flag": {}}"#, &["flag"]));
    assert!(m_truthy(r#"{"flag": 1}"#, &["flag"]));
    assert!(m_truthy(r#"{"flag": -1}"#, &["flag"]));
    assert!(m_truthy(r#"{"flag": 0.5}"#, &["flag"]));
    assert!(!m_truthy(r#"{"flag": 0.0}"#, &["flag"]));
    assert!(!m_truthy(r#"{"flag": -0.0}"#, &["flag"]));
    assert!(m_truthy(r#"{"flag": 18446744073709551615}"#, &["flag"]));
    assert!(m_truthy(r#"{"flag": 1e300}"#, &["flag"]));
    assert!(m_truthy(r#"{"a": false, "b": 1}"#, &["a", "b"]));
    assert!(!m_truthy(r#"{"a": false, "b": 0}"#, &["a", "b"]));
    assert!(!m_truthy(r#"{"flag": true}"#, &[]));
    assert!(!m_truthy(r#"[true]"#, &["flag"]));
    assert!(!m_truthy(r#""flag""#, &["flag"]));
}

#[test]
fn is_truthy_by_kind() {
    assert!(is_truthy(&Value::Bool(true)));
    assert!(!is_truthy(&Value::Bool(false)));
    assert!(!is_truthy(&Value::Null));
    assert!(is_truthy(&Value::from("x")));
    assert!(!is_truthy(&Value::from("")));
    assert!(is_truthy(&Value::from(7)));
    assert!(!is_truthy(&Value::from(0)));
    assert!(!is_truthy(&Value::from(0.0)));
    assert!(is_truthy(&Value::from(0.25)));
    assert!(is_truthy(&m_json("[]")));
    assert!(is_truthy(&m_json("{}")));
}

#[test]
fn magic_comment_is_read_as_object_body() {
    let keys = m_names(&["lazy"]);
    assert_eq!(
        magic_comment_value(&keys, &m_block(" lazy: true ")),
        Some(m_json(r#"{"lazy": true}"#))
    );
    assert_eq!(
        magic_comment_value(&keys, &m_block(r#" webpackChunkName: "mod", lazy: 1 "#)),
        Some(m_json(r#"{"webpackChunkName": "mod", "lazy": 1}"#))
    );
    assert_eq!(magic_comment_value(&keys, &m_block(" lazy: false ")), None);
    assert_eq!(magic_comment_value(&keys, &m_block(" eager: true ")), None);
}

#[test]
fn magic_comment_that_does_not_parse_is_skipped() {
    let keys = m_names(&["lazy"]);
    assert_eq!(magic_comment_value(&keys, &m_block(" just some words ")), None);
    assert_eq!(magic_comment_value(&keys, &m_block(" lazy: ")), None);
    assert_eq!(magic_comment_value(&keys, &m_block("} {")), None);
}

#[test]
fn line_comment_is_no_magic_comment() {
    let keys = m_names(&["lazy"]);
    assert_eq!(magic_comment_value(&keys, &m_line(" lazy: true ")), None);
}

#[test]
fn without_keys_no_comment_is_retained() {
    assert_eq!(magic_comment_value(&Vec::new(), &m_block(" lazy: true ")), None);
    let mut comments = Comments::new();
    comments.add_leading(7, m_block(" lazy: true "));
    assert_eq!(magic_comments_at(&Vec::new(), &comments, 7), None);
}

#[test]
fn magic_comments_are_taken_at_the_position_in_order() {
    let keys = m_names(&["lazy"]);
    let mut comments = Comments::new();
    comments.add_leading(7, m_block(" lazy: true, n: 1 "));
    comments.add_leading(9, m_block(" lazy: true, n: 2 "));
    comments.add_leading(7, m_line(" lazy: true, n: 3 "));
    comments.add_leading(7, m_block(" lazy: 0, n: 4 "));
    comments.add_leading(7, m_block(" lazy: 'yes', n: 5 "));
    assert_eq!(
        magic_comments_at(&keys, &comments, 7),
        Some(vec![m_json(r#"{"lazy": true, "n": 1}"#), m_json(r#"{"lazy": "yes", "n": 5}"#)])
    );
    assert_eq!(
        magic_comments_at(&keys, &comments, 9),
        Some(vec![m_json(r#"{"lazy": true, "n": 2}"#)])
    );
    assert_eq!(magic_comments_at(&keys, &comments, 8), None);
}

#[test]
fn check_dynamic_import_reads_the_store() {
    let mut comments = Comments::new();
    comments.add_leading(20, m_block(" shouldMark: true "));
    let visitor = MarkExpression::new(comments, &m_config());
    assert_eq!(
        visitor.check_dynamic_import(20),
        Some(vec![m_json(r#"{"shouldMark": true}"#)])
    );
    assert_eq!(visitor.check_dynamic_import(21), None);
}

#[test]
fn comment_store_keeps_order_per_position() {
    let mut comments = Comments::new();
    assert_eq!(comments.len(), 0);
    comments.add_leading(1, m_block("a"));
    comments.add_leading(2, m_line("b"));
    comments.add_leading(1, m_block("c"));
    assert_eq!(comments.len(), 3);
    assert_eq!(comments.pos_at(1), 2);
    assert_eq!(comments.comment_at(2).text, "c");
    let at_one = comments.leading(1);
    assert_eq!(at_one.len(), 2);
    assert_eq!(at_one[0].text, "a");
    assert_eq!(at_one[1].text, "c");
    assert!(comments.leading(3).is_empty());
    let copy = clone_comment(comments.comment_at(1));
    assert_eq!(copy.text, "b");
    assert_eq!(copy.kind, CommentKind::Line);
}

#[test]
fn function_call_record() {
    let visitor = m_visitor(&Config {
        title: None,
        functions: Some(m_names(&["track"])),
        methods: None,
        dynamic_imports: None,
        pretty: None,
    });
    let call = CallExpr {
        callee: Callee::Expr(Expr::Ident("track".to_string())),
        args: vec![
            m_arg(6, m_str("a")),
            m_arg(11, m_num("1")),
            m_arg(14, Expr::Lit(Lit::Bool(true))),
        ],
        pos: m_pos(0, 1, 1),
    };
    let record = visitor.match_call(&call);
    assert_eq!(
        record,
        Some(Record::FunctionCall {
            name: "track".to_string(),
            args: vec![Value::from("a"), Value::from(1), Value::Bool(true)],
            position: "input.js:1:1".to_string(),
        })
    );
    assert_eq!(record.unwrap().into_value(), m_json(r#"["track", ["a", 1, true], "input.js:1:1"]"#));
}

#[test]
fn method_call_record() {
    let visitor = m_visitor(&Config {
        title: None,
        functions: None,
        methods: Some(vec![("window".to_string(), m_names(&["fire"]))]),
        dynamic_imports: None,
        pretty: None,
    });
    let member =
        m_member(Expr::Ident("window".to_string()), MemberProp::Ident("fire".to_string()));
    let call = CallExpr {
        callee: Callee::Expr(Expr::Member(Box::new(member))),
        args: vec![m_arg(12, m_num("42"))],
        pos: m_pos(0, 3, 4),
    };
    let record = visitor.match_call(&call);
    assert_eq!(
        record,
        Some(Record::MethodCall {
            object: "window".to_string(),
            method: "fire".to_string(),
            args: vec![Value::from(42)],
            position: "input.js:3:4".to_string(),
        })
    );
    assert_eq!(
        record.unwrap().into_value(),
        m_json(r#"["window", "fire", [42], "input.js:3:4"]"#)
    );
}

#[test]
fn dynamic_import_record() {
    let mut comments = Comments::new();
    comments.add_leading(24, m_block(" lazy: true "));
    let config = Config {
        title: None,
        functions: None,
        methods: None,
        dynamic_imports: Some(m_names(&["lazy"])),
        pretty: None,
    };
    let visitor = MarkExpression::new(comments, &config);
    let call = CallExpr {
        callee: Callee::Import(m_pos(17, 2, 1)),
        args: vec![ExprOrSpread { spread: false, pos: m_pos(24, 2, 7), expr: m_str("./mod") }],
        pos: m_pos(17, 2, 1),
    };
    let record = visitor.match_call(&call);
    assert_eq!(
        record,
        Some(Record::DynamicImport {
            magic_comments: vec![m_json(r#"{"lazy": true}"#)],
            args: vec![Value::from("./mod")],
            position: "input.js:2:7".to_string(),
        })
    );
    assert_eq!(
        record.unwrap().into_value(),
        m_json(r#"["import", [{"lazy": true}], ["./mod"], "input.js:2:7"]"#)
    );
}

#[test]
fn dynamic_import_without_argument_looks_before_the_keyword() {
    let mut comments = Comments::new();
    comments.add_leading(17, m_block(" lazy: true "));
    let config = Config {
        title: None,
        functions: None,
        methods: None,
        dynamic_imports: Some(m_names(&["lazy"])),
        pretty: None,
    };
    let visitor = MarkExpression::new(comments, &config);
    let call = CallExpr { callee: Callee::Import(m_pos(17, 2, 3)), args: vec![], pos: m_pos(17, 9, 9) };
    assert_eq!(
        visitor.match_call(&call),
        Some(Record::DynamicImport {
            magic_comments: vec![m_json(r#"{"lazy": true}"#)],
            args: vec![],
            position: "input.js:2:3".to_string(),
        })
    );
}

#[test]
fn dynamic_import_with_argument_ignores_comments_before_the_keyword() {
    let mut comments = Comments::new();
    comments.add_leading(17, m_block(" lazy: true "));
    let config = Config {
        title: None,
        functions: None,
        methods: None,
        dynamic_imports: Some(m_names(&["lazy"])),
        pretty: None,
    };
    let visitor = MarkExpression::new(comments, &config);
    let call = CallExpr {
        callee: Callee::Import(m_pos(17, 2, 1)),
        args: vec![m_arg(24, m_str("./mod"))],
        pos: m_pos(17, 2, 1),
    };
    assert_eq!(visitor.match_call(&call), None);
}

#[test]
fn dynamic_import_without_magic_comment_is_not_recorded() {
    let visitor = m_visitor(&m_config());
    let call = CallExpr {
        callee: Callee::Import(m_pos(0, 1, 1)),
        args: vec![m_arg(7, m_str("./mod"))],
        pos: m_pos(0, 1, 1),
    };
    assert_eq!(visitor.match_call(&call), None);
}

#[test]
fn calls_that_match_nothing() {
    let visitor = m_visitor(&m_config());
    let call = CallExpr {
        callee: Callee::Expr(Expr::Ident("other".to_string())),
        args: vec![],
        pos: m_pos(0, 1, 1),
    };
    assert_eq!(visitor.match_call(&call), None);
    let call = CallExpr { callee: Callee::Super, args: vec![], pos: m_pos(0, 1, 1) };
    assert_eq!(visitor.match_call(&call), None);
    let call = CallExpr {
        callee: Callee::Expr(Expr::Other(vec![Expr::Ident("markFnA".to_string())])),
        args: vec![],
        pos: m_pos(0, 1, 1),
    };
    assert_eq!(visitor.match_call(&call), None);
    let call = CallExpr { callee: Callee::Expr(m_str("markFnA")), args: vec![], pos: m_pos(0, 1, 1) };
    assert_eq!(visitor.match_call(&call), None);
}

#[test]
fn function_named_import_is_told_from_dynamic_import() {
    let function = Record::FunctionCall {
        name: "import".to_string(),
        args: vec![],
        position: "p".to_string(),
    };
    let method = Record::MethodCall {
        object: "import".to_string(),
        method: "meta".to_string(),
        args: vec![],
        position: "p".to_string(),
    };
    let import =
        Record::DynamicImport { magic_comments: vec![], args: vec![], position: "p".to_string() };
    assert_eq!(function.into_value(), m_json(r#"["import", [], "p"]"#));
    assert_eq!(method.into_value(), m_json(r#"["import", "meta", [], "p"]"#));
    assert_eq!(import.into_value(), m_json(r#"["import", [], [], "p"]"#));
}
