use case_expand::expand::{cases_data, matrix, parametrize, single, CaseTree};
use case_expand::model::{
    Attr, AttrArgs, ArgValue, CaseInfo, Config, ListValue, Param, Template, TestCase, TestInfo,
    ValueList,
};
use case_expand::names::{display_len, format_case_name, sanitize_ident, truncate_chars};
use case_expand::resolver::Resolver;

fn s(x: &str) -> String {
    x.to_string()
}

fn plain_param(name: &str) -> Param {
    Param {
        name: s(name),
        ty: s("u32"),
        ignored: false,
        by_ref: false,
        traced: false,
        is_context: false,
    }
}

fn template(name: &str, params: Vec<Param>) -> Template {
    Template {
        name: s(name),
        params,
        attrs: vec![],
        ret: None,
        is_async: false,
        generics: vec![],
        lifetimes: vec![],
        body: s("assert!(true);"),
    }
}

fn config() -> Config {
    Config { env_timeout: None, crate_path: s("framework") }
}

fn case(vals: &[&str]) -> TestCase {
    TestCase { args: vals.iter().map(|v| s(v)).collect(), attrs: vec![], description: None }
}

fn info_with_cases(case_args: &[&str], cases: Vec<TestCase>) -> TestInfo {
    TestInfo {
        case_args: case_args.iter().map(|a| s(a)).collect(),
        cases,
        lists: vec![],
        fixtures: vec![],
        global_trace: false,
    }
}

fn leaf_names(items: &[CaseTree]) -> Vec<String> {
    let mut out = Vec::new();
    for it in items {
        match it {
            CaseTree::Leaf(rc) => out.push(rc.name.clone()),
            CaseTree::Module { items, .. } => out.extend(leaf_names(items)),
        }
    }
    out
}

fn qualified_names(items: &[CaseTree]) -> Vec<String> {
    let mut out = Vec::new();
    for it in items {
        match it {
            CaseTree::Leaf(rc) => out.push(rc.name.clone()),
            CaseTree::Module { name, items, .. } => {
                for q in qualified_names(items) {
                    out.push(format!("{}::{}", name, q));
                }
            },
        }
    }
    out
}

#[test]
fn explicit_cases_expand_one_to_one_with_padded_names() {
    let t = template("checks", vec![plain_param("x")]);
    let info = info_with_cases(&["x"], vec![case(&["1"]), case(&["2"]), case(&["3"])]);
    let (items, _text) = parametrize(&t, &info, &config());
    assert_eq!(leaf_names(&items), vec!["case_1", "case_2", "case_3"]);
}

#[test]
fn explicit_case_names_pad_to_the_total_count_width() {
    let t = template("checks", vec![plain_param("x")]);
    let cases: Vec<TestCase> = (0..10).map(|i| case(&[&format!("{i}")])).collect();
    let info = info_with_cases(&["x"], cases);
    let (items, _text) = parametrize(&t, &info, &config());
    let names = leaf_names(&items);
    assert_eq!(names.len(), 10);
    assert_eq!(names[0], "case_01");
    assert_eq!(names[9], "case_10");
}

#[test]
fn explicit_case_description_is_appended_to_the_name() {
    let t = template("checks", vec![plain_param("x")]);
    let mut c = case(&["7"]);
    c.description = Some(s("seven"));
    let info = info_with_cases(&["x"], vec![c]);
    let (items, _text) = parametrize(&t, &info, &config());
    assert_eq!(leaf_names(&items), vec!["case_1_seven"]);
}

#[test]
fn matrix_of_two_by_three_yields_six_uniquely_named_cases() {
    let t = template("grid", vec![plain_param("a"), plain_param("b")]);
    let info = TestInfo {
        case_args: vec![],
        cases: vec![],
        lists: vec![
            ValueList {
                arg: s("a"),
                values: vec![
                    ListValue { expr: s("1"), description: s("1") },
                    ListValue { expr: s("2"), description: s("2") },
                ],
            },
            ValueList {
                arg: s("b"),
                values: vec![
                    ListValue { expr: s("10"), description: s("10") },
                    ListValue { expr: s("20"), description: s("20") },
                    ListValue { expr: s("30"), description: s("30") },
                ],
            },
        ],
        fixtures: vec![],
        global_trace: false,
    };
    let (items, _text) = matrix(&t, &info, &config());
    let quals = qualified_names(&items);
    assert_eq!(quals.len(), 6);
    let mut sorted = quals.clone();
    sorted.sort();
    sorted.dedup();
    assert_eq!(sorted.len(), 6, "all fully-qualified names must be distinct");
    assert!(quals.contains(&s("a_1_1::b_1_10")));
    assert!(quals.contains(&s("a_2_2::b_3_30")));
}

#[test]
fn three_dimensions_nest_three_levels_and_multiply() {
    let t = template("cube", vec![plain_param("a"), plain_param("b"), plain_param("c")]);
    let dim = |arg: &str, n: usize| ValueList {
        arg: s(arg),
        values: (1..=n)
            .map(|i| ListValue { expr: s(&format!("{i}")), description: s(&format!("{i}")) })
            .collect(),
    };
    let info = TestInfo {
        case_args: vec![],
        cases: vec![],
        lists: vec![dim("a", 2), dim("b", 3), dim("c", 4)],
        fixtures: vec![],
        global_trace: false,
    };
    let (items, _text) = matrix(&t, &info, &config());
    let quals = qualified_names(&items);
    assert_eq!(quals.len(), 24);
    for q in &quals {
        assert_eq!(q.split("::").count(), 3, "each case sits three namespace levels deep");
    }
}

#[test]
fn cases_combined_with_matrix_multiply_and_nest_under_the_case() {
    let t = template("mixed", vec![plain_param("x"), plain_param("a"), plain_param("b")]);
    let dim = |arg: &str, n: usize| ValueList {
        arg: s(arg),
        values: (1..=n)
            .map(|i| ListValue { expr: s(&format!("{i}")), description: s(&format!("{i}")) })
            .collect(),
    };
    let info = TestInfo {
        case_args: vec![s("x")],
        cases: vec![case(&["100"]), case(&["200"]), case(&["300"])],
        lists: vec![dim("a", 2), dim("b", 2)],
        fixtures: vec![],
        global_trace: false,
    };
    let (items, _text) = matrix(&t, &info, &config());
    let quals = qualified_names(&items);
    assert_eq!(quals.len(), 3 * 2 * 2);
    assert!(quals.iter().all(|q| q.starts_with("case_")));
    assert!(quals.contains(&s("case_1::a_1_1::b_2_2")));
}

#[test]
fn explicit_case_value_wins_over_fixture_default() {
    let t = template("prec", vec![plain_param("x")]);
    let mut info = info_with_cases(&["x"], vec![case(&["41"])]);
    info.fixtures = vec![ArgValue { name: s("x"), expr: s("99") }];
    let (items, text) = parametrize(&t, &info, &config());
    match &items[0] {
        CaseTree::Leaf(rc) => {
            let b = case_expand::emit::emit_bindings(&rc.bindings);
            assert_eq!(b, "let x = 41;\n");
        },
        _ => panic!("expected a leaf"),
    }
    assert!(text.contains("let x = 41;"));
    assert!(!text.contains("99"));
}

#[test]
fn explicit_binding_wins_over_context_request() {
    let mut p = plain_param("ctx");
    p.is_context = true;
    let t = template("ctxprec", vec![p]);
    let info = info_with_cases(&["ctx"], vec![case(&["my_value"])]);
    let (_items, text) = parametrize(&t, &info, &config());
    assert!(text.contains("let ctx = my_value;"));
    assert!(!text.contains("Context::new"));
}

#[test]
fn unbound_context_parameter_gets_the_synthesized_context() {
    let mut p = plain_param("ctx");
    p.is_context = true;
    let t = template("ctxsynth", vec![p]);
    let mut c = case(&[]);
    c.description = Some(s("described"));
    let info = info_with_cases(&[], vec![c]);
    let (_items, text) = parametrize(&t, &info, &config());
    assert!(
        text.contains(
            "let ctx = Context::new(module_path!(), \"ctxsynth\", Some(\"described\"), Some(0));"
        )
    );
}

#[test]
fn fixture_default_applies_when_nothing_else_binds() {
    let t = template("fix", vec![plain_param("x")]);
    let mut info = info_with_cases(&[], vec![case(&[])]);
    info.fixtures = vec![ArgValue { name: s("x"), expr: s("x::default()") }];
    let (_items, text) = parametrize(&t, &info, &config());
    assert!(text.contains("let x = x::default();"));
}

#[test]
fn unresolved_parameter_is_a_compile_time_diagnostic() {
    let t = template("missing", vec![plain_param("y")]);
    let info = info_with_cases(&[], vec![case(&[])]);
    let (_items, text) = parametrize(&t, &info, &config());
    assert!(text.contains("compile_error!{\"no value can be resolved for parameter y\"}"));
}

#[test]
fn environment_timeout_override_wraps_the_call() {
    let t = template("slow", vec![]);
    let info = info_with_cases(&[], vec![case(&[])]);
    let cfg = Config { env_timeout: Some(s("2")), crate_path: s("framework") };
    let (_items, text) = parametrize(&t, &info, &cfg);
    assert!(text.contains("use framework::timeout::*;"));
    assert!(
        text.contains(
            "execute_with_timeout_sync(move || slow(), core::time::Duration::from_secs((\"2\").parse().unwrap()))"
        )
    );
}

#[test]
fn explicit_timeout_attribute_beats_the_environment_override() {
    let mut t = template("slow", vec![]);
    t.attrs = vec![Attr { path: s("timeout"), args: AttrArgs::Paren(s("ms(100)")) }];
    let info = info_with_cases(&[], vec![case(&[])]);
    let cfg = Config { env_timeout: Some(s("2")), crate_path: s("framework") };
    let (_items, text) = parametrize(&t, &info, &cfg);
    assert!(text.contains("execute_with_timeout_sync(move || slow(), ms(100))"));
    assert!(!text.contains("parse().unwrap()"));
}

#[test]
fn async_template_without_marker_fails_the_build() {
    let mut t = template("later", vec![]);
    t.is_async = true;
    let info = info_with_cases(&[], vec![case(&[])]);
    let (_items, text) = parametrize(&t, &info, &config());
    assert!(text.contains(
        "compile_error!{\"async tests require either an explicit `test_attr` or an attribute whose path ends with `test`\"}"
    ));
    assert!(!text.contains("#[test]\n"));
}

#[test]
fn async_call_is_awaited_and_async_helper_used_with_timeout() {
    let mut t = template("later", vec![]);
    t.is_async = true;
    t.attrs = vec![
        Attr { path: s("tokio::test"), args: AttrArgs::Bare },
        Attr { path: s("timeout"), args: AttrArgs::Paren(s("dur")) },
    ];
    let info = info_with_cases(&[], vec![case(&[])]);
    let (_items, text) = parametrize(&t, &info, &config());
    assert!(text.contains("execute_with_timeout_async(move || later(), dur).await"));
    assert!(text.contains("#[tokio::test]"));
}

#[test]
fn existing_test_marker_suppresses_the_default_one() {
    let mut t = template("marked", vec![]);
    t.attrs = vec![Attr { path: s("tokio::test"), args: AttrArgs::Bare }];
    let info = info_with_cases(&[], vec![case(&[])]);
    let (_items, text) = parametrize(&t, &info, &config());
    assert_eq!(text.matches("#[tokio::test]").count(), 1);
    assert!(!text.contains("#[test]\n"));
}

#[test]
fn explicit_test_attr_override_is_used_verbatim() {
    let mut t = template("overridden", vec![]);
    t.attrs = vec![Attr { path: s("test_attr"), args: AttrArgs::Paren(s("tokio::test(flavor = \"multi_thread\")")) }];
    let info = info_with_cases(&[], vec![case(&[])]);
    let (_items, text) = parametrize(&t, &info, &config());
    assert!(text.contains("#[tokio::test(flavor = \"multi_thread\")]"));
}

#[test]
fn malformed_test_attr_override_is_a_compile_time_diagnostic() {
    let mut t = template("overridden", vec![]);
    t.attrs = vec![Attr { path: s("test_attr"), args: AttrArgs::Bare }];
    let info = info_with_cases(&[], vec![case(&[])]);
    let (_items, text) = parametrize(&t, &info, &config());
    assert!(text.contains(
        "compile_error!{\"invalid `test_attr` syntax; should be `#[test_attr(<test attribute>)]`\"}"
    ));
}

#[test]
fn traced_parameter_prints_between_two_separators() {
    let mut p = plain_param("x");
    p.traced = true;
    let t = template("traced", vec![p]);
    let mut info = info_with_cases(&["x"], vec![case(&["5"])]);
    info.global_trace = true;
    let (_items, text) = parametrize(&t, &info, &config());
    assert!(text.contains("println!(\"{:-^40}\", \" TEST ARGUMENTS \");"));
    assert!(text.contains("println!(\"{} = {:?}\", stringify!(x), x);"));
    assert!(text.contains("println!(\"{:-^40}\", \" TEST START \");"));
    let args_sep = text.find(" TEST ARGUMENTS ").unwrap();
    let start_sep = text.find(" TEST START ").unwrap();
    let line = text.find("stringify!(x)").unwrap();
    assert!(args_sep < line && line < start_sep);
}

#[test]
fn without_trace_flag_no_separators_are_emitted() {
    let mut p = plain_param("x");
    p.traced = true;
    let t = template("quiet", vec![p]);
    let info = info_with_cases(&["x"], vec![case(&["5"])]);
    let (_items, text) = parametrize(&t, &info, &config());
    assert!(!text.contains("TEST ARGUMENTS"));
}

#[test]
fn case_level_trace_marker_enables_tracing() {
    let mut p = plain_param("x");
    p.traced = true;
    let t = template("marked_trace", vec![p]);
    let mut c = case(&["5"]);
    c.attrs = vec![Attr { path: s("trace"), args: AttrArgs::Bare }];
    let info = info_with_cases(&["x"], vec![c]);
    let (_items, text) = parametrize(&t, &info, &config());
    assert!(text.contains(" TEST ARGUMENTS "));
}

#[test]
fn rendering_twice_is_byte_identical() {
    let mut p = plain_param("x");
    p.traced = true;
    let t = template("again", vec![p, plain_param("y")]);
    let mut info = info_with_cases(&["x"], vec![case(&["1"]), case(&["2"])]);
    info.fixtures = vec![ArgValue { name: s("y"), expr: s("mk_y()") }];
    info.global_trace = true;
    let cfg = Config { env_timeout: Some(s("3")), crate_path: s("framework") };
    let (_i1, t1) = parametrize(&t, &info, &cfg);
    let (_i2, t2) = parametrize(&t, &info, &cfg);
    assert_eq!(t1, t2);
    let (_m1, m1) = matrix(&t, &info, &cfg);
    let (_m2, m2) = matrix(&t, &info, &cfg);
    assert_eq!(m1, m2);
}

#[test]
fn single_shape_embeds_the_template_and_calls_it() {
    let t = template("alone", vec![plain_param("x")]);
    let info = TestInfo {
        case_args: vec![],
        cases: vec![],
        lists: vec![],
        fixtures: vec![ArgValue { name: s("x"), expr: s("5") }],
        global_trace: false,
    };
    let (rc, text) = single(&t, &info, &config());
    assert_eq!(rc.name, "alone");
    assert!(text.contains("fn alone(x: u32) {\nassert!(true);\n}"));
    assert!(text.contains("let x = 5;"));
    assert!(text.contains("#[test]"));
    assert!(text.ends_with("alone(x)\n}\n"));
}

#[test]
fn group_wraps_cases_in_a_module_named_after_the_template() {
    let t = template("grouped", vec![plain_param("x")]);
    let info = info_with_cases(&["x"], vec![case(&["1"])]);
    let (_items, text) = parametrize(&t, &info, &config());
    assert!(text.contains("mod grouped {\nuse super::*;"));
    assert!(text.starts_with("#[cfg(test)]\n"));
}

#[test]
fn ignored_parameters_stay_formal_and_are_passed_through() {
    let mut p = plain_param("rt");
    p.ignored = true;
    p.ty = s("Runtime");
    let t = template("keeps", vec![p, plain_param("x")]);
    let info = info_with_cases(&["x"], vec![case(&["1"])]);
    let (_items, text) = parametrize(&t, &info, &config());
    assert!(text.contains("fn case_1(rt: Runtime)"));
    assert!(text.contains("keeps(rt, x)"));
}

#[test]
fn by_reference_parameters_are_passed_by_reference() {
    let mut p = plain_param("big");
    p.by_ref = true;
    let t = template("refs", vec![p]);
    let info = info_with_cases(&["big"], vec![case(&["make_big()"])]);
    let (_items, text) = parametrize(&t, &info, &config());
    assert!(text.contains("refs(&big)"));
}

#[test]
fn format_case_name_pads_and_appends_description() {
    let c = TestCase { args: vec![], attrs: vec![], description: None };
    assert_eq!(format_case_name(&c, 3, 2), "case_03");
    let d = TestCase { args: vec![], attrs: vec![], description: Some(s("ok")) };
    assert_eq!(format_case_name(&d, 12, 2), "case_12_ok");
}

#[test]
fn display_len_counts_decimal_digits() {
    assert_eq!(display_len(0), 1);
    assert_eq!(display_len(9), 1);
    assert_eq!(display_len(10), 2);
    assert_eq!(display_len(100), 3);
}

#[test]
fn sanitize_strips_characters_unsafe_for_identifiers() {
    assert_eq!(sanitize_ident("a-b c!1_Z"), "abc1_Z");
    assert_eq!(sanitize_ident("\"quoted\""), "quoted");
    assert_eq!(sanitize_ident(""), "");
}

#[test]
fn long_descriptions_are_truncated_to_sixty_four_characters() {
    let long = "x".repeat(100);
    let cut = truncate_chars(&long, 64);
    assert_eq!(cut.len(), 64);
    let short = truncate_chars("abc", 64);
    assert_eq!(short, "abc");
}

#[test]
fn value_list_names_carry_argument_index_and_description() {
    let t = template("vals", vec![plain_param("a")]);
    let info = TestInfo {
        case_args: vec![],
        cases: vec![],
        lists: vec![ValueList {
            arg: s("a"),
            values: vec![
                ListValue { expr: s("\"x y\""), description: s("\"x y\"") },
                ListValue { expr: s("2"), description: s("2") },
            ],
        }],
        fixtures: vec![],
        global_trace: false,
    };
    let (items, _text) = matrix(&t, &info, &config());
    assert_eq!(leaf_names(&items), vec!["a_1_xy", "a_2_2"]);
}

#[test]
fn resolver_pair_tries_the_first_source_first() {
    let first = Resolver::Table(vec![ArgValue { name: s("x"), expr: s("1") }]);
    let second = Resolver::Table(vec![
        ArgValue { name: s("x"), expr: s("2") },
        ArgValue { name: s("y"), expr: s("3") },
    ]);
    let pair = Resolver::Pair(Box::new(first), Box::new(second));
    assert_eq!(pair.resolve("x"), Some(s("1")));
    assert_eq!(pair.resolve("y"), Some(s("3")));
    assert_eq!(pair.resolve("z"), None);
}

#[test]
fn cases_data_keeps_declaration_order_and_positions() {
    let mut c2 = case(&["2"]);
    c2.description = Some(s("two"));
    let info = info_with_cases(&["x"], vec![case(&["1"]), c2]);
    let cds = cases_data(&info);
    assert_eq!(cds.len(), 2);
    assert_eq!(cds[0].name, "case_1");
    assert_eq!(cds[1].name, "case_2_two");
    match &cds[1].info {
        Some(CaseInfo { description, pos }) => {
            assert_eq!(description.as_deref(), Some("two"));
            assert_eq!(*pos, 1);
        },
        None => panic!("case metadata must be attached"),
    }
    assert_eq!(cds[0].resolver.resolve("x"), Some(s("1")));
}

#[test]
fn empty_case_list_with_no_lists_renders_no_cases() {
    let t = template("none_at_all", vec![]);
    let info = info_with_cases(&[], vec![]);
    let (items, text) = parametrize(&t, &info, &config());
    assert!(items.is_empty());
    assert!(text.contains("mod none_at_all"));
}

#[test]
fn matrix_description_is_sanitized_and_truncated_in_names() {
    let t = template("longdesc", vec![plain_param("a")]);
    let long = "b ".repeat(100);
    let info = TestInfo {
        case_args: vec![],
        cases: vec![],
        lists: vec![ValueList {
            arg: s("a"),
            values: vec![ListValue { expr: s("1"), description: long }],
        }],
        fixtures: vec![],
        global_trace: false,
    };
    let (items, _text) = matrix(&t, &info, &config());
    let names = leaf_names(&items);
    assert_eq!(names.len(), 1);
    assert_eq!(names[0], format!("a_1_{}", "b".repeat(64)));
}

#[test]
fn an_attribute_merely_ending_in_the_letters_test_is_no_marker() {
    let mut t = template("lookalike", vec![]);
    t.attrs = vec![Attr { path: s("my_test"), args: AttrArgs::Bare }];
    let info = info_with_cases(&[], vec![case(&[])]);
    let (_items, text) = parametrize(&t, &info, &config());
    assert!(text.contains("#[test]\n"), "the default marker must still be injected");
    assert!(text.contains("#[my_test]"));
}
