use sugarcube::preprocess;
use sugarcube::HandleResult;
use sugarcube::PreprocessError;
use sugarcube::ScBinaryOp;
use sugarcube::ScSyntax;
use sugarcube::TemplateState;

#[test]
fn sc_syntax_default_enables_all() {
    let s = ScSyntax::default();
    assert!(s.pipeline);
    assert!(s.cons);
    assert!(s.hkt);
}

#[test]
fn preprocess_runs_hkt_then_operators() {
    let input = "interface M<F<_>> { x: F<A>; }\nconst y = a |> f;";
    let output = preprocess(input, &ScSyntax::default()).unwrap();
    assert!(output.contains("M<F>"), "{output}");
    assert!(output.contains("$<F, A>"), "{output}");
    assert!(output.contains(r#"__binop__(a, "|>", f)"#), "{output}");
}

#[test]
fn preprocess_idempotent_on_rewritten_output() {
    let input = "const x = a |> f |> g;\nconst y = 1 :: [];";
    let once = preprocess(input, &ScSyntax::default()).unwrap();
    let twice = preprocess(&once, &ScSyntax::default()).unwrap();
    assert_eq!(twice, once);
}

#[test]
fn preprocess_without_custom_syntax_is_noop() {
    let input = "function add(a: number, b: number): number {\n  return a + b;\n}\n";
    let output = preprocess(input, &ScSyntax::default()).unwrap();
    assert_eq!(output, input);
}

#[test]
fn preprocess_empty_source() {
    let output = preprocess("", &ScSyntax::default()).unwrap();
    assert_eq!(output, "");
}

#[test]
fn preprocess_unterminated_constructs_do_not_fail() {
    let unterminated_comment = preprocess("/* a |> b", &ScSyntax::default()).unwrap();
    assert_eq!(unterminated_comment, "/* a |> b");
    let unterminated_string = preprocess("const s = \"a |> b", &ScSyntax::default()).unwrap();
    assert_eq!(unterminated_string, "const s = \"a |> b");
}

#[test]
fn pipeline_in_line_comment_not_rewritten() {
    let input = "// a |> b\nconst x = 1;";
    let output = preprocess(input, &ScSyntax::default()).unwrap();
    assert_eq!(output, input);
}

#[test]
fn pipeline_in_block_comment_not_rewritten() {
    let input = "/* a |> b */ const x = 1;";
    let output = preprocess(input, &ScSyntax::default()).unwrap();
    assert_eq!(output, input);
}

#[test]
fn pipeline_disabled_leaves_operator_alone() {
    let syntax = ScSyntax { pipeline: false, cons: true, hkt: true };
    let output = preprocess("const x = a |> f;", &syntax).unwrap();
    assert_eq!(output, "const x = a |> f;");
}

#[test]
fn cons_disabled_leaves_operator_alone() {
    let syntax = ScSyntax { pipeline: true, cons: false, hkt: true };
    let output = preprocess("const x = 1 :: [];", &syntax).unwrap();
    assert_eq!(output, "const x = 1 :: [];");
}

#[test]
fn all_features_disabled_is_identity() {
    let syntax = ScSyntax { pipeline: false, cons: false, hkt: false };
    let input = "interface Functor<F<_>> { map: (fa: F<A>) => F<B>; }\nconst x = a |> f;";
    let output = preprocess(input, &syntax).unwrap();
    assert_eq!(output, input);
}

#[test]
fn interface_body_operator_like_text_untouched() {
    let input = "interface I { a: number; }\nconst x = a |> f;";
    let output = preprocess(input, &ScSyntax::default()).unwrap();
    assert_eq!(
        output,
        "interface I { a: number; }\nconst x = __binop__(a, \"|>\", f);"
    );
}

#[test]
fn rewrite_cap_reached_reports_error() {
    let mut input = String::from("const x = a");
    for _ in 0..1001 {
        input.push_str(" |> f");
    }
    input.push(';');
    let result = preprocess(&input, &ScSyntax::default());
    assert_eq!(result, Err(PreprocessError::RewriteCapExceeded));
}

#[test]
fn rewrite_cap_not_hit_at_the_bound() {
    let mut input = String::from("const x = a");
    for _ in 0..1000 {
        input.push_str(" |> f");
    }
    input.push(';');
    let result = preprocess(&input, &ScSyntax::default());
    assert!(result.is_ok());
    // All occurrences were resolved: a second pass changes nothing.
    let output = result.unwrap();
    let again = preprocess(&output, &ScSyntax::default()).unwrap();
    assert_eq!(again, output);
}

#[test]
fn operator_metadata() {
    assert_eq!(ScBinaryOp::Pipeline.precedence(), 1);
    assert_eq!(ScBinaryOp::Cons.precedence(), 5);
    assert!(!ScBinaryOp::Pipeline.is_right_assoc());
    assert!(ScBinaryOp::Cons.is_right_assoc());
    assert_eq!(ScBinaryOp::Pipeline.text(), "|>");
    assert_eq!(ScBinaryOp::Cons.text(), "::");
}

#[test]
fn template_state_tracks_nesting() {
    let chars: Vec<char> = "`a${b}`".chars().collect();
    let mut st = TemplateState::new();
    assert!(!st.in_template());
    assert!(!st.in_literal_part());

    // Opening backtick.
    assert!(matches!(st.handle_char(&chars, 0), HandleResult::Skip(1)));
    assert!(st.in_template());
    assert!(st.in_literal_part());

    // Literal character.
    assert!(matches!(st.handle_char(&chars, 1), HandleResult::Skip(1)));

    // `${` enters an interpolation.
    assert!(matches!(st.handle_char(&chars, 2), HandleResult::Skip(2)));
    assert!(st.in_template());
    assert!(!st.in_literal_part());

    // Code inside the interpolation is processed normally.
    assert!(matches!(st.handle_char(&chars, 4), HandleResult::Process));

    // `}` closes the interpolation.
    assert!(matches!(st.handle_char(&chars, 5), HandleResult::Skip(1)));
    assert!(st.in_literal_part());

    // The closing backtick pops the literal.
    assert!(matches!(st.handle_char(&chars, 6), HandleResult::Skip(1)));
    assert!(!st.in_template());
}
