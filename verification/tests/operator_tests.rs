use sugarcube::rewrite_operators;
use sugarcube::ScSyntax;

fn syntax_all() -> ScSyntax {
    ScSyntax::default()
}

#[test]
fn pipeline_basic() {
    let input = "const x = a |> f;";
    let output = rewrite_operators(input, &syntax_all()).unwrap();
    assert_eq!(output, r#"const x = __binop__(a, "|>", f);"#);
}

#[test]
fn pipeline_chained() {
    let input = "const x = a |> f |> g;";
    let output = rewrite_operators(input, &syntax_all()).unwrap();
    assert_eq!(
        output,
        r#"const x = __binop__(__binop__(a, "|>", f), "|>", g);"#
    );
}

#[test]
fn cons_basic() {
    let input = "const x = 1 :: [];";
    let output = rewrite_operators(input, &syntax_all()).unwrap();
    assert_eq!(output, r#"const x = __binop__(1, "::", []);"#);
}

#[test]
fn cons_chained() {
    let input = "const x = 1 :: 2 :: [];";
    let output = rewrite_operators(input, &syntax_all()).unwrap();
    assert_eq!(
        output,
        r#"const x = __binop__(1, "::", __binop__(2, "::", []));"#
    );
}

#[test]
fn pipeline_in_string_not_rewritten() {
    let input = r#"const s = "a |> b";"#;
    let output = rewrite_operators(input, &syntax_all()).unwrap();
    assert_eq!(output, input);
}

#[test]
fn cons_and_pipeline_mixed() {
    let input = "const x = a :: b |> f;";
    let output = rewrite_operators(input, &syntax_all()).unwrap();
    // :: binds tighter than |>
    assert_eq!(
        output,
        r#"const x = __binop__(__binop__(a, "::", b), "|>", f);"#
    );
}

#[test]
fn regex_pipe_not_rewritten() {
    let input = "const pattern = /foo|bar/g;";
    let output = rewrite_operators(input, &syntax_all()).unwrap();
    assert_eq!(output, input);
}

#[test]
fn regex_in_call_not_rewritten() {
    let input = "const result = input.match(/a|b|c/);";
    let output = rewrite_operators(input, &syntax_all()).unwrap();
    assert_eq!(output, input);
}

#[test]
fn regex_with_pipeline() {
    let input = "const x = text.match(/a|b/) |> f;";
    let output = rewrite_operators(input, &syntax_all()).unwrap();
    assert_eq!(output, r#"const x = __binop__(text.match(/a|b/), "|>", f);"#);
}

#[test]
fn regex_as_pipeline_operand() {
    let input = "const x = /foo|bar/.test(s) |> Boolean;";
    let output = rewrite_operators(input, &syntax_all()).unwrap();
    assert_eq!(
        output,
        r#"const x = __binop__(/foo|bar/.test(s), "|>", Boolean);"#
    );
}

#[test]
fn regex_after_return() {
    let input = "return /a|b/;";
    let output = rewrite_operators(input, &syntax_all()).unwrap();
    assert_eq!(output, input);
}

#[test]
fn regex_with_char_class() {
    let input = "const r = /[a|b]/;";
    let output = rewrite_operators(input, &syntax_all()).unwrap();
    assert_eq!(output, input);
}

#[test]
fn regex_with_escaped_slash() {
    let input = r"const r = /a\/b|c/;";
    let output = rewrite_operators(input, &syntax_all()).unwrap();
    assert_eq!(output, input);
}

#[test]
fn template_literal_pipeline_in_interpolation() {
    let input = "const msg = `Result: ${data |> f}`;";
    let output = rewrite_operators(input, &syntax_all()).unwrap();
    assert_eq!(output, r#"const msg = `Result: ${__binop__(data, "|>", f)}`;"#);
}

#[test]
fn template_literal_literal_part_unchanged() {
    let input = "const msg = `plain |> text`;";
    let output = rewrite_operators(input, &syntax_all()).unwrap();
    assert_eq!(output, input);
}

#[test]
fn template_literal_nested() {
    let input = "const msg = `outer ${`inner ${x |> f}`}`;";
    let output = rewrite_operators(input, &syntax_all()).unwrap();
    assert_eq!(output, r#"const msg = `outer ${`inner ${__binop__(x, "|>", f)}`}`;"#);
}

#[test]
fn template_literal_multiple_interpolations() {
    let input = "const msg = `a ${a |> fa} b ${b |> fb}`;";
    let output = rewrite_operators(input, &syntax_all()).unwrap();
    assert_eq!(
        output,
        r#"const msg = `a ${__binop__(a, "|>", fa)} b ${__binop__(b, "|>", fb)}`;"#
    );
}

#[test]
fn type_alias_pipe_not_rewritten() {
    let input = "type X = A |> B;";
    let output = rewrite_operators(input, &syntax_all()).unwrap();
    assert_eq!(output, input);
}

#[test]
fn interface_member_pipe_not_rewritten() {
    let input = "interface I<T> { x: T |> U; }";
    let output = rewrite_operators(input, &syntax_all()).unwrap();
    assert_eq!(output, input);
}

#[test]
fn division_is_not_a_regex() {
    let input = "const y = a / b / c;";
    let output = rewrite_operators(input, &syntax_all()).unwrap();
    assert_eq!(output, input);
}

#[test]
fn division_before_pipeline() {
    let input = "const y = x / 2 |> f;";
    let output = rewrite_operators(input, &syntax_all()).unwrap();
    assert_eq!(output, r#"const y = __binop__(x / 2, "|>", f);"#);
}

#[test]
fn parenthesized_pipeline_as_cons_operand() {
    let input = "const x = (a |> f) :: b;";
    let output = rewrite_operators(input, &syntax_all()).unwrap();
    assert_eq!(
        output,
        r#"const x = __binop__((__binop__(a, "|>", f)), "::", b);"#
    );
}

#[test]
fn template_literal_cons_in_interpolation() {
    let input = "const list = `Items: ${1 :: 2 :: []}`;";
    let output = rewrite_operators(input, &syntax_all()).unwrap();
    assert_eq!(
        output,
        r#"const list = `Items: ${__binop__(1, "::", __binop__(2, "::", []))}`;"#
    );
}
