use sugarcube::rewrite_hkt;

#[test]
fn hkt_basic_declaration() {
    let input = "interface Functor<F<_>> {\n  map: <A, B>(fa: F<A>) => F<B>;\n}";
    let output = rewrite_hkt(input);
    assert!(output.contains("Functor<F>"), "Should strip <_>: {output}");
    assert!(output.contains("$<F, A>"), "Should rewrite F<A>: {output}");
    assert!(output.contains("$<F, B>"), "Should rewrite F<B>: {output}");
}

#[test]
fn hkt_no_rewrite_outside_scope() {
    let input =
        "interface Functor<F<_>> { map: (fa: F<A>) => F<B>; }\nconst x: F<number> = foo;";
    let output = rewrite_hkt(input);
    // F<number> outside the interface scope should NOT be rewritten
    assert!(
        output.contains("F<number>"),
        "Should not rewrite outside scope: {output}"
    );
}

#[test]
fn hkt_multi_placeholder_declaration() {
    let input = "interface Bifunctor<F<_, _>> { bimap: (fab: F<A, B>) => F<C, D>; }";
    let output = rewrite_hkt(input);
    assert!(output.contains("Bifunctor<F>"), "Should strip <_, _>: {output}");
    assert!(output.contains("$<F, A, B>"), "Should rewrite F<A, B>: {output}");
    assert!(output.contains("$<F, C, D>"), "Should rewrite F<C, D>: {output}");
}

#[test]
fn hkt_two_declarations_interleaved() {
    let input = "interface A<F<_>> { x: F<X>; }\ninterface B<G<_>> { y: G<Y>; }";
    let output = rewrite_hkt(input);
    assert_eq!(
        output,
        "interface A<F> { x: $<F, X>; }\ninterface B<G> { y: $<G, Y>; }"
    );
}

#[test]
fn hkt_usage_with_nested_angle_brackets() {
    let input = "interface M<F<_>> { x: F<Array<A>>; }";
    let output = rewrite_hkt(input);
    assert!(output.contains("M<F>"), "{output}");
    assert!(output.contains("$<F, Array<A>>"), "{output}");
}

#[test]
fn hkt_without_declaration_unchanged() {
    let input = "const x: F<number> = foo;\nconst y = new Map<string, number>();";
    let output = rewrite_hkt(input);
    assert_eq!(output, input);
}

#[test]
fn hkt_declaration_in_string_ignored() {
    let input = "const s = \"interface Functor<F<_>> {}\";\nconst x: F<number> = foo;";
    let output = rewrite_hkt(input);
    assert_eq!(output, input);
}

#[test]
fn hkt_usage_in_comment_ignored() {
    let input = "interface Functor<F<_>> {\n  // note: F<A> stays here\n  map: (fa: F<A>) => F<B>;\n}";
    let output = rewrite_hkt(input);
    assert!(output.contains("// note: F<A> stays here"), "{output}");
    assert!(output.contains("$<F, B>"), "{output}");
}
