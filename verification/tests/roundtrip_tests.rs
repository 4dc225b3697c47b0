//! Round-trip: rewritten output must be standard TypeScript, so feeding it
//! to the standard SWC parser (all custom features disabled) must succeed
//! without diagnostics.

use sugarcube::preprocess;
use sugarcube::ScSyntax;
use swc_common::sync::Lrc;
use swc_common::FileName;
use swc_common::SourceMap;
use swc_ecma_ast::EsVersion;
use swc_ecma_parser::Syntax;
use swc_ecma_parser::TsSyntax;

fn parses_as_standard_ts(source: &str) -> bool {
    let cm: Lrc<SourceMap> = Default::default();
    let fm = cm.new_source_file(
        Lrc::new(FileName::Custom("roundtrip.ts".to_string())),
        source.to_string(),
    );
    let mut errors = Vec::new();
    let result = swc_ecma_parser::parse_file_as_module(
        &fm,
        Syntax::Typescript(TsSyntax { tsx: false, decorators: true, ..Default::default() }),
        EsVersion::latest(),
        None,
        &mut errors,
    );
    result.is_ok() && errors.is_empty()
}

#[test]
fn roundtrip_rewritten_output_parses() {
    let fixtures = [
        "const x = a |> f;",
        "const x = a |> f |> g;",
        "const x = 1 :: [];",
        "const x = 1 :: 2 :: [];",
        "const x = a :: b |> f;",
        r#"const s = "a |> b";"#,
        "const pattern = /foo|bar/g;",
        "const x = text.match(/a|b/) |> f;",
        "const msg = `Result: ${data |> f}`;",
        "const msg = `outer ${`inner ${x |> f}`}`;",
        "const list = `Items: ${1 :: 2 :: []}`;",
        "interface Functor<F<_>> {\n  map: <A, B>(fa: F<A>) => F<B>;\n}",
        "interface Functor<F<_>> { map: (fa: F<A>) => F<B>; }\nconst x: F<number> = foo;",
        "interface M<F<_>> { x: F<A>; }\nconst y = a |> f;",
        "function add(a: number, b: number): number {\n  return a + b;\n}\n",
    ];
    for fixture in fixtures {
        let output = preprocess(fixture, &ScSyntax::default()).unwrap();
        assert!(
            parses_as_standard_ts(&output),
            "output is not valid TypeScript for {fixture:?}:\n{output}"
        );
    }
}
