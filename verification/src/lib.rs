//! Text-level preprocessor for a TypeScript dialect with three syntax
//! extensions: a pipeline operator (`|>`), a cons operator (`::`), and
//! higher-kinded type parameters (`F<_>`).
//!
//! The preprocessor rewrites these constructs into standard TypeScript
//! before any real parsing happens: `a |> f` becomes `__binop__(a, "|>", f)`,
//! `x :: xs` becomes `__binop__(x, "::", xs)`, and an `F<_>` declaration is
//! stripped to `F` while in-scope usages `F<A>` become `$<F, A>`.
//! Operator-like text inside comments, string literals, regex literals and
//! template-literal text is never touched.

pub mod hkt_pass;
pub mod operator_pass;
pub mod preprocess;
pub mod scan;
pub mod syntax;
pub mod text;

pub use hkt_pass::rewrite_hkt;
pub use operator_pass::rewrite_operators;
pub use preprocess::preprocess;
pub use scan::HandleResult;
pub use scan::TemplateState;
pub use syntax::PreprocessError;
pub use syntax::ScBinaryOp;
pub use syntax::ScSyntax;
