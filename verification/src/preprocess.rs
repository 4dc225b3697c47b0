//! The preprocessing orchestrator: the HKT pass first, then the operator
//! pass, as a pure function of the source text and the feature
//! configuration.
//!
//! This ordering is required: operator rewriting must not re-interpret
//! already-rewritten HKT placeholder brackets as generic-argument lists.

use vstd::prelude::*;

use crate::hkt_pass::rewrite_hkt;
use crate::hkt_pass::spec_hkt_decls;
use crate::hkt_pass::spec_rewrite_hkt;
use crate::operator_pass::rewrite_operators;
use crate::operator_pass::spec_occurrences;
use crate::operator_pass::spec_rewrite_operators;
use crate::syntax::PreprocessError;
use crate::syntax::ScSyntax;

verus! {

/// The whole preprocessing of a buffer: the HKT pass (if enabled), then the
/// operator pass (if either operator is enabled).
pub open spec fn spec_preprocess(s: Seq<char>, syntax: ScSyntax) -> Result<
    Seq<char>,
    PreprocessError,
> {
    let after_hkt = if syntax.hkt {
        spec_rewrite_hkt(s)
    } else {
        s
    };
    if syntax.pipeline || syntax.cons {
        spec_rewrite_operators(after_hkt, syntax)
    } else {
        Ok(after_hkt)
    }
}

/// Preprocess a source string, rewriting every enabled syntax extension to
/// standard syntax: `F<_>` declarations and in-scope usages first, then
/// `|>` and `::` operator occurrences to `__binop__` calls.
///
/// Fails only when the operator pass hits its iteration cap before reaching
/// a fixpoint.
pub fn preprocess(source: &str, syntax: &ScSyntax) -> (r: Result<String, PreprocessError>)
    ensures
        match r {
            Ok(out) => spec_preprocess(source@, *syntax) == Ok::<_, PreprocessError>(out@),
            Err(e) => spec_preprocess(source@, *syntax) == Err::<Seq<char>, _>(e),
        },
{
    let result: String = if syntax.hkt {
        rewrite_hkt(source)
    } else {
        source.to_owned()
    };

    if syntax.pipeline || syntax.cons {
        rewrite_operators(result.as_str(), syntax)
    } else {
        Ok(result)
    }
}

/// Whether the buffer is free of custom syntax: no higher-kinded parameter
/// declaration and no enabled operator occurrence.
pub open spec fn no_custom_syntax(s: Seq<char>, syntax: ScSyntax) -> bool {
    spec_hkt_decls(s).len() == 0 && spec_occurrences(s, syntax.pipeline, syntax.cons).len() == 0
}

/// Preprocessing text that already contains no custom syntax is a no-op.
pub proof fn lemma_preprocess_no_custom_syntax_noop(s: Seq<char>, syntax: ScSyntax)
    ensures
        no_custom_syntax(s, syntax) ==> spec_preprocess(s, syntax) == Ok::<_, PreprocessError>(
            s,
        ),
{
}

/// Idempotence: whenever preprocessing succeeds and its output is itself
/// free of custom syntax, preprocessing that output returns it unchanged,
/// so a second pass cannot change the result of the first.
pub proof fn lemma_preprocess_idempotent(s: Seq<char>, t: Seq<char>, syntax: ScSyntax)
    ensures
        (spec_preprocess(s, syntax) == Ok::<_, PreprocessError>(t) && no_custom_syntax(t, syntax))
            ==> spec_preprocess(t, syntax) == Ok::<_, PreprocessError>(t),
{
    lemma_preprocess_no_custom_syntax_noop(t, syntax);
}

} // verus!
