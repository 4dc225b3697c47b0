//! Feature configuration and the custom binary operators.

use vstd::prelude::*;

verus! {

/// Feature flags controlling which syntax extensions are active.
#[derive(Debug, Clone, Copy, PartialEq, Eq, Structural)]
pub struct ScSyntax {
    pub pipeline: bool,
    pub cons: bool,
    pub hkt: bool,
}

impl Default for ScSyntax {
    /// By default every extension is enabled.
    fn default() -> (s: Self)
        ensures
            s.pipeline,
            s.cons,
            s.hkt,
    {
        ScSyntax { pipeline: true, cons: true, hkt: true }
    }
}

/// Binary operators added beyond the standard JS/TS set.
#[derive(Debug, Clone, Copy, PartialEq, Eq, Structural)]
pub enum ScBinaryOp {
    /// Pipeline operator `|>` — precedence 1 (lowest), left-associative.
    Pipeline,
    /// Cons operator `::` — precedence 5, right-associative.
    Cons,
}

impl ScBinaryOp {
    /// Binding strength; a larger number binds tighter.
    pub open spec fn spec_precedence(self) -> u8 {
        match self {
            ScBinaryOp::Pipeline => 1,
            ScBinaryOp::Cons => 5,
        }
    }

    #[verifier::when_used_as_spec(spec_precedence)]
    pub fn precedence(self) -> (p: u8)
        ensures
            p == self.spec_precedence(),
    {
        match self {
            ScBinaryOp::Pipeline => 1,
            ScBinaryOp::Cons => 5,
        }
    }

    /// Cons associates to the right; pipeline to the left.
    pub open spec fn spec_is_right_assoc(self) -> bool {
        match self {
            ScBinaryOp::Pipeline => false,
            ScBinaryOp::Cons => true,
        }
    }

    #[verifier::when_used_as_spec(spec_is_right_assoc)]
    pub fn is_right_assoc(self) -> (r: bool)
        ensures
            r == self.spec_is_right_assoc(),
    {
        match self {
            ScBinaryOp::Pipeline => false,
            ScBinaryOp::Cons => true,
        }
    }

    /// The operator's source text, as the two characters it is written with.
    pub open spec fn spec_text(self) -> Seq<char> {
        match self {
            ScBinaryOp::Pipeline => seq!['|', '>'],
            ScBinaryOp::Cons => seq![':', ':'],
        }
    }

    pub fn text(self) -> (t: &'static str)
        ensures
            t@ == self.spec_text(),
    {
        match self {
            ScBinaryOp::Pipeline => {
                let t = "|>";
                proof {
                    reveal_strlit("|>");
                    assert(t@ =~= self.spec_text());
                }
                t
            },
            ScBinaryOp::Cons => {
                let t = "::";
                proof {
                    reveal_strlit("::");
                    assert(t@ =~= self.spec_text());
                }
                t
            },
        }
    }
}

/// How a preprocessing pass can fail.
///
/// The operator pass resolves one operator occurrence per iteration and is
/// bounded by a fixed iteration cap so that pathological input cannot loop
/// forever; hitting the cap with occurrences still left is reported as a
/// fatal condition rather than silently returning partially rewritten text.
#[derive(Debug, Clone, Copy, PartialEq, Eq, Structural)]
pub enum PreprocessError {
    /// The operator rewrite loop hit its iteration cap before reaching a
    /// fixpoint.
    RewriteCapExceeded,
}

} // verus!
