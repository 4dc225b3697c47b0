//! Operator rewriting for pipeline (`|>`) and cons (`::`).
//!
//! Iteratively finds custom operators in expression context and rewrites
//! them to `__binop__` calls. Operators in strings, comments, regex
//! literals, template-literal text and type positions are left untouched.

use vstd::prelude::*;

use crate::scan::buf_rem;
use crate::scan::block_comment_end;
use crate::scan::line_comment_end;
use crate::scan::skip_ws_back;
use crate::scan::string_end;
use crate::scan::template_step_skip;
use crate::scan::template_step_stack;
use crate::scan::template_wf;
use crate::scan::trim;
use crate::scan::trim_chars;
use crate::scan::ws_start;
use crate::scan::HandleResult;
use crate::scan::TemplateState;
use crate::syntax::PreprocessError;
use crate::syntax::ScBinaryOp;
use crate::syntax::ScSyntax;
use crate::text::alphabetic_char;
use crate::text::ident_char;
use crate::text::splice_at;
use crate::text::spec_sub;
use crate::text::sub_chars;
use crate::text::whitespace_char;
use crate::text::word_char;

verus! {

/// A located occurrence of a custom operator in live code.
#[verifier::ext_equal]
pub ghost struct OpOccurrenceV {
    pub op: ScBinaryOp,
    /// Position of the operator's first character.
    pub start: int,
    /// Position just after the operator.
    pub end: int,
}

/// A located occurrence, as the scanner collects it.
#[derive(Clone, Copy)]
pub struct OpOccurrence {
    pub op: ScBinaryOp,
    pub start: usize,
    pub end: usize,
}

impl View for OpOccurrence {
    type V = OpOccurrenceV;

    open spec fn view(&self) -> OpOccurrenceV {
        OpOccurrenceV { op: self.op, start: self.start as int, end: self.end as int }
    }
}

pub open spec fn occs_abs(os: Seq<OpOccurrence>) -> Seq<OpOccurrenceV> {
    os.map_values(|o: OpOccurrence| o@)
}

/// Number of consecutive word characters (alphanumeric, `_` or `$`)
/// starting at `j`.
pub open spec fn word_count(s: Seq<char>, j: int) -> nat
    decreases s.len() - j,
{
    if j < 0 || j >= s.len() {
        0
    } else if word_char(s[j]) {
        1 + word_count(s, j + 1)
    } else {
        0
    }
}

/// First position at or after `j` whose character cannot continue a word.
pub open spec fn word_end(s: Seq<char>, j: int) -> int {
    j + word_count(s, j)
}

/// Scan to the end of a word running from `j`.
fn scan_word(chars: &[char], j: usize) -> (r: usize)
    requires
        j <= chars@.len(),
    ensures
        r == word_end(chars@, j as int),
        j <= r <= chars@.len(),
{
    let n = chars.len();
    let mut p = j;
    while p < n && crate::text::is_word_char(chars[p])
        invariant
            j <= p <= n == chars@.len(),
            word_end(chars@, j as int) == word_end(chars@, p as int),
        decreases n - p,
    {
        p = p + 1;
    }
    p
}

/// Whether position `i` starts a word: a word-opening character not
/// preceded by another word character.
pub open spec fn word_starts_at(s: Seq<char>, i: int) -> bool {
    &&& (alphabetic_char(s[i]) || s[i] == '_' || s[i] == '$')
    &&& (i == 0 || !word_char(s[i - 1]))
}

fn is_word_start(chars: &[char], i: usize) -> (r: bool)
    requires
        i < chars@.len(),
    ensures
        r == word_starts_at(chars@, i as int),
{
    if !(chars[i].is_alphabetic() || chars[i] == '_' || chars[i] == '$') {
        return false;
    }
    if i > 0 && crate::text::is_word_char(chars[i - 1]) {
        return false;
    }
    true
}

/// Start of the word whose last character stands at `k - 1`.
pub open spec fn word_start_back(s: Seq<char>, k: int) -> int
    decreases k,
{
    if k <= 0 {
        0
    } else if word_char(s[k - 1]) {
        word_start_back(s, k - 1)
    } else {
        k
    }
}

fn scan_word_back(chars: &[char], k: usize) -> (r: usize)
    requires
        k <= chars@.len(),
    ensures
        r == word_start_back(chars@, k as int),
        r <= k,
{
    let mut p = k;
    while p > 0 && crate::text::is_word_char(chars[p - 1])
        invariant
            p <= k <= chars@.len(),
            word_start_back(chars@, k as int) == word_start_back(chars@, p as int),
        decreases p,
    {
        p = p - 1;
    }
    p
}

/// Whether `w` is one of the keywords after which a `/` starts a regex
/// literal rather than a division.
pub open spec fn regex_keyword(w: Seq<char>) -> bool {
    ||| (w.len() == 6 && w[0] == 'r' && w[1] == 'e' && w[2] == 't' && w[3] == 'u' && w[4] == 'r'
        && w[5] == 'n')
    ||| (w.len() == 4 && w[0] == 'c' && w[1] == 'a' && w[2] == 's' && w[3] == 'e')
    ||| (w.len() == 5 && w[0] == 't' && w[1] == 'h' && w[2] == 'r' && w[3] == 'o' && w[4] == 'w')
    ||| (w.len() == 2 && w[0] == 'i' && w[1] == 'n')
    ||| (w.len() == 2 && w[0] == 'o' && w[1] == 'f')
    ||| (w.len() == 6 && w[0] == 't' && w[1] == 'y' && w[2] == 'p' && w[3] == 'e' && w[4] == 'o'
        && w[5] == 'f')
    ||| (w.len() == 4 && w[0] == 'v' && w[1] == 'o' && w[2] == 'i' && w[3] == 'd')
    ||| (w.len() == 6 && w[0] == 'd' && w[1] == 'e' && w[2] == 'l' && w[3] == 'e' && w[4] == 't'
        && w[5] == 'e')
    ||| (w.len() == 3 && w[0] == 'n' && w[1] == 'e' && w[2] == 'w')
    ||| (w.len() == 4 && w[0] == 'e' && w[1] == 'l' && w[2] == 's' && w[3] == 'e')
    ||| (w.len() == 2 && w[0] == 'd' && w[1] == 'o')
    ||| (w.len() == 10 && w[0] == 'i' && w[1] == 'n' && w[2] == 's' && w[3] == 't' && w[4] == 'a'
        && w[5] == 'n' && w[6] == 'c' && w[7] == 'e' && w[8] == 'o' && w[9] == 'f')
    ||| (w.len() == 5 && w[0] == 'y' && w[1] == 'i' && w[2] == 'e' && w[3] == 'l' && w[4] == 'd')
    ||| (w.len() == 5 && w[0] == 'a' && w[1] == 'w' && w[2] == 'a' && w[3] == 'i' && w[4] == 't')
}

fn is_regex_keyword(chars: &[char], a: usize, b: usize) -> (r: bool)
    requires
        a <= b <= chars@.len(),
    ensures
        r == regex_keyword(chars@.subrange(a as int, b as int)),
{
    let len = b - a;
    if len == 2 {
        (chars[a] == 'i' && chars[a + 1] == 'n') || (chars[a] == 'o' && chars[a + 1] == 'f') || (
        chars[a] == 'd' && chars[a + 1] == 'o')
    } else if len == 3 {
        chars[a] == 'n' && chars[a + 1] == 'e' && chars[a + 2] == 'w'
    } else if len == 4 {
        (chars[a] == 'c' && chars[a + 1] == 'a' && chars[a + 2] == 's' && chars[a + 3] == 'e') || (
        chars[a] == 'v' && chars[a + 1] == 'o' && chars[a + 2] == 'i' && chars[a + 3] == 'd') || (
        chars[a] == 'e' && chars[a + 1] == 'l' && chars[a + 2] == 's' && chars[a + 3] == 'e')
    } else if len == 5 {
        (chars[a] == 't' && chars[a + 1] == 'h' && chars[a + 2] == 'r' && chars[a + 3] == 'o'
            && chars[a + 4] == 'w') || (chars[a] == 'y' && chars[a + 1] == 'i' && chars[a + 2]
            == 'e' && chars[a + 3] == 'l' && chars[a + 4] == 'd') || (chars[a] == 'a' && chars[a
            + 1] == 'w' && chars[a + 2] == 'a' && chars[a + 3] == 'i' && chars[a + 4] == 't')
    } else if len == 6 {
        (chars[a] == 'r' && chars[a + 1] == 'e' && chars[a + 2] == 't' && chars[a + 3] == 'u'
            && chars[a + 4] == 'r' && chars[a + 5] == 'n') || (chars[a] == 't' && chars[a + 1]
            == 'y' && chars[a + 2] == 'p' && chars[a + 3] == 'e' && chars[a + 4] == 'o' && chars[a
            + 5] == 'f') || (chars[a] == 'd' && chars[a + 1] == 'e' && chars[a + 2] == 'l'
            && chars[a + 3] == 'e' && chars[a + 4] == 't' && chars[a + 5] == 'e')
    } else if len == 10 {
        chars[a] == 'i' && chars[a + 1] == 'n' && chars[a + 2] == 's' && chars[a + 3] == 't'
            && chars[a + 4] == 'a' && chars[a + 5] == 'n' && chars[a + 6] == 'c' && chars[a + 7]
            == 'e' && chars[a + 8] == 'o' && chars[a + 9] == 'f'
    } else {
        false
    }
}

/// Whether a punctuation character leaves a following `/` in expression
/// position, so that it starts a regex literal.
pub open spec fn regex_punct(c: char) -> bool {
    c == '(' || c == '[' || c == '{' || c == ',' || c == ';' || c == ':' || c == '=' || c == '!'
        || c == '&' || c == '|' || c == '?' || c == '+' || c == '-' || c == '*' || c == '%' || c
        == '^' || c == '~' || c == '<' || c == '>'
}

/// Whether a `/` at `i` starts a regex literal, judged from the nearest
/// preceding non-whitespace token: the start of the buffer, an opening
/// bracket or separator, or one of a fixed keyword set. After an operand
/// (identifier, number, closing bracket) it is a division instead.
pub open spec fn regex_context(s: Seq<char>, i: int) -> bool {
    let j = ws_start(s, i);
    if j == 0 {
        true
    } else {
        let prev = s[j - 1];
        if regex_punct(prev) {
            true
        } else if alphabetic_char(prev) || prev == '_' || prev == '$' {
            regex_keyword(s.subrange(word_start_back(s, j - 1), j))
        } else {
            false
        }
    }
}

fn is_regex_context(chars: &[char], i: usize) -> (r: bool)
    requires
        i <= chars@.len(),
    ensures
        r == regex_context(chars@, i as int),
{
    let j = skip_ws_back(chars, i);
    if j == 0 {
        return true;
    }
    let prev = chars[j - 1];
    if prev == '(' || prev == '[' || prev == '{' || prev == ',' || prev == ';' || prev == ':'
        || prev == '=' || prev == '!' || prev == '&' || prev == '|' || prev == '?' || prev == '+'
        || prev == '-' || prev == '*' || prev == '%' || prev == '^' || prev == '~' || prev == '<'
        || prev == '>' {
        return true;
    }
    if prev.is_alphabetic() || prev == '_' || prev == '$' {
        let word_start = scan_word_back(chars, j - 1);
        return is_regex_keyword(chars, word_start, j);
    }
    false
}

/// Number of positions a regex flag run covers from `j`.
pub open spec fn flag_count(s: Seq<char>, j: int) -> nat
    decreases s.len() - j,
{
    if j < 0 || j >= s.len() {
        0
    } else if s[j] == 'g' || s[j] == 'i' || s[j] == 'm' || s[j] == 's' || s[j] == 'u' || s[j]
        == 'y' || s[j] == 'd' || s[j] == 'v' {
        1 + flag_count(s, j + 1)
    } else {
        0
    }
}

/// Offset from `j` to just past a regex literal's closing `/` and flags,
/// honoring escapes and `[...]` character classes; `None` when a raw
/// newline appears or the literal is unterminated.
pub open spec fn regex_scan(s: Seq<char>, j: int, in_class: bool) -> Option<nat>
    decreases s.len() - j,
{
    if j < 0 || j >= s.len() {
        None
    } else if s[j] == '\n' || s[j] == '\r' {
        None
    } else if s[j] == '\\' && j + 1 < s.len() {
        match regex_scan(s, j + 2, in_class) {
            Some(o) => Some(o + 2),
            None => None,
        }
    } else if s[j] == '[' && !in_class {
        match regex_scan(s, j + 1, true) {
            Some(o) => Some(o + 1),
            None => None,
        }
    } else if s[j] == ']' && in_class {
        match regex_scan(s, j + 1, false) {
            Some(o) => Some(o + 1),
            None => None,
        }
    } else if s[j] == '/' && !in_class {
        Some(1 + flag_count(s, j + 1))
    } else {
        match regex_scan(s, j + 1, in_class) {
            Some(o) => Some(o + 1),
            None => None,
        }
    }
}

/// Position just after a regex literal starting with the `/` at `i`,
/// trailing flags included, or `None` when `i` starts no such literal.
pub open spec fn regex_lit_end(s: Seq<char>, i: int) -> Option<int> {
    if 0 <= i < s.len() && s[i] == '/' {
        match regex_scan(s, i + 1, false) {
            Some(o) => Some(i + 1 + o),
            None => None,
        }
    } else {
        None
    }
}

/// Scan a regex literal starting at `i`, returning the position after the
/// closing `/` and its flags, or `None` when this is no regex literal.
fn scan_regex_literal(chars: &[char], i: usize) -> (r: Option<usize>)
    ensures
        match r {
            Some(v) => regex_lit_end(chars@, i as int) == Some(v as int) && i < v
                <= chars@.len(),
            None => regex_lit_end(chars@, i as int) is None,
        },
{
    let n = chars.len();
    if i >= n || chars[i] != '/' {
        return None;
    }

    let mut j = i + 1;
    let mut in_class = false;

    while j < n
        invariant
            i + 1 <= j <= n == chars@.len(),
            i < n,
            chars@[i as int] == '/',
            match regex_scan(chars@, j as int, in_class) {
                Some(o) => regex_lit_end(chars@, i as int) == Some(j + o),
                None => regex_lit_end(chars@, i as int) is None,
            },
        decreases n - j,
    {
        let c = chars[j];

        if c == '\n' || c == '\r' {
            return None;
        }

        if c == '\\' && j + 1 < n {
            j = j + 2;
            continue ;
        }

        if c == '[' && !in_class {
            in_class = true;
            j = j + 1;
            continue ;
        }
        if c == ']' && in_class {
            in_class = false;
            j = j + 1;
            continue ;
        }

        if c == '/' && !in_class {
            j = j + 1;
            let ghost flag_base = j as int;
            while j < n && (chars[j] == 'g' || chars[j] == 'i' || chars[j] == 'm' || chars[j]
                == 's' || chars[j] == 'u' || chars[j] == 'y' || chars[j] == 'd' || chars[j]
                == 'v')
                invariant
                    flag_base <= j <= n == chars@.len(),
                    flag_base + flag_count(chars@, flag_base) == j + flag_count(
                        chars@,
                        j as int,
                    ),
                    regex_lit_end(chars@, i as int) == Some(
                        flag_base + flag_count(chars@, flag_base),
                    ),
                decreases n - j,
            {
                j = j + 1;
            }
            return Some(j);
        }

        j = j + 1;
    }

    None
}

/// Where position `i` begins a non-code region of the operator scan — a
/// comment, a regex literal in regex context, or a string literal — the
/// position just after it. Template literals are handled by the caller's
/// [`TemplateState`].
pub open spec fn op_skip_non_code_at(s: Seq<char>, i: int) -> Option<int> {
    if i >= s.len() {
        Some(s.len() as int)
    } else if s[i] == '/' && i + 1 < s.len() && s[i + 1] == '/' {
        let e = line_comment_end(s, i + 2);
        Some(if e < s.len() { e + 1 } else { s.len() as int })
    } else if s[i] == '/' && i + 1 < s.len() && s[i + 1] == '*' {
        Some(block_comment_end(s, i + 2))
    } else if s[i] == '/' && regex_context(s, i) && regex_lit_end(s, i) is Some {
        regex_lit_end(s, i)
    } else if s[i] == '"' || s[i] == '\'' {
        Some(string_end(s, s[i], i + 1))
    } else {
        None
    }
}

/// Skip over comments, regex literals and plain string literals.
fn op_skip_non_code(chars: &[char], i: usize) -> (r: Option<usize>)
    ensures
        match r {
            Some(v) => {
                &&& op_skip_non_code_at(chars@, i as int) == Some(v as int)
                &&& v <= chars@.len()
                &&& (i < chars@.len() ==> i < v)
            },
            None => op_skip_non_code_at(chars@, i as int) is None,
        },
{
    let n = chars.len();
    if i >= n {
        return Some(n);
    }

    // Line comment: `//` to the end of the line.
    if chars[i] == '/' && i + 1 < n && chars[i + 1] == '/' {
        let mut j = i + 2;
        while j < n && chars[j] != '\n'
            invariant
                i + 2 <= j <= n == chars@.len(),
                line_comment_end(chars@, i + 2) == line_comment_end(chars@, j as int),
            decreases n - j,
        {
            j = j + 1;
        }
        return Some(if j < n { j + 1 } else { n });
    }

    // Block comment: `/*` to the first `*/`, or to the end of the buffer.
    if chars[i] == '/' && i + 1 < n && chars[i + 1] == '*' {
        let mut j = i + 2;
        while j < n - 1
            invariant
                2 <= i + 2 <= j <= n == chars@.len(),
                chars@[i as int] == '/',
                chars@[i + 1] == '*',
                block_comment_end(chars@, i + 2) == block_comment_end(chars@, j as int),
            decreases n - j,
        {
            if chars[j] == '*' && chars[j + 1] == '/' {
                proof {
                    assert(block_comment_end(chars@, j as int) == j + 2);
                }
                return Some(j + 2);
            }
            j = j + 1;
        }
        return Some(n);
    }

    // Regex literal: must be told apart from division by its left context.
    if chars[i] == '/' && is_regex_context(chars, i) {
        if let Some(end) = scan_regex_literal(chars, i) {
            return Some(end);
        }
    }

    // String literal: to the matching unescaped closing quote.
    if chars[i] == '"' || chars[i] == '\'' {
        let quote = chars[i];
        let mut j = i + 1;
        while j < n && chars[j] != quote
            invariant
                i + 1 <= j <= n == chars@.len(),
                string_end(chars@, quote, i + 1) == string_end(chars@, quote, j as int),
            decreases n - j,
        {
            if chars[j] == '\\' {
                if j < n - 1 {
                    j = j + 2;
                } else {
                    j = n;
                }
            } else {
                j = j + 1;
            }
        }
        return Some(if j < n { j + 1 } else { j });
    }

    None
}

/// Whether the scan stands in a type position, where operator-like text is
/// never an expression operator.
pub open spec fn spec_in_type_context(td: int, ad: int, ta: bool, ii: bool) -> bool {
    td > 0 || ad > 0 || ta || ii
}

fn in_type_context(type_depth: usize, angle_depth: usize, in_type_alias: bool, in_interface: bool)
    -> (r: bool)
    ensures
        r == spec_in_type_context(
            type_depth as int,
            angle_depth as int,
            in_type_alias,
            in_interface,
        ),
{
    type_depth > 0 || angle_depth > 0 || in_type_alias || in_interface
}

/// The occurrences found by scanning live code from position `i` with the
/// given type-context state: every `::` (cons) and `|>` (pipeline) outside
/// type positions, in scan order.
pub open spec fn occs_from(
    s: Seq<char>,
    i: int,
    td: int,
    ad: int,
    ta: bool,
    ii: bool,
    stack: Seq<usize>,
    pipeline: bool,
    cons: bool,
) -> Seq<OpOccurrenceV>
    decreases buf_rem(s, i),
{
    if i < 0 || i >= s.len() {
        Seq::empty()
    } else {
        match template_step_skip(stack, s, i) {
            Some(n) => occs_from(
                s,
                i + n,
                td,
                ad,
                ta,
                ii,
                template_step_stack(stack, s, i),
                pipeline,
                cons,
            ),
            None => {
                let st2 = template_step_stack(stack, s, i);
                match op_skip_non_code_at(s, i) {
                    Some(sk) => occs_from(s, sk, td, ad, ta, ii, st2, pipeline, cons),
                    None => if word_starts_at(s, i) {
                        let wend = word_end(s, i + 1);
                        let w = s.subrange(i, wend);
                        if w == seq!['t', 'y', 'p', 'e'] {
                            occs_from(s, wend, 0, ad, true, ii, st2, pipeline, cons)
                        } else if w == seq!['i', 'n', 't', 'e', 'r', 'f', 'a', 'c', 'e'] {
                            occs_from(s, wend, 0, ad, ta, true, st2, pipeline, cons)
                        } else {
                            occs_from(s, wend, td, ad, ta, ii, st2, pipeline, cons)
                        }
                    } else if s[i] == ';' {
                        occs_from(s, i + 1, 0, ad, false, false, st2, pipeline, cons)
                    } else if s[i] == ':' {
                        if i + 1 < s.len() && s[i + 1] == ':' {
                            if cons && !spec_in_type_context(td, ad, ta, ii) {
                                seq![
                                    OpOccurrenceV { op: ScBinaryOp::Cons, start: i, end: i + 2 },
                                ] + occs_from(s, i + 2, td, ad, ta, ii, st2, pipeline, cons)
                            } else {
                                occs_from(s, i + 2, td, ad, ta, ii, st2, pipeline, cons)
                            }
                        } else {
                            occs_from(s, i + 1, td + 1, ad, ta, ii, st2, pipeline, cons)
                        }
                    } else if s[i] == '|' {
                        if i + 1 < s.len() && s[i + 1] == '>' {
                            if pipeline && !spec_in_type_context(td, ad, ta, ii) {
                                seq![
                                    OpOccurrenceV {
                                        op: ScBinaryOp::Pipeline,
                                        start: i,
                                        end: i + 2,
                                    },
                                ] + occs_from(s, i + 2, td, ad, ta, ii, st2, pipeline, cons)
                            } else {
                                occs_from(s, i + 2, td, ad, ta, ii, st2, pipeline, cons)
                            }
                        } else {
                            occs_from(s, i + 1, td, ad, ta, ii, st2, pipeline, cons)
                        }
                    } else if s[i] == '<' {
                        if i > 0 && ident_char(s[i - 1]) {
                            occs_from(s, i + 1, td, ad + 1, ta, ii, st2, pipeline, cons)
                        } else {
                            occs_from(s, i + 1, td, ad, ta, ii, st2, pipeline, cons)
                        }
                    } else if s[i] == '>' {
                        if ad > 0 {
                            occs_from(s, i + 1, td, ad - 1, ta, ii, st2, pipeline, cons)
                        } else {
                            occs_from(s, i + 1, td, ad, ta, ii, st2, pipeline, cons)
                        }
                    } else if s[i] == '=' || s[i] == ')' || s[i] == '}' || s[i] == ',' {
                        if !ta {
                            occs_from(
                                s,
                                i + 1,
                                if td > 0 {
                                    td - 1
                                } else {
                                    0
                                },
                                ad,
                                ta,
                                ii,
                                st2,
                                pipeline,
                                cons,
                            )
                        } else {
                            occs_from(s, i + 1, td, ad, ta, ii, st2, pipeline, cons)
                        }
                    } else if s[i] == '{' {
                        if !ii {
                            occs_from(s, i + 1, 0, ad, ta, ii, st2, pipeline, cons)
                        } else {
                            occs_from(s, i + 1, td, ad, ta, ii, st2, pipeline, cons)
                        }
                    } else {
                        occs_from(s, i + 1, td, ad, ta, ii, st2, pipeline, cons)
                    },
                }
            },
        }
    }
}

/// All operator occurrences of the buffer under the given feature flags.
pub open spec fn spec_occurrences(s: Seq<char>, pipeline: bool, cons: bool) -> Seq<
    OpOccurrenceV,
> {
    occs_from(s, 0, 0, 0, false, false, Seq::empty(), pipeline, cons)
}

/// Whether the word at `[a, b)` is `type`.
fn word_is_type(chars: &[char], a: usize, b: usize) -> (r: bool)
    requires
        a <= b <= chars@.len(),
    ensures
        r == (chars@.subrange(a as int, b as int) == seq!['t', 'y', 'p', 'e']),
{
    let r = b - a == 4 && chars[a] == 't' && chars[a + 1] == 'y' && chars[a + 2] == 'p'
        && chars[a + 3] == 'e';
    proof {
        if r {
            assert(chars@.subrange(a as int, b as int) =~= seq!['t', 'y', 'p', 'e']);
        } else {
            if chars@.subrange(a as int, b as int) == seq!['t', 'y', 'p', 'e'] {
                assert(chars@.subrange(a as int, b as int).len() == b - a);
                assert(seq!['t', 'y', 'p', 'e'].len() == 4);
                assert(b - a == 4);
                assert(chars@[a as int] == chars@.subrange(a as int, b as int)[0]);
                assert(chars@[a + 1] == chars@.subrange(a as int, b as int)[1]);
                assert(chars@[a + 2] == chars@.subrange(a as int, b as int)[2]);
                assert(chars@[a + 3] == chars@.subrange(a as int, b as int)[3]);
            }
        }
    }
    r
}

/// Whether the word at `[a, b)` is `interface`.
fn word_is_interface(chars: &[char], a: usize, b: usize) -> (r: bool)
    requires
        a <= b <= chars@.len(),
    ensures
        r == (chars@.subrange(a as int, b as int) == seq![
            'i',
            'n',
            't',
            'e',
            'r',
            'f',
            'a',
            'c',
            'e',
        ]),
{
    let r = b - a == 9 && chars[a] == 'i' && chars[a + 1] == 'n' && chars[a + 2] == 't'
        && chars[a + 3] == 'e' && chars[a + 4] == 'r' && chars[a + 5] == 'f' && chars[a + 6]
        == 'a' && chars[a + 7] == 'c' && chars[a + 8] == 'e';
    proof {
        let w = chars@.subrange(a as int, b as int);
        if r {
            assert(w =~= seq!['i', 'n', 't', 'e', 'r', 'f', 'a', 'c', 'e']);
        } else {
            if w == seq!['i', 'n', 't', 'e', 'r', 'f', 'a', 'c', 'e'] {
                assert(w.len() == b - a);
                assert(seq!['i', 'n', 't', 'e', 'r', 'f', 'a', 'c', 'e'].len() == 9);
                assert(b - a == 9);
                assert(chars@[a as int] == w[0]);
                assert(chars@[a + 1] == w[1]);
                assert(chars@[a + 2] == w[2]);
                assert(chars@[a + 3] == w[3]);
                assert(chars@[a + 4] == w[4]);
                assert(chars@[a + 5] == w[5]);
                assert(chars@[a + 6] == w[6]);
                assert(chars@[a + 7] == w[7]);
                assert(chars@[a + 8] == w[8]);
            }
        }
    }
    r
}

/// Find every operator occurrence in the buffer, skipping non-code regions
/// and type positions.
fn find_operator_occurrences(chars: &Vec<char>, syntax: &ScSyntax) -> (os: Vec<OpOccurrence>)
    ensures
        occs_abs(os@) == spec_occurrences(chars@, syntax.pipeline, syntax.cons),
        forall|k: int|
            0 <= k < os@.len() ==> (#[trigger] os@[k]).start + 2 == os@[k].end && os@[k].end
                <= chars@.len(),
{
    let n = chars.len();
    let pipeline = syntax.pipeline;
    let cons = syntax.cons;
    let mut os: Vec<OpOccurrence> = Vec::new();
    let mut i: usize = 0;
    let mut td: usize = 0;
    let mut ad: usize = 0;
    let mut ta = false;
    let mut ii = false;
    let mut ts = TemplateState::new();
    while i < n
        invariant
            i <= n == chars@.len(),
            td <= i,
            ad <= i,
            template_wf(ts@, i as int),
            occs_abs(os@) + occs_from(
                chars@,
                i as int,
                td as int,
                ad as int,
                ta,
                ii,
                ts@,
                pipeline,
                cons,
            ) == spec_occurrences(chars@, pipeline, cons),
            pipeline == syntax.pipeline,
            cons == syntax.cons,
            forall|k: int|
                0 <= k < os@.len() ==> (#[trigger] os@[k]).start + 2 == os@[k].end && os@[k].end
                    <= chars@.len(),
        decreases n - i,
    {
        let ghost pre_stack = ts@;
        match ts.handle_char(chars.as_slice(), i) {
            HandleResult::Skip(step) => {
                i = i + step;
                continue ;
            },
            HandleResult::Process => {},
        }

        if let Some(sk) = op_skip_non_code(chars.as_slice(), i) {
            i = sk;
            continue ;
        }

        if is_word_start(chars.as_slice(), i) {
            let wend = scan_word(chars.as_slice(), i + 1);
            if word_is_type(chars.as_slice(), i, wend) {
                ta = true;
                td = 0;
            } else if word_is_interface(chars.as_slice(), i, wend) {
                ii = true;
                td = 0;
            }
            i = wend;
            continue ;
        }

        let c = chars[i];
        if c == ';' {
            td = 0;
            ta = false;
            ii = false;
            i = i + 1;
            continue ;
        }
        if c == ':' {
            if i + 1 < n && chars[i + 1] == ':' {
                if cons && !in_type_context(td, ad, ta, ii) {
                    let occ = OpOccurrence { op: ScBinaryOp::Cons, start: i, end: i + 2 };
                    let ghost tail = occs_from(
                        chars@,
                        i as int,
                        td as int,
                        ad as int,
                        ta,
                        ii,
                        ts@,
                        pipeline,
                        cons,
                    );
                    proof {
                        assert(tail == seq![occ@] + occs_from(
                            chars@,
                            i + 2,
                            td as int,
                            ad as int,
                            ta,
                            ii,
                            ts@,
                            pipeline,
                            cons,
                        ));
                    }
                    os.push(occ);
                    proof {
                        assert(occs_abs(os@) =~= occs_abs(os@.drop_last()).push(os@.last()@));
                        assert(occs_abs(os@) + occs_from(
                            chars@,
                            i + 2,
                            td as int,
                            ad as int,
                            ta,
                            ii,
                            ts@,
                            pipeline,
                            cons,
                        ) =~= spec_occurrences(chars@, pipeline, cons));
                    }
                }
                i = i + 2;
                continue ;
            }
            td = td + 1;
            i = i + 1;
            continue ;
        }
        if c == '|' {
            if i + 1 < n && chars[i + 1] == '>' {
                if pipeline && !in_type_context(td, ad, ta, ii) {
                    let occ = OpOccurrence { op: ScBinaryOp::Pipeline, start: i, end: i + 2 };
                    let ghost tail = occs_from(
                        chars@,
                        i as int,
                        td as int,
                        ad as int,
                        ta,
                        ii,
                        ts@,
                        pipeline,
                        cons,
                    );
                    proof {
                        assert(tail == seq![occ@] + occs_from(
                            chars@,
                            i + 2,
                            td as int,
                            ad as int,
                            ta,
                            ii,
                            ts@,
                            pipeline,
                            cons,
                        ));
                    }
                    os.push(occ);
                    proof {
                        assert(occs_abs(os@) =~= occs_abs(os@.drop_last()).push(os@.last()@));
                        assert(occs_abs(os@) + occs_from(
                            chars@,
                            i + 2,
                            td as int,
                            ad as int,
                            ta,
                            ii,
                            ts@,
                            pipeline,
                            cons,
                        ) =~= spec_occurrences(chars@, pipeline, cons));
                    }
                }
                i = i + 2;
                continue ;
            }
            i = i + 1;
            continue ;
        }
        if c == '<' {
            if i > 0 && crate::text::is_ident_char(chars[i - 1]) {
                ad = ad + 1;
            }
            i = i + 1;
            continue ;
        }
        if c == '>' {
            if ad > 0 {
                ad = ad - 1;
            }
            i = i + 1;
            continue ;
        }
        if c == '=' || c == ')' || c == '}' || c == ',' {
            if !ta {
                td = if td > 0 {
                    td - 1
                } else {
                    0
                };
            }
            i = i + 1;
            continue ;
        }
        if c == '{' {
            if !ii {
                td = 0;
            }
            i = i + 1;
            continue ;
        }
        i = i + 1;
    }
    proof {
        assert(occs_abs(os@) =~= spec_occurrences(chars@, pipeline, cons));
    }
    os
}

/// Whether occurrence `x` displaces `acc` as the next operator to resolve:
/// a higher precedence wins; at equal precedence a right-associative
/// operator prefers the rightmost occurrence and a left-associative one the
/// leftmost.
pub open spec fn occ_displaces(acc: OpOccurrenceV, x: OpOccurrenceV) -> bool {
    ||| x.op.spec_precedence() > acc.op.spec_precedence()
    ||| (x.op.spec_precedence() == acc.op.spec_precedence() && (if acc.op.spec_is_right_assoc() {
        x.start >= acc.start
    } else {
        x.start <= acc.start
    }))
}

pub open spec fn select_from(os: Seq<OpOccurrenceV>, k: int, acc: OpOccurrenceV) -> OpOccurrenceV
    decreases os.len() - k,
{
    if k < 0 || k >= os.len() {
        acc
    } else {
        select_from(
            os,
            k + 1,
            if occ_displaces(acc, os[k]) {
                os[k]
            } else {
                acc
            },
        )
    }
}

/// The occurrence the next iteration resolves.
pub open spec fn selected_occ(os: Seq<OpOccurrenceV>) -> OpOccurrenceV {
    select_from(os, 1, os[0])
}

/// First position at or after `j`, but before `limit`, whose character is
/// not whitespace.
pub open spec fn ws_end_upto(s: Seq<char>, j: int, limit: int) -> int
    decreases limit - j,
{
    if 0 <= j < limit && j < s.len() && whitespace_char(s[j]) {
        ws_end_upto(s, j + 1, limit)
    } else {
        j
    }
}

/// An operand boundary, with the whitespace after the boundary token
/// skipped.
fn boundary_after(chars: &Vec<char>, pos: usize, limit: usize) -> (r: usize)
    requires
        pos <= limit <= chars@.len(),
    ensures
        r == ws_end_upto(chars@, pos as int, limit as int),
        pos <= r <= limit,
{
    let mut p = pos;
    while p < limit && chars[p].is_whitespace()
        invariant
            pos <= p <= limit <= chars@.len(),
            ws_end_upto(chars@, pos as int, limit as int) == ws_end_upto(
                chars@,
                p as int,
                limit as int,
            ),
        decreases limit - p,
    {
        p = p + 1;
    }
    p
}

/// Start position of the left operand, scanning backward over the buffer's
/// first `i` characters with bracket depth `depth`. The scan stops at an
/// unmatched opening bracket, a depth-0 `;`, `,` or assignment `=`, or a
/// depth-0 occurrence of either custom operator of no higher precedence
/// than `op`.
pub open spec fn left_scan(s: Seq<char>, i: int, depth: int, op: ScBinaryOp, limit: int) -> int
    decreases i,
{
    if i <= 0 {
        0
    } else {
        let j = i - 1;
        let c = s[j];
        if c == ')' || c == ']' || c == '}' {
            left_scan(s, j, depth + 1, op, limit)
        } else if c == '(' || c == '[' || c == '{' {
            if depth == 0 {
                ws_end_upto(s, j + 1, limit)
            } else {
                left_scan(s, j, depth - 1, op, limit)
            }
        } else if (c == ';' || c == ',') && depth == 0 {
            ws_end_upto(s, j + 1, limit)
        } else if c == '=' && depth == 0 {
            if j + 1 < limit && s[j + 1] == '>' {
                left_scan(s, j, depth, op, limit)
            } else if j > 0 && s[j - 1] == '=' {
                left_scan(s, j, depth, op, limit)
            } else {
                ws_end_upto(s, j + 1, limit)
            }
        } else if c == '>' && depth == 0 && j > 0 && s[j - 1] == '|' {
            if ScBinaryOp::Pipeline.spec_precedence() <= op.spec_precedence() {
                ws_end_upto(s, j + 1, limit)
            } else {
                left_scan(s, j, depth, op, limit)
            }
        } else if c == ':' && depth == 0 {
            if j > 0 && s[j - 1] == ':' {
                if ScBinaryOp::Cons.spec_precedence() <= op.spec_precedence() {
                    ws_end_upto(s, j + 1, limit)
                } else {
                    left_scan(s, j - 1, depth, op, limit)
                }
            } else {
                ws_end_upto(s, j + 1, limit)
            }
        } else {
            left_scan(s, j, depth, op, limit)
        }
    }
}

/// Start position of the left operand of the operator at `op_start`.
pub open spec fn left_operand(s: Seq<char>, op_start: int, op: ScBinaryOp) -> int {
    left_scan(s, ws_start(s, op_start), 0, op, op_start)
}

/// Resolve the left operand boundary of the operator at `op_start`.
fn find_left_operand(chars: &Vec<char>, op_start: usize, op: ScBinaryOp) -> (r: usize)
    requires
        op_start <= chars@.len(),
    ensures
        r == left_operand(chars@, op_start as int, op),
        r <= op_start,
{
    let limit = op_start;
    let mut i = skip_ws_back(chars.as_slice(), op_start);
    let mut depth: usize = 0;
    while i > 0
        invariant
            i <= limit <= chars@.len(),
            depth <= limit - i,
            left_operand(chars@, op_start as int, op) == left_scan(
                chars@,
                i as int,
                depth as int,
                op,
                limit as int,
            ),
            limit == op_start,
        decreases i,
    {
        let j = i - 1;
        let c = chars[j];
        if c == ')' || c == ']' || c == '}' {
            depth = depth + 1;
            i = j;
        } else if c == '(' || c == '[' || c == '{' {
            if depth == 0 {
                return boundary_after(chars, j + 1, limit);
            }
            depth = depth - 1;
            i = j;
        } else if (c == ';' || c == ',') && depth == 0 {
            return boundary_after(chars, j + 1, limit);
        } else if c == '=' && depth == 0 {
            if j + 1 < limit && chars[j + 1] == '>' {
                i = j;
            } else if j > 0 && chars[j - 1] == '=' {
                i = j;
            } else {
                return boundary_after(chars, j + 1, limit);
            }
        } else if c == '>' && depth == 0 && j > 0 && chars[j - 1] == '|' {
            if ScBinaryOp::Pipeline.precedence() <= op.precedence() {
                return boundary_after(chars, j + 1, limit);
            }
            i = j;
        } else if c == ':' && depth == 0 {
            if j > 0 && chars[j - 1] == ':' {
                if ScBinaryOp::Cons.precedence() <= op.precedence() {
                    return boundary_after(chars, j + 1, limit);
                }
                // Skip the first `:` of `::` as well.
                i = j - 1;
            } else {
                return boundary_after(chars, j + 1, limit);
            }
        } else {
            i = j;
        }
    }
    0
}

/// End position of the right operand, scanning forward from `i` with
/// bracket depth `depth`. The scan stops at an unmatched closing bracket, a
/// depth-0 `;` or `,`, or a depth-0 occurrence of either custom operator
/// that does not belong to the operand: for a right-associative operator an
/// occurrence of the same precedence is included, for a left-associative
/// one it stops the scan.
pub open spec fn right_scan(s: Seq<char>, i: int, depth: int, op: ScBinaryOp, base: int) -> int
    decreases buf_rem(s, i),
{
    if i < 0 || i >= s.len() {
        s.len() as int
    } else {
        let c = s[i];
        if depth == 0 && whitespace_char(c) && i == base {
            right_scan(s, i + 1, depth, op, base)
        } else if c == '(' || c == '[' || c == '{' {
            right_scan(s, i + 1, depth + 1, op, base)
        } else if c == ')' || c == ']' || c == '}' {
            if depth == 0 {
                i
            } else {
                right_scan(s, i + 1, depth - 1, op, base)
            }
        } else if c == ';' && depth == 0 {
            i
        } else if c == ',' && depth == 0 {
            i
        } else if c == '|' && depth == 0 && i + 1 < s.len() && s[i + 1] == '>' {
            if op.spec_is_right_assoc() {
                if ScBinaryOp::Pipeline.spec_precedence() < op.spec_precedence() {
                    i
                } else {
                    right_scan(s, i + 1, depth, op, base)
                }
            } else {
                if ScBinaryOp::Pipeline.spec_precedence() <= op.spec_precedence() {
                    i
                } else {
                    right_scan(s, i + 1, depth, op, base)
                }
            }
        } else if c == ':' && depth == 0 && i + 1 < s.len() && s[i + 1] == ':' {
            if op.spec_is_right_assoc() {
                if ScBinaryOp::Cons.spec_precedence() < op.spec_precedence() {
                    i
                } else {
                    right_scan(s, i + 2, depth, op, base)
                }
            } else {
                if ScBinaryOp::Cons.spec_precedence() <= op.spec_precedence() {
                    i
                } else {
                    right_scan(s, i + 2, depth, op, base)
                }
            }
        } else {
            right_scan(s, i + 1, depth, op, base)
        }
    }
}

/// End position of the right operand of the operator ending at `op_end`.
pub open spec fn right_operand(s: Seq<char>, op_end: int, op: ScBinaryOp) -> int {
    right_scan(s, op_end, 0, op, op_end)
}

/// Resolve the right operand boundary of the operator ending at `op_end`.
fn find_right_operand(chars: &Vec<char>, op_end: usize, op: ScBinaryOp) -> (r: usize)
    requires
        op_end <= chars@.len(),
    ensures
        r == right_operand(chars@, op_end as int, op),
        r <= chars@.len(),
{
    let n = chars.len();
    let mut i = op_end;
    let mut depth: usize = 0;
    while i < n
        invariant
            op_end <= i <= n == chars@.len(),
            depth <= i - op_end,
            right_operand(chars@, op_end as int, op) == right_scan(
                chars@,
                i as int,
                depth as int,
                op,
                op_end as int,
            ),
        decreases n - i,
    {
        let c = chars[i];
        if depth == 0 && c.is_whitespace() && i == op_end {
            i = i + 1;
            continue ;
        }
        if c == '(' || c == '[' || c == '{' {
            depth = depth + 1;
            i = i + 1;
            continue ;
        }
        if c == ')' || c == ']' || c == '}' {
            if depth == 0 {
                return i;
            }
            depth = depth - 1;
            i = i + 1;
            continue ;
        }
        if c == ';' && depth == 0 {
            return i;
        }
        if c == ',' && depth == 0 {
            return i;
        }
        if c == '|' && depth == 0 && i + 1 < n && chars[i + 1] == '>' {
            if op.is_right_assoc() {
                if ScBinaryOp::Pipeline.precedence() < op.precedence() {
                    return i;
                }
            } else {
                if ScBinaryOp::Pipeline.precedence() <= op.precedence() {
                    return i;
                }
            }
            i = i + 1;
            continue ;
        }
        if c == ':' && depth == 0 && i + 1 < n && chars[i + 1] == ':' {
            if op.is_right_assoc() {
                if ScBinaryOp::Cons.precedence() < op.precedence() {
                    return i;
                }
            } else {
                if ScBinaryOp::Cons.precedence() <= op.precedence() {
                    return i;
                }
            }
            i = i + 2;
            continue ;
        }
        i = i + 1;
    }
    n
}

/// Pick the next operator to resolve: highest precedence first; at equal
/// precedence, leftmost for a left-associative operator and rightmost for a
/// right-associative one.
fn select_next_operator(os: &Vec<OpOccurrence>) -> (r: OpOccurrence)
    requires
        os@.len() > 0,
        forall|k: int|
            0 <= k < os@.len() ==> (#[trigger] os@[k]).start + 2 == os@[k].end,
    ensures
        r@ == selected_occ(occs_abs(os@)),
        r.start + 2 == r.end,
        exists|k: int| 0 <= k < os@.len() && r@ == #[trigger] occs_abs(os@)[k],
{
    let mut acc = os[0];
    proof {
        assert(acc@ == occs_abs(os@)[0]);
    }
    let mut k: usize = 1;
    while k < os.len()
        invariant
            1 <= k <= os@.len(),
            forall|j: int|
                0 <= j < os@.len() ==> (#[trigger] os@[j]).start + 2 == os@[j].end,
            acc.start + 2 == acc.end,
            exists|j: int| 0 <= j < os@.len() && acc@ == #[trigger] occs_abs(os@)[j],
            selected_occ(occs_abs(os@)) == select_from(occs_abs(os@), k as int, acc@),
        decreases os@.len() - k,
    {
        let x = os[k];
        let displace = if x.op.precedence() > acc.op.precedence() {
            true
        } else if x.op.precedence() == acc.op.precedence() {
            if acc.op.is_right_assoc() {
                x.start >= acc.start
            } else {
                x.start <= acc.start
            }
        } else {
            false
        };
        proof {
            assert(occs_abs(os@)[k as int] == os@[k as int]@);
            assert(displace == occ_displaces(acc@, occs_abs(os@)[k as int]));
        }
        if displace {
            acc = x;
            proof {
                assert(acc@ == occs_abs(os@)[k as int]);
            }
        }
        k = k + 1;
    }
    acc
}

/// Context exclusion: a buffer that is a single non-code region from end to
/// end — one comment, one string literal, or one regex literal — holds no
/// operator occurrence, so the operator pass returns it unchanged.
pub proof fn lemma_single_non_code_region_unchanged(s: Seq<char>, syntax: ScSyntax)
    ensures
        op_skip_non_code_at(s, 0) == Some(s.len() as int) ==> spec_occurrences(
            s,
            syntax.pipeline,
            syntax.cons,
        ) == Seq::<OpOccurrenceV>::empty(),
        op_skip_non_code_at(s, 0) == Some(s.len() as int) ==> spec_rewrite_operators(s, syntax)
            == Ok::<_, PreprocessError>(s),
{
    if op_skip_non_code_at(s, 0) == Some(s.len() as int) {
        if s.len() > 0 {
            assert(s[0] != '`');
            assert(occs_from(s, s.len() as int, 0, 0, false, false, Seq::empty(), syntax.pipeline, syntax.cons)
                =~= Seq::<OpOccurrenceV>::empty());
        }
        assert(spec_occurrences(s, syntax.pipeline, syntax.cons) =~= Seq::<OpOccurrenceV>::empty());
    }
}

/// Upper bound on rewrite iterations, so that pathological input cannot
/// loop forever.
pub const MAX_REWRITE_ITERATIONS: usize = 1000;

/// The call-expression text substituted for one operator occurrence:
/// `__binop__(<left>, "<op>", <right>)` with both operand texts trimmed.
pub open spec fn binop_replacement(s: Seq<char>, left: int, right: int, occ: OpOccurrenceV) -> Seq<
    char,
> {
    seq!['_', '_', 'b', 'i', 'n', 'o', 'p', '_', '_', '('] + trim(spec_sub(s, left, occ.start))
        + seq![',', ' ', '"'] + occ.op.spec_text() + seq!['"', ',', ' '] + trim(
        spec_sub(s, occ.end, right),
    ) + seq![')']
}

/// One rewrite step: resolve the occurrence's operand boundaries and
/// substitute the canonical call expression.
pub open spec fn rewrite_once(s: Seq<char>, occ: OpOccurrenceV) -> Seq<char> {
    let left = left_operand(s, occ.start, occ.op);
    let right = right_operand(s, occ.end, occ.op);
    splice_at(s, left, right, binop_replacement(s, left, right, occ))
}

/// The fixpoint loop: resolve one occurrence per step until none remain
/// (`Ok` with the final text) or the fuel runs out with occurrences still
/// left (`Err`).
pub open spec fn rewrite_loop(s: Seq<char>, pipeline: bool, cons: bool, fuel: nat) -> Result<
    Seq<char>,
    PreprocessError,
>
    decreases fuel,
{
    let occs = spec_occurrences(s, pipeline, cons);
    if occs.len() == 0 {
        Ok(s)
    } else if fuel == 0 {
        Err(PreprocessError::RewriteCapExceeded)
    } else {
        rewrite_loop(rewrite_once(s, selected_occ(occs)), pipeline, cons, (fuel - 1) as nat)
    }
}

/// The whole operator pass on a buffer.
pub open spec fn spec_rewrite_operators(s: Seq<char>, syntax: ScSyntax) -> Result<
    Seq<char>,
    PreprocessError,
> {
    rewrite_loop(s, syntax.pipeline, syntax.cons, MAX_REWRITE_ITERATIONS as nat)
}

/// Rewrite all custom operator occurrences of the source to `__binop__`
/// calls, honoring precedence and associativity, until none remain.
///
/// Fails with [`PreprocessError::RewriteCapExceeded`] when the iteration
/// cap is hit with occurrences still left, rather than returning partially
/// rewritten text.
pub fn rewrite_operators(source: &str, syntax: &ScSyntax) -> (r: Result<String, PreprocessError>)
    ensures
        match r {
            Ok(out) => spec_rewrite_operators(source@, *syntax) == Ok::<_, PreprocessError>(
                out@,
            ),
            Err(e) => spec_rewrite_operators(source@, *syntax) == Err::<Seq<char>, _>(e),
        },
{
    let mut buf = crate::text::str_to_chars(source);
    let mut fuel: usize = MAX_REWRITE_ITERATIONS;
    loop
        invariant
            rewrite_loop(buf@, syntax.pipeline, syntax.cons, fuel as nat)
                == spec_rewrite_operators(source@, *syntax),
        decreases fuel,
    {
        let occs = find_operator_occurrences(&buf, syntax);
        if occs.len() == 0 {
            proof {
                assert(spec_occurrences(buf@, syntax.pipeline, syntax.cons).len() == 0);
            }
            return Ok(crate::text::chars_to_string(&buf));
        }
        if fuel == 0 {
            return Err(PreprocessError::RewriteCapExceeded);
        }

        let next = select_next_operator(&occs);
        proof {
            assert(occs@[0]@ == occs_abs(occs@)[0]);
        }

        let left = find_left_operand(&buf, next.start, next.op);
        let right = find_right_operand(&buf, next.end, next.op);

        let left_raw = sub_chars(&buf, left, next.start);
        let left_text = trim_chars(&left_raw);
        let right_raw = sub_chars(&buf, next.end, right);
        let right_text = trim_chars(&right_raw);

        let mut text: Vec<char> = Vec::new();
        crate::text::push_str_chars(&mut text, "__binop__(");
        crate::text::push_chars(&mut text, &left_text);
        crate::text::push_str_chars(&mut text, ", \"");
        crate::text::push_str_chars(&mut text, next.op.text());
        crate::text::push_str_chars(&mut text, "\", ");
        crate::text::push_chars(&mut text, &right_text);
        text.push(')');
        proof {
            reveal_strlit("__binop__(");
            reveal_strlit(", \"");
            reveal_strlit("\", ");
            assert("__binop__("@ =~= seq!['_', '_', 'b', 'i', 'n', 'o', 'p', '_', '_', '(']);
            assert(", \""@ =~= seq![',', ' ', '"']);
            assert("\", "@ =~= seq!['"', ',', ' ']);
            assert(text@ =~= binop_replacement(buf@, left as int, right as int, next@));
        }

        let new_buf = crate::text::splice_chars(&buf, left, right, &text);
        proof {
            assert(new_buf@ == rewrite_once(buf@, next@));
            assert(rewrite_loop(buf@, syntax.pipeline, syntax.cons, fuel as nat) == rewrite_loop(
                new_buf@,
                syntax.pipeline,
                syntax.cons,
                (fuel - 1) as nat,
            ));
        }
        buf = new_buf;
        fuel = fuel - 1;
    }
}

} // verus!
