//! Lexical context tracking shared by the rewrite passes: skipping comments
//! and plain string literals, and following template-literal nesting.

use vstd::prelude::*;

use crate::text::whitespace_char;

verus! {

/// Number of characters a line comment covers from `j` to its ending
/// newline (exclusive) or the end of the buffer.
pub open spec fn line_comment_count(s: Seq<char>, j: int) -> nat
    decreases s.len() - j,
{
    if j < 0 || j >= s.len() {
        0
    } else if s[j] == '\n' {
        0
    } else {
        1 + line_comment_count(s, j + 1)
    }
}

/// Position of the character ending a line comment: the first `'\n'` at or
/// after `j`, or the end of the buffer.
pub open spec fn line_comment_end(s: Seq<char>, j: int) -> int {
    j + line_comment_count(s, j)
}

/// Number of characters a block comment covers from `j` to just past its
/// closing `*/`, or to the end of the buffer when it is unterminated.
pub open spec fn block_comment_count(s: Seq<char>, j: int) -> nat
    decreases s.len() - j,
{
    if j < 0 {
        0
    } else if j + 1 >= s.len() {
        if j <= s.len() {
            (s.len() - j) as nat
        } else {
            0
        }
    } else if s[j] == '*' && s[j + 1] == '/' {
        2
    } else {
        1 + block_comment_count(s, j + 1)
    }
}

/// Position just after the `*/` closing a block comment opened before `j`,
/// or the end of the buffer when the comment is unterminated.
pub open spec fn block_comment_end(s: Seq<char>, j: int) -> int {
    j + block_comment_count(s, j)
}

/// Number of characters a string literal body covers from `j` to just past
/// its closing quote, or to the end of the buffer when unterminated; a
/// backslash always escapes the next character.
pub open spec fn string_body_count(s: Seq<char>, quote: char, j: int) -> nat
    decreases s.len() - j,
{
    if j < 0 || j >= s.len() {
        0
    } else if s[j] == quote {
        1
    } else if s[j] == '\\' {
        if j + 2 <= s.len() {
            2 + string_body_count(s, quote, j + 2)
        } else {
            (s.len() - j) as nat
        }
    } else {
        1 + string_body_count(s, quote, j + 1)
    }
}

/// Position just after the closing quote of a string literal whose body
/// starts at `j`. An unterminated literal runs to the end of the buffer.
pub open spec fn string_end(s: Seq<char>, quote: char, j: int) -> int {
    j + string_body_count(s, quote, j)
}

/// Where position `i` begins a non-code region that the passes must skip —
/// a line comment, a block comment, or a `'`/`"` string literal — the
/// position just after that region. Template literals are not handled here:
/// their interpolations contain real code and are followed with
/// [`TemplateState`].
pub open spec fn skip_non_code_at(s: Seq<char>, i: int) -> Option<int> {
    if i >= s.len() {
        Some(s.len() as int)
    } else if s[i] == '/' && i + 1 < s.len() && s[i + 1] == '/' {
        let e = line_comment_end(s, i + 2);
        Some(if e < s.len() { e + 1 } else { s.len() as int })
    } else if s[i] == '/' && i + 1 < s.len() && s[i + 1] == '*' {
        Some(block_comment_end(s, i + 2))
    } else if s[i] == '"' || s[i] == '\'' {
        Some(string_end(s, s[i], i + 1))
    } else {
        None
    }
}

/// Skip over comments and plain string literals (not template literals).
///
/// Returns `Some(p)` when `i` begins such a region, with `p` the first
/// position after it, and `None` when `i` is ordinary code.
pub fn skip_non_code(chars: &[char], i: usize) -> (r: Option<usize>)
    ensures
        match r {
            Some(v) => {
                &&& skip_non_code_at(chars@, i as int) == Some(v as int)
                &&& v <= chars@.len()
                &&& (i < chars@.len() ==> i < v)
            },
            None => skip_non_code_at(chars@, i as int) is None,
        },
{
    let n = chars.len();
    if i >= n {
        return Some(n);
    }

    // Line comment: `//` to the end of the line.
    if chars[i] == '/' && i + 1 < n && chars[i + 1] == '/' {
        let mut j = i + 2;
        while j < n && chars[j] != '\n'
            invariant
                i + 2 <= j <= n == chars@.len(),
                line_comment_end(chars@, i + 2) == line_comment_end(chars@, j as int),
            decreases n - j,
        {
            j = j + 1;
        }
        return Some(if j < n { j + 1 } else { n });
    }

    // Block comment: `/*` to the first `*/`, or to the end of the buffer.
    if chars[i] == '/' && i + 1 < n && chars[i + 1] == '*' {
        let mut j = i + 2;
        while j < n - 1
            invariant
                2 <= i + 2 <= j <= n == chars@.len(),
                chars@[i as int] == '/',
                chars@[i + 1] == '*',
                block_comment_end(chars@, i + 2) == block_comment_end(chars@, j as int),
            decreases n - j,
        {
            if chars[j] == '*' && chars[j + 1] == '/' {
                proof {
                    assert(block_comment_end(chars@, j as int) == j + 2);
                }
                return Some(j + 2);
            }
            j = j + 1;
        }
        return Some(n);
    }

    // String literal: to the matching unescaped closing quote.
    if chars[i] == '"' || chars[i] == '\'' {
        let quote = chars[i];
        let mut j = i + 1;
        while j < n && chars[j] != quote
            invariant
                i + 1 <= j <= n == chars@.len(),
                string_end(chars@, quote, i + 1) == string_end(chars@, quote, j as int),
            decreases n - j,
        {
            if chars[j] == '\\' {
                if j < n - 1 {
                    j = j + 2;
                } else {
                    j = n;
                }
            } else {
                j = j + 1;
            }
        }
        return Some(if j < n { j + 1 } else { j });
    }

    None
}

/// State for tracking template-literal nesting.
///
/// Each stack entry is one currently open template literal, holding the
/// brace depth of that literal's current interpolation:
/// - `0` — in the literal text part,
/// - `> 0` — inside an interpolation nested that many braces deep.
pub struct TemplateState {
    stack: Vec<usize>,
}

impl View for TemplateState {
    type V = Seq<usize>;

    closed spec fn view(&self) -> Seq<usize> {
        self.stack@
    }
}

/// What [`TemplateState::handle_char`] asks the caller to do.
pub enum HandleResult {
    /// The character was consumed by template handling; advance this many
    /// positions.
    Skip(usize),
    /// The character is ordinary code; process it normally.
    Process,
}

/// Every open interpolation's brace depth is bounded by the scan position,
/// so that depth counters cannot overflow.
pub open spec fn template_wf(stack: Seq<usize>, i: int) -> bool {
    forall|k: int| 0 <= k < stack.len() ==> stack[k] <= i
}

/// The template stack after handling the character at `i`.
pub open spec fn template_step_stack(stack: Seq<usize>, s: Seq<char>, i: int) -> Seq<usize> {
    if stack.len() == 0 {
        if s[i] == '`' {
            stack.push(0)
        } else {
            stack
        }
    } else {
        let depth = stack.last();
        if depth == 0 {
            if s[i] == '\\' && i + 1 < s.len() {
                stack
            } else if s[i] == '$' && i + 1 < s.len() && s[i + 1] == '{' {
                stack.update(stack.len() - 1, 1)
            } else if s[i] == '`' {
                stack.drop_last()
            } else {
                stack
            }
        } else {
            if s[i] == '`' {
                stack.push(0)
            } else if s[i] == '{' {
                stack.update(stack.len() - 1, (depth + 1) as usize)
            } else if s[i] == '}' {
                stack.update(stack.len() - 1, (depth - 1) as usize)
            } else {
                stack
            }
        }
    }
}

/// How many positions template handling consumed at `i`: `None` means the
/// character is code and is processed normally.
pub open spec fn template_step_skip(stack: Seq<usize>, s: Seq<char>, i: int) -> Option<int> {
    if stack.len() == 0 {
        if s[i] == '`' {
            Some(1)
        } else {
            None
        }
    } else {
        let depth = stack.last();
        if depth == 0 {
            if s[i] == '\\' && i + 1 < s.len() {
                Some(2)
            } else if s[i] == '$' && i + 1 < s.len() && s[i + 1] == '{' {
                Some(2)
            } else {
                Some(1)
            }
        } else {
            if s[i] == '`' {
                Some(1)
            } else if s[i] == '}' && depth == 1 {
                Some(1)
            } else {
                None
            }
        }
    }
}

impl TemplateState {
    pub fn new() -> (s: Self)
        ensures
            s@ == Seq::<usize>::empty(),
    {
        TemplateState { stack: Vec::new() }
    }

    /// Whether the position is inside a template literal at all, in its
    /// text part or in an interpolation.
    pub fn in_template(&self) -> (r: bool)
        ensures
            r == (self@.len() != 0),
    {
        self.stack.len() != 0
    }

    /// Whether the position is in the literal text part of a template, where
    /// every character is skipped.
    pub fn in_literal_part(&self) -> (r: bool)
        ensures
            r == (self@.len() != 0 && self@.last() == 0),
    {
        self.stack.len() != 0 && self.stack[self.stack.len() - 1] == 0
    }

    /// Handle the character at `i` and report whether template handling
    /// consumed it.
    ///
    /// A backtick opens a literal (or a nested one from inside an
    /// interpolation); `${` enters an interpolation; braces track the
    /// interpolation's nesting; the literal's own backtick closes it.
    pub fn handle_char(&mut self, chars: &[char], i: usize) -> (r: HandleResult)
        requires
            i < chars@.len(),
            template_wf(old(self)@, i as int),
        ensures
            final(self)@ == template_step_stack(old(self)@, chars@, i as int),
            template_wf(final(self)@, i + 1),
            match r {
                HandleResult::Skip(n) => {
                    &&& template_step_skip(old(self)@, chars@, i as int) == Some(n as int)
                    &&& 1 <= n
                    &&& i + n <= chars@.len()
                },
                HandleResult::Process => template_step_skip(
                    old(self)@,
                    chars@,
                    i as int,
                ) is None,
            },
    {
        let n = chars.len();
        if self.stack.len() == 0 {
            // Not in a template literal; a backtick opens one.
            if chars[i] == '`' {
                self.stack.push(0);
                return HandleResult::Skip(1);
            }
            return HandleResult::Process;
        }

        let top = self.stack.len() - 1;
        let depth = self.stack[top];

        if depth == 0 {
            // Literal text: skip until `${` or the closing backtick.
            if chars[i] == '\\' && i + 1 < n {
                return HandleResult::Skip(2);
            }
            if chars[i] == '$' && i + 1 < n && chars[i + 1] == '{' {
                // Start of an interpolation.
                self.stack[top] = 1;
                return HandleResult::Skip(2);
            }
            if chars[i] == '`' {
                // End of this template literal.
                self.stack.pop();
                return HandleResult::Skip(1);
            }
            // Skip a literal character.
            return HandleResult::Skip(1);
        }

        // Inside an interpolation: track braces and nested templates.
        if chars[i] == '`' {
            // A nested template literal opens.
            self.stack.push(0);
            return HandleResult::Skip(1);
        }

        if chars[i] == '{' {
            self.stack[top] = depth + 1;
            // Still process the brace: it may belong to an object literal.
            return HandleResult::Process;
        }

        if chars[i] == '}' {
            self.stack[top] = depth - 1;
            if depth == 1 {
                // End of the interpolation, back to literal text.
                return HandleResult::Skip(1);
            }
            return HandleResult::Process;
        }

        HandleResult::Process
    }
}

/// Characters left in the buffer from position `j` on: the measure by which
/// every forward scan terminates.
pub open spec fn buf_rem(s: Seq<char>, j: int) -> nat {
    if 0 <= j <= s.len() {
        (s.len() - j) as nat
    } else {
        0
    }
}

/// Number of consecutive whitespace characters starting at `j`.
pub open spec fn ws_count(s: Seq<char>, j: int) -> nat
    decreases s.len() - j,
{
    if j < 0 || j >= s.len() {
        0
    } else if whitespace_char(s[j]) {
        1 + ws_count(s, j + 1)
    } else {
        0
    }
}

/// First position at or after `j` whose character is not whitespace, or the
/// end of the buffer.
pub open spec fn ws_end(s: Seq<char>, j: int) -> int {
    j + ws_count(s, j)
}

/// Number of consecutive identifier characters (alphanumeric or `_`)
/// starting at `j`.
pub open spec fn ident_count(s: Seq<char>, j: int) -> nat
    decreases s.len() - j,
{
    if j < 0 || j >= s.len() {
        0
    } else if crate::text::ident_char(s[j]) {
        1 + ident_count(s, j + 1)
    } else {
        0
    }
}

/// First position at or after `j` whose character cannot continue an
/// identifier.
pub open spec fn ident_end(s: Seq<char>, j: int) -> int {
    j + ident_count(s, j)
}

/// Scan to the end of an identifier running from `j`.
pub fn scan_ident_end(chars: &[char], j: usize) -> (r: usize)
    requires
        j <= chars@.len(),
    ensures
        r == ident_end(chars@, j as int),
        j <= r <= chars@.len(),
{
    let n = chars.len();
    let mut p = j;
    while p < n && crate::text::is_ident_char(chars[p])
        invariant
            j <= p <= n == chars@.len(),
            ident_end(chars@, j as int) == ident_end(chars@, p as int),
        decreases n - p,
    {
        p = p + 1;
    }
    p
}

/// Skip whitespace forward from `j`.
pub fn skip_ws(chars: &[char], j: usize) -> (r: usize)
    requires
        j <= chars@.len(),
    ensures
        r == ws_end(chars@, j as int),
        j <= r <= chars@.len(),
{
    let n = chars.len();
    let mut p = j;
    while p < n && p < chars.len() && chars[p].is_whitespace()
        invariant
            j <= p <= n == chars@.len(),
            ws_end(chars@, j as int) == ws_end(chars@, p as int),
        decreases n - p,
    {
        p = p + 1;
    }
    p
}

/// Largest position at or before `j` such that every character between it
/// and `j` (exclusive) is whitespace.
pub open spec fn ws_start(s: Seq<char>, j: int) -> int
    decreases j,
{
    if j <= 0 {
        0
    } else if whitespace_char(s[j - 1]) {
        ws_start(s, j - 1)
    } else {
        j
    }
}

/// The characters of `w` with leading and trailing whitespace removed.
pub open spec fn trim(w: Seq<char>) -> Seq<char> {
    let a = ws_end(w, 0);
    let b = ws_start(w, w.len() as int);
    if a <= b {
        w.subrange(a, b)
    } else {
        Seq::empty()
    }
}

/// Trim leading and trailing whitespace.
pub fn trim_chars(w: &Vec<char>) -> (r: Vec<char>)
    ensures
        r@ == trim(w@),
{
    let a = skip_ws(w.as_slice(), 0);
    let b = skip_ws_back(w.as_slice(), w.len());
    if a <= b {
        let r = crate::text::sub_chars(w, a, b);
        proof {
            assert(r@ =~= trim(w@));
        }
        r
    } else {
        let r: Vec<char> = Vec::new();
        proof {
            assert(r@ =~= trim(w@));
        }
        r
    }
}

/// Skip whitespace backward from `j`.
pub fn skip_ws_back(chars: &[char], j: usize) -> (r: usize)
    requires
        j <= chars@.len(),
    ensures
        r == ws_start(chars@, j as int),
        r <= j,
{
    let mut p = j;
    while p > 0 && chars[p - 1].is_whitespace()
        invariant
            p <= j <= chars@.len(),
            ws_start(chars@, j as int) == ws_start(chars@, p as int),
        decreases p,
    {
        p = p - 1;
    }
    p
}

} // verus!
