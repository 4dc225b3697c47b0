//! Higher-kinded type parameter rewriting.
//!
//! Finds declarations like `F<_>` in live code, strips the `<_>` placeholder
//! bracket, and rewrites in-scope usages `F<A>` to `$<F, A>`. Usages of the
//! same name outside every declaring scope are left untouched.

use vstd::prelude::*;

use crate::scan::HandleResult;
use crate::scan::TemplateState;
use crate::scan::ident_end;
use crate::scan::skip_non_code;
use crate::scan::skip_non_code_at;
use crate::scan::skip_ws;
use crate::scan::template_step_skip;
use crate::scan::template_step_stack;
use crate::scan::template_wf;
use crate::scan::trim;
use crate::scan::trim_chars;
use crate::scan::ws_end;
use crate::text::ascii_upper_char;
use crate::text::chars_eq;
use crate::text::is_ascii_upper;
use crate::text::spec_sub;
use crate::text::sub_chars;
use crate::text::whitespace_char;

verus! {

/// A located `F<_>` declaration.
#[verifier::ext_equal]
pub ghost struct HktDeclV {
    /// The parameter's name.
    pub name: Seq<char>,
    /// Start of the `<...>` placeholder bracket to delete.
    pub remove_start: int,
    /// Position just after the placeholder bracket.
    pub remove_end: int,
    /// Start of the scope in which usages are rewritten.
    pub scope_start: int,
    /// End of that scope.
    pub scope_end: int,
}

/// A located usage `F<Args>` eligible for rewriting.
#[verifier::ext_equal]
pub ghost struct HktUsageV {
    /// Position of the identifier.
    pub start: int,
    /// Position just after the closing `>`.
    pub end: int,
    /// The parameter's name.
    pub name: Seq<char>,
    /// The argument text between `<` and `>`, trimmed.
    pub args: Seq<char>,
}

/// A pending text replacement over the buffer.
#[verifier::ext_equal]
pub ghost struct ReplacementV {
    pub start: int,
    pub end: int,
    pub text: Seq<char>,
}

/// A located `F<_>` declaration, as the scanner collects it.
pub struct HktDecl {
    pub name: Vec<char>,
    pub remove_start: usize,
    pub remove_end: usize,
    pub scope_start: usize,
    pub scope_end: usize,
}

impl View for HktDecl {
    type V = HktDeclV;

    open spec fn view(&self) -> HktDeclV {
        HktDeclV {
            name: self.name@,
            remove_start: self.remove_start as int,
            remove_end: self.remove_end as int,
            scope_start: self.scope_start as int,
            scope_end: self.scope_end as int,
        }
    }
}

/// A located usage, as the scanner collects it.
pub struct HktUsage {
    pub start: usize,
    pub end: usize,
    pub name: Vec<char>,
    pub args: Vec<char>,
}

impl View for HktUsage {
    type V = HktUsageV;

    open spec fn view(&self) -> HktUsageV {
        HktUsageV {
            start: self.start as int,
            end: self.end as int,
            name: self.name@,
            args: self.args@,
        }
    }
}

/// A pending replacement, as the passes build it.
pub struct Replacement {
    pub start: usize,
    pub end: usize,
    pub text: Vec<char>,
}

impl View for Replacement {
    type V = ReplacementV;

    open spec fn view(&self) -> ReplacementV {
        ReplacementV {
            start: self.start as int,
            end: self.end as int,
            text: self.text@,
        }
    }
}

pub open spec fn decls_abs(ds: Seq<HktDecl>) -> Seq<HktDeclV> {
    ds.map_values(|d: HktDecl| d@)
}

pub open spec fn usages_abs(us: Seq<HktUsage>) -> Seq<HktUsageV> {
    us.map_values(|u: HktUsage| u@)
}

pub open spec fn reps_abs(rs: Seq<Replacement>) -> Seq<ReplacementV> {
    rs.map_values(|r: Replacement| r@)
}

/// Start of the scope enclosing a declaration at `pos`: just after the
/// nearest preceding `}` or `;`, or the start of the buffer.
pub open spec fn scope_start_at(s: Seq<char>, pos: int) -> int
    decreases pos,
{
    if pos <= 0 {
        0
    } else if s[pos - 1] == '}' || s[pos - 1] == ';' {
        pos
    } else {
        scope_start_at(s, pos - 1)
    }
}

/// End of the scope enclosing a declaration: scanning forward from the
/// declaration, the position just after the `}` closing the first block
/// opened (tracking brace depth), or just after a top-level `;`, or the end
/// of the buffer. Comments, strings and template-literal text are skipped.
pub open spec fn scope_end_from(s: Seq<char>, j: int, depth: int, stack: Seq<usize>) -> int
    decreases crate::scan::buf_rem(s, j),
{
    if j < 0 || j >= s.len() {
        s.len() as int
    } else {
        match template_step_skip(stack, s, j) {
            Some(n) => scope_end_from(s, j + n, depth, template_step_stack(stack, s, j)),
            None => {
                let st2 = template_step_stack(stack, s, j);
                match skip_non_code_at(s, j) {
                    Some(sk) => scope_end_from(s, sk, depth, st2),
                    None => if s[j] == '{' {
                        scope_end_from(s, j + 1, depth + 1, st2)
                    } else if s[j] == '}' {
                        if depth <= 1 {
                            j + 1
                        } else {
                            scope_end_from(s, j + 1, depth - 1, st2)
                        }
                    } else if s[j] == ';' && depth == 0 {
                        j + 1
                    } else {
                        scope_end_from(s, j + 1, depth, st2)
                    },
                }
            },
        }
    }
}

/// Offset from `i` to the `>` matching an angle bracket run starting at `i`
/// (bracket-depth-matched), or `None` when the scan hits a statement
/// boundary at depth &le; 1 or the end of the buffer first.
pub open spec fn angle_ofs(s: Seq<char>, i: int, depth: int) -> Option<nat>
    decreases s.len() - i,
{
    if i < 0 || i >= s.len() {
        None
    } else if s[i] == '<' {
        match angle_ofs(s, i + 1, depth + 1) {
            Some(o) => Some(o + 1),
            None => None,
        }
    } else if s[i] == '>' {
        if depth == 1 {
            Some(0)
        } else {
            match angle_ofs(s, i + 1, depth - 1) {
                Some(o) => Some(o + 1),
                None => None,
            }
        }
    } else if (s[i] == ';' || s[i] == '{' || s[i] == '}') && depth <= 1 {
        None
    } else {
        match angle_ofs(s, i + 1, depth) {
            Some(o) => Some(o + 1),
            None => None,
        }
    }
}

/// Position of the `>` matching the `<` at `start`, or `None`.
pub open spec fn matching_angle(s: Seq<char>, start: int) -> Option<int> {
    match angle_ofs(s, start, 0) {
        Some(o) => Some(start + o),
        None => None,
    }
}

/// Offset from `p` to the end of a comma-separated underscore placeholder
/// list already past its first `_`, paired with whether the list consists of
/// underscores only.
pub open spec fn placeholder_scan(s: Seq<char>, p: int) -> (nat, bool)
    decreases s.len() - p,
{
    let q = ws_end(s, p);
    if 0 <= p && q < s.len() && s[q] == ',' {
        let r = ws_end(s, q + 1);
        if r < s.len() && s[r] == '_' {
            let (o, ok) = placeholder_scan(s, r + 1);
            (((r + 1 - p) + o) as nat, ok)
        } else {
            ((r - p) as nat, false)
        }
    } else {
        ((q - p) as nat, true)
    }
}

/// Whether the bracket contents are only placeholder markers: underscores,
/// commas and whitespace.
pub open spec fn placeholder_only(w: Seq<char>) -> bool {
    forall|k: int| 0 <= k < w.len() ==> (w[k] == '_' || w[k] == ',' || whitespace_char(w[k]))
}

/// Whether the declaration's scope covers a usage of the same name at `pos`.
pub open spec fn decl_active(d: HktDeclV, name: Seq<char>, pos: int) -> bool {
    d.name == name && d.scope_start <= pos <= d.scope_end
}

pub open spec fn has_active_decl(ds: Seq<HktDeclV>, name: Seq<char>, pos: int) -> bool {
    exists|k: int| 0 <= k < ds.len() && decl_active(ds[k], name, pos)
}

/// The replacement deleting a declaration's placeholder bracket.
pub open spec fn decl_rep(d: HktDeclV) -> ReplacementV {
    ReplacementV { start: d.remove_start, end: d.remove_end, text: Seq::empty() }
}

/// The replacement rewriting a usage `Name<Args>` to `$<Name, Args>`.
pub open spec fn usage_rep(u: HktUsageV) -> ReplacementV {
    ReplacementV {
        start: u.start,
        end: u.end,
        text: seq!['$', '<'] + u.name + seq![',', ' '] + u.args + seq!['>'],
    }
}

pub open spec fn decl_reps(ds: Seq<HktDeclV>) -> Seq<ReplacementV> {
    ds.map_values(|d: HktDeclV| decl_rep(d))
}

pub open spec fn usage_reps(us: Seq<HktUsageV>) -> Seq<ReplacementV> {
    us.map_values(|u: HktUsageV| usage_rep(u))
}

/// Merge two replacement lists, each ascending by start offset, into one
/// list descending by start offset; on ties the first list's entry comes
/// first.
pub open spec fn merge_desc(a: Seq<ReplacementV>, b: Seq<ReplacementV>) -> Seq<ReplacementV>
    decreases a.len() + b.len(),
{
    if a.len() == 0 && b.len() == 0 {
        Seq::empty()
    } else if a.len() == 0 {
        seq![b.last()] + merge_desc(a, b.drop_last())
    } else if b.len() == 0 {
        seq![a.last()] + merge_desc(a.drop_last(), b)
    } else if b.last().start > a.last().start {
        seq![b.last()] + merge_desc(a, b.drop_last())
    } else {
        seq![a.last()] + merge_desc(a.drop_last(), b)
    }
}

/// Whether some kept replacement's span fully contains `r`'s span.
pub open spec fn contained_in(kept: Seq<ReplacementV>, r: ReplacementV) -> bool {
    exists|k: int| 0 <= k < kept.len() && kept[k].start <= r.start && r.end <= kept[k].end
}

/// Drop every replacement whose span is fully contained in one already
/// kept, keeping the rest in order.
pub open spec fn filter_reps(reps: Seq<ReplacementV>, kept: Seq<ReplacementV>) -> Seq<
    ReplacementV,
>
    decreases reps.len(),
{
    if reps.len() == 0 {
        kept
    } else {
        let r = reps.first();
        if contained_in(kept, r) {
            filter_reps(reps.drop_first(), kept)
        } else {
            filter_reps(reps.drop_first(), kept.push(r))
        }
    }
}

/// One replacement applied to the buffer.
pub open spec fn splice(s: Seq<char>, r: ReplacementV) -> Seq<char> {
    crate::text::splice_at(s, r.start, r.end, r.text)
}

/// The replacements applied in order; they stand in descending start order,
/// so each application leaves the offsets of the ones still to come valid.
pub open spec fn apply_reps(s: Seq<char>, reps: Seq<ReplacementV>) -> Seq<char>
    decreases reps.len(),
{
    if reps.len() == 0 {
        s
    } else {
        apply_reps(splice(s, reps.first()), reps.drop_first())
    }
}

/// The merged, filtered and applied replacement set of both passes.
pub open spec fn spec_apply_hkt(s: Seq<char>, ds: Seq<HktDeclV>, us: Seq<HktUsageV>) -> Seq<
    char,
> {
    apply_reps(s, filter_reps(merge_desc(decl_reps(ds), usage_reps(us)), Seq::empty()))
}

/// The whole pass: strip every declaration's placeholder bracket and
/// rewrite every eligible usage; a buffer with no declaration is returned
/// unchanged.
pub open spec fn spec_rewrite_hkt(s: Seq<char>) -> Seq<char> {
    let ds = spec_hkt_decls(s);
    if ds.len() == 0 {
        s
    } else {
        spec_apply_hkt(s, ds, spec_hkt_usages(s, ds))
    }
}

/// Find the `>` matching the `<` at `start`, tracking angle-bracket depth
/// and refusing to cross a `;`, `{` or `}` at depth 1.
fn find_matching_angle(chars: &Vec<char>, start: usize) -> (r: Option<usize>)
    requires
        start < chars@.len(),
        chars@[start as int] == '<',
    ensures
        match r {
            Some(v) => matching_angle(chars@, start as int) == Some(
                v as int,
            ) && start <= v < chars@.len(),
            None => matching_angle(chars@, start as int) is None,
        },
{
    let n = chars.len();
    let mut i = start;
    let mut depth: usize = 0;
    while i < n
        invariant
            start <= i <= n == chars@.len(),
            chars@[start as int] == '<',
            depth <= i - start,
            i == start ==> depth == 0,
            i > start ==> depth >= 1,
            matching_angle(chars@, start as int) == match angle_ofs(
                chars@,
                i as int,
                depth as int,
            ) {
                Some(o) => Some(i + o),
                None => None::<int>,
            },
        decreases n - i,
    {
        let c = chars[i];
        if c == '<' {
            depth = depth + 1;
        } else if c == '>' {
            if depth == 1 {
                return Some(i);
            }
            depth = depth - 1;
        } else if (c == ';' || c == '{' || c == '}') && depth <= 1 {
            return None;
        }
        i = i + 1;
    }
    None
}

/// The scope of a declaration at `pos`: backward to just after the nearest
/// `}` or `;`, forward to the `}` closing the first opened block or a
/// top-level `;`.
fn find_enclosing_scope(chars: &Vec<char>, pos: usize) -> (r: (usize, usize))
    requires
        pos <= chars@.len(),
    ensures
        r.0 == scope_start_at(chars@, pos as int),
        r.1 == scope_end_from(chars@, pos as int, 0, Seq::<usize>::empty()),
        r.0 <= pos <= r.1 <= chars@.len(),
{
    let n = chars.len();
    let scope_start = find_scope_start(chars, pos);

    // Scan forward for the end of the scope.
    let mut k = pos;
    let mut depth: usize = 0;
    let mut ts = TemplateState::new();
    while k < n
        invariant
            pos <= k <= n == chars@.len(),
            depth <= k,
            template_wf(ts@, k as int),
            scope_start == scope_start_at(chars@, pos as int),
            scope_start <= pos,
            scope_end_from(chars@, pos as int, 0, Seq::<usize>::empty()) == scope_end_from(
                chars@,
                k as int,
                depth as int,
                ts@,
            ),
        decreases n - k,
    {
        match ts.handle_char(chars.as_slice(), k) {
            HandleResult::Skip(step) => {
                k = k + step;
                continue ;
            },
            HandleResult::Process => {},
        }
        if let Some(sk) = skip_non_code(chars.as_slice(), k) {
            k = sk;
            continue ;
        }
        let c = chars[k];
        if c == '{' {
            depth = depth + 1;
        } else if c == '}' {
            if depth <= 1 {
                return (scope_start, k + 1);
            }
            depth = depth - 1;
        } else if c == ';' && depth == 0 {
            return (scope_start, k + 1);
        }
        k = k + 1;
    }
    (scope_start, n)
}

/// Scan backward from `pos` to just after the nearest `}` or `;`, or the
/// start of the buffer.
fn find_scope_start(chars: &Vec<char>, pos: usize) -> (r: usize)
    requires
        pos <= chars@.len(),
    ensures
        r == scope_start_at(chars@, pos as int),
        r <= pos,
{
    let mut j = pos;
    while j > 0
        invariant
            j <= pos <= chars@.len(),
            scope_start_at(chars@, pos as int) == scope_start_at(chars@, j as int),
        decreases j,
    {
        if chars[j - 1] == '}' || chars[j - 1] == ';' {
            return j;
        }
        j = j - 1;
    }
    0
}

/// Scan a comma-separated underscore placeholder list past its first `_`,
/// returning the position after the list and whether it held underscores
/// only.
fn scan_placeholders(chars: &Vec<char>, p: usize) -> (r: (usize, bool))
    requires
        p <= chars@.len(),
    ensures
        ({
            let (o, ok) = placeholder_scan(chars@, p as int);
            r.0 == p + o && r.1 == ok && p <= r.0 <= chars@.len()
        }),
    decreases chars@.len() - p,
{
    let n = chars.len();
    let q = skip_ws(chars.as_slice(), p);
    if q < n && chars[q] == ',' {
        let w = skip_ws(chars.as_slice(), q + 1);
        if w < n && chars[w] == '_' {
            scan_placeholders(chars, w + 1)
        } else {
            (w, false)
        }
    } else {
        (q, true)
    }
}

/// The declarations found by scanning live code from position `i` with
/// template state `stack`: each uppercase identifier followed (after
/// whitespace) by a bracket of underscore placeholders only, such as `F<_>`
/// or `G<_, _>`.
pub open spec fn decls_from(s: Seq<char>, i: int, stack: Seq<usize>) -> Seq<HktDeclV>
    decreases crate::scan::buf_rem(s, i),
{
    if i < 0 || i >= s.len() {
        Seq::empty()
    } else {
        match template_step_skip(stack, s, i) {
            Some(n) => decls_from(s, i + n, template_step_stack(stack, s, i)),
            None => {
                let st2 = template_step_stack(stack, s, i);
                match skip_non_code_at(s, i) {
                    Some(sk) => decls_from(s, sk, st2),
                    None => if ascii_upper_char(s[i]) {
                        let ne = ident_end(s, i + 1);
                        let we = ws_end(s, ne);
                        if we < s.len() && s[we] == '<' {
                            let p0 = ws_end(s, we + 1);
                            if p0 < s.len() && s[p0] == '_' {
                                let (o, ok) = placeholder_scan(s, p0 + 1);
                                let p = p0 + 1 + o;
                                if ok && p < s.len() && s[p] == '>' {
                                    seq![
                                        HktDeclV {
                                            name: s.subrange(i, ne),
                                            remove_start: we,
                                            remove_end: p + 1,
                                            scope_start: scope_start_at(s, i),
                                            scope_end: scope_end_from(s, i, 0, Seq::empty()),
                                        },
                                    ] + decls_from(s, p + 1, st2)
                                } else {
                                    decls_from(s, p, st2)
                                }
                            } else {
                                decls_from(s, p0, st2)
                            }
                        } else {
                            decls_from(s, we, st2)
                        }
                    } else {
                        decls_from(s, i + 1, st2)
                    },
                }
            },
        }
    }
}

/// All `F<_>` declarations of the buffer.
pub open spec fn spec_hkt_decls(s: Seq<char>) -> Seq<HktDeclV> {
    decls_from(s, 0, Seq::empty())
}

/// Find every HKT declaration in the buffer.
fn find_hkt_declarations(chars: &Vec<char>) -> (ds: Vec<HktDecl>)
    ensures
        decls_abs(ds@) == spec_hkt_decls(chars@),
        forall|k: int|
            0 <= k < ds@.len() ==> ds@[k].scope_start <= ds@[k].scope_end,
{
    let n = chars.len();
    let mut ds: Vec<HktDecl> = Vec::new();
    let mut i: usize = 0;
    let mut ts = TemplateState::new();
    while i < n
        invariant
            i <= n == chars@.len(),
            template_wf(ts@, i as int),
            decls_abs(ds@) + decls_from(chars@, i as int, ts@) == spec_hkt_decls(chars@),
            forall|k: int|
                0 <= k < ds@.len() ==> ds@[k].scope_start <= ds@[k].scope_end,
        decreases n - i,
    {
        let ghost pre_stack = ts@;
        match ts.handle_char(chars.as_slice(), i) {
            HandleResult::Skip(step) => {
                i = i + step;
                continue ;
            },
            HandleResult::Process => {},
        }

        if let Some(sk) = skip_non_code(chars.as_slice(), i) {
            i = sk;
            continue ;
        }

        if is_ascii_upper(chars[i]) {
            let ghost spec_tail = decls_from(chars@, i as int, pre_stack);
            let ident_start = i;
            let ne = crate::scan::scan_ident_end(chars.as_slice(), i + 1);
            let name = sub_chars(chars, ident_start, ne);
            proof {
                assert(name@ =~= chars@.subrange(ident_start as int, ne as int));
            }

            let we = skip_ws(chars.as_slice(), ne);
            if we < n && chars[we] == '<' {
                let p0 = skip_ws(chars.as_slice(), we + 1);
                if p0 < n && chars[p0] == '_' {
                    let (p, ok) = scan_placeholders(chars, p0 + 1);
                    if ok && p < n && chars[p] == '>' {
                        let scope = find_enclosing_scope(chars, ident_start);
                        let decl = HktDecl {
                            name,
                            remove_start: we,
                            remove_end: p + 1,
                            scope_start: scope.0,
                            scope_end: scope.1,
                        };
                        proof {
                            assert(spec_tail == seq![decl@] + decls_from(
                                chars@,
                                p + 1,
                                ts@,
                            ));
                        }
                        ds.push(decl);
                        proof {
                            assert(decls_abs(ds@) =~= decls_abs(ds@.drop_last()).push(
                                ds@.last()@,
                            ));
                            assert(decls_abs(ds@) + decls_from(chars@, p + 1, ts@)
                                =~= spec_hkt_decls(chars@));
                        }
                        i = p + 1;
                        continue ;
                    }
                    i = p;
                    continue ;
                }
                i = p0;
                continue ;
            }
            i = we;
            continue ;
        }

        i = i + 1;
    }
    proof {
        assert(decls_abs(ds@) =~= spec_hkt_decls(chars@));
    }
    ds
}

/// The usages found by scanning live code from position `i`: each uppercase
/// identifier followed by a matched `<...>` whose contents are not purely
/// placeholder markers, provided some declaration of the same name is in
/// scope at the identifier.
pub open spec fn usages_from(s: Seq<char>, i: int, stack: Seq<usize>, ds: Seq<HktDeclV>) -> Seq<
    HktUsageV,
>
    decreases crate::scan::buf_rem(s, i),
{
    if i < 0 || i >= s.len() {
        Seq::empty()
    } else {
        match template_step_skip(stack, s, i) {
            Some(n) => usages_from(s, i + n, template_step_stack(stack, s, i), ds),
            None => {
                let st2 = template_step_stack(stack, s, i);
                match skip_non_code_at(s, i) {
                    Some(sk) => usages_from(s, sk, st2, ds),
                    None => if ascii_upper_char(s[i]) {
                        let ne = ident_end(s, i + 1);
                        let name = s.subrange(i, ne);
                        let we = ws_end(s, ne);
                        if we < s.len() && s[we] == '<' {
                            match angle_ofs(s, we, 0) {
                                Some(o) => {
                                    let close = we + o;
                                    let inner = trim(spec_sub(s, we + 1, close));
                                    if placeholder_only(inner) {
                                        usages_from(s, close + 1, st2, ds)
                                    } else if has_active_decl(ds, name, i) {
                                        seq![
                                            HktUsageV {
                                                start: i,
                                                end: close + 1,
                                                name: name,
                                                args: inner,
                                            },
                                        ] + usages_from(s, close + 1, st2, ds)
                                    } else {
                                        usages_from(s, close + 1, st2, ds)
                                    }
                                },
                                None => usages_from(s, we, st2, ds),
                            }
                        } else {
                            usages_from(s, we, st2, ds)
                        }
                    } else {
                        usages_from(s, i + 1, st2, ds)
                    },
                }
            },
        }
    }
}

/// All eligible usages of the buffer, given its declarations.
pub open spec fn spec_hkt_usages(s: Seq<char>, ds: Seq<HktDeclV>) -> Seq<HktUsageV> {
    usages_from(s, 0, Seq::empty(), ds)
}

/// The width of a declaration's scope; the narrowest active one wins when
/// scopes overlap.
pub open spec fn scope_width(d: HktDeclV) -> int {
    d.scope_end - d.scope_start
}

/// The declaration whose scope covers a usage of `name` at `pos`, preferring
/// the narrowest scope (innermost-declaration shadowing).
fn find_active_decl(decls: &Vec<HktDecl>, name: &Vec<char>, pos: usize) -> (r: Option<usize>)
    requires
        forall|k: int|
            0 <= k < decls@.len() ==> decls@[k].scope_start <= decls@[k].scope_end,
    ensures
        match r {
            Some(k) => {
                &&& k < decls@.len()
                &&& decl_active(decls@[k as int]@, name@, pos as int)
                &&& forall|j: int|
                    0 <= j < decls@.len() && decl_active(decls@[j]@, name@, pos as int)
                        ==> scope_width(decls@[k as int]@) <= scope_width(decls@[j]@)
            },
            None => !has_active_decl(decls_abs(decls@), name@, pos as int),
        },
{
    let mut best: Option<usize> = None;
    let mut k: usize = 0;
    while k < decls.len()
        invariant
            k <= decls@.len(),
            forall|j: int|
                0 <= j < decls@.len() ==> decls@[j].scope_start <= decls@[j].scope_end,
            match best {
                Some(b) => {
                    &&& b < k
                    &&& decl_active(decls@[b as int]@, name@, pos as int)
                    &&& forall|j: int|
                        0 <= j < k && decl_active(decls@[j]@, name@, pos as int)
                            ==> scope_width(decls@[b as int]@) <= scope_width(decls@[j]@)
                },
                None => forall|j: int|
                    0 <= j < k ==> !decl_active(decls@[j]@, name@, pos as int),
            },
        decreases decls@.len() - k,
    {
        let d = &decls[k];
        if chars_eq(&d.name, name) && d.scope_start <= pos && pos <= d.scope_end {
            let w = d.scope_end - d.scope_start;
            match best {
                Some(b) => {
                    let bd = &decls[b];
                    if w < bd.scope_end - bd.scope_start {
                        best = Some(k);
                    }
                },
                None => {
                    best = Some(k);
                },
            }
        }
        k = k + 1;
    }
    proof {
        if best is None {
            assert(!has_active_decl(decls_abs(decls@), name@, pos as int)) by {
                assert(forall|j: int|
                    0 <= j < decls@.len() ==> decls_abs(decls@)[j] == decls@[j]@);
            }
        }
    }
    best
}

/// Find every eligible usage in the buffer.
fn find_hkt_usages(chars: &Vec<char>, decls: &Vec<HktDecl>) -> (us: Vec<HktUsage>)
    requires
        forall|k: int|
            0 <= k < decls@.len() ==> decls@[k].scope_start <= decls@[k].scope_end,
    ensures
        usages_abs(us@) == spec_hkt_usages(chars@, decls_abs(decls@)),
{
    let n = chars.len();
    let ghost dsv = decls_abs(decls@);
    let mut us: Vec<HktUsage> = Vec::new();
    let mut i: usize = 0;
    let mut ts = TemplateState::new();
    while i < n
        invariant
            i <= n == chars@.len(),
            dsv == decls_abs(decls@),
            forall|k: int|
                0 <= k < decls@.len() ==> decls@[k].scope_start <= decls@[k].scope_end,
            template_wf(ts@, i as int),
            usages_abs(us@) + usages_from(chars@, i as int, ts@, dsv) == spec_hkt_usages(
                chars@,
                dsv,
            ),
        decreases n - i,
    {
        let ghost pre_stack = ts@;
        match ts.handle_char(chars.as_slice(), i) {
            HandleResult::Skip(step) => {
                i = i + step;
                continue ;
            },
            HandleResult::Process => {},
        }

        if let Some(sk) = skip_non_code(chars.as_slice(), i) {
            i = sk;
            continue ;
        }

        if is_ascii_upper(chars[i]) {
            let ghost spec_tail = usages_from(chars@, i as int, pre_stack, dsv);
            let ident_start = i;
            let ne = crate::scan::scan_ident_end(chars.as_slice(), i + 1);
            let name = sub_chars(chars, ident_start, ne);
            proof {
                assert(name@ =~= chars@.subrange(ident_start as int, ne as int));
            }

            let we = skip_ws(chars.as_slice(), ne);
            if we < n && chars[we] == '<' {
                if let Some(close) = find_matching_angle(chars, we) {
                    let inner_raw = sub_chars(chars, we + 1, close);
                    let inner = trim_chars(&inner_raw);
                    if is_placeholder_only(&inner) {
                        i = close + 1;
                        continue ;
                    }
                    if let Some(active) = find_active_decl(decls, &name, ident_start) {
                        proof {
                            assert(dsv[active as int] == decls@[active as int]@);
                            assert(has_active_decl(dsv, name@, ident_start as int));
                        }
                        let usage = HktUsage {
                            start: ident_start,
                            end: close + 1,
                            name,
                            args: inner,
                        };
                        proof {
                            assert(spec_tail == seq![usage@] + usages_from(
                                chars@,
                                close + 1,
                                ts@,
                                dsv,
                            ));
                        }
                        us.push(usage);
                        proof {
                            assert(usages_abs(us@) =~= usages_abs(us@.drop_last()).push(
                                us@.last()@,
                            ));
                            assert(usages_abs(us@) + usages_from(chars@, close + 1, ts@, dsv)
                                =~= spec_hkt_usages(chars@, dsv));
                        }
                    }
                    i = close + 1;
                    continue ;
                }
                i = we;
                continue ;
            }
            i = we;
            continue ;
        }

        i = i + 1;
    }
    proof {
        assert(usages_abs(us@) =~= spec_hkt_usages(chars@, dsv));
    }
    us
}

/// Whether every character is an underscore, a comma or whitespace.
fn is_placeholder_only(w: &Vec<char>) -> (r: bool)
    ensures
        r == placeholder_only(w@),
{
    let mut i: usize = 0;
    while i < w.len()
        invariant
            i <= w@.len(),
            forall|k: int|
                0 <= k < i ==> (w@[k] == '_' || w@[k] == ',' || whitespace_char(w@[k])),
        decreases w@.len() - i,
    {
        let c = w[i];
        if !(c == '_' || c == ',' || c.is_whitespace()) {
            return false;
        }
        i = i + 1;
    }
    true
}

/// Merge both lists, consuming from their tails so that the result stands
/// in descending start order.
fn merge_replacements(a: Vec<Replacement>, b: Vec<Replacement>) -> (r: Vec<Replacement>)
    ensures
        reps_abs(r@) == merge_desc(reps_abs(a@), reps_abs(b@)),
{
    let mut a = a;
    let mut b = b;
    let ghost a0 = reps_abs(a@);
    let ghost b0 = reps_abs(b@);
    let mut out: Vec<Replacement> = Vec::new();
    while a.len() > 0 || b.len() > 0
        invariant
            reps_abs(out@) + merge_desc(reps_abs(a@), reps_abs(b@)) == merge_desc(a0, b0),
        decreases a@.len() + b@.len(),
    {
        let ghost pre_a = reps_abs(a@);
        let ghost pre_b = reps_abs(b@);
        let take_b = if a.len() == 0 {
            true
        } else if b.len() == 0 {
            false
        } else {
            b[b.len() - 1].start > a[a.len() - 1].start
        };
        if take_b {
            let x = b.pop().unwrap();
            proof {
                assert(reps_abs(b@) =~= pre_b.drop_last());
                assert(pre_b.last() == x@);
                assert(merge_desc(pre_a, pre_b) == seq![x@] + merge_desc(pre_a, reps_abs(b@)));
            }
            out.push(x);
            proof {
                assert(reps_abs(out@) =~= reps_abs(out@.drop_last()).push(out@.last()@));
                assert(reps_abs(out@) + merge_desc(reps_abs(a@), reps_abs(b@)) =~= merge_desc(
                    a0,
                    b0,
                ));
            }
        } else {
            let x = a.pop().unwrap();
            proof {
                assert(reps_abs(a@) =~= pre_a.drop_last());
                assert(pre_a.last() == x@);
                assert(merge_desc(pre_a, pre_b) == seq![x@] + merge_desc(reps_abs(a@), pre_b));
            }
            out.push(x);
            proof {
                assert(reps_abs(out@) =~= reps_abs(out@.drop_last()).push(out@.last()@));
                assert(reps_abs(out@) + merge_desc(reps_abs(a@), reps_abs(b@)) =~= merge_desc(
                    a0,
                    b0,
                ));
            }
        }
    }
    proof {
        assert(reps_abs(out@) =~= merge_desc(a0, b0));
    }
    out
}

/// Whether some kept replacement's span fully contains `[start, end)`.
fn any_contains(kept: &Vec<Replacement>, start: usize, end: usize) -> (r: bool)
    ensures
        r == contained_in(
            reps_abs(kept@),
            ReplacementV { start: start as int, end: end as int, text: Seq::empty() },
        ),
{
    let ghost rv = ReplacementV { start: start as int, end: end as int, text: Seq::empty() };
    let mut k: usize = 0;
    while k < kept.len()
        invariant
            k <= kept@.len(),
            forall|j: int|
                0 <= j < k ==> !(reps_abs(kept@)[j].start <= start && end <= reps_abs(
                    kept@,
                )[j].end),
        decreases kept@.len() - k,
    {
        if kept[k].start <= start && end <= kept[k].end {
            proof {
                assert(reps_abs(kept@)[k as int] == kept@[k as int]@);
            }
            return true;
        }
        k = k + 1;
    }
    false
}

/// Keep only replacements not fully contained in one already kept.
fn filter_replacements(reps: &Vec<Replacement>) -> (r: Vec<Replacement>)
    ensures
        reps_abs(r@) == filter_reps(reps_abs(reps@), Seq::empty()),
{
    let mut kept: Vec<Replacement> = Vec::new();
    let mut i: usize = 0;
    proof {
        assert(reps_abs(reps@).skip(0) =~= reps_abs(reps@));
        assert(reps_abs(kept@) =~= Seq::<ReplacementV>::empty());
    }
    while i < reps.len()
        invariant
            i <= reps@.len(),
            filter_reps(reps_abs(reps@), Seq::empty()) == filter_reps(
                reps_abs(reps@).skip(i as int),
                reps_abs(kept@),
            ),
        decreases reps@.len() - i,
    {
        let ghost tail = reps_abs(reps@).skip(i as int);
        proof {
            assert(tail.first() == reps@[i as int]@);
            assert(tail.drop_first() =~= reps_abs(reps@).skip(i + 1));
        }
        let rep = &reps[i];
        let contained = any_contains(&kept, rep.start, rep.end);
        proof {
            assert(contained == contained_in(reps_abs(kept@), tail.first()));
        }
        if !contained {
            let ghost pre_kept = reps_abs(kept@);
            let cp = Replacement {
                start: rep.start,
                end: rep.end,
                text: crate::text::sub_chars(&rep.text, 0, rep.text.len()),
            };
            proof {
                assert(cp@.text =~= reps@[i as int]@.text);
                assert(cp@ =~= reps@[i as int]@);
            }
            kept.push(cp);
            proof {
                assert(reps_abs(kept@) =~= pre_kept.push(tail.first()));
            }
        }
        i = i + 1;
    }
    proof {
        assert(reps_abs(reps@).skip(reps@.len() as int) =~= Seq::<ReplacementV>::empty());
    }
    kept
}

/// Apply the filtered replacements in order.
fn apply_replacements(chars: &Vec<char>, reps: &Vec<Replacement>) -> (r: Vec<char>)
    ensures
        r@ == apply_reps(chars@, reps_abs(reps@)),
{
    let mut cur = sub_chars(chars, 0, chars.len());
    proof {
        assert(cur@ =~= chars@);
    }
    let mut i: usize = 0;
    proof {
        assert(reps_abs(reps@).skip(0) =~= reps_abs(reps@));
    }
    while i < reps.len()
        invariant
            i <= reps@.len(),
            apply_reps(chars@, reps_abs(reps@)) == apply_reps(
                cur@,
                reps_abs(reps@).skip(i as int),
            ),
        decreases reps@.len() - i,
    {
        let ghost tail = reps_abs(reps@).skip(i as int);
        proof {
            assert(tail.first() == reps@[i as int]@);
            assert(tail.drop_first() =~= reps_abs(reps@).skip(i + 1));
        }
        let rep = &reps[i];
        cur = crate::text::splice_chars(&cur, rep.start, rep.end, &rep.text);
        i = i + 1;
    }
    proof {
        assert(reps_abs(reps@).skip(reps@.len() as int) =~= Seq::<ReplacementV>::empty());
    }
    cur
}

/// Merge declaration removals and usage rewrites into one replacement set,
/// drop the ones contained in an earlier kept span, and apply them
/// outermost-first.
fn apply_hkt_replacements(chars: &Vec<char>, decls: &Vec<HktDecl>, usages: &Vec<HktUsage>) -> (r:
    Vec<char>)
    ensures
        r@ == spec_apply_hkt(chars@, decls_abs(decls@), usages_abs(usages@)),
{
    let mut dreps: Vec<Replacement> = Vec::new();
    let mut i: usize = 0;
    while i < decls.len()
        invariant
            i <= decls@.len(),
            dreps@.len() == i,
            forall|k: int| 0 <= k < i ==> (#[trigger] dreps@[k])@ =~= decl_rep(decls@[k]@),
        decreases decls@.len() - i,
    {
        let d = &decls[i];
        dreps.push(Replacement { start: d.remove_start, end: d.remove_end, text: Vec::new() });
        proof {
            assert(dreps@[i as int]@ =~= decl_rep(decls@[i as int]@));
        }
        i = i + 1;
    }
    proof {
        assert(reps_abs(dreps@) =~= decl_reps(decls_abs(decls@)));
    }

    let mut ureps: Vec<Replacement> = Vec::new();
    let mut j: usize = 0;
    while j < usages.len()
        invariant
            j <= usages@.len(),
            ureps@.len() == j,
            forall|k: int| 0 <= k < j ==> (#[trigger] ureps@[k])@ =~= usage_rep(usages@[k]@),
        decreases usages@.len() - j,
    {
        let u = &usages[j];
        let mut text: Vec<char> = Vec::new();
        text.push('$');
        text.push('<');
        crate::text::push_chars(&mut text, &u.name);
        text.push(',');
        text.push(' ');
        crate::text::push_chars(&mut text, &u.args);
        text.push('>');
        proof {
            assert(text@ =~= usage_rep(usages@[j as int]@).text);
        }
        ureps.push(Replacement { start: u.start, end: u.end, text });
        proof {
            assert(ureps@[j as int]@ =~= usage_rep(usages@[j as int]@));
        }
        j = j + 1;
    }
    proof {
        assert(reps_abs(ureps@) =~= usage_reps(usages_abs(usages@)));
    }

    let merged = merge_replacements(dreps, ureps);
    let filtered = filter_replacements(&merged);
    apply_replacements(chars, &filtered)
}

/// Rewrite all higher-kinded type parameter syntax in the source: strip
/// every `F<_>` declaration bracket and rewrite in-scope usages `F<A>` to
/// `$<F, A>`. Source with no declaration is returned unchanged.
pub fn rewrite_hkt(source: &str) -> (r: String)
    ensures
        r@ == spec_rewrite_hkt(source@),
{
    let chars = crate::text::str_to_chars(source);
    let decls = find_hkt_declarations(&chars);
    if decls.len() == 0 {
        proof {
            assert(spec_hkt_decls(chars@).len() == 0);
        }
        return source.to_owned();
    }
    let usages = find_hkt_usages(&chars, &decls);
    let out = apply_hkt_replacements(&chars, &decls, &usages);
    crate::text::chars_to_string(&out)
}

} // verus!
