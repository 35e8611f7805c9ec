//! The expression grammar as a mathematical definition.
//!
//! Each function mirrors one rule of the grammar, reading a sequence of
//! characters at a position and returning the position after the match
//! together with the value the rule produces, or `None` where the rule
//! does not match. Alternatives are ordered: the first alternative that
//! matches is committed to, exactly as a backtracking ordered-choice
//! grammar commits. Repetitions are greedy and a failed separator or
//! element restores the position of the last complete element.
use vstd::prelude::*;

use crate::ast::SpecExpression;
use crate::ast::SpecFunc;
use crate::ast::SpecStatement;
use crate::ast::UType;
use crate::ast::is_ident_seq;
use crate::ast::matches_bin;
use crate::ast::matches_dec;
use crate::ast::matches_hex;
use crate::ast::matches_n_const;
use crate::ast::matches_str_lit;
use crate::ast::is_bin_char;
use crate::ast::is_dec_char;
use crate::ast::is_hex_char;
use crate::ast::is_hws;
use crate::ast::is_ident_cont;
use crate::ast::is_ident_start;
use crate::ast::is_str_body_char;

verus! {

broadcast use vstd::seq::group_seq_axioms;

// ---------------------------------------------------------------------------
// Named character-class predicates, shared by every rule that scans
// ---------------------------------------------------------------------------
pub open spec fn dec_pred() -> spec_fn(char) -> bool {
    |c: char| is_dec_char(c)
}

pub open spec fn hex_pred() -> spec_fn(char) -> bool {
    |c: char| is_hex_char(c)
}

pub open spec fn bin_pred() -> spec_fn(char) -> bool {
    |c: char| is_bin_char(c)
}

pub open spec fn ident_cont_pred() -> spec_fn(char) -> bool {
    |c: char| is_ident_cont(c)
}

pub open spec fn hws_pred() -> spec_fn(char) -> bool {
    |c: char| is_hws(c)
}

pub open spec fn ws_nl_pred() -> spec_fn(char) -> bool {
    |c: char| is_hws(c) || c == '\n'
}

pub open spec fn str_body_pred() -> spec_fn(char) -> bool {
    |c: char| is_str_body_char(c)
}

// ---------------------------------------------------------------------------
// Scanning
// ---------------------------------------------------------------------------
/// End of the run of characters satisfying `p` that starts at `i`: the
/// first position at or after `i` that is out of range or fails `p`.
pub open spec fn scan(s: Seq<char>, i: int, p: spec_fn(char) -> bool) -> int
    decreases s.len() - i,
{
    if 0 <= i < s.len() && p(s[i]) {
        scan(s, i + 1, p)
    } else {
        i
    }
}

/// A scan never moves backwards.
pub proof fn lemma_scan_ge(s: Seq<char>, i: int, p: spec_fn(char) -> bool)
    ensures
        scan(s, i, p) >= i,
    decreases s.len() - i,
{
    if 0 <= i < s.len() && p(s[i]) {
        lemma_scan_ge(s, i + 1, p);
    }
}

/// What a scan means: every character of the run satisfies `p`, and the
/// run is maximal.
pub proof fn lemma_scan(s: Seq<char>, i: int, p: spec_fn(char) -> bool)
    requires
        0 <= i <= s.len(),
    ensures
        i <= scan(s, i, p) <= s.len(),
        forall|k: int| i <= k < scan(s, i, p) ==> p(#[trigger] s[k]),
        scan(s, i, p) < s.len() ==> !p(s[scan(s, i, p)]),
    decreases s.len() - i,
{
    if i < s.len() && p(s[i]) {
        lemma_scan(s, i + 1, p);
    }
}

/// Horizontal whitespace (spaces and tabs), skipped between tokens.
pub open spec fn skip_hws(s: Seq<char>, i: int) -> int {
    scan(s, i, hws_pred())
}

/// Whitespace including newlines, skipped before a function declaration.
pub open spec fn skip_ws_nl(s: Seq<char>, i: int) -> int {
    scan(s, i, ws_nl_pred())
}

// ---------------------------------------------------------------------------
// Lexical atoms
// ---------------------------------------------------------------------------
/// Identifier at `i`: a start character followed by the maximal run of
/// continuation characters. Returns the end of the lexeme.
pub open spec fn parse_ident_at(s: Seq<char>, i: int) -> Option<int> {
    if 0 <= i < s.len() && is_ident_start(s[i]) {
        Some(scan(s, i + 1, ident_cont_pred()))
    } else {
        None
    }
}

/// String literal at `i`: a quote, the maximal run of body characters,
/// and a closing quote. Returns the end position and the body.
pub open spec fn parse_str_const_at(s: Seq<char>, i: int) -> Option<(int, Seq<char>)> {
    if 0 <= i < s.len() && s[i] == '"' {
        let j = scan(s, i + 1, str_body_pred());
        if j < s.len() && s[j] == '"' {
            Some((j + 1, s.subrange(i + 1, j)))
        } else {
            None
        }
    } else {
        None
    }
}

/// A `0x` or `0b` radix prefix stands at `i`. The decimal alternative is
/// barred by a negative lookahead from matching such a prefix, so a
/// malformed hexadecimal or binary literal fails instead of degrading to
/// a shorter decimal match.
pub open spec fn has_radix_prefix(s: Seq<char>, i: int) -> bool {
    0 <= i && i + 1 < s.len() && s[i] == '0' && (s[i + 1] == 'x' || s[i + 1] == 'b')
}

/// Numeric literal at `i`: decimal (with the lookahead), else `0x` and
/// hexadecimal digits, else `0b` and binary digits. The rule always
/// matches; the decimal run may be empty. Returns the end position and
/// the whole lexeme, prefix included.
pub open spec fn parse_n_const_at(s: Seq<char>, i: int) -> (int, Seq<char>) {
    if has_radix_prefix(s, i) {
        if s[i + 1] == 'x' {
            let j = scan(s, i + 2, hex_pred());
            (j, s.subrange(i, j))
        } else {
            let j = scan(s, i + 2, bin_pred());
            (j, s.subrange(i, j))
        }
    } else {
        let j = scan(s, i, dec_pred());
        (j, if i <= j <= s.len() { s.subrange(i, j) } else { Seq::empty() })
    }
}

/// The characters of the one recognized type name.
pub open spec fn at_i64(s: Seq<char>, i: int) -> bool {
    0 <= i && i + 3 <= s.len() && s[i] == 'i' && s[i + 1] == '6' && s[i + 2] == '4'
}

/// Type name at `i`.
pub open spec fn parse_type_at(s: Seq<char>, i: int) -> Option<(int, UType)> {
    if at_i64(s, i) {
        Some((i + 3, UType::I64))
    } else {
        None
    }
}

/// The keyword `return` stands at `i`, not continued by an identifier
/// character.
pub open spec fn at_return_kw(s: Seq<char>, i: int) -> bool {
    &&& 0 <= i
    &&& i + 6 <= s.len()
    &&& s[i] == 'r'
    &&& s[i + 1] == 'e'
    &&& s[i + 2] == 't'
    &&& s[i + 3] == 'u'
    &&& s[i + 4] == 'r'
    &&& s[i + 5] == 'n'
    &&& (i + 6 == s.len() || !is_ident_cont(s[i + 6]))
}

/// The keyword `fn` stands at `i`, not continued by an identifier
/// character.
pub open spec fn at_fn_kw(s: Seq<char>, i: int) -> bool {
    &&& 0 <= i
    &&& i + 2 <= s.len()
    &&& s[i] == 'f'
    &&& s[i + 1] == 'n'
    &&& (i + 2 == s.len() || !is_ident_cont(s[i + 2]))
}

// ---------------------------------------------------------------------------
// Argument declarations: `name type` pairs separated by commas
// ---------------------------------------------------------------------------
/// One declared argument at `i`: a name, a single space, optional
/// further whitespace, and a type name.
pub open spec fn parse_fn_arg_at(s: Seq<char>, i: int) -> Option<(int, (Seq<char>, UType))> {
    match parse_ident_at(s, i) {
        Some(j) => if j < s.len() && s[j] == ' ' {
            let k = skip_hws(s, j + 1);
            match parse_type_at(s, k) {
                Some((m, ty)) => Some((m, (s.subrange(i, j), ty))),
                None => None,
            }
        } else {
            None
        },
        None => None,
    }
}

/// Zero or more declared arguments separated by a comma and optional
/// whitespace. Always matches; a failed element restores the position of
/// the last complete one.
pub open spec fn parse_fn_args_at(s: Seq<char>, i: int) -> (int, Seq<(Seq<char>, UType)>)
    decreases s.len() - i, 1int,
{
    match parse_fn_arg_at(s, i) {
        None => (i, Seq::empty()),
        Some((j, a)) => if i < j && j <= s.len() {
            let (k, rest) = parse_fn_args_more(s, j);
            (k, seq![a] + rest)
        } else {
            // an argument lexeme is never empty, so this branch is not taken
            (j, seq![a])
        },
    }
}

/// The `, name type` continuations after a complete argument.
pub open spec fn parse_fn_args_more(s: Seq<char>, i: int) -> (int, Seq<(Seq<char>, UType)>)
    decreases s.len() - i, 0int,
{
    if 0 <= i < s.len() && s[i] == ',' {
        let k = skip_hws(s, i + 1);
        match parse_fn_arg_at(s, k) {
            Some((j, a)) => if i < j && j <= s.len() {
                let (m, rest) = parse_fn_args_more(s, j);
                (m, seq![a] + rest)
            } else {
                // an argument stands after the comma, so this branch is not taken
                (i, Seq::empty())
            },
            None => (i, Seq::empty()),
        }
    } else {
        (i, Seq::empty())
    }
}

// ---------------------------------------------------------------------------
// Expressions
// ---------------------------------------------------------------------------
/// Expression at `i`. Ordered choice, priority order: string constant,
/// numeric constant, function call, identifier reference. The numeric
/// alternative commits only to a non-empty lexeme; an empty decimal
/// match is rejected here so that a call or an identifier can be tried.
pub open spec fn parse_expr_at(s: Seq<char>, i: int) -> Option<(int, SpecExpression)>
    decreases s.len() - i, 1int,
{
    match parse_str_const_at(s, i) {
        Some((j, t)) => Some((j, SpecExpression::StrConst(t))),
        None => {
            let (j, t) = parse_n_const_at(s, i);
            if i < j {
                Some((j, SpecExpression::NConst(t)))
            } else {
                match parse_func_call_at(s, i) {
                    Some(r) => Some(r),
                    None => match parse_ident_at(s, i) {
                        Some(j2) => Some((j2, SpecExpression::Ident(s.subrange(i, j2)))),
                        None => None,
                    },
                }
            }
        },
    }
}

/// Function call at `i`: a name, `(`, optional whitespace, the comma
/// separated arguments, optional whitespace, `)`.
pub open spec fn parse_func_call_at(s: Seq<char>, i: int) -> Option<(int, SpecExpression)>
    decreases s.len() - i, 0int,
{
    match parse_ident_at(s, i) {
        None => None,
        Some(j1) => if j1 < s.len() && s[j1] == '(' {
            let j2 = skip_hws(s, j1 + 1);
            if i < j2 && j2 <= s.len() {
                let (j3, args) = parse_call_args_at(s, j2);
                let j4 = skip_hws(s, j3);
                if j4 < s.len() && s[j4] == ')' {
                    Some((j4 + 1, SpecExpression::FuncCall { fn_name: s.subrange(i, j1), args }))
                } else {
                    None
                }
            } else {
                // the name and the parenthesis stand before j2, so this
                // branch is not taken
                None
            }
        } else {
            None
        },
    }
}

/// Zero or more call arguments. Always matches; a failed element or
/// separator restores the position of the last complete element.
pub open spec fn parse_call_args_at(s: Seq<char>, i: int) -> (int, Seq<SpecExpression>)
    decreases s.len() - i, 2int,
{
    match parse_expr_at(s, i) {
        None => (i, Seq::empty()),
        Some((j, e)) => if i < j && j <= s.len() {
            let (k, rest) = parse_call_args_more(s, j);
            (k, seq![e] + rest)
        } else {
            // an expression lexeme is never empty, so this branch is not taken
            (j, seq![e])
        },
    }
}

/// The `, expression` continuations after a complete call argument: a
/// comma surrounded by optional whitespace, then the next argument.
pub open spec fn parse_call_args_more(s: Seq<char>, i: int) -> (int, Seq<SpecExpression>)
    decreases s.len() - i, 3int,
{
    let a = skip_hws(s, i);
    if i <= a < s.len() && s[a] == ',' {
        let b = skip_hws(s, a + 1);
        if i < b && b <= s.len() {
            match parse_expr_at(s, b) {
                Some((j, e)) => if i < j && j <= s.len() {
                    let (k, rest) = parse_call_args_more(s, j);
                    (k, seq![e] + rest)
                } else {
                    (i, Seq::empty())
                },
                None => (i, Seq::empty()),
            }
        } else {
            // b stands after the comma, so this branch is not taken
            (i, Seq::empty())
        }
    } else {
        (i, Seq::empty())
    }
}

// ---------------------------------------------------------------------------
// Statements
// ---------------------------------------------------------------------------
/// Return statement at `i`: optional whitespace, the keyword `return`,
/// an optional expression, optional whitespace, and a newline. Both
/// surface forms are recognized: a bare `return` and a value-returning
/// one.
pub open spec fn parse_ret_at(s: Seq<char>, i: int) -> Option<(int, SpecStatement)>
    decreases s.len() - i, 4int,
{
    let a = skip_hws(s, i);
    if at_return_kw(s, a) && i <= a {
        let c = skip_hws(s, a + 6);
        if i < c && c <= s.len() {
            match parse_expr_at(s, c) {
                Some((d, e)) => {
                    let d2 = skip_hws(s, d);
                    if d2 < s.len() && s[d2] == '\n' {
                        Some((d2 + 1, SpecStatement::Return(Some(e))))
                    } else {
                        None
                    }
                },
                None => if c < s.len() && s[c] == '\n' {
                    Some((c + 1, SpecStatement::Return(None)))
                } else {
                    None
                },
            }
        } else {
            // c stands after the keyword, so this branch is not taken
            None
        }
    } else {
        None
    }
}

/// Function declaration at `i`: leading whitespace or newlines, the
/// keyword `fn`, the name, the parenthesized argument declarations, an
/// optional return type, `{`, an optional newline, the body, and a
/// closing `}` followed by a newline. An absent return type means
/// `Nothing`. The body is the statement sequence with the blank-line
/// markers dropped.
pub open spec fn parse_func_at(s: Seq<char>, i: int) -> Option<(int, SpecFunc)>
    decreases s.len() - i, 4int,
{
    let a = skip_ws_nl(s, i);
    if at_fn_kw(s, a) && i <= a {
        let b = skip_hws(s, a + 2);
        match parse_ident_at(s, b) {
            None => None,
            Some(c) => if c < s.len() && s[c] == '(' {
                let d = skip_hws(s, c + 1);
                let (e, args) = parse_fn_args_at(s, d);
                let f = skip_hws(s, e);
                if f < s.len() && s[f] == ')' {
                    let g = skip_hws(s, f + 1);
                    let (h, ret) = match parse_type_at(s, g) {
                        Some((m, ty)) => (skip_hws(s, m), ty),
                        None => (g, UType::Nothing),
                    };
                    if h < s.len() && s[h] == '{' {
                        let q = if h + 1 < s.len() && s[h + 1] == '\n' {
                            h + 2
                        } else {
                            h + 1
                        };
                        if i < q && q <= s.len() {
                            let (r, raw) = parse_statement_seq_at(s, q);
                            let t = skip_hws(s, r);
                            if t + 2 <= s.len() && s[t] == '}' && s[t + 1] == '\n' {
                                Some(
                                    (
                                        t + 2,
                                        SpecFunc {
                                            name: s.subrange(b, parse_ident_at(s, b)->Some_0),
                                            args,
                                            ret,
                                            body: filter_blank(raw),
                                        },
                                    ),
                                )
                            } else {
                                None
                            }
                        } else {
                            // the declaration header stands before q, so
                            // this branch is not taken
                            None
                        }
                    } else {
                        None
                    }
                } else {
                    None
                }
            } else {
                None
            },
        }
    } else {
        None
    }
}

/// Statement at `i`: a function declaration, a return statement, or a
/// blank line, tried in that order.
pub open spec fn parse_statement_at(s: Seq<char>, i: int) -> Option<(int, SpecStatement)>
    decreases s.len() - i, 5int,
{
    match parse_func_at(s, i) {
        Some((j, f)) => Some((j, SpecStatement::FuncDecl(f))),
        None => match parse_ret_at(s, i) {
            Some(r) => Some(r),
            None => {
                let a = skip_hws(s, i);
                if a < s.len() && s[a] == '\n' {
                    Some((a + 1, SpecStatement::EmptyLine))
                } else {
                    None
                }
            },
        },
    }
}

/// The greedy statement sequence at `i`: statements are taken as long as
/// one matches. Blank-line markers are kept here; the callers drop them.
pub open spec fn parse_statement_seq_at(s: Seq<char>, i: int) -> (int, Seq<SpecStatement>)
    decreases s.len() - i, 6int,
{
    match parse_statement_at(s, i) {
        None => (i, Seq::empty()),
        Some((j, st)) => if i < j && j <= s.len() {
            let (k, rest) = parse_statement_seq_at(s, j);
            (k, seq![st] + rest)
        } else {
            // a statement lexeme is never empty, so this branch is not taken
            (j, seq![st])
        },
    }
}

/// Drop every blank-line marker, keeping the order of the rest.
pub open spec fn filter_blank(raw: Seq<SpecStatement>) -> Seq<SpecStatement>
    decreases raw.len(),
{
    if raw.len() == 0 {
        Seq::empty()
    } else {
        let rest = filter_blank(raw.drop_first());
        if raw[0] is EmptyLine {
            rest
        } else {
            seq![raw[0]] + rest
        }
    }
}

/// Dropping the markers commutes with prepending.
pub proof fn lemma_filter_blank_cons(st: SpecStatement, r: Seq<SpecStatement>)
    ensures
        filter_blank(seq![st] + r) == if st is EmptyLine {
            filter_blank(r)
        } else {
            seq![st] + filter_blank(r)
        },
{
    assert((seq![st] + r).drop_first() =~= r);
    assert((seq![st] + r)[0] == st);
}

// ---------------------------------------------------------------------------
// Whole-input entry points: each public rule of the grammar parses its
// whole input, and any unmatched trailing content is a failure.
// ---------------------------------------------------------------------------
/// Whole input as a string constant.
pub open spec fn spec_str_const(s: Seq<char>) -> Option<SpecExpression> {
    match parse_str_const_at(s, 0) {
        Some((j, t)) => if j == s.len() {
            Some(SpecExpression::StrConst(t))
        } else {
            None
        },
        None => None,
    }
}

/// Whole input as a numeric constant of any radix. The empty input is a
/// legal (empty) decimal literal at this atom level.
pub open spec fn spec_n_const(s: Seq<char>) -> Option<SpecExpression> {
    let (j, t) = parse_n_const_at(s, 0);
    if j == s.len() {
        Some(SpecExpression::NConst(t))
    } else {
        None
    }
}

/// Whole input as a decimal constant.
pub open spec fn spec_n_const_dec(s: Seq<char>) -> Option<SpecExpression> {
    if !has_radix_prefix(s, 0) && scan(s, 0, dec_pred()) == s.len() {
        Some(SpecExpression::NConst(s))
    } else {
        None
    }
}

/// Whole input as a hexadecimal constant.
pub open spec fn spec_n_const_hex(s: Seq<char>) -> Option<SpecExpression> {
    if s.len() >= 2 && s[0] == '0' && s[1] == 'x' && scan(s, 2, hex_pred())
        == s.len() {
        Some(SpecExpression::NConst(s))
    } else {
        None
    }
}

/// Whole input as a binary constant.
pub open spec fn spec_n_const_bin(s: Seq<char>) -> Option<SpecExpression> {
    if s.len() >= 2 && s[0] == '0' && s[1] == 'b' && scan(s, 2, bin_pred())
        == s.len() {
        Some(SpecExpression::NConst(s))
    } else {
        None
    }
}

/// Whole input as an identifier.
pub open spec fn spec_ident(s: Seq<char>) -> Option<Seq<char>> {
    match parse_ident_at(s, 0) {
        Some(j) => if j == s.len() {
            Some(s)
        } else {
            None
        },
        None => None,
    }
}

/// Whole input as a type name.
pub open spec fn spec_type(s: Seq<char>) -> Option<UType> {
    match parse_type_at(s, 0) {
        Some((j, ty)) => if j == s.len() {
            Some(ty)
        } else {
            None
        },
        None => None,
    }
}

/// Whole input as an expression.
pub open spec fn spec_expr(s: Seq<char>) -> Option<SpecExpression> {
    match parse_expr_at(s, 0) {
        Some((j, e)) => if j == s.len() {
            Some(e)
        } else {
            None
        },
        None => None,
    }
}

/// Whole input as a function call.
pub open spec fn spec_func_call(s: Seq<char>) -> Option<SpecExpression> {
    match parse_func_call_at(s, 0) {
        Some((j, e)) => if j == s.len() {
            Some(e)
        } else {
            None
        },
        None => None,
    }
}

/// Whole input as a function declaration.
pub open spec fn spec_func(s: Seq<char>) -> Option<SpecFunc> {
    match parse_func_at(s, 0) {
        Some((j, f)) => if j == s.len() {
            Some(f)
        } else {
            None
        },
        None => None,
    }
}

/// Whole input as a source unit: the greedy statement sequence with the
/// blank-line markers dropped. All-or-nothing: unmatched trailing
/// content is a failure.
pub open spec fn spec_statements(s: Seq<char>) -> Option<Seq<SpecStatement>> {
    let (j, raw) = parse_statement_seq_at(s, 0);
    if j == s.len() {
        Some(filter_blank(raw))
    } else {
        None
    }
}


// ---------------------------------------------------------------------------
// What the whole-input atoms mean, stated declaratively
// ---------------------------------------------------------------------------
/// An identifier parse of the whole input succeeds exactly on the
/// identifier lexemes, and returns the input itself.
pub proof fn lemma_spec_ident(s: Seq<char>)
    ensures
        spec_ident(s) == if is_ident_seq(s) {
            Some(s)
        } else {
            None::<Seq<char>>
        },
{
    if s.len() > 0 && is_ident_start(s[0]) {
        lemma_scan(s, 1, ident_cont_pred());
    }
}

/// A numeric-constant parse of the whole input succeeds exactly on the
/// numeric lexemes (the empty decimal run included), and returns the
/// input itself.
pub proof fn lemma_spec_n_const(s: Seq<char>)
    ensures
        spec_n_const(s) == if matches_n_const(s) {
            Some(SpecExpression::NConst(s))
        } else {
            None::<SpecExpression>
        },
{
    if has_radix_prefix(s, 0) {
        if s[1] == 'x' {
            lemma_scan(s, 2, hex_pred());
            let j = scan(s, 2, hex_pred());
            if j == s.len() {
                assert(s.subrange(0, j) =~= s);
                assert(matches_hex(s));
            } else {
                assert(!is_hex_char(s[j]));
                assert(!matches_hex(s));
                assert(!is_dec_char('x') && s[1] == 'x');
                assert(!matches_dec(s));
                assert(!matches_bin(s));
            }
        } else {
            lemma_scan(s, 2, bin_pred());
            let j = scan(s, 2, bin_pred());
            if j == s.len() {
                assert(s.subrange(0, j) =~= s);
                assert(is_bin_char(s[2]) ==> is_hex_char(s[2]));
                assert(matches_bin(s));
            } else {
                assert(!is_bin_char(s[j]));
                assert(!matches_bin(s));
                assert(!is_dec_char('b') && s[1] == 'b');
                assert(!matches_dec(s));
                assert(!matches_hex(s));
            }
        }
    } else {
        lemma_scan(s, 0, dec_pred());
        let j = scan(s, 0, dec_pred());
        if j == s.len() {
            assert(s.subrange(0, j) =~= s);
            assert(matches_dec(s));
        } else {
            assert(!is_dec_char(s[j]));
            assert(!matches_dec(s));
            assert(matches_hex(s) || matches_bin(s) ==> has_radix_prefix(s, 0));
        }
    }
}

/// A string-constant parse of the whole input succeeds exactly on the
/// string-literal lexemes, and returns the body between the quotes.
pub proof fn lemma_spec_str_const(s: Seq<char>)
    ensures
        spec_str_const(s) == if matches_str_lit(s) {
            Some(SpecExpression::StrConst(s.subrange(1, s.len() - 1)))
        } else {
            None::<SpecExpression>
        },
{
    if s.len() > 0 && s[0] == '"' {
        lemma_scan(s, 1, str_body_pred());
        let j = scan(s, 1, str_body_pred());
        if j < s.len() && s[j] == '"' && j + 1 == s.len() {
            assert(matches_str_lit(s));
        } else {
            if matches_str_lit(s) {
                assert(forall|k: int| 1 <= k < s.len() - 1 ==> (str_body_pred())(#[trigger] s[k]));
                assert(!(str_body_pred())(s[s.len() - 1]));
                assert(j == s.len() - 1);
                assert(false);
            }
        }
    } else {
        assert(!matches_str_lit(s));
    }
}

} // verus!
