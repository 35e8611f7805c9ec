//! The executable parser of the expression grammar.
//!
//! Each public function parses its whole input, exactly as the grammar
//! in [`crate::grammar`] defines it: any unmatched trailing content is a
//! failure. The helpers mirror the grammar functions rule for rule and
//! are proved equal to them.
use vstd::prelude::*;
use vstd::string::StrSliceExecFns;

use crate::ast::Func;
use crate::ast::Statement;
use crate::ast::lemma_view_arg_seq_cons;
use crate::ast::lemma_view_expr_seq_cons;
use crate::ast::lemma_view_statement_seq_cons;
use crate::ast::view_arg_seq;
use crate::ast::view_expr;
use crate::ast::view_expr_seq;
use crate::ast::view_func;
use crate::ast::view_statement;
use crate::ast::view_statement_seq;
use crate::grammar::at_fn_kw;
use crate::grammar::at_return_kw;
use crate::grammar::filter_blank;
use crate::grammar::lemma_filter_blank_cons;
use crate::grammar::parse_call_args_at;
use crate::grammar::parse_call_args_more;
use crate::grammar::parse_expr_at;
use crate::grammar::parse_fn_arg_at;
use crate::grammar::parse_fn_args_at;
use crate::grammar::parse_fn_args_more;
use crate::grammar::parse_func_at;
use crate::grammar::parse_func_call_at;
use crate::grammar::parse_ret_at;
use crate::grammar::parse_statement_at;
use crate::grammar::parse_statement_seq_at;
use crate::grammar::spec_expr;
use crate::grammar::spec_func;
use crate::grammar::spec_func_call;
use crate::grammar::spec_statements;
use crate::ast::Expression;
use crate::ast::UType;
use crate::ast::is_bin_char;
use crate::ast::is_dec_char;
use crate::ast::is_hex_char;
use crate::ast::is_hws;
use crate::ast::is_ident_cont;
use crate::ast::is_ident_seq;
use crate::ast::is_ident_start;
use crate::ast::is_str_body_char;
use crate::ast::matches_n_const;
use crate::ast::matches_str_lit;
use crate::ast::SpecExpression;
use crate::ast::SpecStatement;
use crate::grammar::bin_pred;
use crate::grammar::dec_pred;
use crate::grammar::has_radix_prefix;
use crate::grammar::hex_pred;
use crate::grammar::hws_pred;
use crate::grammar::ident_cont_pred;
use crate::grammar::lemma_scan;
use crate::grammar::lemma_spec_ident;
use crate::grammar::lemma_spec_n_const;
use crate::grammar::lemma_spec_str_const;
use crate::grammar::parse_ident_at;
use crate::grammar::parse_n_const_at;
use crate::grammar::parse_str_const_at;
use crate::grammar::parse_type_at;
use crate::grammar::scan;
use crate::grammar::spec_ident;
use crate::grammar::spec_n_const;
use crate::grammar::spec_n_const_bin;
use crate::grammar::spec_n_const_dec;
use crate::grammar::spec_n_const_hex;
use crate::grammar::spec_str_const;
use crate::grammar::spec_type;
use crate::grammar::str_body_pred;
use crate::grammar::ws_nl_pred;

verus! {

broadcast use vstd::seq::group_seq_axioms;

/// A failed parse: the input does not match the grammar.
#[derive(Debug, PartialEq, Eq, Clone, Copy)]
pub struct ParseError {}

// ---------------------------------------------------------------------------
// Character classes
// ---------------------------------------------------------------------------
fn char_is_dec(c: char) -> (b: bool)
    ensures
        b == is_dec_char(c),
{
    ('0' <= c && c <= '9') || c == '_'
}

fn char_is_hex(c: char) -> (b: bool)
    ensures
        b == is_hex_char(c),
{
    ('0' <= c && c <= '9') || ('a' <= c && c <= 'f') || ('A' <= c && c <= 'F') || c == '_'
}

fn char_is_bin(c: char) -> (b: bool)
    ensures
        b == is_bin_char(c),
{
    c == '0' || c == '1' || c == '_'
}

fn char_is_ident_start(c: char) -> (b: bool)
    ensures
        b == is_ident_start(c),
{
    ('a' <= c && c <= 'z') || ('A' <= c && c <= 'Z') || c == '_' || c == '$'
}

fn char_is_ident_cont(c: char) -> (b: bool)
    ensures
        b == is_ident_cont(c),
{
    char_is_ident_start(c) || ('0' <= c && c <= '9')
}

fn char_is_hws(c: char) -> (b: bool)
    ensures
        b == is_hws(c),
{
    c == ' ' || c == '\t'
}

fn char_is_str_body(c: char) -> (b: bool)
    ensures
        b == is_str_body_char(c),
{
    c != '"' && c != '\n'
}

// ---------------------------------------------------------------------------
// Scanners: maximal runs of one character class
// ---------------------------------------------------------------------------
fn scan_dec(s: &str, n: usize, i: usize) -> (j: usize)
    requires
        n == s@.len(),
        i <= n,
    ensures
        j as int == scan(s@, i as int, dec_pred()),
        i <= j <= n,
    decreases n - i,
{
    if i < n && char_is_dec(s.get_char(i)) {
        scan_dec(s, n, i + 1)
    } else {
        i
    }
}

fn scan_hex(s: &str, n: usize, i: usize) -> (j: usize)
    requires
        n == s@.len(),
        i <= n,
    ensures
        j as int == scan(s@, i as int, hex_pred()),
        i <= j <= n,
    decreases n - i,
{
    if i < n && char_is_hex(s.get_char(i)) {
        scan_hex(s, n, i + 1)
    } else {
        i
    }
}

fn scan_bin(s: &str, n: usize, i: usize) -> (j: usize)
    requires
        n == s@.len(),
        i <= n,
    ensures
        j as int == scan(s@, i as int, bin_pred()),
        i <= j <= n,
    decreases n - i,
{
    if i < n && char_is_bin(s.get_char(i)) {
        scan_bin(s, n, i + 1)
    } else {
        i
    }
}

fn scan_ident_cont(s: &str, n: usize, i: usize) -> (j: usize)
    requires
        n == s@.len(),
        i <= n,
    ensures
        j as int == scan(s@, i as int, ident_cont_pred()),
        i <= j <= n,
    decreases n - i,
{
    if i < n && char_is_ident_cont(s.get_char(i)) {
        scan_ident_cont(s, n, i + 1)
    } else {
        i
    }
}

pub(crate) fn scan_hws(s: &str, n: usize, i: usize) -> (j: usize)
    requires
        n == s@.len(),
        i <= n,
    ensures
        j as int == scan(s@, i as int, hws_pred()),
        i <= j <= n,
    decreases n - i,
{
    if i < n && char_is_hws(s.get_char(i)) {
        scan_hws(s, n, i + 1)
    } else {
        i
    }
}

pub(crate) fn scan_ws_nl(s: &str, n: usize, i: usize) -> (j: usize)
    requires
        n == s@.len(),
        i <= n,
    ensures
        j as int == scan(s@, i as int, ws_nl_pred()),
        i <= j <= n,
    decreases n - i,
{
    if i < n {
        let c = s.get_char(i);
        if char_is_hws(c) || c == '\n' {
            return scan_ws_nl(s, n, i + 1);
        }
    }
    i
}

fn scan_str_body(s: &str, n: usize, i: usize) -> (j: usize)
    requires
        n == s@.len(),
        i <= n,
    ensures
        j as int == scan(s@, i as int, str_body_pred()),
        i <= j <= n,
    decreases n - i,
{
    if i < n && char_is_str_body(s.get_char(i)) {
        scan_str_body(s, n, i + 1)
    } else {
        i
    }
}

// ---------------------------------------------------------------------------
// Lexical atoms
// ---------------------------------------------------------------------------
/// Identifier lexeme starting at `i`: its end position.
fn p_ident(s: &str, n: usize, i: usize) -> (r: Option<usize>)
    requires
        n == s@.len(),
        i <= n,
    ensures
        match r {
            Some(j) => parse_ident_at(s@, i as int) == Some(j as int) && i < j <= n,
            None => parse_ident_at(s@, i as int) is None,
        },
{
    if i < n && char_is_ident_start(s.get_char(i)) {
        Some(scan_ident_cont(s, n, i + 1))
    } else {
        None
    }
}

/// String literal starting at `i`: the position after the closing quote
/// and the body between the quotes.
fn p_str_const(s: &str, n: usize, i: usize) -> (r: Option<(usize, String)>)
    requires
        n == s@.len(),
        i <= n,
    ensures
        match r {
            Some((j, t)) => parse_str_const_at(s@, i as int) matches Some((js, ts)) && js == j
                as int && ts == t@ && i < j <= n,
            None => parse_str_const_at(s@, i as int) is None,
        },
{
    if i < n && s.get_char(i) == '"' {
        let j = scan_str_body(s, n, i + 1);
        if j < n && s.get_char(j) == '"' {
            let t = s.substring_char(i + 1, j).to_owned();
            Some((j + 1, t))
        } else {
            None
        }
    } else {
        None
    }
}

/// Numeric literal starting at `i`: the position after the match and the
/// whole lexeme. The rule always matches; the lexeme may be empty.
fn p_n_const(s: &str, n: usize, i: usize) -> (r: (usize, String))
    requires
        n == s@.len(),
        i <= n,
    ensures
        parse_n_const_at(s@, i as int) == (r.0 as int, r.1@),
        i <= r.0 <= n,
{
    if n - i >= 2 && s.get_char(i) == '0' && (s.get_char(i + 1) == 'x' || s.get_char(i + 1)
        == 'b') {
        if s.get_char(i + 1) == 'x' {
            let j = scan_hex(s, n, i + 2);
            (j, s.substring_char(i, j).to_owned())
        } else {
            let j = scan_bin(s, n, i + 2);
            (j, s.substring_char(i, j).to_owned())
        }
    } else {
        assert(!has_radix_prefix(s@, i as int));
        let j = scan_dec(s, n, i);
        (j, s.substring_char(i, j).to_owned())
    }
}

/// Type name starting at `i`.
fn p_type(s: &str, n: usize, i: usize) -> (r: Option<(usize, UType)>)
    requires
        n == s@.len(),
        i <= n,
    ensures
        match r {
            Some((j, ty)) => parse_type_at(s@, i as int) == Some((j as int, ty)) && i < j <= n,
            None => parse_type_at(s@, i as int) is None,
        },
{
    if n - i >= 3 && s.get_char(i) == 'i' && s.get_char(i + 1) == '6' && s.get_char(i + 2)
        == '4' {
        Some((i + 3, UType::I64))
    } else {
        None
    }
}

// ---------------------------------------------------------------------------
// Public whole-input atoms
// ---------------------------------------------------------------------------
/// Parse the whole input as a string constant: a quote, a body without
/// quotes or newlines, and a closing quote. Succeeds exactly on such
/// inputs and yields the body with the quotes stripped.
pub fn str_const(input: &str) -> (r: Result<Expression, ParseError>)
    ensures
        r is Ok <==> matches_str_lit(input@),
        r matches Ok(e) ==> e@ == SpecExpression::StrConst(
            input@.subrange(1, input@.len() - 1),
        ),
        r matches Ok(e) ==> spec_str_const(input@) == Some(e@),
{
    proof {
        lemma_spec_str_const(input@);
    }
    let n = input.unicode_len();
    match p_str_const(input, n, 0) {
        Some((j, t)) => if j == n {
            Ok(Expression::StrConst(t))
        } else {
            Err(ParseError {})
        },
        None => Err(ParseError {}),
    }
}

/// Parse the whole input as a numeric constant: a decimal run (possibly
/// empty), or `0x` and a hexadecimal run, or `0b` and a binary run.
/// Succeeds exactly on such inputs and preserves the lexeme unchanged,
/// prefix and separators included.
pub fn n_const(input: &str) -> (r: Result<Expression, ParseError>)
    ensures
        r is Ok <==> matches_n_const(input@),
        r matches Ok(e) ==> e@ == SpecExpression::NConst(input@),
        r matches Ok(e) ==> spec_n_const(input@) == Some(e@),
{
    proof {
        lemma_spec_n_const(input@);
    }
    let n = input.unicode_len();
    let (j, t) = p_n_const(input, n, 0);
    if j == n {
        Ok(Expression::NConst(t))
    } else {
        Err(ParseError {})
    }
}

/// Parse the whole input as a decimal constant: any run of `[0-9_]`,
/// the empty run included, not starting with a `0x` or `0b` prefix.
pub fn n_const_dec(input: &str) -> (r: Result<Expression, ParseError>)
    ensures
        r is Ok <==> crate::ast::matches_dec(input@) && !has_radix_prefix(input@, 0),
        r matches Ok(e) ==> e@ == SpecExpression::NConst(input@),
        r matches Ok(e) ==> spec_n_const_dec(input@) == Some(e@),
{
    proof {
        lemma_scan(input@, 0, dec_pred());
    }
    let n = input.unicode_len();
    if i_has_radix_prefix(input, n, 0) {
        Err(ParseError {})
    } else {
        let j = scan_dec(input, n, 0);
        if j == n {
            proof {
                assert(crate::ast::matches_dec(input@));
            }
            Ok(Expression::NConst(input.to_owned()))
        } else {
            proof {
                assert(!is_dec_char(input@[j as int]));
            }
            Err(ParseError {})
        }
    }
}

/// Parse the whole input as a hexadecimal constant: `0x` followed by any
/// run of `[0-9a-fA-F_]`.
pub fn n_const_hex(input: &str) -> (r: Result<Expression, ParseError>)
    ensures
        r is Ok <==> crate::ast::matches_hex(input@),
        r matches Ok(e) ==> e@ == SpecExpression::NConst(input@),
        r matches Ok(e) ==> spec_n_const_hex(input@) == Some(e@),
{
    let n = input.unicode_len();
    if n >= 2 && input.get_char(0) == '0' && input.get_char(1) == 'x' {
        proof {
            lemma_scan(input@, 2, hex_pred());
        }
        let j = scan_hex(input, n, 2);
        if j == n {
            Ok(Expression::NConst(input.to_owned()))
        } else {
            proof {
                assert(!is_hex_char(input@[j as int]));
            }
            Err(ParseError {})
        }
    } else {
        Err(ParseError {})
    }
}

/// Parse the whole input as a binary constant: `0b` followed by any run
/// of `[01_]`.
pub fn n_const_bin(input: &str) -> (r: Result<Expression, ParseError>)
    ensures
        r is Ok <==> crate::ast::matches_bin(input@),
        r matches Ok(e) ==> e@ == SpecExpression::NConst(input@),
        r matches Ok(e) ==> spec_n_const_bin(input@) == Some(e@),
{
    let n = input.unicode_len();
    if n >= 2 && input.get_char(0) == '0' && input.get_char(1) == 'b' {
        proof {
            lemma_scan(input@, 2, bin_pred());
        }
        let j = scan_bin(input, n, 2);
        if j == n {
            Ok(Expression::NConst(input.to_owned()))
        } else {
            proof {
                assert(!is_bin_char(input@[j as int]));
            }
            Err(ParseError {})
        }
    } else {
        Err(ParseError {})
    }
}

/// The `0x` or `0b` lookahead test.
fn i_has_radix_prefix(s: &str, n: usize, i: usize) -> (b: bool)
    requires
        n == s@.len(),
        i <= n,
    ensures
        b == has_radix_prefix(s@, i as int),
{
    n - i >= 2 && s.get_char(i) == '0' && (s.get_char(i + 1) == 'x' || s.get_char(i + 1) == 'b')
}

/// Parse the whole input as an identifier: a character of `[a-zA-Z_$]`
/// followed by characters of `[a-zA-Z0-9_$]`. Succeeds exactly on such
/// inputs and returns the name unchanged.
pub fn ident(input: &str) -> (r: Result<String, ParseError>)
    ensures
        r is Ok <==> is_ident_seq(input@),
        r matches Ok(t) ==> t@ == input@,
        r matches Ok(t) ==> spec_ident(input@) == Some(t@),
{
    proof {
        lemma_spec_ident(input@);
    }
    let n = input.unicode_len();
    match p_ident(input, n, 0) {
        Some(j) => if j == n {
            Ok(input.to_owned())
        } else {
            Err(ParseError {})
        },
        None => Err(ParseError {}),
    }
}

/// Parse the whole input as a bare identifier expression.
pub fn ident_expr(input: &str) -> (r: Result<Expression, ParseError>)
    ensures
        r is Ok <==> is_ident_seq(input@),
        r matches Ok(e) ==> e@ == SpecExpression::Ident(input@),
{
    match ident(input) {
        Ok(t) => Ok(Expression::Ident(t)),
        Err(e) => Err(e),
    }
}

/// Parse the whole input as a type name. `i64` is the one recognized
/// type.
pub fn type_(input: &str) -> (r: Result<UType, ParseError>)
    ensures
        r is Ok <==> input@.len() == 3 && input@[0] == 'i' && input@[1] == '6' && input@[2]
            == '4',
        r matches Ok(ty) ==> ty == UType::I64 && spec_type(input@) == Some(ty),
{
    let n = input.unicode_len();
    match p_type(input, n, 0) {
        Some((j, ty)) => if j == n {
            Ok(ty)
        } else {
            Err(ParseError {})
        },
        None => Err(ParseError {}),
    }
}


// ---------------------------------------------------------------------------
// Keywords
// ---------------------------------------------------------------------------
fn i_at_fn_kw(s: &str, n: usize, i: usize) -> (b: bool)
    requires
        n == s@.len(),
        i <= n,
    ensures
        b == at_fn_kw(s@, i as int),
{
    n - i >= 2 && s.get_char(i) == 'f' && s.get_char(i + 1) == 'n' && (i + 2 == n
        || !char_is_ident_cont(s.get_char(i + 2)))
}

fn i_at_return_kw(s: &str, n: usize, i: usize) -> (b: bool)
    requires
        n == s@.len(),
        i <= n,
    ensures
        b == at_return_kw(s@, i as int),
{
    n - i >= 6 && s.get_char(i) == 'r' && s.get_char(i + 1) == 'e' && s.get_char(i + 2) == 't'
        && s.get_char(i + 3) == 'u' && s.get_char(i + 4) == 'r' && s.get_char(i + 5) == 'n' && (i
        + 6 == n || !char_is_ident_cont(s.get_char(i + 6)))
}

// ---------------------------------------------------------------------------
// Argument declarations
// ---------------------------------------------------------------------------
/// One declared argument: name, a single space, optional whitespace,
/// type.
fn p_fn_arg(s: &str, n: usize, i: usize) -> (r: Option<(usize, (String, UType))>)
    requires
        n == s@.len(),
        i <= n,
    ensures
        match r {
            Some((j, a)) => parse_fn_arg_at(s@, i as int) == Some((j as int, (a.0@, a.1))) && i
                < j <= n,
            None => parse_fn_arg_at(s@, i as int) is None,
        },
{
    match p_ident(s, n, i) {
        Some(j) => if j < n && s.get_char(j) == ' ' {
            let k = scan_hws(s, n, j + 1);
            match p_type(s, n, k) {
                Some((m, ty)) => {
                    let name = s.substring_char(i, j).to_owned();
                    Some((m, (name, ty)))
                },
                None => None,
            }
        } else {
            None
        },
        None => None,
    }
}

/// Zero or more declared arguments separated by commas.
fn p_fn_args(s: &str, n: usize, i: usize) -> (r: (usize, Vec<(String, UType)>))
    requires
        n == s@.len(),
        i <= n,
    ensures
        parse_fn_args_at(s@, i as int).0 == r.0 as int,
        parse_fn_args_at(s@, i as int).1 == view_arg_seq(r.1@),
        i <= r.0 <= n,
    decreases n - i, 1int,
{
    match p_fn_arg(s, n, i) {
        None => {
            let r: Vec<(String, UType)> = Vec::new();
            proof {
                assert(view_arg_seq(r@) =~= Seq::<(Seq<char>, UType)>::empty());
            }
            (i, r)
        },
        Some((j, a)) => if i < j && j <= n {
            let (k, mut rest) = p_fn_args_more(s, n, j);
            proof {
                lemma_view_arg_seq_cons(a, rest@);
            }
            let ghost orest = rest@;
            let ghost av = (a.0@, a.1);
            rest.insert(0, a);
            proof {
                assert(rest@ =~= seq![rest@[0]] + orest);
                assert(view_arg_seq(rest@) == seq![av] + view_arg_seq(orest));
            }
            (k, rest)
        } else {
            let ghost av = (a.0@, a.1);
            let mut r: Vec<(String, UType)> = Vec::new();
            r.push(a);
            proof {
                assert(r@ =~= seq![r@[0]]);
                lemma_view_arg_seq_cons(r@[0], Seq::empty());
                assert(seq![r@[0]] + Seq::<(String, UType)>::empty() =~= r@);
                assert(view_arg_seq(Seq::<(String, UType)>::empty())
                    =~= Seq::<(Seq<char>, UType)>::empty());
                assert(seq![av] + Seq::<(Seq<char>, UType)>::empty() =~= seq![av]);
                assert(view_arg_seq(r@) =~= seq![av]);
            }
            (j, r)
        },
    }
}

/// The `, name type` continuations after a complete argument.
fn p_fn_args_more(s: &str, n: usize, i: usize) -> (r: (usize, Vec<(String, UType)>))
    requires
        n == s@.len(),
        i <= n,
    ensures
        parse_fn_args_more(s@, i as int).0 == r.0 as int,
        parse_fn_args_more(s@, i as int).1 == view_arg_seq(r.1@),
        i <= r.0 <= n,
    decreases n - i, 0int,
{
    proof {
        assert(view_arg_seq(Seq::<(String, UType)>::empty()) =~= Seq::<(
            Seq<char>,
            UType,
        )>::empty());
    }
    if i < n && s.get_char(i) == ',' {
        let k = scan_hws(s, n, i + 1);
        match p_fn_arg(s, n, k) {
            Some((j, a)) => if i < j && j <= n {
                let (m, mut rest) = p_fn_args_more(s, n, j);
                proof {
                    lemma_view_arg_seq_cons(a, rest@);
                }
                let ghost orest = rest@;
                let ghost av = (a.0@, a.1);
                rest.insert(0, a);
                proof {
                    assert(rest@ =~= seq![rest@[0]] + orest);
                    assert(view_arg_seq(rest@) == seq![av] + view_arg_seq(orest));
                }
                (m, rest)
            } else {
                (i, Vec::new())
            },
            None => (i, Vec::new()),
        }
    } else {
        (i, Vec::new())
    }
}

// ---------------------------------------------------------------------------
// Expressions
// ---------------------------------------------------------------------------
/// Expression starting at `i`: string constant, numeric constant,
/// function call, identifier reference, in that priority order.
fn p_expr(s: &str, n: usize, i: usize) -> (r: Option<(usize, Expression)>)
    requires
        n == s@.len(),
        i <= n,
    ensures
        match r {
            Some((j, e)) => parse_expr_at(s@, i as int) == Some((j as int, view_expr(e))) && i
                < j <= n,
            None => parse_expr_at(s@, i as int) is None,
        },
    decreases n - i, 1int,
{
    match p_str_const(s, n, i) {
        Some((j, t)) => Some((j, Expression::StrConst(t))),
        None => {
            let (j, t) = p_n_const(s, n, i);
            if i < j {
                Some((j, Expression::NConst(t)))
            } else {
                match p_func_call(s, n, i) {
                    Some(r) => Some(r),
                    None => match p_ident(s, n, i) {
                        Some(j2) => Some(
                            (j2, Expression::Ident(s.substring_char(i, j2).to_owned())),
                        ),
                        None => None,
                    },
                }
            }
        },
    }
}

/// Function call starting at `i`: name, `(`, arguments, `)`.
fn p_func_call(s: &str, n: usize, i: usize) -> (r: Option<(usize, Expression)>)
    requires
        n == s@.len(),
        i <= n,
    ensures
        match r {
            Some((j, e)) => parse_func_call_at(s@, i as int) == Some((j as int, view_expr(e)))
                && i < j <= n,
            None => parse_func_call_at(s@, i as int) is None,
        },
    decreases n - i, 0int,
{
    match p_ident(s, n, i) {
        None => None,
        Some(j1) => if j1 < n && s.get_char(j1) == '(' {
            let j2 = scan_hws(s, n, j1 + 1);
            if i < j2 && j2 <= n {
                let (j3, args) = p_call_args(s, n, j2);
                let j4 = scan_hws(s, n, j3);
                if j4 < n && s.get_char(j4) == ')' {
                    let name = s.substring_char(i, j1).to_owned();
                    Some((j4 + 1, Expression::FuncCall { fn_name: name, args }))
                } else {
                    None
                }
            } else {
                None
            }
        } else {
            None
        },
    }
}

/// Zero or more call arguments separated by commas.
fn p_call_args(s: &str, n: usize, i: usize) -> (r: (usize, Vec<Expression>))
    requires
        n == s@.len(),
        i <= n,
    ensures
        parse_call_args_at(s@, i as int).0 == r.0 as int,
        parse_call_args_at(s@, i as int).1 == view_expr_seq(r.1@),
        i <= r.0 <= n,
    decreases n - i, 2int,
{
    match p_expr(s, n, i) {
        None => {
            let r: Vec<Expression> = Vec::new();
            (i, r)
        },
        Some((j, e)) => if i < j && j <= n {
            let (k, mut rest) = p_call_args_more(s, n, j);
            proof {
                lemma_view_expr_seq_cons(e, rest@);
            }
            let ghost orest = rest@;
            let ghost ev = view_expr(e);
            rest.insert(0, e);
            proof {
                assert(rest@ =~= seq![rest@[0]] + orest);
                assert(view_expr_seq(rest@) == seq![ev] + view_expr_seq(orest));
            }
            (k, rest)
        } else {
            let ghost ev = view_expr(e);
            let mut r: Vec<Expression> = Vec::new();
            r.push(e);
            proof {
                assert(r@ =~= seq![r@[0]]);
                lemma_view_expr_seq_cons(r@[0], Seq::empty());
                assert(seq![r@[0]] + Seq::<Expression>::empty() =~= r@);
                assert(seq![ev] + Seq::<SpecExpression>::empty() =~= seq![ev]);
                assert(view_expr_seq(r@) =~= seq![ev]);
            }
            (j, r)
        },
    }
}

/// The `, expression` continuations after a complete call argument.
fn p_call_args_more(s: &str, n: usize, i: usize) -> (r: (usize, Vec<Expression>))
    requires
        n == s@.len(),
        i <= n,
    ensures
        parse_call_args_more(s@, i as int).0 == r.0 as int,
        parse_call_args_more(s@, i as int).1 == view_expr_seq(r.1@),
        i <= r.0 <= n,
    decreases n - i, 3int,
{
    let a = scan_hws(s, n, i);
    if a < n && s.get_char(a) == ',' {
        let b = scan_hws(s, n, a + 1);
        if i < b && b <= n {
            match p_expr(s, n, b) {
                Some((j, e)) => if i < j && j <= n {
                    let (k, mut rest) = p_call_args_more(s, n, j);
                    proof {
                        lemma_view_expr_seq_cons(e, rest@);
                    }
                    let ghost orest = rest@;
                    let ghost ev = view_expr(e);
                    rest.insert(0, e);
                    proof {
                        assert(rest@ =~= seq![rest@[0]] + orest);
                        assert(view_expr_seq(rest@) == seq![ev] + view_expr_seq(orest));
                    }
                    (k, rest)
                } else {
                    (i, Vec::new())
                },
                None => (i, Vec::new()),
            }
        } else {
            (i, Vec::new())
        }
    } else {
        (i, Vec::new())
    }
}

// ---------------------------------------------------------------------------
// Statements
// ---------------------------------------------------------------------------
/// Return statement starting at `i`.
fn p_ret(s: &str, n: usize, i: usize) -> (r: Option<(usize, Statement)>)
    requires
        n == s@.len(),
        i <= n,
    ensures
        match r {
            Some((j, st)) => parse_ret_at(s@, i as int) == Some((j as int, view_statement(st)))
                && i < j <= n,
            None => parse_ret_at(s@, i as int) is None,
        },
    decreases n - i, 4int,
{
    let a = scan_hws(s, n, i);
    if i_at_return_kw(s, n, a) {
        let c = scan_hws(s, n, a + 6);
        if i < c && c <= n {
            match p_expr(s, n, c) {
                Some((d, e)) => {
                    let d2 = scan_hws(s, n, d);
                    if d2 < n && s.get_char(d2) == '\n' {
                        Some((d2 + 1, Statement::Return(Some(e))))
                    } else {
                        None
                    }
                },
                None => if c < n && s.get_char(c) == '\n' {
                    Some((c + 1, Statement::Return(None)))
                } else {
                    None
                },
            }
        } else {
            None
        }
    } else {
        None
    }
}

/// Function declaration starting at `i`.
fn p_func(s: &str, n: usize, i: usize) -> (r: Option<(usize, Func)>)
    requires
        n == s@.len(),
        i <= n,
    ensures
        match r {
            Some((j, f)) => parse_func_at(s@, i as int) == Some((j as int, view_func(f))) && i
                < j <= n,
            None => parse_func_at(s@, i as int) is None,
        },
    decreases n - i, 4int,
{
    let a = scan_ws_nl(s, n, i);
    if !i_at_fn_kw(s, n, a) {
        return None;
    }
    let b = scan_hws(s, n, a + 2);
    let c = match p_ident(s, n, b) {
        None => {
            return None;
        },
        Some(c) => c,
    };
    if !(c < n && s.get_char(c) == '(') {
        return None;
    }
    let d = scan_hws(s, n, c + 1);
    let (e, args) = p_fn_args(s, n, d);
    let f = scan_hws(s, n, e);
    if !(f < n && s.get_char(f) == ')') {
        return None;
    }
    let g = scan_hws(s, n, f + 1);
    let (h, ret) = match p_type(s, n, g) {
        Some((m, ty)) => (scan_hws(s, n, m), ty),
        None => (g, UType::Nothing),
    };
    if !(h < n && s.get_char(h) == '{') {
        return None;
    }
    let q = if h + 1 < n && s.get_char(h + 1) == '\n' {
        h + 2
    } else {
        h + 1
    };
    if !(i < q && q <= n) {
        return None;
    }
    let (r2, body) = p_statement_seq(s, n, q);
    let t = scan_hws(s, n, r2);
    if n - t >= 2 && s.get_char(t) == '}' && s.get_char(t + 1) == '\n' {
        let name = s.substring_char(b, c).to_owned();
        Some((t + 2, Func { name, args, ret, body }))
    } else {
        None
    }
}

/// Statement starting at `i`: function declaration, return statement, or
/// blank line, in that order.
fn p_statement(s: &str, n: usize, i: usize) -> (r: Option<(usize, Statement)>)
    requires
        n == s@.len(),
        i <= n,
    ensures
        match r {
            Some((j, st)) => parse_statement_at(s@, i as int) == Some(
                (j as int, view_statement(st)),
            ) && i < j <= n,
            None => parse_statement_at(s@, i as int) is None,
        },
    decreases n - i, 5int,
{
    match p_func(s, n, i) {
        Some((j, f)) => Some((j, Statement::FuncDecl(f))),
        None => match p_ret(s, n, i) {
            Some(r) => Some(r),
            None => {
                let a = scan_hws(s, n, i);
                if a < n && s.get_char(a) == '\n' {
                    Some((a + 1, Statement::EmptyLine))
                } else {
                    None
                }
            },
        },
    }
}

/// The greedy statement sequence starting at `i`, with the blank-line
/// markers already dropped.
fn p_statement_seq(s: &str, n: usize, i: usize) -> (r: (usize, Vec<Statement>))
    requires
        n == s@.len(),
        i <= n,
    ensures
        parse_statement_seq_at(s@, i as int).0 == r.0 as int,
        filter_blank(parse_statement_seq_at(s@, i as int).1) == view_statement_seq(r.1@),
        i <= r.0 <= n,
    decreases n - i, 6int,
{
    match p_statement(s, n, i) {
        None => {
            let r: Vec<Statement> = Vec::new();
            (i, r)
        },
        Some((j, st)) => if i < j && j <= n {
            let (k, mut rest) = p_statement_seq(s, n, j);
            let ghost stv = view_statement(st);
            let ghost raw_rest = parse_statement_seq_at(s@, j as int).1;
            proof {
                lemma_filter_blank_cons(stv, raw_rest);
            }
            let blank = match &st {
                Statement::EmptyLine => true,
                _ => false,
            };
            if blank {
                (k, rest)
            } else {
                proof {
                    lemma_view_statement_seq_cons(st, rest@);
                }
                let ghost orest = rest@;
                rest.insert(0, st);
                proof {
                    assert(rest@ =~= seq![rest@[0]] + orest);
                    assert(view_statement_seq(rest@) == seq![stv] + view_statement_seq(orest));
                }
                (k, rest)
            }
        } else {
            let ghost stv = view_statement(st);
            proof {
                assert(seq![stv].drop_first() =~= Seq::<SpecStatement>::empty());
                lemma_filter_blank_cons(stv, Seq::empty());
                assert(seq![stv] + Seq::<SpecStatement>::empty() =~= seq![stv]);
            }
            let blank = match &st {
                Statement::EmptyLine => true,
                _ => false,
            };
            if blank {
                let r: Vec<Statement> = Vec::new();
                (j, r)
            } else {
                let mut r: Vec<Statement> = Vec::new();
                r.push(st);
                proof {
                    assert(r@ =~= seq![r@[0]]);
                    lemma_view_statement_seq_cons(r@[0], Seq::empty());
                    assert(seq![r@[0]] + Seq::<Statement>::empty() =~= r@);
                    assert(seq![stv] + Seq::<SpecStatement>::empty() =~= seq![stv]);
                    assert(view_statement_seq(r@) =~= seq![stv]);
                }
                (j, r)
            }
        },
    }
}

// ---------------------------------------------------------------------------
// Public whole-input rules
// ---------------------------------------------------------------------------
/// Parse the whole input as an expression: string constant, numeric
/// constant, function call, or identifier reference, tried in that
/// priority order.
pub fn expr(input: &str) -> (r: Result<Expression, ParseError>)
    ensures
        match r {
            Ok(e) => spec_expr(input@) == Some(e@) && crate::ast::wf_expr(e@),
            Err(_) => spec_expr(input@) is None,
        },
{
    proof {
        crate::invariants::lemma_parse_expr_wf(input@);
    }
    let n = input.unicode_len();
    match p_expr(input, n, 0) {
        Some((j, e)) => if j == n {
            Ok(e)
        } else {
            Err(ParseError {})
        },
        None => Err(ParseError {}),
    }
}

/// Parse the whole input as a function call.
pub fn func_call(input: &str) -> (r: Result<Expression, ParseError>)
    ensures
        match r {
            Ok(e) => spec_func_call(input@) == Some(e@),
            Err(_) => spec_func_call(input@) is None,
        },
{
    let n = input.unicode_len();
    match p_func_call(input, n, 0) {
        Some((j, e)) => if j == n {
            Ok(e)
        } else {
            Err(ParseError {})
        },
        None => Err(ParseError {}),
    }
}

/// Parse the whole input as a function declaration.
pub fn func(input: &str) -> (r: Result<Func, ParseError>)
    ensures
        match r {
            Ok(f) => spec_func(input@) == Some(f@) && crate::ast::wf_func(f@),
            Err(_) => spec_func(input@) is None,
        },
{
    proof {
        crate::invariants::lemma_parse_func_wf(input@);
    }
    let n = input.unicode_len();
    match p_func(input, n, 0) {
        Some((j, f)) => if j == n {
            Ok(f)
        } else {
            Err(ParseError {})
        },
        None => Err(ParseError {}),
    }
}

/// Parse the whole input as a source unit: a sequence of statements with
/// every blank line dropped. All-or-nothing: any unmatched trailing
/// content is a failure.
pub fn statements(input: &str) -> (r: Result<Vec<Statement>, ParseError>)
    ensures
        match r {
            Ok(v) => spec_statements(input@) == Some(view_statement_seq(v@))
                && crate::ast::wf_statement_seq(view_statement_seq(v@)),
            Err(_) => spec_statements(input@) is None,
        },
{
    proof {
        crate::invariants::lemma_parse_statements_wf(input@);
    }
    let n = input.unicode_len();
    let (j, v) = p_statement_seq(input, n, 0);
    if j == n {
        Ok(v)
    } else {
        Err(ParseError {})
    }
}

} // verus!
