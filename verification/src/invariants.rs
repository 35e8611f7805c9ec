//! The grammar produces only well-formed trees: every lexeme stored in a
//! parsed node matches its atom's grammar, and no blank-line marker
//! survives into a finalized statement sequence.
use vstd::prelude::*;

use crate::ast::SpecExpression;
use crate::ast::SpecStatement;
use crate::ast::UType;
use crate::ast::is_dec_char;
use crate::ast::is_ident_seq;
use crate::ast::lemma_wf_expr_seq_cons;
use crate::ast::lemma_wf_statement_seq_cons;
use crate::ast::matches_bin;
use crate::ast::matches_dec;
use crate::ast::matches_hex;
use crate::ast::wf_expr;
use crate::ast::wf_expr_seq;
use crate::ast::wf_func;
use crate::ast::wf_statement;
use crate::ast::wf_statement_seq;
use crate::grammar::bin_pred;
use crate::grammar::dec_pred;
use crate::grammar::filter_blank;
use crate::grammar::has_radix_prefix;
use crate::grammar::hex_pred;
use crate::grammar::hws_pred;
use crate::grammar::ident_cont_pred;
use crate::grammar::lemma_scan;
use crate::grammar::lemma_scan_ge;
use crate::grammar::parse_call_args_at;
use crate::grammar::parse_call_args_more;
use crate::grammar::parse_expr_at;
use crate::grammar::parse_fn_arg_at;
use crate::grammar::parse_fn_args_at;
use crate::grammar::parse_fn_args_more;
use crate::grammar::parse_func_at;
use crate::grammar::parse_func_call_at;
use crate::grammar::parse_ident_at;
use crate::grammar::parse_n_const_at;
use crate::grammar::parse_ret_at;
use crate::grammar::parse_statement_at;
use crate::grammar::parse_statement_seq_at;
use crate::grammar::parse_str_const_at;
use crate::grammar::parse_type_at;
use crate::grammar::skip_hws;
use crate::grammar::skip_ws_nl;
use crate::grammar::spec_expr;
use crate::grammar::spec_func;
use crate::grammar::spec_statements;
use crate::grammar::str_body_pred;
use crate::grammar::ws_nl_pred;

verus! {

broadcast use vstd::seq::group_seq_axioms;

/// An identifier match yields an identifier lexeme and advances.
proof fn lemma_wf_ident_at(s: Seq<char>, i: int)
    requires
        0 <= i <= s.len(),
    ensures
        parse_ident_at(s, i) matches Some(j) ==> i < j <= s.len() && is_ident_seq(
            s.subrange(i, j),
        ),
{
    if parse_ident_at(s, i) is Some {
        lemma_scan(s, i + 1, ident_cont_pred());
    }
}

/// A string-literal match yields a body without quotes or newlines.
proof fn lemma_wf_str_const_at(s: Seq<char>, i: int)
    requires
        0 <= i <= s.len(),
    ensures
        parse_str_const_at(s, i) matches Some((j, t)) ==> i < j <= s.len() && wf_expr(
            SpecExpression::StrConst(t),
        ),
{
    if 0 <= i < s.len() && s[i] == '"' {
        lemma_scan(s, i + 1, str_body_pred());
    }
}

/// A numeric match never moves backwards, and a non-empty one yields a
/// lexeme of one of the three literal grammars.
proof fn lemma_wf_n_const_at(s: Seq<char>, i: int)
    requires
        0 <= i <= s.len(),
    ensures
        i <= parse_n_const_at(s, i).0 <= s.len(),
        i < parse_n_const_at(s, i).0 ==> wf_expr(SpecExpression::NConst(parse_n_const_at(s, i).1)),
        has_radix_prefix(s, i) ==> i + 2 <= parse_n_const_at(s, i).0,
        !has_radix_prefix(s, i) && parse_n_const_at(s, i).0 == i ==> (i == s.len()
            || !is_dec_char(s[i])),
{
    if has_radix_prefix(s, i) {
        if s[i + 1] == 'x' {
            lemma_scan(s, i + 2, hex_pred());
            let j = parse_n_const_at(s, i).0;
            assert(matches_hex(s.subrange(i, j)));
        } else {
            lemma_scan(s, i + 2, bin_pred());
            let j = parse_n_const_at(s, i).0;
            assert(matches_bin(s.subrange(i, j)));
        }
    } else {
        lemma_scan(s, i, dec_pred());
        let j = parse_n_const_at(s, i).0;
        if i < j {
            assert(matches_dec(s.subrange(i, j)));
        }
    }
}

/// A declared-argument match yields an identifier name and the one
/// recognized type.
proof fn lemma_wf_fn_arg_at(s: Seq<char>, i: int)
    requires
        0 <= i <= s.len(),
    ensures
        parse_fn_arg_at(s, i) matches Some((j, a)) ==> i < j <= s.len() && is_ident_seq(a.0)
            && a.1 == UType::I64,
{
    lemma_wf_ident_at(s, i);
    match parse_ident_at(s, i) {
        Some(j) => if j < s.len() && s[j] == ' ' {
            lemma_scan(s, j + 1, hws_pred());
        } else {
        },
        None => {},
    }
}

/// Every declared argument of an argument-list match is well formed, and
/// the match never moves backwards.
proof fn lemma_wf_fn_args_at(s: Seq<char>, i: int)
    requires
        0 <= i <= s.len(),
    ensures
        i <= parse_fn_args_at(s, i).0 <= s.len(),
        forall|k: int|
            0 <= k < parse_fn_args_at(s, i).1.len() ==> is_ident_seq(
                (#[trigger] parse_fn_args_at(s, i).1[k]).0,
            ) && parse_fn_args_at(s, i).1[k].1 == UType::I64,
    decreases s.len() - i, 1int,
{
    lemma_wf_fn_arg_at(s, i);
    match parse_fn_arg_at(s, i) {
        None => {},
        Some((j, a)) => if i < j && j <= s.len() {
            lemma_wf_fn_args_more(s, j);
        } else {
        },
    }
}

proof fn lemma_wf_fn_args_more(s: Seq<char>, i: int)
    requires
        0 <= i <= s.len(),
    ensures
        i <= parse_fn_args_more(s, i).0 <= s.len(),
        forall|k: int|
            0 <= k < parse_fn_args_more(s, i).1.len() ==> is_ident_seq(
                (#[trigger] parse_fn_args_more(s, i).1[k]).0,
            ) && parse_fn_args_more(s, i).1[k].1 == UType::I64,
    decreases s.len() - i, 0int,
{
    if 0 <= i < s.len() && s[i] == ',' {
        lemma_scan(s, i + 1, hws_pred());
        let k = skip_hws(s, i + 1);
        lemma_wf_fn_arg_at(s, k);
        match parse_fn_arg_at(s, k) {
            Some((j, a)) => if i < j && j <= s.len() {
                lemma_wf_fn_args_more(s, j);
            } else {
            },
            None => {},
        }
    }
}

/// An expression match advances and yields a well-formed expression.
proof fn lemma_wf_expr_at(s: Seq<char>, i: int)
    requires
        0 <= i <= s.len(),
    ensures
        parse_expr_at(s, i) matches Some((j, e)) ==> i < j <= s.len() && wf_expr(e),
    decreases s.len() - i, 1int,
{
    lemma_wf_str_const_at(s, i);
    match parse_str_const_at(s, i) {
        Some(_) => {},
        None => {
            lemma_wf_n_const_at(s, i);
            let (j, t) = parse_n_const_at(s, i);
            if i < j {
            } else {
                lemma_scan_ge(s, i + 2, hex_pred());
                lemma_scan_ge(s, i + 2, bin_pred());
                assert(!has_radix_prefix(s, i));
                assert(i == s.len() || !is_dec_char(s[i]));
                lemma_wf_func_call_at(s, i);
                match parse_func_call_at(s, i) {
                    Some(_) => {},
                    None => {
                        lemma_wf_ident_at(s, i);
                    },
                }
            }
        },
    }
}

/// A function-call match advances, its name is an identifier lexeme,
/// and its arguments are well formed. The priority of the numeric
/// alternative over the call alternative, which bars a name whose first
/// character a decimal literal could claim, is imposed by the caller.
proof fn lemma_wf_func_call_at(s: Seq<char>, i: int)
    requires
        0 <= i <= s.len(),
    ensures
        parse_func_call_at(s, i) matches Some((j, e)) ==> i < j <= s.len() && (e matches
            SpecExpression::FuncCall { fn_name, args } && is_ident_seq(fn_name) && fn_name[0]
            == s[i] && wf_expr_seq(args)),
    decreases s.len() - i, 0int,
{
    lemma_wf_ident_at(s, i);
    match parse_ident_at(s, i) {
        None => {},
        Some(j1) => if j1 < s.len() && s[j1] == '(' {
            lemma_scan(s, j1 + 1, hws_pred());
            let j2 = skip_hws(s, j1 + 1);
            if i < j2 && j2 <= s.len() {
                lemma_wf_call_args_at(s, j2);
                let (j3, args) = parse_call_args_at(s, j2);
                lemma_scan(s, j3, hws_pred());
            }
        } else {
        },
    }
}

/// Every element of a call-argument match is well formed, and the match
/// never moves backwards.
proof fn lemma_wf_call_args_at(s: Seq<char>, i: int)
    requires
        0 <= i <= s.len(),
    ensures
        i <= parse_call_args_at(s, i).0 <= s.len(),
        wf_expr_seq(parse_call_args_at(s, i).1),
    decreases s.len() - i, 2int,
{
    lemma_wf_expr_at(s, i);
    match parse_expr_at(s, i) {
        None => {},
        Some((j, e)) => if i < j && j <= s.len() {
            lemma_wf_call_args_more(s, j);
            lemma_wf_expr_seq_cons(e, parse_call_args_more(s, j).1);
        } else {
            lemma_wf_expr_seq_cons(e, Seq::empty());
            assert(seq![e] + Seq::<SpecExpression>::empty() =~= seq![e]);
        },
    }
}

proof fn lemma_wf_call_args_more(s: Seq<char>, i: int)
    requires
        0 <= i <= s.len(),
    ensures
        i <= parse_call_args_more(s, i).0 <= s.len(),
        wf_expr_seq(parse_call_args_more(s, i).1),
    decreases s.len() - i, 3int,
{
    lemma_scan(s, i, hws_pred());
    let a = skip_hws(s, i);
    if i <= a < s.len() && s[a] == ',' {
        lemma_scan(s, a + 1, hws_pred());
        let b = skip_hws(s, a + 1);
        if i < b && b <= s.len() {
            lemma_wf_expr_at(s, b);
            match parse_expr_at(s, b) {
                Some((j, e)) => if i < j && j <= s.len() {
                    lemma_wf_call_args_more(s, j);
                    lemma_wf_expr_seq_cons(e, parse_call_args_more(s, j).1);
                } else {
                },
                None => {},
            }
        }
    }
}

/// A return-statement match advances and yields a well-formed statement.
proof fn lemma_wf_ret_at(s: Seq<char>, i: int)
    requires
        0 <= i <= s.len(),
    ensures
        parse_ret_at(s, i) matches Some((j, st)) ==> i < j <= s.len() && wf_statement(st),
    decreases s.len() - i, 4int,
{
    lemma_scan(s, i, hws_pred());
    let a = skip_hws(s, i);
    if crate::grammar::at_return_kw(s, a) && i <= a {
        lemma_scan(s, a + 6, hws_pred());
        let c = skip_hws(s, a + 6);
        if i < c && c <= s.len() {
            lemma_wf_expr_at(s, c);
            match parse_expr_at(s, c) {
                Some((d, e)) => {
                    lemma_scan(s, d, hws_pred());
                },
                None => {},
            }
        }
    }
}

/// A function-declaration match advances and yields a well-formed
/// declaration.
proof fn lemma_wf_func_at(s: Seq<char>, i: int)
    requires
        0 <= i <= s.len(),
    ensures
        parse_func_at(s, i) matches Some((j, f)) ==> i < j <= s.len() && wf_func(f),
    decreases s.len() - i, 4int,
{
    lemma_scan(s, i, ws_nl_pred());
    let a = skip_ws_nl(s, i);
    if crate::grammar::at_fn_kw(s, a) && i <= a {
        lemma_scan(s, a + 2, hws_pred());
        let b = skip_hws(s, a + 2);
        lemma_wf_ident_at(s, b);
        match parse_ident_at(s, b) {
            None => {},
            Some(c) => if c < s.len() && s[c] == '(' {
                lemma_scan(s, c + 1, hws_pred());
                let d = skip_hws(s, c + 1);
                lemma_wf_fn_args_at(s, d);
                let (e, args) = parse_fn_args_at(s, d);
                lemma_scan(s, e, hws_pred());
                let f = skip_hws(s, e);
                if f < s.len() && s[f] == ')' {
                    lemma_scan(s, f + 1, hws_pred());
                    let g = skip_hws(s, f + 1);
                    let (h, ret) = match parse_type_at(s, g) {
                        Some((m, ty)) => {
                            lemma_scan(s, m, hws_pred());
                            (skip_hws(s, m), ty)
                        },
                        None => (g, UType::Nothing),
                    };
                    if h < s.len() && s[h] == '{' {
                        let q = if h + 1 < s.len() && s[h + 1] == '\n' {
                            h + 2
                        } else {
                            h + 1
                        };
                        if i < q && q <= s.len() {
                            lemma_wf_statement_seq_at(s, q);
                            let (r, raw) = parse_statement_seq_at(s, q);
                            lemma_scan(s, r, hws_pred());
                            lemma_wf_filter_blank(raw);
                        }
                    }
                }
            } else {
            },
        }
    }
}

/// A statement match advances and yields a blank-line marker or a
/// well-formed statement.
proof fn lemma_wf_statement_at(s: Seq<char>, i: int)
    requires
        0 <= i <= s.len(),
    ensures
        parse_statement_at(s, i) matches Some((j, st)) ==> i < j <= s.len() && (st
            is EmptyLine || wf_statement(st)),
    decreases s.len() - i, 5int,
{
    lemma_wf_func_at(s, i);
    match parse_func_at(s, i) {
        Some(_) => {},
        None => {
            lemma_wf_ret_at(s, i);
            match parse_ret_at(s, i) {
                Some(_) => {},
                None => {
                    lemma_scan(s, i, hws_pred());
                },
            }
        },
    }
}

/// Every element of a raw statement-sequence match is a blank-line
/// marker or well formed, and the match never moves backwards.
proof fn lemma_wf_statement_seq_at(s: Seq<char>, i: int)
    requires
        0 <= i <= s.len(),
    ensures
        i <= parse_statement_seq_at(s, i).0 <= s.len(),
        forall|k: int|
            0 <= k < parse_statement_seq_at(s, i).1.len() ==> (#[trigger] parse_statement_seq_at(
                s,
                i,
            ).1[k]) is EmptyLine || wf_statement(parse_statement_seq_at(s, i).1[k]),
    decreases s.len() - i, 6int,
{
    lemma_wf_statement_at(s, i);
    match parse_statement_at(s, i) {
        None => {},
        Some((j, st)) => if i < j && j <= s.len() {
            lemma_wf_statement_seq_at(s, j);
        } else {
        },
    }
}

/// Dropping the blank-line markers from a sequence whose other elements
/// are well formed leaves a well-formed finalized sequence.
proof fn lemma_wf_filter_blank(raw: Seq<SpecStatement>)
    requires
        forall|k: int|
            0 <= k < raw.len() ==> (#[trigger] raw[k]) is EmptyLine || wf_statement(raw[k]),
    ensures
        wf_statement_seq(filter_blank(raw)),
    decreases raw.len(),
{
    if raw.len() > 0 {
        assert(forall|k: int|
            0 <= k < raw.drop_first().len() ==> (#[trigger] raw.drop_first()[k]) is EmptyLine
                || wf_statement(raw.drop_first()[k]));
        lemma_wf_filter_blank(raw.drop_first());
        if !(raw[0] is EmptyLine) {
            lemma_wf_statement_seq_cons(raw[0], filter_blank(raw.drop_first()));
        }
    }
}

// ---------------------------------------------------------------------------
// The laws, at the whole-input entry points
// ---------------------------------------------------------------------------
/// Whatever the expression entry point accepts is a well-formed
/// expression tree.
pub proof fn lemma_parse_expr_wf(s: Seq<char>)
    ensures
        spec_expr(s) matches Some(e) ==> wf_expr(e),
{
    lemma_wf_expr_at(s, 0);
}

/// Whatever the declaration entry point accepts is a well-formed
/// function: its lexemes match their atom grammars and its body holds no
/// blank-line marker.
pub proof fn lemma_parse_func_wf(s: Seq<char>)
    ensures
        spec_func(s) matches Some(f) ==> wf_func(f),
{
    lemma_wf_func_at(s, 0);
}

/// Whatever the source-unit entry point accepts is a well-formed
/// finalized statement sequence.
pub proof fn lemma_parse_statements_wf(s: Seq<char>)
    ensures
        spec_statements(s) matches Some(sts) ==> wf_statement_seq(sts),
{
    lemma_wf_statement_seq_at(s, 0);
    let (j, raw) = parse_statement_seq_at(s, 0);
    if j == s.len() {
        lemma_wf_filter_blank(raw);
    }
}

} // verus!
