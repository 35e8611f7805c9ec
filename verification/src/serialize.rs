//! The canonical surface syntax of a tree, and the round-trip law: a
//! well-formed tree serialized to that syntax and parsed again comes
//! back unchanged. Every tree the grammar itself produces is well
//! formed, so parsing, serializing and re-parsing is the identity on
//! accepted input.
use vstd::prelude::*;
use vstd::string::StringExecFns;

use crate::ast::Expression;
use crate::ast::Func;
use crate::ast::Statement;
use crate::ast::SpecExpression;
use crate::ast::view_arg_seq;
use crate::ast::view_expr;
use crate::ast::view_expr_seq;
use crate::ast::view_func;
use crate::ast::view_statement;
use crate::ast::view_statement_seq;
use crate::ast::SpecStatement;
use crate::ast::UType;
use crate::ast::is_dec_char;
use crate::ast::is_hws;
use crate::ast::is_ident_seq;
use crate::ast::is_ident_start;
use crate::ast::matches_bin;
use crate::ast::matches_dec;
use crate::ast::matches_hex;
use crate::ast::wf_expr;
use crate::ast::wf_expr_seq;
use crate::ast::wf_func;
use crate::ast::wf_statement;
use crate::ast::wf_statement_seq;
use crate::grammar::dec_pred;
use crate::grammar::has_radix_prefix;
use crate::grammar::hex_pred;
use crate::grammar::bin_pred;
use crate::grammar::hws_pred;
use crate::grammar::ident_cont_pred;
use crate::grammar::str_body_pred;
use crate::grammar::parse_call_args_at;
use crate::grammar::parse_call_args_more;
use crate::grammar::parse_expr_at;
use crate::grammar::parse_func_call_at;
use crate::grammar::parse_ident_at;
use crate::grammar::scan;
use crate::grammar::ws_nl_pred;
use crate::grammar::filter_blank;
use crate::grammar::parse_fn_arg_at;
use crate::grammar::parse_fn_args_at;
use crate::grammar::parse_fn_args_more;
use crate::grammar::parse_func_at;
use crate::grammar::parse_statement_at;
use crate::grammar::parse_statement_seq_at;
use crate::grammar::parse_type_at;
use crate::grammar::spec_expr;
use crate::grammar::spec_func;
use crate::grammar::spec_statements;

verus! {

broadcast use vstd::seq::group_seq_axioms;

// ---------------------------------------------------------------------------
// The canonical surface syntax
// ---------------------------------------------------------------------------
/// The canonical source text of an expression.
pub open spec fn ser_expr(e: SpecExpression) -> Seq<char>
    decreases e, 0int,
{
    match e {
        SpecExpression::NConst(t) => t,
        SpecExpression::StrConst(t) => seq!['"'] + t + seq!['"'],
        SpecExpression::Ident(t) => t,
        SpecExpression::FuncCall { fn_name, args } => fn_name + seq!['('] + ser_args(args)
            + seq![')'],
    }
}

/// The canonical source text of a call-argument list.
pub open spec fn ser_args(args: Seq<SpecExpression>) -> Seq<char>
    decreases args, 1int,
{
    if args.len() == 0 {
        Seq::empty()
    } else {
        ser_expr(args[0]) + ser_args_rest(args.drop_first())
    }
}

/// The `, argument` continuations of a call-argument list.
pub open spec fn ser_args_rest(rest: Seq<SpecExpression>) -> Seq<char>
    decreases rest, 2int,
{
    if rest.len() == 0 {
        Seq::empty()
    } else {
        seq![',', ' '] + ser_expr(rest[0]) + ser_args_rest(rest.drop_first())
    }
}

/// The canonical source text of one declared argument.
pub open spec fn ser_fn_arg(a: (Seq<char>, UType)) -> Seq<char> {
    a.0 + seq![' ', 'i', '6', '4']
}

/// The canonical source text of a declared-argument list.
pub open spec fn ser_fn_args(args: Seq<(Seq<char>, UType)>) -> Seq<char>
    decreases args.len(), 1int,
{
    if args.len() == 0 {
        Seq::empty()
    } else {
        ser_fn_arg(args[0]) + ser_fn_args_rest(args.drop_first())
    }
}

/// The `, argument` continuations of a declared-argument list.
pub open spec fn ser_fn_args_rest(rest: Seq<(Seq<char>, UType)>) -> Seq<char>
    decreases rest.len(), 0int,
{
    if rest.len() == 0 {
        Seq::empty()
    } else {
        seq![',', ' '] + ser_fn_arg(rest[0]) + ser_fn_args_rest(rest.drop_first())
    }
}

/// The canonical source text of a statement. A blank-line marker never
/// stands in a well-formed tree; it is rendered as a blank line.
pub open spec fn ser_statement(st: SpecStatement) -> Seq<char>
    decreases st, 3int,
{
    match st {
        SpecStatement::Return(None) => seq!['r', 'e', 't', 'u', 'r', 'n', '\n'],
        SpecStatement::Return(Some(e)) => seq!['r', 'e', 't', 'u', 'r', 'n', ' '] + ser_expr(e)
            + seq!['\n'],
        SpecStatement::FuncDecl(f) => ser_func(f),
        SpecStatement::EmptyLine => seq!['\n'],
    }
}

/// The canonical source text of a statement sequence.
pub open spec fn ser_body(body: Seq<SpecStatement>) -> Seq<char>
    decreases body, 4int,
{
    if body.len() == 0 {
        Seq::empty()
    } else {
        ser_statement(body[0]) + ser_body(body.drop_first())
    }
}

/// The canonical source text of a function declaration.
pub open spec fn ser_func(f: crate::ast::SpecFunc) -> Seq<char>
    decreases f, 5int,
{
    seq!['f', 'n', ' '] + f.name + seq!['('] + ser_fn_args(f.args) + seq![')'] + (if f.ret
        is I64 {
        seq![' ', 'i', '6', '4']
    } else {
        Seq::empty()
    }) + seq![' ', '{', '\n'] + ser_body(f.body) + seq!['}', '\n']
}

// ---------------------------------------------------------------------------
// Positioning helpers
// ---------------------------------------------------------------------------
/// The text `t` stands in `s` at position `i`.
spec fn seq_at(s: Seq<char>, i: int, t: Seq<char>) -> bool {
    &&& 0 <= i
    &&& i + t.len() <= s.len()
    &&& forall|k: int| 0 <= k < t.len() ==> s[i + k] == #[trigger] t[k]
}

/// One character of a text standing at `i`.
proof fn lemma_seq_at_char(s: Seq<char>, i: int, t: Seq<char>, k: int)
    requires
        seq_at(s, i, t),
        0 <= k < t.len(),
    ensures
        s[i + k] == t[k],
{
    assert(s[i + k] == t[k]) by {
        let c = #[trigger] t[k];
    }
}

/// A text standing at `i` splits into its two halves.
proof fn lemma_seq_at_split(s: Seq<char>, i: int, a: Seq<char>, b: Seq<char>)
    requires
        seq_at(s, i, a + b),
    ensures
        seq_at(s, i, a),
        seq_at(s, i + a.len(), b),
{
    assert forall|k: int| 0 <= k < a.len() implies s[i + k] == #[trigger] a[k] by {
        assert((a + b)[k] == a[k]);
    }
    assert forall|k: int| 0 <= k < b.len() implies s[i + a.len() + k] == #[trigger] b[k] by {
        assert((a + b)[a.len() + k] == b[k]);
        assert(s[i + (a.len() + k)] == (a + b)[a.len() + k]);
    }
}

/// A maximal run: if every character of `t` satisfies `p` and the
/// character after `t` does not, a scan from the start of `t` stops
/// exactly at its end.
proof fn lemma_scan_run(s: Seq<char>, i: int, t: Seq<char>, p: spec_fn(char) -> bool)
    requires
        seq_at(s, i, t),
        forall|k: int| 0 <= k < t.len() ==> p(#[trigger] t[k]),
        i + t.len() == s.len() || !p(s[i + t.len()]),
    ensures
        scan(s, i, p) == i + t.len(),
    decreases t.len(),
{
    if t.len() == 0 {
    } else {
        assert(p(s[i]) == p(t[0]));
        lemma_seq_at_split(s, i, seq![t[0]], t.drop_first());
        lemma_scan_run(s, i + 1, t.drop_first(), p);
    }
}

/// A scan stopped by its very first character.
proof fn lemma_scan_stop(s: Seq<char>, i: int, p: spec_fn(char) -> bool)
    requires
        i == s.len() || (0 <= i < s.len() && !p(s[i])),
    ensures
        scan(s, i, p) == i,
{
}


// ---------------------------------------------------------------------------
// Shape of serialized expressions
// ---------------------------------------------------------------------------
/// The character that may legally follow a serialized expression in its
/// canonical contexts: the end of the input, an argument separator, a
/// closing parenthesis, or the newline that ends a return statement.
spec fn expr_follow_ok(s: Seq<char>, j: int) -> bool {
    j == s.len() || (0 <= j < s.len() && (s[j] == ',' || s[j] == ')' || s[j] == '\n'))
}

/// A serialized well-formed expression is never empty and never starts
/// with whitespace.
proof fn lemma_ser_expr_head(e: SpecExpression)
    requires
        wf_expr(e),
    ensures
        ser_expr(e).len() > 0,
        !is_hws(ser_expr(e)[0]),
{
    match e {
        SpecExpression::NConst(t) => {
            assert(matches_hex(t) || matches_bin(t) ==> t[0] == '0');
        },
        SpecExpression::StrConst(t) => {
            assert(ser_expr(e)[0] == '"');
        },
        SpecExpression::Ident(t) => {},
        SpecExpression::FuncCall { fn_name, args } => {
            assert(ser_expr(e)[0] == fn_name[0]);
        },
    }
}

/// Nothing of the grammar can read an expression at the end of the
/// input or at a character that starts no expression.
proof fn lemma_expr_fails_at(s: Seq<char>, i: int)
    requires
        0 <= i <= s.len(),
        i == s.len() || (!is_ident_start(s[i]) && !is_dec_char(s[i]) && s[i] != '"'),
    ensures
        parse_expr_at(s, i) is None,
{
    if i < s.len() {
        lemma_scan_stop(s, i, dec_pred());
    } else {
        lemma_scan_stop(s, i, dec_pred());
    }
}

// ---------------------------------------------------------------------------
// Round trip: expressions
// ---------------------------------------------------------------------------
/// Parsing a serialized well-formed expression reads it back unchanged
/// and consumes exactly its text.
proof fn lemma_rt_expr(s: Seq<char>, i: int, e: SpecExpression)
    requires
        wf_expr(e),
        seq_at(s, i, ser_expr(e)),
        expr_follow_ok(s, i + ser_expr(e).len()),
    ensures
        parse_expr_at(s, i) == Some((i + ser_expr(e).len(), e)),
    decreases e, 0int,
{
    match e {
        SpecExpression::NConst(t) => {
            let l = t.len() as int;
            assert(s[i + 0] == t[0]);
            if matches_dec(t) {
                assert(!has_radix_prefix(s, i)) by {
                    if has_radix_prefix(s, i) {
                        if l >= 2 {
                            assert(s[i + 1] == t[1]);
                        }
                    }
                }
                lemma_scan_run(s, i, t, dec_pred());
                assert(s.subrange(i, i + l) =~= t);
            } else if matches_hex(t) {
                assert(s[i + 1] == t[1]);
                let u = t.skip(2);
                assert(seq_at(s, i + 2, u)) by {
                    assert(forall|k: int|
                        0 <= k < u.len() ==> s[i + 2 + k] == t[2 + k] && #[trigger] u[k] == t[2
                            + k]);
                }
                lemma_scan_run(s, i + 2, u, hex_pred());
                assert(s.subrange(i, i + l) =~= t);
            } else {
                assert(matches_bin(t));
                assert(s[i + 1] == t[1]);
                let u = t.skip(2);
                assert(seq_at(s, i + 2, u)) by {
                    assert(forall|k: int|
                        0 <= k < u.len() ==> s[i + 2 + k] == t[2 + k] && #[trigger] u[k] == t[2
                            + k]);
                }
                lemma_scan_run(s, i + 2, u, bin_pred());
                assert(s.subrange(i, i + l) =~= t);
            }
        },
        SpecExpression::StrConst(t) => {
            let l = t.len() as int;
            lemma_seq_at_split(s, i, seq!['"'] + t, seq!['"']);
            lemma_seq_at_split(s, i, seq!['"'], t);
            lemma_seq_at_char(s, i, seq!['"'], 0);
            assert(s[i + 0] == '"');
            lemma_seq_at_char(s, i + 1 + l, seq!['"'], 0);
            assert(s[i + 1 + l] == '"');
            lemma_scan_run(s, i + 1, t, str_body_pred());
            assert(s.subrange(i + 1, i + 1 + l) =~= t);
        },
        SpecExpression::Ident(t) => {
            let l = t.len() as int;
            assert(s[i + 0] == t[0]);
            lemma_scan_stop(s, i, dec_pred());
            let u = t.drop_first();
            assert(seq_at(s, i + 1, u)) by {
                assert(forall|k: int|
                    0 <= k < u.len() ==> s[i + 1 + k] == t[1 + k] && #[trigger] u[k] == t[1 + k]);
            }
            lemma_scan_run(s, i + 1, u, ident_cont_pred());
            assert(parse_ident_at(s, i) == Some(i + l));
            assert(parse_func_call_at(s, i) is None);
            assert(s.subrange(i, i + l) =~= t);
        },
        SpecExpression::FuncCall { fn_name, args } => {
            let a = fn_name.len() as int;
            let g = ser_args(args).len() as int;
            lemma_seq_at_split(s, i, fn_name + seq!['('] + ser_args(args), seq![')']);
            lemma_seq_at_split(s, i, fn_name + seq!['('], ser_args(args));
            lemma_seq_at_split(s, i, fn_name, seq!['(']);
            lemma_seq_at_char(s, i, fn_name, 0);
            assert(s[i + 0] == fn_name[0]);
            lemma_seq_at_char(s, i + a, seq!['('], 0);
            assert(s[i + a + 0] == '(');
            lemma_seq_at_char(s, i + a + 1 + g, seq![')'], 0);
            assert(s[i + a + 1 + g + 0] == ')');
            lemma_scan_stop(s, i, dec_pred());
            let u = fn_name.drop_first();
            assert(seq_at(s, i + 1, u)) by {
                assert(forall|k: int|
                    0 <= k < u.len() ==> s[i + 1 + k] == fn_name[1 + k] && #[trigger] u[k]
                        == fn_name[1 + k]);
            }
            lemma_scan_run(s, i + 1, u, ident_cont_pred());
            assert(parse_ident_at(s, i) == Some(i + a));
            if args.len() == 0 {
                lemma_scan_stop(s, i + a + 1, hws_pred());
            } else {
                lemma_ser_expr_head(args[0]);
                assert(s[i + a + 1 + 0] == ser_expr(args[0])[0]) by {
                    assert(ser_args(args)[0] == ser_expr(args[0])[0]);
                }
                lemma_scan_stop(s, i + a + 1, hws_pred());
            }
            lemma_rt_args(s, i + a + 1, args);
            lemma_scan_stop(s, i + a + 1 + g, hws_pred());
            assert(s.subrange(i, i + a) =~= fn_name);
        },
    }
}

/// Parsing a serialized argument list closed by a parenthesis reads it
/// back unchanged.
proof fn lemma_rt_args(s: Seq<char>, i: int, args: Seq<SpecExpression>)
    requires
        wf_expr_seq(args),
        seq_at(s, i, ser_args(args)),
        i + ser_args(args).len() < s.len(),
        s[i + ser_args(args).len()] == ')',
    ensures
        parse_call_args_at(s, i) == (i + ser_args(args).len(), args),
    decreases args, 1int,
{
    if args.len() == 0 {
        lemma_expr_fails_at(s, i);
    } else {
        let e0 = ser_expr(args[0]);
        let l = e0.len() as int;
        let rest = args.drop_first();
        lemma_seq_at_split(s, i, e0, ser_args_rest(rest));
        lemma_ser_expr_head(args[0]);
        assert(expr_follow_ok(s, i + l)) by {
            if rest.len() == 0 {
            } else {
                assert(s[i + l + 0] == ',') by {
                    assert(ser_args_rest(rest)[0] == ',');
                }
            }
        }
        lemma_rt_expr(s, i, args[0]);
        lemma_rt_args_rest(s, i + l, rest);
        assert(seq![args[0]] + rest =~= args);
    }
}

/// Parsing the serialized `, argument` continuations closed by a
/// parenthesis reads them back unchanged.
proof fn lemma_rt_args_rest(s: Seq<char>, i: int, rest: Seq<SpecExpression>)
    requires
        wf_expr_seq(rest),
        seq_at(s, i, ser_args_rest(rest)),
        i + ser_args_rest(rest).len() < s.len(),
        s[i + ser_args_rest(rest).len()] == ')',
    ensures
        parse_call_args_more(s, i) == (i + ser_args_rest(rest).len(), rest),
    decreases rest, 2int,
{
    if rest.len() == 0 {
        lemma_scan_stop(s, i, hws_pred());
    } else {
        let e0 = ser_expr(rest[0]);
        let l = e0.len() as int;
        let more = rest.drop_first();
        lemma_seq_at_split(s, i, seq![',', ' '] + e0, ser_args_rest(more));
        lemma_seq_at_split(s, i, seq![',', ' '], e0);
        assert(s[i + 0] == ',');
        assert(s[i + 1] == ' ');
        lemma_scan_stop(s, i, hws_pred());
        lemma_ser_expr_head(rest[0]);
        assert(s[i + 2 + 0] == e0[0]);
        assert(seq_at(s, i + 1, seq![' ']));
        lemma_scan_run(s, i + 1, seq![' '], hws_pred());
        assert(expr_follow_ok(s, i + 2 + l)) by {
            if more.len() == 0 {
            } else {
                assert(s[i + 2 + l + 0] == ',') by {
                    assert(ser_args_rest(more)[0] == ',');
                }
            }
        }
        lemma_rt_expr(s, i + 2, rest[0]);
        lemma_rt_args_rest(s, i + 2 + l, more);
        assert(seq![rest[0]] + more =~= rest);
    }
}


// ---------------------------------------------------------------------------
// Round trip: declared arguments
// ---------------------------------------------------------------------------
/// Parsing a serialized declared argument reads it back unchanged.
proof fn lemma_rt_fn_arg(s: Seq<char>, i: int, a: (Seq<char>, UType))
    requires
        is_ident_seq(a.0),
        a.1 == UType::I64,
        seq_at(s, i, ser_fn_arg(a)),
    ensures
        parse_fn_arg_at(s, i) == Some((i + ser_fn_arg(a).len(), a)),
{
    let nm = a.0;
    let l = nm.len() as int;
    lemma_seq_at_split(s, i, nm, seq![' ', 'i', '6', '4']);
    lemma_seq_at_char(s, i, nm, 0);
    let u = nm.drop_first();
    assert(seq_at(s, i + 1, u)) by {
        assert(forall|k: int|
            0 <= k < u.len() ==> s[i + 1 + k] == nm[1 + k] && #[trigger] u[k] == nm[1 + k]);
    }
    lemma_seq_at_char(s, i + l, seq![' ', 'i', '6', '4'], 0);
    lemma_seq_at_char(s, i + l, seq![' ', 'i', '6', '4'], 1);
    lemma_seq_at_char(s, i + l, seq![' ', 'i', '6', '4'], 2);
    lemma_seq_at_char(s, i + l, seq![' ', 'i', '6', '4'], 3);
    lemma_scan_run(s, i + 1, u, ident_cont_pred());
    assert(parse_ident_at(s, i) == Some(i + l));
    lemma_scan_stop(s, i + l + 1, hws_pred());
    assert(crate::grammar::at_i64(s, i + l + 1));
    assert(s.subrange(i, i + l) =~= nm);
    assert((s.subrange(i, i + l), UType::I64) == a);
}

/// Parsing a serialized declared-argument list closed by a parenthesis
/// reads it back unchanged.
proof fn lemma_rt_fn_args(s: Seq<char>, i: int, args: Seq<(Seq<char>, UType)>)
    requires
        forall|k: int|
            0 <= k < args.len() ==> is_ident_seq((#[trigger] args[k]).0) && args[k].1
                == UType::I64,
        seq_at(s, i, ser_fn_args(args)),
        i + ser_fn_args(args).len() < s.len(),
        s[i + ser_fn_args(args).len()] == ')',
    ensures
        parse_fn_args_at(s, i) == (i + ser_fn_args(args).len(), args),
    decreases args.len(), 1int,
{
    if args.len() == 0 {
        assert(parse_fn_arg_at(s, i) is None) by {
            assert(parse_ident_at(s, i) is None);
        }
    } else {
        let a0 = ser_fn_arg(args[0]);
        let l = a0.len() as int;
        let rest = args.drop_first();
        lemma_seq_at_split(s, i, a0, ser_fn_args_rest(rest));
        lemma_rt_fn_arg(s, i, args[0]);
        lemma_rt_fn_args_rest(s, i + l, rest);
        assert(seq![args[0]] + rest =~= args);
    }
}

proof fn lemma_rt_fn_args_rest(s: Seq<char>, i: int, rest: Seq<(Seq<char>, UType)>)
    requires
        forall|k: int|
            0 <= k < rest.len() ==> is_ident_seq((#[trigger] rest[k]).0) && rest[k].1
                == UType::I64,
        seq_at(s, i, ser_fn_args_rest(rest)),
        i + ser_fn_args_rest(rest).len() < s.len(),
        s[i + ser_fn_args_rest(rest).len()] == ')',
    ensures
        parse_fn_args_more(s, i) == (i + ser_fn_args_rest(rest).len(), rest),
    decreases rest.len(), 0int,
{
    if rest.len() == 0 {
    } else {
        let a0 = ser_fn_arg(rest[0]);
        let l = a0.len() as int;
        let more = rest.drop_first();
        lemma_seq_at_split(s, i, seq![',', ' '] + a0, ser_fn_args_rest(more));
        lemma_seq_at_split(s, i, seq![',', ' '], a0);
        lemma_seq_at_char(s, i, seq![',', ' '], 0);
        lemma_seq_at_char(s, i, seq![',', ' '], 1);
        lemma_seq_at_char(s, i + 2, a0, 0);
        lemma_scan_run(s, i + 1, seq![' '], hws_pred());
        lemma_rt_fn_arg(s, i + 2, rest[0]);
        lemma_rt_fn_args_rest(s, i + 2 + l, more);
        assert(seq![rest[0]] + more =~= rest);
    }
}

// ---------------------------------------------------------------------------
// Round trip: statements and declarations
// ---------------------------------------------------------------------------
/// A serialized well-formed statement is never empty.
proof fn lemma_ser_statement_nonempty(st: SpecStatement)
    requires
        wf_statement(st),
    ensures
        ser_statement(st).len() > 0,
{
}

/// A well-formed finalized sequence holds no blank-line marker, so the
/// filter leaves it unchanged.
proof fn lemma_filter_blank_id(body: Seq<SpecStatement>)
    requires
        wf_statement_seq(body),
    ensures
        filter_blank(body) == body,
    decreases body.len(),
{
    if body.len() > 0 {
        assert(wf_statement(body[0]));
        assert(!(body[0] is EmptyLine));
        lemma_filter_blank_id(body.drop_first());
        assert(seq![body[0]] + body.drop_first() =~= body);
    }
}

/// Nothing of the statement grammar matches at the end of the input or
/// at a closing brace.
proof fn lemma_statement_fails_at(s: Seq<char>, i: int)
    requires
        0 <= i <= s.len(),
        i == s.len() || s[i] == '}',
    ensures
        parse_statement_at(s, i) is None,
{
    lemma_scan_stop(s, i, ws_nl_pred());
    lemma_scan_stop(s, i, hws_pred());
}

/// Parsing a serialized well-formed statement reads it back unchanged.
proof fn lemma_rt_statement(s: Seq<char>, i: int, st: SpecStatement)
    requires
        wf_statement(st),
        seq_at(s, i, ser_statement(st)),
    ensures
        parse_statement_at(s, i) == Some((i + ser_statement(st).len(), st)),
    decreases st, 3int,
{
    match st {
        SpecStatement::Return(None) => {
            let kw = seq!['r', 'e', 't', 'u', 'r', 'n', '\n'];
            lemma_seq_at_char(s, i, kw, 0);
            lemma_seq_at_char(s, i, kw, 1);
            lemma_seq_at_char(s, i, kw, 2);
            lemma_seq_at_char(s, i, kw, 3);
            lemma_seq_at_char(s, i, kw, 4);
            lemma_seq_at_char(s, i, kw, 5);
            lemma_seq_at_char(s, i, kw, 6);
            lemma_scan_stop(s, i, ws_nl_pred());
            assert(parse_func_at(s, i) is None);
            lemma_scan_stop(s, i, hws_pred());
            assert(crate::grammar::at_return_kw(s, i));
            lemma_scan_stop(s, i + 6, hws_pred());
            lemma_expr_fails_at(s, i + 6);
        },
        SpecStatement::Return(Some(e)) => {
            let kw = seq!['r', 'e', 't', 'u', 'r', 'n', ' '];
            let l = ser_expr(e).len() as int;
            lemma_seq_at_split(s, i, kw + ser_expr(e), seq!['\n']);
            lemma_seq_at_split(s, i, kw, ser_expr(e));
            lemma_seq_at_char(s, i, kw, 0);
            lemma_seq_at_char(s, i, kw, 1);
            lemma_seq_at_char(s, i, kw, 2);
            lemma_seq_at_char(s, i, kw, 3);
            lemma_seq_at_char(s, i, kw, 4);
            lemma_seq_at_char(s, i, kw, 5);
            lemma_seq_at_char(s, i, kw, 6);
            lemma_seq_at_char(s, i + 7 + l, seq!['\n'], 0);
            lemma_scan_stop(s, i, ws_nl_pred());
            assert(parse_func_at(s, i) is None);
            lemma_scan_stop(s, i, hws_pred());
            assert(crate::grammar::at_return_kw(s, i)) by {
                lemma_ser_expr_head(e);
                lemma_seq_at_char(s, i + 7, ser_expr(e), 0);
            }
            lemma_ser_expr_head(e);
            lemma_seq_at_char(s, i + 7, ser_expr(e), 0);
            lemma_scan_run(s, i + 6, seq![' '], hws_pred());
            lemma_rt_expr(s, i + 7, e);
            lemma_scan_stop(s, i + 7 + l, hws_pred());
        },
        SpecStatement::FuncDecl(f) => {
            lemma_rt_func(s, i, f);
        },
        SpecStatement::EmptyLine => {
            assert(false);
        },
    }
}

/// Parsing a serialized well-formed declaration reads it back
/// unchanged.
proof fn lemma_rt_func(s: Seq<char>, i: int, f: crate::ast::SpecFunc)
    requires
        wf_func(f),
        seq_at(s, i, ser_func(f)),
    ensures
        parse_func_at(s, i) == Some((i + ser_func(f).len(), f)),
    decreases f, 5int,
{
    let nm = f.name;
    let a = nm.len() as int;
    let ga = ser_fn_args(f.args);
    let g = ga.len() as int;
    let rt = if f.ret is I64 {
        seq![' ', 'i', '6', '4']
    } else {
        Seq::<char>::empty()
    };
    let r = rt.len() as int;
    let bo = ser_body(f.body);
    let b = bo.len() as int;
    lemma_seq_at_split(
        s,
        i,
        seq!['f', 'n', ' '] + nm + seq!['('] + ga + seq![')'] + rt + seq![' ', '{', '\n'] + bo,
        seq!['}', '\n'],
    );
    lemma_seq_at_split(
        s,
        i,
        seq!['f', 'n', ' '] + nm + seq!['('] + ga + seq![')'] + rt + seq![' ', '{', '\n'],
        bo,
    );
    lemma_seq_at_split(
        s,
        i,
        seq!['f', 'n', ' '] + nm + seq!['('] + ga + seq![')'] + rt,
        seq![' ', '{', '\n'],
    );
    lemma_seq_at_split(s, i, seq!['f', 'n', ' '] + nm + seq!['('] + ga + seq![')'], rt);
    lemma_seq_at_split(s, i, seq!['f', 'n', ' '] + nm + seq!['('] + ga, seq![')']);
    lemma_seq_at_split(s, i, seq!['f', 'n', ' '] + nm + seq!['('], ga);
    lemma_seq_at_split(s, i, seq!['f', 'n', ' '] + nm, seq!['(']);
    lemma_seq_at_split(s, i, seq!['f', 'n', ' '], nm);
    lemma_seq_at_char(s, i, seq!['f', 'n', ' '], 0);
    lemma_seq_at_char(s, i, seq!['f', 'n', ' '], 1);
    lemma_seq_at_char(s, i, seq!['f', 'n', ' '], 2);
    lemma_seq_at_char(s, i + 3, nm, 0);
    lemma_seq_at_char(s, i + 3 + a, seq!['('], 0);
    lemma_seq_at_char(s, i + 3 + a + 1 + g, seq![')'], 0);
    lemma_seq_at_char(s, i + 3 + a + 1 + g + 1 + r, seq![' ', '{', '\n'], 0);
    lemma_seq_at_char(s, i + 3 + a + 1 + g + 1 + r, seq![' ', '{', '\n'], 1);
    lemma_seq_at_char(s, i + 3 + a + 1 + g + 1 + r, seq![' ', '{', '\n'], 2);
    lemma_seq_at_char(s, i + 3 + a + 1 + g + 1 + r + 3 + b, seq!['}', '\n'], 0);
    lemma_seq_at_char(s, i + 3 + a + 1 + g + 1 + r + 3 + b, seq!['}', '\n'], 1);
    // leading skip stops at once, and the keyword stands at i
    lemma_scan_stop(s, i, ws_nl_pred());
    assert(crate::grammar::at_fn_kw(s, i));
    // the space before the name
    lemma_scan_run(s, i + 2, seq![' '], hws_pred());
    // the name, maximal up to the parenthesis
    let u = nm.drop_first();
    assert(seq_at(s, i + 3 + 1, u)) by {
        assert(forall|k: int|
            0 <= k < u.len() ==> s[i + 3 + 1 + k] == nm[1 + k] && #[trigger] u[k] == nm[1 + k]);
    }
    lemma_scan_run(s, i + 4, u, ident_cont_pred());
    assert(parse_ident_at(s, i + 3) == Some(i + 3 + a));
    // no whitespace before the arguments
    if f.args.len() == 0 {
        lemma_scan_stop(s, i + 3 + a + 1, hws_pred());
    } else {
        assert(s[i + 3 + a + 1 + 0] == f.args[0].0[0]) by {
            lemma_seq_at_char(s, i + 3 + a + 1, ga, 0);
            assert(ga[0] == ser_fn_arg(f.args[0])[0]);
            assert(ser_fn_arg(f.args[0])[0] == f.args[0].0[0]);
        }
        lemma_scan_stop(s, i + 3 + a + 1, hws_pred());
    }
    lemma_rt_fn_args(s, i + 3 + a + 1, f.args);
    lemma_scan_stop(s, i + 3 + a + 1 + g, hws_pred());
    // the space after the parenthesis, then the return type or the brace
    let after = i + 3 + a + 1 + g + 1;
    if f.ret is I64 {
        lemma_seq_at_char(s, after, rt, 0);
        lemma_seq_at_char(s, after, rt, 1);
        lemma_seq_at_char(s, after, rt, 2);
        lemma_seq_at_char(s, after, rt, 3);
        lemma_scan_run(s, after, seq![' '], hws_pred());
        assert(crate::grammar::at_i64(s, after + 1));
        lemma_scan_run(s, after + 4, seq![' '], hws_pred());
    } else {
        lemma_scan_run(s, after, seq![' '], hws_pred());
        assert(crate::grammar::parse_type_at(s, after + 1) is None);
    }
    let q = after + r + 3;
    lemma_rt_body(s, q, f.body);
    lemma_filter_blank_id(f.body);
    lemma_scan_stop(s, q + b, hws_pred());
    assert(s.subrange(i + 3, i + 3 + a) =~= nm);
}

/// Parsing a serialized well-formed statement sequence that ends at a
/// closing brace or at the end of the input reads it back unchanged.
proof fn lemma_rt_body(s: Seq<char>, i: int, body: Seq<SpecStatement>)
    requires
        wf_statement_seq(body),
        seq_at(s, i, ser_body(body)),
        i + ser_body(body).len() == s.len() || s[i + ser_body(body).len()] == '}',
    ensures
        parse_statement_seq_at(s, i) == (i + ser_body(body).len(), body),
    decreases body, 4int,
{
    if body.len() == 0 {
        lemma_statement_fails_at(s, i);
    } else {
        let s0 = ser_statement(body[0]);
        let l = s0.len() as int;
        let rest = body.drop_first();
        lemma_seq_at_split(s, i, s0, ser_body(rest));
        lemma_ser_statement_nonempty(body[0]);
        lemma_rt_statement(s, i, body[0]);
        lemma_rt_body(s, i + l, rest);
        assert(seq![body[0]] + rest =~= body);
    }
}

// ---------------------------------------------------------------------------
// The round-trip laws
// ---------------------------------------------------------------------------
/// Serializing a well-formed expression and parsing it back is the
/// identity.
pub proof fn lemma_round_trip_expr(e: SpecExpression)
    requires
        wf_expr(e),
    ensures
        spec_expr(ser_expr(e)) == Some(e),
{
    let s = ser_expr(e);
    lemma_rt_expr(s, 0, e);
}

/// Serializing a well-formed declaration and parsing it back is the
/// identity.
pub proof fn lemma_round_trip_func(f: crate::ast::SpecFunc)
    requires
        wf_func(f),
    ensures
        spec_func(ser_func(f)) == Some(f),
{
    let s = ser_func(f);
    lemma_rt_func(s, 0, f);
}

/// Serializing a well-formed source unit and parsing it back is the
/// identity.
pub proof fn lemma_round_trip_statements(sts: Seq<SpecStatement>)
    requires
        wf_statement_seq(sts),
    ensures
        spec_statements(ser_body(sts)) == Some(sts),
{
    let s = ser_body(sts);
    lemma_rt_body(s, 0, sts);
    lemma_filter_blank_id(sts);
}

/// Whatever the grammar accepts re-parses from its canonical text to a
/// structurally equal tree: parse, serialize, re-parse is parse.
pub proof fn lemma_reparse_expr(src: Seq<char>)
    ensures
        spec_expr(src) matches Some(e) ==> spec_expr(ser_expr(e)) == Some(e),
{
    crate::invariants::lemma_parse_expr_wf(src);
    match spec_expr(src) {
        Some(e) => lemma_round_trip_expr(e),
        None => {},
    }
}

/// The round trip at the declaration entry point.
pub proof fn lemma_reparse_func(src: Seq<char>)
    ensures
        spec_func(src) matches Some(f) ==> spec_func(ser_func(f)) == Some(f),
{
    crate::invariants::lemma_parse_func_wf(src);
    match spec_func(src) {
        Some(f) => lemma_round_trip_func(f),
        None => {},
    }
}

/// The round trip at the source-unit entry point.
pub proof fn lemma_reparse_statements(src: Seq<char>)
    ensures
        spec_statements(src) matches Some(sts) ==> spec_statements(ser_body(sts)) == Some(sts),
{
    crate::invariants::lemma_parse_statements_wf(src);
    match spec_statements(src) {
        Some(sts) => lemma_round_trip_statements(sts),
        None => {},
    }
}


// ---------------------------------------------------------------------------
// The executable serializer
// ---------------------------------------------------------------------------
/// The canonical source text of an expression.
pub fn expr_to_source(e: &Expression) -> (r: String)
    ensures
        r@ == ser_expr(view_expr(*e)),
    decreases *e, 0int, 0int,
{
    match e {
        Expression::NConst(t) => t.clone(),
        Expression::StrConst(t) => {
            proof {
                reveal_strlit("\"");
                assert("\""@ =~= seq!['"']);
            }
            let mut s = String::from_str("\"");
            s.append(t.as_str());
            s.append("\"");
            proof {
                assert(s@ =~= seq!['"'] + t@ + seq!['"']);
            }
            s
        },
        Expression::Ident(t) => t.clone(),
        Expression::FuncCall { fn_name, args } => {
            proof {
                reveal_strlit("(");
                reveal_strlit(")");
                assert("("@ =~= seq!['(']);
                assert(")"@ =~= seq![')']);
                assert(decreases_to!(*e => *args));
            }
            let mut s = fn_name.clone();
            s.append("(");
            let inner = args_to_source(args, 0);
            s.append(inner.as_str());
            s.append(")");
            proof {
                assert(args@.skip(0) =~= args@);
                assert(s@ =~= fn_name@ + seq!['('] + ser_args(view_expr_seq(args@))
                    + seq![')']);
            }
            s
        },
    }
}

/// The canonical source text of the call arguments from `i` on.
fn args_to_source(args: &Vec<Expression>, i: usize) -> (r: String)
    requires
        i <= args@.len(),
    ensures
        r@ == ser_args(view_expr_seq(args@.skip(i as int))),
    decreases *args, args@.len() - i, 1int,
{
    proof {
        assert(decreases_to!(*args => args@));
    }
    if i == args.len() {
        proof {
            assert(args@.skip(i as int) =~= Seq::<Expression>::empty());
        }
        String::new()
    } else {
        proof {
            assert(decreases_to!(args@ => args@[i as int]));
        }
        let mut s = expr_to_source(&args[i]);
        let rest = args_rest_to_source(args, i + 1);
        s.append(rest.as_str());
        proof {
            let v = view_expr_seq(args@.skip(i as int));
            assert(args@.skip(i as int)[0] == args@[i as int]);
            assert(args@.skip(i as int).drop_first() =~= args@.skip(i as int + 1));
            assert(v == seq![view_expr(args@[i as int])] + view_expr_seq(
                args@.skip(i as int + 1),
            ));
            assert(v[0] == view_expr(args@[i as int]));
            assert(v.drop_first() =~= view_expr_seq(args@.skip(i as int + 1)));
        }
        s
    }
}

/// The `, argument` continuations of the call arguments from `i` on.
fn args_rest_to_source(args: &Vec<Expression>, i: usize) -> (r: String)
    requires
        i <= args@.len(),
    ensures
        r@ == ser_args_rest(view_expr_seq(args@.skip(i as int))),
    decreases *args, args@.len() - i, 0int,
{
    proof {
        assert(decreases_to!(*args => args@));
    }
    if i == args.len() {
        proof {
            assert(args@.skip(i as int) =~= Seq::<Expression>::empty());
        }
        String::new()
    } else {
        proof {
            reveal_strlit(", ");
            assert(", "@ =~= seq![',', ' ']);
            assert(decreases_to!(args@ => args@[i as int]));
        }
        let mut s = String::from_str(", ");
        let one = expr_to_source(&args[i]);
        s.append(one.as_str());
        let rest = args_rest_to_source(args, i + 1);
        s.append(rest.as_str());
        proof {
            let v = view_expr_seq(args@.skip(i as int));
            assert(args@.skip(i as int)[0] == args@[i as int]);
            assert(args@.skip(i as int).drop_first() =~= args@.skip(i as int + 1));
            assert(v[0] == view_expr(args@[i as int]));
            assert(v.drop_first() =~= view_expr_seq(args@.skip(i as int + 1)));
            assert(s@ =~= seq![',', ' '] + ser_expr(v[0]) + ser_args_rest(v.drop_first()));
        }
        s
    }
}

/// The canonical source text of a statement.
pub fn statement_to_source(st: &Statement) -> (r: String)
    ensures
        r@ == ser_statement(view_statement(*st)),
    decreases *st, 0int, 0int,
{
    match st {
        Statement::Return(None) => {
            proof {
                reveal_strlit("return\n");
                assert("return\n"@ =~= seq!['r', 'e', 't', 'u', 'r', 'n', '\n']);
            }
            String::from_str("return\n")
        },
        Statement::Return(Some(e)) => {
            proof {
                reveal_strlit("return ");
                reveal_strlit("\n");
                assert("return "@ =~= seq!['r', 'e', 't', 'u', 'r', 'n', ' ']);
                assert("\n"@ =~= seq!['\n']);
            }
            let mut s = String::from_str("return ");
            let one = expr_to_source(e);
            s.append(one.as_str());
            s.append("\n");
            proof {
                assert(s@ =~= seq!['r', 'e', 't', 'u', 'r', 'n', ' '] + ser_expr(view_expr(*e))
                    + seq!['\n']);
            }
            s
        },
        Statement::FuncDecl(f) => func_to_source(f),
        Statement::EmptyLine => {
            proof {
                reveal_strlit("\n");
                assert("\n"@ =~= seq!['\n']);
            }
            String::from_str("\n")
        },
    }
}

/// The canonical source text of the statements from `i` on.
fn body_to_source(body: &Vec<Statement>, i: usize) -> (r: String)
    requires
        i <= body@.len(),
    ensures
        r@ == ser_body(view_statement_seq(body@.skip(i as int))),
    decreases *body, body@.len() - i, 0int,
{
    proof {
        assert(decreases_to!(*body => body@));
    }
    if i == body.len() {
        proof {
            assert(body@.skip(i as int) =~= Seq::<Statement>::empty());
        }
        String::new()
    } else {
        proof {
            assert(decreases_to!(body@ => body@[i as int]));
        }
        let mut s = statement_to_source(&body[i]);
        let rest = body_to_source(body, i + 1);
        s.append(rest.as_str());
        proof {
            let v = view_statement_seq(body@.skip(i as int));
            assert(body@.skip(i as int)[0] == body@[i as int]);
            assert(body@.skip(i as int).drop_first() =~= body@.skip(i as int + 1));
            assert(v[0] == view_statement(body@[i as int]));
            assert(v.drop_first() =~= view_statement_seq(body@.skip(i as int + 1)));
        }
        s
    }
}

/// The canonical source text of a function declaration.
pub fn func_to_source(f: &Func) -> (r: String)
    ensures
        r@ == ser_func(view_func(*f)),
    decreases *f, 0int, 0int,
{
    proof {
        reveal_strlit("fn ");
        reveal_strlit("(");
        reveal_strlit(")");
        reveal_strlit(" i64");
        reveal_strlit(" {\n");
        reveal_strlit("}\n");
        assert("fn "@ =~= seq!['f', 'n', ' ']);
        assert("("@ =~= seq!['(']);
        assert(")"@ =~= seq![')']);
        assert(" i64"@ =~= seq![' ', 'i', '6', '4']);
        assert(" {\n"@ =~= seq![' ', '{', '\n']);
        assert("}\n"@ =~= seq!['}', '\n']);
    }
    let mut s = String::from_str("fn ");
    s.append(f.name.as_str());
    s.append("(");
    let fargs = fn_args_to_source(&f.args, 0);
    s.append(fargs.as_str());
    s.append(")");
    let is_i64 = match f.ret {
        UType::I64 => true,
        UType::Nothing => false,
    };
    if is_i64 {
        s.append(" i64");
    }
    s.append(" {\n");
    proof {
        let fb = f.body;
        assert(decreases_to!(*f => fb));
    }
    let bo = body_to_source(&f.body, 0);
    s.append(bo.as_str());
    s.append("}\n");
    proof {
        assert(f.body@.skip(0) =~= f.body@);
        assert(f.args@.skip(0) =~= f.args@);
        let g = view_func(*f);
        assert(view_arg_seq(f.args@) == g.args);
        assert(s@ =~= ser_func(g));
    }
    s
}

/// The canonical source text of the declared arguments from `i` on.
fn fn_args_to_source(args: &Vec<(String, UType)>, i: usize) -> (r: String)
    requires
        i <= args@.len(),
    ensures
        r@ == ser_fn_args(view_arg_seq(args@.skip(i as int))),
    decreases args@.len() - i, 1int,
{
    if i == args.len() {
        proof {
            assert(view_arg_seq(args@.skip(i as int)) =~= Seq::<(Seq<char>, UType)>::empty());
        }
        String::new()
    } else {
        proof {
            reveal_strlit(" i64");
            assert(" i64"@ =~= seq![' ', 'i', '6', '4']);
        }
        let a = &args[i];
        let mut s = a.0.clone();
        s.append(" i64");
        let rest = fn_args_rest_to_source(args, i + 1);
        s.append(rest.as_str());
        proof {
            let v = view_arg_seq(args@.skip(i as int));
            assert(v[0] == (args@[i as int].0@, args@[i as int].1));
            assert(v.drop_first() =~= view_arg_seq(args@.skip(i as int + 1)));
            assert(ser_fn_arg(v[0]) == args@[i as int].0@ + seq![' ', 'i', '6', '4']);
            assert(s@ =~= ser_fn_arg(v[0]) + ser_fn_args_rest(v.drop_first()));
        }
        s
    }
}

/// The `, argument` continuations of the declared arguments from `i` on.
fn fn_args_rest_to_source(args: &Vec<(String, UType)>, i: usize) -> (r: String)
    requires
        i <= args@.len(),
    ensures
        r@ == ser_fn_args_rest(view_arg_seq(args@.skip(i as int))),
    decreases args@.len() - i, 0int,
{
    if i == args.len() {
        proof {
            assert(view_arg_seq(args@.skip(i as int)) =~= Seq::<(Seq<char>, UType)>::empty());
        }
        String::new()
    } else {
        proof {
            reveal_strlit(", ");
            reveal_strlit(" i64");
            assert(", "@ =~= seq![',', ' ']);
            assert(" i64"@ =~= seq![' ', 'i', '6', '4']);
        }
        let a = &args[i];
        let mut s = String::from_str(", ");
        s.append(a.0.as_str());
        s.append(" i64");
        let rest = fn_args_rest_to_source(args, i + 1);
        s.append(rest.as_str());
        proof {
            let v = view_arg_seq(args@.skip(i as int));
            assert(v[0] == (args@[i as int].0@, args@[i as int].1));
            assert(v.drop_first() =~= view_arg_seq(args@.skip(i as int + 1)));
            assert(ser_fn_arg(v[0]) == args@[i as int].0@ + seq![' ', 'i', '6', '4']);
            assert(s@ =~= seq![',', ' '] + ser_fn_arg(v[0]) + ser_fn_args_rest(
                v.drop_first(),
            ));
        }
        s
    }
}

/// The canonical source text of a whole source unit.
pub fn module_to_source(module: &Vec<Statement>) -> (r: String)
    ensures
        r@ == ser_body(view_statement_seq(module@)),
{
    let r = body_to_source(module, 0);
    proof {
        assert(module@.skip(0) =~= module@);
    }
    r
}

} // verus!
