//! The abstract syntax tree produced by the expression grammar, together
//! with its mathematical model (the `Spec*` mirror types), the character
//! classes of the lexical atoms, and the well-formedness predicates that
//! every finalized tree satisfies.
use vstd::prelude::*;

verus! {

broadcast use vstd::std_specs::vec::group_vec_axioms, vstd::seq::group_seq_axioms;

// ---------------------------------------------------------------------------
// Character classes of the lexical atoms
// ---------------------------------------------------------------------------
/// First character of an identifier: `[a-zA-Z_$]`.
pub open spec fn is_ident_start(c: char) -> bool {
    ('a' <= c && c <= 'z') || ('A' <= c && c <= 'Z') || c == '_' || c == '$'
}

/// Subsequent character of an identifier: `[a-zA-Z0-9_$]`.
pub open spec fn is_ident_cont(c: char) -> bool {
    is_ident_start(c) || ('0' <= c && c <= '9')
}

/// Character of a decimal literal: `[0-9_]`.
pub open spec fn is_dec_char(c: char) -> bool {
    ('0' <= c && c <= '9') || c == '_'
}

/// Character of a hexadecimal literal after the `0x` prefix: `[0-9a-fA-F_]`.
pub open spec fn is_hex_char(c: char) -> bool {
    ('0' <= c && c <= '9') || ('a' <= c && c <= 'f') || ('A' <= c && c <= 'F') || c == '_'
}

/// Character of a binary literal after the `0b` prefix: `[01_]`.
pub open spec fn is_bin_char(c: char) -> bool {
    c == '0' || c == '1' || c == '_'
}

/// Horizontal whitespace: space or tab.
pub open spec fn is_hws(c: char) -> bool {
    c == ' ' || c == '\t'
}

/// Character allowed in the body of a string literal: anything but a
/// quote or a newline.
pub open spec fn is_str_body_char(c: char) -> bool {
    c != '"' && c != '\n'
}

// ---------------------------------------------------------------------------
// Whole-lexeme predicates
// ---------------------------------------------------------------------------
/// `s` is an identifier: a start character followed by continuation
/// characters, and not empty.
pub open spec fn is_ident_seq(s: Seq<char>) -> bool {
    &&& s.len() > 0
    &&& is_ident_start(s[0])
    &&& forall|i: int| 1 <= i < s.len() ==> is_ident_cont(#[trigger] s[i])
}

/// `s` is a decimal literal: any run of `[0-9_]`, the empty run included.
pub open spec fn matches_dec(s: Seq<char>) -> bool {
    forall|i: int| 0 <= i < s.len() ==> is_dec_char(#[trigger] s[i])
}

/// `s` is a hexadecimal literal: `0x` followed by any run of `[0-9a-fA-F_]`.
pub open spec fn matches_hex(s: Seq<char>) -> bool {
    &&& s.len() >= 2
    &&& s[0] == '0'
    &&& s[1] == 'x'
    &&& forall|i: int| 2 <= i < s.len() ==> is_hex_char(#[trigger] s[i])
}

/// `s` is a binary literal: `0b` followed by any run of `[01_]`.
pub open spec fn matches_bin(s: Seq<char>) -> bool {
    &&& s.len() >= 2
    &&& s[0] == '0'
    &&& s[1] == 'b'
    &&& forall|i: int| 2 <= i < s.len() ==> is_bin_char(#[trigger] s[i])
}

/// `s` is a numeric literal in one of the three radices.
pub open spec fn matches_n_const(s: Seq<char>) -> bool {
    matches_dec(s) || matches_hex(s) || matches_bin(s)
}

/// `s` is a whole string literal: quote, body without quote or newline,
/// quote.
pub open spec fn matches_str_lit(s: Seq<char>) -> bool {
    &&& s.len() >= 2
    &&& s[0] == '"'
    &&& s[s.len() - 1] == '"'
    &&& forall|i: int| 1 <= i < s.len() - 1 ==> is_str_body_char(#[trigger] s[i])
}

// ---------------------------------------------------------------------------
// The abstract syntax tree and its model
// ---------------------------------------------------------------------------
/// Mathematical model of an [`Expression`]: the same tree with every
/// lexeme replaced by its sequence of characters.
pub enum SpecExpression {
    NConst(Seq<char>),
    StrConst(Seq<char>),
    Ident(Seq<char>),
    FuncCall { fn_name: Seq<char>, args: Seq<SpecExpression> },
}

/// Mathematical model of a [`Statement`].
pub enum SpecStatement {
    FuncDecl(SpecFunc),
    Return(Option<SpecExpression>),
    EmptyLine,
}

/// Mathematical model of a [`Func`].
pub struct SpecFunc {
    pub name: Seq<char>,
    pub args: Seq<(Seq<char>, UType)>,
    pub ret: UType,
    pub body: Seq<SpecStatement>,
}

/// An Uno expression.
#[derive(Debug, PartialEq)]
pub enum Expression {
    /// Numerical constant, stored as its original lexeme (radix prefix
    /// and digit separators included); no numeric evaluation happens at
    /// this layer.
    NConst(String),
    /// String constant, stored with the surrounding quotes stripped.
    StrConst(String),
    /// Identifier reference.
    Ident(String),
    /// Function call with its arguments in source order.
    FuncCall { fn_name: String, args: Vec<Expression> },
}

/// An Uno statement.
#[derive(Debug, PartialEq)]
pub enum Statement {
    /// Function declaration.
    FuncDecl(Func),
    /// `return` with an optional value.
    Return(Option<Expression>),
    /// Structural marker for a blank line; it is produced while a body is
    /// parsed and filtered out before the body is finalized, so it never
    /// appears in a finished tree.
    EmptyLine,
}

/// A recognized type name.
#[derive(Debug, PartialEq, Eq, Structural, Clone, Copy)]
pub enum UType {
    I64,
    /// Absence of a return type.
    Nothing,
}

/// An Uno function declaration.
#[derive(Debug, PartialEq)]
pub struct Func {
    pub name: String,
    /// Declared arguments, in declaration order: name and type.
    pub args: Vec<(String, UType)>,
    pub ret: UType,
    /// The body, blank-line markers already filtered out.
    pub body: Vec<Statement>,
}

// ---------------------------------------------------------------------------
// Views
// ---------------------------------------------------------------------------
/// The model of an expression tree.
pub open spec fn view_expr(e: Expression) -> SpecExpression
    decreases e, 0int,
    via view_expr_decreases
{
    match e {
        Expression::NConst(t) => SpecExpression::NConst(t@),
        Expression::StrConst(t) => SpecExpression::StrConst(t@),
        Expression::Ident(t) => SpecExpression::Ident(t@),
        Expression::FuncCall { fn_name, args } => SpecExpression::FuncCall {
            fn_name: fn_name@,
            args: view_expr_seq(args@),
        },
    }
}

/// The models of a sequence of expressions, in order.
pub open spec fn view_expr_seq(s: Seq<Expression>) -> Seq<SpecExpression>
    decreases s, 1int,
{
    if s.len() == 0 {
        Seq::empty()
    } else {
        seq![view_expr(s[0])] + view_expr_seq(s.drop_first())
    }
}

#[via_fn]
proof fn view_expr_decreases(e: Expression) {
    match e {
        Expression::FuncCall { fn_name, args } => {
            assert(decreases_to!(e => args));
            assert(decreases_to!(args => args@));
        },
        _ => {},
    }
}

/// The model of a statement.
pub open spec fn view_statement(st: Statement) -> SpecStatement
    decreases st, 1int,
{
    match st {
        Statement::FuncDecl(f) => SpecStatement::FuncDecl(view_func(f)),
        Statement::Return(None) => SpecStatement::Return(None),
        Statement::Return(Some(e)) => SpecStatement::Return(Some(view_expr(e))),
        Statement::EmptyLine => SpecStatement::EmptyLine,
    }
}

/// The models of a sequence of statements, in order.
pub open spec fn view_statement_seq(s: Seq<Statement>) -> Seq<SpecStatement>
    decreases s, 2int,
{
    if s.len() == 0 {
        Seq::empty()
    } else {
        seq![view_statement(s[0])] + view_statement_seq(s.drop_first())
    }
}

/// The model of a function declaration.
pub open spec fn view_func(f: Func) -> SpecFunc
    decreases f, 3int,
    via view_func_decreases
{
    SpecFunc {
        name: f.name@,
        args: view_arg_seq(f.args@),
        ret: f.ret,
        body: view_statement_seq(f.body@),
    }
}

#[via_fn]
proof fn view_func_decreases(f: Func) {
    let body = f.body;
    assert(decreases_to!(f => body));
    assert(decreases_to!(body => body@));
}

/// The models of a sequence of declared arguments.
pub open spec fn view_arg_seq(s: Seq<(String, UType)>) -> Seq<(Seq<char>, UType)> {
    Seq::new(s.len(), |i: int| (s[i].0@, s[i].1))
}

/// Viewing a sequence of expressions commutes with prepending.
pub proof fn lemma_view_expr_seq_cons(e: Expression, r: Seq<Expression>)
    ensures
        view_expr_seq(seq![e] + r) == seq![view_expr(e)] + view_expr_seq(r),
{
    assert((seq![e] + r).drop_first() =~= r);
    assert((seq![e] + r)[0] == e);
    assert(view_expr_seq(seq![e] + r) =~= seq![view_expr(e)] + view_expr_seq(r));
}

/// Viewing a sequence of statements commutes with prepending.
pub proof fn lemma_view_statement_seq_cons(st: Statement, r: Seq<Statement>)
    ensures
        view_statement_seq(seq![st] + r) == seq![view_statement(st)] + view_statement_seq(r),
{
    assert((seq![st] + r).drop_first() =~= r);
    assert((seq![st] + r)[0] == st);
    assert(view_statement_seq(seq![st] + r) =~= seq![view_statement(st)] + view_statement_seq(
        r,
    ));
}

/// Viewing a sequence of declared arguments commutes with prepending.
pub proof fn lemma_view_arg_seq_cons(a: (String, UType), r: Seq<(String, UType)>)
    ensures
        view_arg_seq(seq![a] + r) == seq![(a.0@, a.1)] + view_arg_seq(r),
{
    assert(view_arg_seq(seq![a] + r) =~= seq![(a.0@, a.1)] + view_arg_seq(r));
}

impl View for Expression {
    type V = SpecExpression;

    open spec fn view(&self) -> SpecExpression {
        view_expr(*self)
    }
}

impl View for Statement {
    type V = SpecStatement;

    open spec fn view(&self) -> SpecStatement {
        view_statement(*self)
    }
}

impl View for Func {
    type V = SpecFunc;

    open spec fn view(&self) -> SpecFunc {
        view_func(*self)
    }
}

// ---------------------------------------------------------------------------
// Well-formedness of finalized trees
// ---------------------------------------------------------------------------
/// The invariant of every expression the grammar produces.
///
/// A numeric constant carries a non-empty lexeme of one of the three
/// literal grammars. A string constant contains no quote and no newline.
/// An identifier, bare or in call position, is a lexeme of the identifier
/// grammar whose first character no numeric literal could claim: the
/// numeric alternative is tried before the call and identifier
/// alternatives, so a name starting with `_` would have been captured as
/// a decimal constant instead.
pub open spec fn wf_expr(e: SpecExpression) -> bool
    decreases e, 0int,
{
    match e {
        SpecExpression::NConst(t) => t.len() > 0 && matches_n_const(t),
        SpecExpression::StrConst(t) => forall|i: int|
            0 <= i < t.len() ==> is_str_body_char(#[trigger] t[i]),
        SpecExpression::Ident(t) => is_ident_seq(t) && !is_dec_char(t[0]),
        SpecExpression::FuncCall { fn_name, args } => is_ident_seq(fn_name) && !is_dec_char(
            fn_name[0],
        ) && wf_expr_seq(args),
    }
}

/// Every expression of the sequence is well formed.
pub open spec fn wf_expr_seq(args: Seq<SpecExpression>) -> bool
    decreases args, 1int,
{
    if args.len() == 0 {
        true
    } else {
        wf_expr(args[0]) && wf_expr_seq(args.drop_first())
    }
}

/// The invariant of every statement of a finalized body: a well-formed
/// declaration or return; never a blank-line marker.
pub open spec fn wf_statement(st: SpecStatement) -> bool
    decreases st, 2int,
{
    match st {
        SpecStatement::FuncDecl(f) => wf_func(f),
        SpecStatement::Return(None) => true,
        SpecStatement::Return(Some(e)) => wf_expr(e),
        SpecStatement::EmptyLine => false,
    }
}

/// Every statement of the sequence is well formed.
pub open spec fn wf_statement_seq(body: Seq<SpecStatement>) -> bool
    decreases body, 3int,
{
    if body.len() == 0 {
        true
    } else {
        wf_statement(body[0]) && wf_statement_seq(body.drop_first())
    }
}

/// The invariant of every function declaration the grammar produces: the
/// name and the argument names are identifiers, every declared argument
/// type is a recognized type name, and the body is a finalized
/// well-formed statement sequence.
pub open spec fn wf_func(f: SpecFunc) -> bool
    decreases f, 4int,
{
    &&& is_ident_seq(f.name)
    &&& forall|i: int|
        0 <= i < f.args.len() ==> is_ident_seq((#[trigger] f.args[i]).0) && f.args[i].1
            == UType::I64
    &&& wf_statement_seq(f.body)
}


/// Well-formedness of an expression sequence splits over prepending.
pub proof fn lemma_wf_expr_seq_cons(e: SpecExpression, r: Seq<SpecExpression>)
    ensures
        wf_expr_seq(seq![e] + r) <==> wf_expr(e) && wf_expr_seq(r),
{
    assert((seq![e] + r).drop_first() =~= r);
    assert((seq![e] + r)[0] == e);
}

/// Well-formedness of a statement sequence splits over prepending.
pub proof fn lemma_wf_statement_seq_cons(st: SpecStatement, r: Seq<SpecStatement>)
    ensures
        wf_statement_seq(seq![st] + r) <==> wf_statement(st) && wf_statement_seq(r),
{
    assert((seq![st] + r).drop_first() =~= r);
    assert((seq![st] + r)[0] == st);
}

} // verus!
