//! An earlier, smaller grammar revision kept alongside the expression
//! grammar: function headers with `u32` arguments and return types and an
//! empty body, together with its own abstract syntax types.
use vstd::prelude::*;
use vstd::string::StrSliceExecFns;

use crate::expr_parser::ParseError;
use crate::expr_parser::scan_hws;
use crate::expr_parser::scan_ws_nl;
use crate::grammar::scan;
use crate::grammar::skip_hws;
use crate::grammar::skip_ws_nl;

verus! {

broadcast use vstd::std_specs::vec::group_vec_axioms, vstd::seq::group_seq_axioms;

/// A recognized type name of this grammar revision.
#[derive(Debug, PartialEq, Eq, Structural, Clone, Copy)]
pub enum UnoType {
    U32,
}

/// A constant value.
#[derive(Debug, PartialEq, Eq, Structural, Clone, Copy)]
pub enum Val {
    U32(u32),
}

/// An instruction of a function body.
#[derive(Debug, PartialEq)]
pub enum Instr {
    Ret(Vec<Val>),
}

/// An identifier lexeme.
#[derive(Debug, PartialEq)]
pub struct Identifier(pub String);

impl View for Identifier {
    type V = Seq<char>;

    open spec fn view(&self) -> Seq<char> {
        self.0@
    }
}

/// A function declaration of this grammar revision: the declared
/// argument names and types are kept in two parallel sequences.
#[derive(Debug, PartialEq)]
pub struct Func {
    pub name: Identifier,
    pub arg_types: Vec<UnoType>,
    pub arguments: Vec<Identifier>,
    pub return_types: Vec<UnoType>,
    pub insrs: Vec<Instr>,
}

/// A parsed source unit of this grammar revision.
#[derive(Debug, PartialEq)]
pub enum AST {
    Func(Func),
}

// ---------------------------------------------------------------------------
// The grammar, as a mathematical definition
// ---------------------------------------------------------------------------
/// First character of an identifier of this grammar: `[a-zA-Z_]`.
pub open spec fn is_uno_id_start(c: char) -> bool {
    ('a' <= c && c <= 'z') || ('A' <= c && c <= 'Z') || c == '_'
}

/// Subsequent character of an identifier of this grammar:
/// `[a-zA-Z0-9_]`.
pub open spec fn is_uno_id_cont(c: char) -> bool {
    is_uno_id_start(c) || ('0' <= c && c <= '9')
}

/// `s` is an identifier of this grammar.
pub open spec fn is_uno_id_seq(s: Seq<char>) -> bool {
    &&& s.len() > 0
    &&& is_uno_id_start(s[0])
    &&& forall|i: int| 1 <= i < s.len() ==> is_uno_id_cont(#[trigger] s[i])
}

pub open spec fn uno_id_cont_pred() -> spec_fn(char) -> bool {
    |c: char| is_uno_id_cont(c)
}

pub open spec fn nl_pred() -> spec_fn(char) -> bool {
    |c: char| c == '\n'
}

/// Identifier at `i`: its end position.
pub open spec fn parse_uno_id_at(s: Seq<char>, i: int) -> Option<int> {
    if 0 <= i < s.len() && is_uno_id_start(s[i]) {
        Some(scan(s, i + 1, uno_id_cont_pred()))
    } else {
        None
    }
}

/// The characters of the one recognized type name, `u32`.
pub open spec fn at_u32(s: Seq<char>, i: int) -> bool {
    0 <= i && i + 3 <= s.len() && s[i] == 'u' && s[i + 1] == '3' && s[i + 2] == '2'
}

/// Type name at `i`.
pub open spec fn parse_uno_type_at(s: Seq<char>, i: int) -> Option<(int, UnoType)> {
    if at_u32(s, i) {
        Some((i + 3, UnoType::U32))
    } else {
        None
    }
}

/// One declared argument at `i`: whitespace, a name, whitespace, a type
/// name, whitespace.
pub open spec fn parse_uno_arg_at(s: Seq<char>, i: int) -> Option<(int, (Seq<char>, UnoType))> {
    let a = skip_hws(s, i);
    match parse_uno_id_at(s, a) {
        None => None,
        Some(j) => {
            let b = skip_hws(s, j);
            match parse_uno_type_at(s, b) {
                None => None,
                Some((m, ty)) => Some((skip_hws(s, m), (s.subrange(a, j), ty))),
            }
        },
    }
}

/// Zero or more declared arguments separated by a bare comma.
pub open spec fn parse_uno_args_at(s: Seq<char>, i: int) -> (int, Seq<(Seq<char>, UnoType)>)
    decreases s.len() - i, 1int,
{
    match parse_uno_arg_at(s, i) {
        None => (i, Seq::empty()),
        Some((j, a)) => if i < j && j <= s.len() {
            let (k, rest) = parse_uno_args_more(s, j);
            (k, seq![a] + rest)
        } else {
            // an argument lexeme is never empty, so this branch is not taken
            (j, seq![a])
        },
    }
}

/// The `, argument` continuations after a complete argument.
pub open spec fn parse_uno_args_more(s: Seq<char>, i: int) -> (int, Seq<(Seq<char>, UnoType)>)
    decreases s.len() - i, 0int,
{
    if 0 <= i < s.len() && s[i] == ',' {
        match parse_uno_arg_at(s, i + 1) {
            Some((j, a)) => if i < j && j <= s.len() {
                let (m, rest) = parse_uno_args_more(s, j);
                (m, seq![a] + rest)
            } else {
                // an argument stands after the comma, so this branch is not
                // taken
                (i, Seq::empty())
            },
            None => (i, Seq::empty()),
        }
    } else {
        (i, Seq::empty())
    }
}

/// Zero or more type names separated by a comma and optional
/// whitespace.
pub open spec fn parse_uno_types_at(s: Seq<char>, i: int) -> (int, Seq<UnoType>)
    decreases s.len() - i, 1int,
{
    match parse_uno_type_at(s, i) {
        None => (i, Seq::empty()),
        Some((j, ty)) => {
            let (k, rest) = parse_uno_types_more(s, j);
            (k, seq![ty] + rest)
        },
    }
}

/// The `, type` continuations after a complete type name.
pub open spec fn parse_uno_types_more(s: Seq<char>, i: int) -> (int, Seq<UnoType>)
    decreases s.len() - i, 0int,
{
    if 0 <= i < s.len() && s[i] == ',' {
        let k = skip_hws(s, i + 1);
        match parse_uno_type_at(s, k) {
            Some((j, ty)) => if i < j && j <= s.len() {
                let (m, rest) = parse_uno_types_more(s, j);
                (m, seq![ty] + rest)
            } else {
                // a type name stands after the comma, so this branch is not
                // taken
                (i, Seq::empty())
            },
            None => (i, Seq::empty()),
        }
    } else {
        (i, Seq::empty())
    }
}

/// The model of a parsed function header of this grammar.
pub struct SpecUnoFunc {
    pub name: Seq<char>,
    pub args: Seq<(Seq<char>, UnoType)>,
    pub rets: Seq<UnoType>,
}

/// Function declaration at `i`: leading whitespace or newlines, `fn`,
/// the name, the parenthesized arguments, the return types, `{` and a
/// newline, a blank body, `}`, and trailing newlines.
pub open spec fn parse_uno_func_at(s: Seq<char>, i: int) -> Option<(int, SpecUnoFunc)> {
    let a = skip_ws_nl(s, i);
    if a + 2 <= s.len() && s[a] == 'f' && s[a + 1] == 'n' {
        let b = skip_hws(s, a + 2);
        match parse_uno_id_at(s, b) {
            None => None,
            Some(c) => if c < s.len() && s[c] == '(' {
                let (d, args) = parse_uno_args_at(s, c + 1);
                if d < s.len() && s[d] == ')' {
                    let e = skip_hws(s, d + 1);
                    let (f, rets) = parse_uno_types_at(s, e);
                    let g = skip_hws(s, f);
                    if g + 2 <= s.len() && s[g] == '{' && s[g + 1] == '\n' {
                        let h = skip_hws(s, g + 2);
                        let k = scan(s, h, nl_pred());
                        let m = skip_hws(s, k);
                        if m < s.len() && s[m] == '}' {
                            let end = scan(s, m + 1, nl_pred());
                            Some((end, SpecUnoFunc { name: s.subrange(b, c), args, rets }))
                        } else {
                            None
                        }
                    } else {
                        None
                    }
                } else {
                    None
                }
            } else {
                None
            },
        }
    } else {
        None
    }
}

// ---------------------------------------------------------------------------
// The executable parser
// ---------------------------------------------------------------------------
fn char_is_uno_id_start(c: char) -> (b: bool)
    ensures
        b == is_uno_id_start(c),
{
    ('a' <= c && c <= 'z') || ('A' <= c && c <= 'Z') || c == '_'
}

fn char_is_uno_id_cont(c: char) -> (b: bool)
    ensures
        b == is_uno_id_cont(c),
{
    char_is_uno_id_start(c) || ('0' <= c && c <= '9')
}

fn scan_uno_id_cont(s: &str, n: usize, i: usize) -> (j: usize)
    requires
        n == s@.len(),
        i <= n,
    ensures
        j as int == scan(s@, i as int, uno_id_cont_pred()),
        i <= j <= n,
    decreases n - i,
{
    if i < n && char_is_uno_id_cont(s.get_char(i)) {
        scan_uno_id_cont(s, n, i + 1)
    } else {
        i
    }
}

fn scan_nl(s: &str, n: usize, i: usize) -> (j: usize)
    requires
        n == s@.len(),
        i <= n,
    ensures
        j as int == scan(s@, i as int, nl_pred()),
        i <= j <= n,
    decreases n - i,
{
    if i < n && s.get_char(i) == '\n' {
        scan_nl(s, n, i + 1)
    } else {
        i
    }
}

fn p_uno_id(s: &str, n: usize, i: usize) -> (r: Option<usize>)
    requires
        n == s@.len(),
        i <= n,
    ensures
        match r {
            Some(j) => parse_uno_id_at(s@, i as int) == Some(j as int) && i < j <= n,
            None => parse_uno_id_at(s@, i as int) is None,
        },
{
    if i < n && char_is_uno_id_start(s.get_char(i)) {
        Some(scan_uno_id_cont(s, n, i + 1))
    } else {
        None
    }
}

fn p_uno_type(s: &str, n: usize, i: usize) -> (r: Option<(usize, UnoType)>)
    requires
        n == s@.len(),
        i <= n,
    ensures
        match r {
            Some((j, ty)) => parse_uno_type_at(s@, i as int) == Some((j as int, ty)) && i < j
                <= n,
            None => parse_uno_type_at(s@, i as int) is None,
        },
{
    if n - i >= 3 && s.get_char(i) == 'u' && s.get_char(i + 1) == '3' && s.get_char(i + 2)
        == '2' {
        Some((i + 3, UnoType::U32))
    } else {
        None
    }
}

fn p_uno_arg(s: &str, n: usize, i: usize) -> (r: Option<(usize, (String, UnoType))>)
    requires
        n == s@.len(),
        i <= n,
    ensures
        match r {
            Some((j, a)) => parse_uno_arg_at(s@, i as int) == Some((j as int, (a.0@, a.1)))
                && i <= j <= n,
            None => parse_uno_arg_at(s@, i as int) is None,
        },
{
    let a = scan_hws(s, n, i);
    match p_uno_id(s, n, a) {
        None => None,
        Some(j) => {
            let b = scan_hws(s, n, j);
            match p_uno_type(s, n, b) {
                None => None,
                Some((m, ty)) => {
                    let name = s.substring_char(a, j).to_owned();
                    Some((scan_hws(s, n, m), (name, ty)))
                },
            }
        },
    }
}

/// The models of a sequence of declared arguments of this grammar.
pub open spec fn view_uno_arg_seq(names: Seq<Identifier>, tys: Seq<UnoType>) -> Seq<
    (Seq<char>, UnoType),
>
    recommends
        names.len() == tys.len(),
{
    Seq::new(names.len(), |i: int| (names[i]@, tys[i]))
}

/// Zero or more declared arguments, split into the parallel name and
/// type sequences the abstract syntax keeps.
fn p_uno_args(s: &str, n: usize, i: usize) -> (r: (usize, Vec<Identifier>, Vec<UnoType>))
    requires
        n == s@.len(),
        i <= n,
    ensures
        parse_uno_args_at(s@, i as int).0 == r.0 as int,
        r.1@.len() == r.2@.len(),
        parse_uno_args_at(s@, i as int).1 == view_uno_arg_seq(r.1@, r.2@),
        i <= r.0 <= n,
    decreases n - i, 1int,
{
    match p_uno_arg(s, n, i) {
        None => {
            proof {
                assert(view_uno_arg_seq(Seq::<Identifier>::empty(), Seq::<UnoType>::empty())
                    =~= Seq::<(Seq<char>, UnoType)>::empty());
            }
            (i, Vec::new(), Vec::new())
        },
        Some((j, a)) => if i < j && j <= n {
            let (k, mut names, mut tys) = p_uno_args_more(s, n, j);
            let ghost onames = names@;
            let ghost otys = tys@;
            let ghost av = (a.0@, a.1);
            let (name_s, ty) = a;
            names.insert(0, Identifier(name_s));
            tys.insert(0, ty);
            proof {
                assert(view_uno_arg_seq(names@, tys@) =~= seq![av] + view_uno_arg_seq(
                    onames,
                    otys,
                ));
            }
            (k, names, tys)
        } else {
            let ghost av = (a.0@, a.1);
            let (name_s, ty) = a;
            let mut names: Vec<Identifier> = Vec::new();
            let mut tys: Vec<UnoType> = Vec::new();
            names.push(Identifier(name_s));
            tys.push(ty);
            proof {
                assert(seq![av] + Seq::<(Seq<char>, UnoType)>::empty() =~= seq![av]);
                assert(view_uno_arg_seq(names@, tys@) =~= seq![av]);
            }
            (j, names, tys)
        },
    }
}

fn p_uno_args_more(s: &str, n: usize, i: usize) -> (r: (usize, Vec<Identifier>, Vec<UnoType>))
    requires
        n == s@.len(),
        i <= n,
    ensures
        parse_uno_args_more(s@, i as int).0 == r.0 as int,
        r.1@.len() == r.2@.len(),
        parse_uno_args_more(s@, i as int).1 == view_uno_arg_seq(r.1@, r.2@),
        i <= r.0 <= n,
    decreases n - i, 0int,
{
    proof {
        assert(view_uno_arg_seq(Seq::<Identifier>::empty(), Seq::empty()) =~= Seq::<(
            Seq<char>,
            UnoType,
        )>::empty());
    }
    if i < n && s.get_char(i) == ',' {
        match p_uno_arg(s, n, i + 1) {
            Some((j, a)) => if i < j && j <= n {
                let (m, mut names, mut tys) = p_uno_args_more(s, n, j);
                let ghost onames = names@;
                let ghost otys = tys@;
                let ghost av = (a.0@, a.1);
                let (name_s, ty) = a;
                names.insert(0, Identifier(name_s));
                tys.insert(0, ty);
                proof {
                    assert(view_uno_arg_seq(names@, tys@) =~= seq![av] + view_uno_arg_seq(
                        onames,
                        otys,
                    ));
                }
                (m, names, tys)
            } else {
                (i, Vec::new(), Vec::new())
            },
            None => (i, Vec::new(), Vec::new()),
        }
    } else {
        (i, Vec::new(), Vec::new())
    }
}

fn p_uno_types(s: &str, n: usize, i: usize) -> (r: (usize, Vec<UnoType>))
    requires
        n == s@.len(),
        i <= n,
    ensures
        parse_uno_types_at(s@, i as int).0 == r.0 as int,
        parse_uno_types_at(s@, i as int).1 == r.1@,
        i <= r.0 <= n,
    decreases n - i, 1int,
{
    match p_uno_type(s, n, i) {
        None => (i, Vec::new()),
        Some((j, ty)) => {
            let (k, mut rest) = p_uno_types_more(s, n, j);
            let ghost orest = rest@;
            rest.insert(0, ty);
            proof {
                assert(rest@ =~= seq![ty] + orest);
            }
            (k, rest)
        },
    }
}

fn p_uno_types_more(s: &str, n: usize, i: usize) -> (r: (usize, Vec<UnoType>))
    requires
        n == s@.len(),
        i <= n,
    ensures
        parse_uno_types_more(s@, i as int).0 == r.0 as int,
        parse_uno_types_more(s@, i as int).1 == r.1@,
        i <= r.0 <= n,
    decreases n - i, 0int,
{
    if i < n && s.get_char(i) == ',' {
        let k = scan_hws(s, n, i + 1);
        match p_uno_type(s, n, k) {
            Some((j, ty)) => if i < j && j <= n {
                let (m, mut rest) = p_uno_types_more(s, n, j);
                let ghost orest = rest@;
                rest.insert(0, ty);
                proof {
                    assert(rest@ =~= seq![ty] + orest);
                }
                (m, rest)
            } else {
                (i, Vec::new())
            },
            None => (i, Vec::new()),
        }
    } else {
        (i, Vec::new())
    }
}

fn p_uno_func(s: &str, n: usize, i: usize) -> (r: Option<(usize, Func)>)
    requires
        n == s@.len(),
        i <= n,
    ensures
        match r {
            Some((j, f)) => {
                &&& parse_uno_func_at(s@, i as int) matches Some((js, g))
                &&& js == j as int
                &&& f.name@ == g.name
                &&& f.arguments@.len() == f.arg_types@.len()
                &&& view_uno_arg_seq(f.arguments@, f.arg_types@) == g.args
                &&& f.return_types@ == g.rets
                &&& f.insrs@ == Seq::<Instr>::empty()
                &&& i <= j <= n
            },
            None => parse_uno_func_at(s@, i as int) is None,
        },
{
    let a = scan_ws_nl(s, n, i);
    if !(n - a >= 2 && s.get_char(a) == 'f' && s.get_char(a + 1) == 'n') {
        return None;
    }
    let b = scan_hws(s, n, a + 2);
    let c = match p_uno_id(s, n, b) {
        None => {
            return None;
        },
        Some(c) => c,
    };
    if !(c < n && s.get_char(c) == '(') {
        return None;
    }
    let (d, arguments, arg_types) = p_uno_args(s, n, c + 1);
    if !(d < n && s.get_char(d) == ')') {
        return None;
    }
    let e = scan_hws(s, n, d + 1);
    let (f2, return_types) = p_uno_types(s, n, e);
    let g = scan_hws(s, n, f2);
    if !(n - g >= 2 && s.get_char(g) == '{' && s.get_char(g + 1) == '\n') {
        return None;
    }
    let h = scan_hws(s, n, g + 2);
    let k = scan_nl(s, n, h);
    let m = scan_hws(s, n, k);
    if !(m < n && s.get_char(m) == '}') {
        return None;
    }
    let end = scan_nl(s, n, m + 1);
    let name = Identifier(s.substring_char(b, c).to_owned());
    Some((end, Func { name, arg_types, arguments, return_types, insrs: Vec::new() }))
}

// ---------------------------------------------------------------------------
// Public whole-input rules
// ---------------------------------------------------------------------------
/// Parse the whole input as a function declaration of this grammar.
pub fn func(input: &str) -> (r: Result<Func, ParseError>)
    ensures
        match r {
            Ok(f) => {
                &&& parse_uno_func_at(input@, 0) matches Some((j, g))
                &&& j == input@.len()
                &&& f.name@ == g.name
                &&& f.arguments@.len() == f.arg_types@.len()
                &&& view_uno_arg_seq(f.arguments@, f.arg_types@) == g.args
                &&& f.return_types@ == g.rets
                &&& f.insrs@ == Seq::<Instr>::empty()
            },
            Err(_) => !(parse_uno_func_at(input@, 0) matches Some((j, g)) && j == input@.len()),
        },
{
    let n = input.unicode_len();
    match p_uno_func(input, n, 0) {
        Some((j, f)) => if j == n {
            Ok(f)
        } else {
            Err(ParseError {})
        },
        None => Err(ParseError {}),
    }
}

/// Parse the whole input as an identifier of this grammar:
/// `[a-zA-Z_][a-zA-Z0-9_]*`.
pub fn id(input: &str) -> (r: Result<Identifier, ParseError>)
    ensures
        r is Ok <==> is_uno_id_seq(input@),
        r matches Ok(t) ==> t@ == input@,
{
    proof {
        if input@.len() > 0 && is_uno_id_start(input@[0]) {
            crate::grammar::lemma_scan(input@, 1, uno_id_cont_pred());
        }
    }
    let n = input.unicode_len();
    match p_uno_id(input, n, 0) {
        Some(j) => if j == n {
            Ok(Identifier(input.to_owned()))
        } else {
            Err(ParseError {})
        },
        None => Err(ParseError {}),
    }
}

/// Parse the whole input as a type name of this grammar. `u32` is the
/// one recognized type.
pub fn type_(input: &str) -> (r: Result<UnoType, ParseError>)
    ensures
        r is Ok <==> input@.len() == 3 && input@[0] == 'u' && input@[1] == '3' && input@[2]
            == '2',
        r matches Ok(ty) ==> ty == UnoType::U32,
{
    let n = input.unicode_len();
    match p_uno_type(input, n, 0) {
        Some((j, ty)) => if j == n {
            Ok(ty)
        } else {
            Err(ParseError {})
        },
        None => Err(ParseError {}),
    }
}

/// Parse the whole input as one declared argument: a name and a type
/// separated by whitespace.
pub fn arg(input: &str) -> (r: Result<(Identifier, UnoType), ParseError>)
    ensures
        match r {
            Ok(a) => parse_uno_arg_at(input@, 0) == Some((input@.len() as int, (a.0@, a.1))),
            Err(_) => !(parse_uno_arg_at(input@, 0) matches Some((j, _)) && j == input@.len()),
        },
{
    let n = input.unicode_len();
    match p_uno_arg(input, n, 0) {
        Some((j, a)) => if j == n {
            let (name_s, ty) = a;
            Ok((Identifier(name_s), ty))
        } else {
            Err(ParseError {})
        },
        None => Err(ParseError {}),
    }
}

/// Parse the whole input as a comma separated list of declared
/// arguments, returned as the parallel name and type lists the abstract
/// syntax keeps.
pub fn args(input: &str) -> (r: Result<(Vec<Identifier>, Vec<UnoType>), ParseError>)
    ensures
        match r {
            Ok(a) => {
                &&& a.0@.len() == a.1@.len()
                &&& parse_uno_args_at(input@, 0) == (
                    input@.len() as int,
                    view_uno_arg_seq(a.0@, a.1@),
                )
            },
            Err(_) => parse_uno_args_at(input@, 0).0 != input@.len(),
        },
{
    let n = input.unicode_len();
    let (j, names, tys) = p_uno_args(input, n, 0);
    if j == n {
        Ok((names, tys))
    } else {
        Err(ParseError {})
    }
}

/// Parse the whole input as a comma separated list of type names.
pub fn types(input: &str) -> (r: Result<Vec<UnoType>, ParseError>)
    ensures
        match r {
            Ok(v) => parse_uno_types_at(input@, 0) == (input@.len() as int, v@),
            Err(_) => parse_uno_types_at(input@, 0).0 != input@.len(),
        },
{
    let n = input.unicode_len();
    let (j, v) = p_uno_types(input, n, 0);
    if j == n {
        Ok(v)
    } else {
        Err(ParseError {})
    }
}

} // verus!
