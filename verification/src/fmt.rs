//! Printing: numbers in decimal, and how kinds, types and runtime values
//! are written out.

use vstd::prelude::*;
use vstd::string::StringExecFns;
use crate::dynamics::prim::signed_decimal;
use crate::dynamics::store::{sems_model, SemM, SemValue};
use crate::kind::{Kind, KindM};
use crate::linked::LiteralM;
use crate::reduce::lemma_head_reduce_tree;
use crate::term::Literal;
use crate::tree::{lemma_arg_size, Tree};
use crate::types::{lemma_type_model, AbstVar, Hole, SynType, Type};

verus! {

/// The decimal digit for a number below ten.
pub open spec fn digit(d: nat) -> char {
    if d == 0 {
        '0'
    } else if d == 1 {
        '1'
    } else if d == 2 {
        '2'
    } else if d == 3 {
        '3'
    } else if d == 4 {
        '4'
    } else if d == 5 {
        '5'
    } else if d == 6 {
        '6'
    } else if d == 7 {
        '7'
    } else if d == 8 {
        '8'
    } else {
        '9'
    }
}

/// A number in decimal, without leading zeros.
pub open spec fn decimal(n: nat) -> Seq<char>
    decreases n,
{
    if n < 10 {
        seq![digit(n)]
    } else {
        decimal(n / 10).push(digit(n % 10))
    }
}

/// How an abstract variable is printed: `$` and its number.
pub open spec fn abst_var_text(n: nat) -> Seq<char> {
    seq!['$'] + decimal(n)
}

/// How a hole is printed.
pub open spec fn hole_text() -> Seq<char> {
    seq!['_', '?']
}

/// The decimal digit for a number below ten, as a string.
fn digit_str(d: usize) -> (r: &'static str)
    requires
        d < 10,
    ensures
        r@ == seq![digit(d as nat)],
{
    proof {
        reveal_strlit("0");
        reveal_strlit("1");
        reveal_strlit("2");
        reveal_strlit("3");
        reveal_strlit("4");
        reveal_strlit("5");
        reveal_strlit("6");
        reveal_strlit("7");
        reveal_strlit("8");
        reveal_strlit("9");
    }
    let r = if d == 0 {
        "0"
    } else if d == 1 {
        "1"
    } else if d == 2 {
        "2"
    } else if d == 3 {
        "3"
    } else if d == 4 {
        "4"
    } else if d == 5 {
        "5"
    } else if d == 6 {
        "6"
    } else if d == 7 {
        "7"
    } else if d == 8 {
        "8"
    } else {
        "9"
    };
    assert(r@ =~= seq![digit(d as nat)]);
    r
}

/// A number in decimal.
pub fn fmt_u64(n: u64) -> (r: String)
    ensures
        r@ == decimal(n as nat),
    decreases n,
{
    if n < 10 {
        digit_str(n as usize).to_owned()
    } else {
        let mut s = fmt_u64(n / 10);
        s.append(digit_str((n % 10) as usize));
        assert(s@ =~= decimal(n as nat));
        s
    }
}

/// A number in decimal.
pub fn fmt_usize(n: usize) -> (r: String)
    ensures
        r@ == decimal(n as nat),
{
    fmt_u64(n as u64)
}

/// How values are laid out when printed: the indentation of a new line.
#[derive(Clone, Copy, Debug, PartialEq, Eq, Structural)]
pub struct Args {
    pub indent: usize,
}

impl AbstVar {
    /// The abstract variable as text.
    pub fn fmt_args(&self, _fargs: Args) -> (r: String)
        ensures
            r@ == abst_var_text(self.0 as nat),
    {
        proof {
            reveal_strlit("$");
        }
        let mut s: String = "$".to_owned();
        let d = fmt_usize(self.0);
        s.append(d.as_str());
        assert(s@ =~= abst_var_text(self.0 as nat));
        s
    }
}

impl Hole {
    /// The hole as text.
    pub fn fmt_args(&self, _fargs: Args) -> (r: String)
        ensures
            r@ == hole_text(),
    {
        proof {
            reveal_strlit("_?");
        }
        let s: String = "_?".to_owned();
        assert(s@ =~= hole_text());
        s
    }
}


/// The texts of `parts` with `sep` between each two.
pub open spec fn join(parts: Seq<Seq<char>>, sep: Seq<char>) -> Seq<char>
    decreases parts.len(),
{
    if parts.len() == 0 {
        Seq::empty()
    } else if parts.len() == 1 {
        parts[0]
    } else {
        join(parts.drop_last(), sep) + sep + parts.last()
    }
}

/// How a kind is written: `VType`, `CType`, or `(K, ..) -> K`.
pub open spec fn kind_text(k: KindM) -> Seq<char>
    decreases k,
{
    match k {
        KindM::VType => "VType"@,
        KindM::CType => "CType"@,
        KindM::Arity(ps, r) => "("@ + join(kind_texts(ps), ", "@) + ") -> "@ + kind_text(*r),
    }
}

/// How each of a sequence of kinds is written.
pub open spec fn kind_texts(ps: Seq<KindM>) -> Seq<Seq<char>>
    decreases ps,
{
    Seq::new(
        ps.len(),
        |i: int|
            if 0 <= i < ps.len() {
                kind_text(ps[i])
            } else {
                Seq::empty()
            },
    )
}

/// How a type tree is written: a name, followed by its arguments in round
/// brackets if it has any; `forall (a : K) . T`; `exists (a : K) . T`;
/// `$n`; `_?`.
pub open spec fn tree_text(t: Tree) -> Seq<char>
    decreases t,
{
    match t {
        Tree::App(x, args) => if args.len() == 0 {
            x
        } else {
            x + "("@ + join(tree_texts(args), ", "@) + ")"@
        },
        Tree::Forall(a, k, b) => "forall ("@ + a + " : "@ + kind_text(k) + ") . "@ + tree_text(*b),
        Tree::Exists(a, k, b) => "exists ("@ + a + " : "@ + kind_text(k) + ") . "@ + tree_text(*b),
        Tree::AbstVar(n) => abst_var_text(n),
        Tree::Hole => hole_text(),
    }
}

/// How each of a sequence of type trees is written.
pub open spec fn tree_texts(args: Seq<Tree>) -> Seq<Seq<char>>
    decreases args,
{
    Seq::new(
        args.len(),
        |i: int|
            if 0 <= i < args.len() {
                tree_text(args[i])
            } else {
                Seq::empty()
            },
    )
}

/// How a literal is written: a number in decimal, a string in double
/// quotes, a character in single quotes.
pub open spec fn literal_text(l: LiteralM) -> Seq<char> {
    match l {
        LiteralM::Int(i) => signed_decimal(i),
        LiteralM::String(s) => "\""@ + s + "\""@,
        LiteralM::Char(c) => "'"@ + seq![c] + "'"@,
    }
}

/// How a runtime value is written: a literal; a constructor followed by
/// its arguments in round brackets; `<thunk>`.
pub open spec fn sem_text(v: SemM) -> Seq<char>
    decreases v,
{
    match v {
        SemM::Thunk(..) => "<thunk>"@,
        SemM::Ctor(tag, args) => tag + "("@ + join(sem_texts(args), ", "@) + ")"@,
        SemM::Literal(l) => literal_text(l),
    }
}

/// How each of a sequence of runtime values is written.
pub open spec fn sem_texts(args: Seq<SemM>) -> Seq<Seq<char>>
    decreases args,
{
    Seq::new(
        args.len(),
        |i: int|
            if 0 <= i < args.len() {
                sem_text(args[i])
            } else {
                Seq::empty()
            },
    )
}

/// The texts of a sequence of strings, in order.
pub open spec fn texts_of(s: Seq<String>) -> Seq<Seq<char>> {
    Seq::new(s.len(), |i: int| s[i]@)
}

/// The strings `parts` with `sep` between each two.
pub fn join_strings(parts: &Vec<String>, sep: &str) -> (r: String)
    ensures
        r@ == join(texts_of(parts@), sep@),
{
    let ghost texts = texts_of(parts@);
    let mut out = String::new();
    let mut i: usize = 0;
    assert(texts.take(0) =~= Seq::empty());
    while i < parts.len()
        invariant
            i <= parts.len(),
            texts == texts_of(parts@),
            out@ == join(texts.take(i as int), sep@),
        decreases parts.len() - i,
    {
        assert(texts.take(i + 1).drop_last() =~= texts.take(i as int));
        if i > 0 {
            out.append(sep);
        }
        out.append(parts[i].as_str());
        proof {
            if i == 0 {
                assert(out@ =~= texts[0]);
            }
        }
        i += 1;
    }
    assert(texts.take(parts.len() as int) =~= texts);
    out
}

/// The concatenation of three texts.
fn concat3(a: &str, b: &str, c: &str) -> (r: String)
    ensures
        r@ == a@ + b@ + c@,
{
    let mut out = a.to_owned();
    out.append(b);
    out.append(c);
    out
}

/// How a signed number is written.
pub fn fmt_i64(i: i64) -> (r: String)
    ensures
        r@ == signed_decimal(i as int),
{
    if i < 0 {
        let magnitude: u64 = ((-(i + 1)) as u64) + 1;
        proof {
            reveal_strlit("-");
        }
        let mut s: String = "-".to_owned();
        let d = fmt_u64(magnitude);
        s.append(d.as_str());
        assert(s@ =~= signed_decimal(i as int));
        s
    } else {
        fmt_u64(i as u64)
    }
}

impl Kind {
    /// The kind as text.
    #[verifier::loop_isolation(false)]
    pub fn fmt_args(&self, fargs: Args) -> (r: String)
        ensures
            r@ == kind_text(self@),
        decreases self,
    {
        match self {
            Kind::VType => "VType".to_owned(),
            Kind::CType => "CType".to_owned(),
            Kind::TypeArity(a) => {
                let mut parts: Vec<String> = Vec::new();
                let mut i: usize = 0;
                while i < a.params.len()
                    invariant
                        i <= a.params.len(),
                        parts.len() == i,
                        forall|j: int| 0 <= j < i ==> (#[trigger] parts@[j])@ == kind_text(a.params@[j]@),
                    decreases a.params.len() - i,
                {
                    parts.push(a.params[i].fmt_args(fargs));
                    i += 1;
                }
                assert(texts_of(parts@) =~= kind_texts(self@->Arity_0));
                let inner = join_strings(&parts, ", ");
                let result = (*a.kd).fmt_args(fargs);
                let mut out = concat3("(", inner.as_str(), ") -> ");
                out.append(result.as_str());
                out
            },
        }
    }
}

impl Type {
    /// The type as text, with every deferred substitution carried out.
    #[verifier::loop_isolation(false)]
    pub fn fmt_args(&self, fargs: Args) -> (r: String)
        ensures
            r@ == tree_text(self@.closed()),
        decreases self@.closed().size(),
    {
        let reduced = self.head_reduction();
        proof {
            lemma_head_reduce_tree(self@);
            lemma_type_model(reduced);
        }
        let ghost tree = self@.closed();
        match &reduced.synty {
            SynType::TypeApp(app) => {
                if app.args.len() == 0 {
                    return app.tvar.name.clone();
                }
                let mut parts: Vec<String> = Vec::new();
                let mut i: usize = 0;
                while i < app.args.len()
                    invariant
                        i <= app.args.len(),
                        parts.len() == i,
                        forall|j: int| 0 <= j < i ==> (#[trigger] parts@[j])@ == tree_text(tree->App_1[j]),
                    decreases app.args.len() - i,
                {
                    proof {
                        lemma_arg_size(tree, i as int);
                    }
                    parts.push((*app.args[i]).inner.fmt_args(fargs));
                    i += 1;
                }
                assert(texts_of(parts@) =~= tree_texts(tree->App_1));
                let inner = join_strings(&parts, ", ");
                let mut out = app.tvar.name.clone();
                out.append("(");
                out.append(inner.as_str());
                out.append(")");
                out
            },
            SynType::Forall(q) => {
                let k = q.param.1.fmt_args(fargs);
                let body = (*q.ty).inner.fmt_args(fargs);
                let mut out = concat3("forall (", q.param.0.name.as_str(), " : ");
                out.append(k.as_str());
                out.append(") . ");
                out.append(body.as_str());
                out
            },
            SynType::Exists(q) => {
                let k = q.param.1.fmt_args(fargs);
                let body = (*q.ty).inner.fmt_args(fargs);
                let mut out = concat3("exists (", q.param.0.name.as_str(), " : ");
                out.append(k.as_str());
                out.append(") . ");
                out.append(body.as_str());
                out
            },
            SynType::AbstVar(a) => a.fmt_args(fargs),
            SynType::Hole(h) => h.fmt_args(fargs),
        }
    }
}

impl Literal {
    /// The literal as text.
    pub fn fmt_args(&self, fargs: Args) -> (r: String)
        ensures
            r@ == literal_text(self@),
    {
        match self {
            Literal::Int(i) => fmt_i64(*i),
            Literal::String(s) => concat3("\"", s.as_str(), "\""),
            Literal::Char(c) => {
                let s = crate::sharing::char_to_string(*c);
                concat3("'", s.as_str(), "'")
            },
        }
    }
}

impl SemValue {
    /// The value as text.
    #[verifier::loop_isolation(false)]
    pub fn fmt_args(&self, fargs: Args) -> (r: String)
        ensures
            r@ == sem_text(self@),
        decreases self,
    {
        match self {
            SemValue::Thunk { .. } => "<thunk>".to_owned(),
            SemValue::Ctor { ctor, args } => {
                let mut parts: Vec<String> = Vec::new();
                let mut i: usize = 0;
                while i < args.len()
                    invariant
                        i <= args.len(),
                        parts.len() == i,
                        forall|j: int| 0 <= j < i ==> (#[trigger] parts@[j])@ == sem_text(args@[j]@),
                    decreases args.len() - i,
                {
                    parts.push((*args[i]).fmt_args(fargs));
                    i += 1;
                }
                assert(texts_of(parts@) =~= sem_texts(sems_model(args@)));
                let inner = join_strings(&parts, ", ");
                let mut out = ctor.name.clone();
                out.append("(");
                out.append(inner.as_str());
                out.append(")");
                out
            },
            SemValue::Literal(l) => l.fmt_args(fargs),
        }
    }
}

} // verus!
