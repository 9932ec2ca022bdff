//! How terms, declarations, modules and programs are written out.

use vstd::prelude::*;
use vstd::string::StringExecFns;
use crate::kind::Kind;
use crate::span::{names_of, Name, Span, TypeV};
use crate::term::{
    Alias, Codata, CodataBr, Comatcher, Data, DataBr, DeclSymbol, Define, DefineExt, Matcher, Module,
    Program, RcValue, TermComputation, TermValue,
};
use crate::fmt::{join, join_strings, kind_text, literal_text, texts_of, tree_text, Args};
use crate::types::{RcType, Type};

verus! {

/// A run of `n` spaces.
pub open spec fn spaces(n: nat) -> Seq<char>
    decreases n,
{
    if n == 0 {
        Seq::empty()
    } else {
        spaces((n - 1) as nat) + " "@
    }
}

/// A line break followed by the indentation.
pub open spec fn br_indent(a: Args) -> Seq<char> {
    "\n"@ + spaces(a.indent as nat)
}

/// How a type that stands in a term is written.
pub open spec fn type_text(t: Span<Type>) -> Seq<char> {
    tree_text(t@.closed())
}

/// How a value is written.
pub open spec fn value_text(v: Span<TermValue>, a: Args) -> Seq<char>
    decreases v,
{
    match v.inner {
        TermValue::Annotation { term, ty } => "("@ + value_text(*term, a) + " : "@ + type_text(*ty)
            + ")"@,
        TermValue::Var(x) => x@,
        TermValue::Thunk(c) => "{ "@ + comp_text(*c, a) + " }"@,
        TermValue::Ctor { ctor, args } => ctor@ + "("@ + join(value_texts(args@, a), ", "@) + ")"@,
        TermValue::Literal(l) => literal_text(l@),
        TermValue::Pack { ty, body } => "pack ("@ + type_text(*ty) + ", "@ + value_text(*body, a)
            + ")"@,
    }
}

/// How each of a sequence of values is written.
pub open spec fn value_texts(args: Seq<RcValue>, a: Args) -> Seq<Seq<char>>
    decreases args,
{
    Seq::new(
        args.len(),
        |i: int|
            if 0 <= i < args.len() {
                value_text(*args[i], a)
            } else {
                Seq::empty()
            },
    )
}

/// How an arm of a `match` is written: `| K(x, ..) -> c`.
pub open spec fn matcher_texts(arms: Seq<Matcher>, a: Args) -> Seq<Seq<char>>
    decreases arms,
{
    Seq::new(
        arms.len(),
        |i: int|
            if 0 <= i < arms.len() {
                "| "@ + arms[i].ctor@ + "("@ + join(names_of(arms[i].vars@), ", "@) + ") -> "@
                    + comp_text(*arms[i].body, a)
            } else {
                Seq::empty()
            },
    )
}

/// How an arm of a `comatch` is written: `| .d(x, ..) -> c`.
pub open spec fn comatcher_texts(arms: Seq<Comatcher>, a: Args) -> Seq<Seq<char>>
    decreases arms,
{
    Seq::new(
        arms.len(),
        |i: int|
            if 0 <= i < arms.len() {
                "| ."@ + arms[i].dtor@ + "("@ + join(names_of(arms[i].vars@), ", "@) + ") -> "@
                    + comp_text(*arms[i].body, a)
            } else {
                Seq::empty()
            },
    )
}

/// How a computation is written. A `let` and a `do` end their line; what
/// follows them starts a new line at the indentation of `a`.
pub open spec fn comp_text(c: Span<TermComputation>, a: Args) -> Seq<char>
    decreases c,
{
    match c.inner {
        TermComputation::Annotation { term, ty } => "("@ + comp_text(*term, a) + " : "@
            + type_text(*ty) + ")"@,
        TermComputation::Ret(v) => "ret "@ + value_text(*v, a),
        TermComputation::Force(v) => "! "@ + value_text(*v, a),
        TermComputation::Let { var, def, body } => "let "@ + var@ + " = "@ + value_text(*def, a)
            + " in"@ + br_indent(a) + comp_text(*body, a),
        TermComputation::Do { var, comp, body } => "do "@ + var@ + " <- "@ + comp_text(*comp, a)
            + " ;"@ + br_indent(a) + comp_text(*body, a),
        TermComputation::Rec { var, body } => "rec "@ + var@ + " -> "@ + comp_text(*body, a),
        TermComputation::Match { scrut, arms } => "match "@ + value_text(*scrut, a) + " "@ + join(
            matcher_texts(arms@, a),
            " "@,
        ) + " end"@,
        TermComputation::Comatch { arms } => "comatch "@ + join(comatcher_texts(arms@, a), " "@)
            + " end"@,
        TermComputation::Dtor { body, dtor, args } => comp_text(*body, a) + " ."@ + dtor@ + "("@
            + join(value_texts(args@, a), ", "@) + ")"@,
        TermComputation::TyAbsTerm { param, body } => "fn ("@ + param.0@ + " : "@ + kind_text(
            param.1@,
        ) + ") -> "@ + comp_text(*body, a),
        TermComputation::TyAppTerm { body, arg } => comp_text(*body, a) + " @("@ + type_text(*arg)
            + ")"@,
        TermComputation::MatchPack { scrut, tvar, var, body } => "match "@ + value_text(*scrut, a)
            + " | pack ("@ + tvar@ + ", "@ + var@ + ") -> "@ + comp_text(*body, a) + " end"@,
    }
}

/// How each of a sequence of types is written.
pub open spec fn type_texts(tys: Seq<RcType>) -> Seq<Seq<char>> {
    Seq::new(tys.len(), |i: int| type_text(*tys[i]))
}

/// How each of a list of type parameters is written: `(a : K)`.
pub open spec fn param_texts(params: Seq<(TypeV, Kind)>) -> Seq<Seq<char>> {
    Seq::new(
        params.len(),
        |i: int| "("@ + params[i].0@ + " : "@ + kind_text(params[i].1@) + ")"@,
    )
}

/// How each constructor of a data type is written: `| K(T, ..)`.
pub open spec fn ctor_texts(ctors: Seq<DataBr>) -> Seq<Seq<char>> {
    Seq::new(
        ctors.len(),
        |i: int| "| "@ + ctors[i].ctor@ + "("@ + join(type_texts(ctors[i].tys@), ", "@) + ")"@,
    )
}

/// How each destructor of a codata type is written: `| .d(T, ..) : T`.
pub open spec fn dtor_texts(dtors: Seq<CodataBr>) -> Seq<Seq<char>> {
    Seq::new(
        dtors.len(),
        |i: int|
            "| ."@ + dtors[i].dtor@ + "("@ + join(type_texts(dtors[i].tys@), ", "@) + ") : "@
                + type_text(*dtors[i].ty),
    )
}

/// The marker of an exported declaration.
pub open spec fn public_text(public: bool) -> Seq<char> {
    if public {
        "pub "@
    } else {
        Seq::empty()
    }
}

/// How a data type declaration is written.
pub open spec fn data_text(d: DeclSymbol<Data>) -> Seq<char> {
    public_text(d.public) + "data "@ + d.inner.name@ + " "@ + join(
        param_texts(d.inner.params@),
        " "@,
    ) + " where "@ + join(ctor_texts(d.inner.ctors@), " "@) + " end"@
}

/// How a codata type declaration is written.
pub open spec fn codata_text(d: DeclSymbol<Codata>) -> Seq<char> {
    public_text(d.public) + "codata "@ + d.inner.name@ + " "@ + join(
        param_texts(d.inner.params@),
        " "@,
    ) + " where "@ + join(dtor_texts(d.inner.dtors@), " "@) + " end"@
}

/// How a type alias is written.
pub open spec fn alias_text(d: DeclSymbol<Alias>) -> Seq<char> {
    public_text(d.public) + "alias "@ + d.inner.name@ + " "@ + join(
        param_texts(d.inner.params@),
        " "@,
    ) + " = "@ + type_text(*d.inner.ty) + " end"@
}

/// How the declaration of a primitive is written.
pub open spec fn extern_text(d: DeclSymbol<DefineExt>) -> Seq<char> {
    public_text(d.public) + "extern "@ + d.inner.name@ + " : "@ + type_text(*d.inner.ty) + " end"@
}

/// How a definition is written.
pub open spec fn define_text(d: DeclSymbol<Define>, a: Args) -> Seq<char> {
    public_text(d.public) + "define "@ + d.inner.name@ + " = "@ + value_text(*d.inner.def, a)
        + " end"@
}

/// The first `n` of `lines`, each followed by a line break and the
/// indentation.
pub open spec fn lines_text(lines: Seq<Seq<char>>, a: Args, n: nat) -> Seq<char>
    decreases n,
{
    if n == 0 || n > lines.len() {
        Seq::empty()
    } else {
        lines_text(lines, a, (n - 1) as nat) + lines[n - 1] + br_indent(a)
    }
}

/// The declarations of a module as lines: the data types, the codata
/// types, the type aliases, the primitives, and the definitions.
pub open spec fn module_lines(m: Module, a: Args) -> Seq<Seq<char>> {
    Seq::new(m.data@.len(), |i: int| data_text(m.data@[i])) + Seq::new(
        m.codata@.len(),
        |i: int| codata_text(m.codata@[i]),
    ) + Seq::new(m.alias@.len(), |i: int| alias_text(m.alias@[i])) + Seq::new(
        m.define_ext@.len(),
        |i: int| extern_text(m.define_ext@[i]),
    ) + Seq::new(
        m.define@.len(),
        |i: int| define_text(m.define@[i], a),
    )
}

/// The header of a module, if it has a name.
pub open spec fn header_text(name: Option<String>, a: Args) -> Seq<char> {
    match name {
        Some(n) => "module "@ + n@ + " where"@ + br_indent(a),
        None => Seq::empty(),
    }
}

/// How a module is written: its header if it has a name, then each
/// declaration on a line of its own.
pub open spec fn module_text(m: Module, a: Args) -> Seq<char> {
    header_text(m.name, a) + lines_text(module_lines(m, a), a, module_lines(m, a).len())
}

/// How a program is written: the module, an empty line, the entry.
pub open spec fn program_text(p: Program, a: Args) -> Seq<char> {
    module_text(p.module.inner, a) + br_indent(a) + comp_text(p.entry, a)
}

impl Args {
    /// A line break followed by the indentation.
    pub fn br_indent(&self) -> (r: String)
        ensures
            r@ == br_indent(*self),
    {
        let mut out: String = "\n".to_owned();
        let mut i: usize = 0;
        while i < self.indent
            invariant
                i <= self.indent,
                out@ == "\n"@ + spaces(i as nat),
            decreases self.indent - i,
        {
            out.append(" ");
            assert(out@ =~= "\n"@ + spaces((i + 1) as nat));
            i += 1;
        }
        out
    }
}

/// The texts of a list of names, joined by `, `.
fn names_text(names: &Vec<Name>) -> (r: String)
    ensures
        r@ == join(names_of(names@), ", "@),
{
    let mut parts: Vec<String> = Vec::new();
    let mut i: usize = 0;
    while i < names.len()
        invariant
            i <= names.len(),
            parts.len() == i,
            forall|j: int| 0 <= j < i ==> (#[trigger] parts@[j])@ == names@[j]@,
        decreases names.len() - i,
    {
        parts.push(names[i].name.clone());
        i += 1;
    }
    assert(texts_of(parts@) =~= names_of(names@));
    join_strings(&parts, ", ")
}

/// The texts of a list of types, joined by `, `.
fn types_text(tys: &Vec<RcType>, a: Args) -> (r: String)
    ensures
        r@ == join(type_texts(tys@), ", "@),
{
    let mut parts: Vec<String> = Vec::new();
    let mut i: usize = 0;
    while i < tys.len()
        invariant
            i <= tys.len(),
            parts.len() == i,
            forall|j: int| 0 <= j < i ==> (#[trigger] parts@[j])@ == type_text(*tys@[j]),
        decreases tys.len() - i,
    {
        parts.push((*tys[i]).inner.fmt_args(a));
        i += 1;
    }
    assert(texts_of(parts@) =~= type_texts(tys@));
    join_strings(&parts, ", ")
}

/// The texts of a list of type parameters, joined by a space.
fn params_text(params: &Vec<(TypeV, Kind)>, a: Args) -> (r: String)
    ensures
        r@ == join(param_texts(params@), " "@),
{
    let mut parts: Vec<String> = Vec::new();
    let mut i: usize = 0;
    while i < params.len()
        invariant
            i <= params.len(),
            parts.len() == i,
            forall|j: int| 0 <= j < i ==> (#[trigger] parts@[j])@ == param_texts(params@)[j],
        decreases params.len() - i,
    {
        let mut s: String = "(".to_owned();
        s.append(params[i].0.name.as_str());
        s.append(" : ");
        let k = params[i].1.fmt_args(a);
        s.append(k.as_str());
        s.append(")");
        parts.push(s);
        i += 1;
    }
    assert(texts_of(parts@) =~= param_texts(params@));
    join_strings(&parts, " ")
}

/// The marker of an exported declaration.
fn public_marker(public: bool) -> (r: String)
    ensures
        r@ == public_text(public),
{
    if public {
        "pub ".to_owned()
    } else {
        String::new()
    }
}

/// The texts of a list of values, joined by `, `.
#[verifier::loop_isolation(false)]
fn values_text(args: &Vec<RcValue>, a: Args) -> (r: String)
    ensures
        r@ == join(value_texts(args@, a), ", "@),
    decreases args,
{
    let mut parts: Vec<String> = Vec::new();
    let mut i: usize = 0;
    while i < args.len()
        invariant
            i <= args.len(),
            parts.len() == i,
            forall|j: int| 0 <= j < i ==> (#[trigger] parts@[j])@ == value_text(*args@[j], a),
        decreases args.len() - i,
    {
        parts.push((*args[i]).fmt_args(a));
        i += 1;
    }
    assert(texts_of(parts@) =~= value_texts(args@, a));
    join_strings(&parts, ", ")
}

impl Span<TermValue> {
    /// The value as text.
    pub fn fmt_args(&self, a: Args) -> (r: String)
        ensures
            r@ == value_text(*self, a),
        decreases self,
    {
        match &self.inner {
            TermValue::Annotation { term, ty } => {
                let mut out: String = "(".to_owned();
                out.append((**term).fmt_args(a).as_str());
                out.append(" : ");
                out.append((**ty).inner.fmt_args(a).as_str());
                out.append(")");
                out
            },
            TermValue::Var(x) => x.name.clone(),
            TermValue::Thunk(c) => {
                let mut out: String = "{ ".to_owned();
                out.append((**c).fmt_args(a).as_str());
                out.append(" }");
                out
            },
            TermValue::Ctor { ctor, args } => {
                let mut out = ctor.name.clone();
                out.append("(");
                out.append(values_text(args, a).as_str());
                out.append(")");
                out
            },
            TermValue::Literal(l) => l.fmt_args(a),
            TermValue::Pack { ty, body } => {
                let mut out: String = "pack (".to_owned();
                out.append((**ty).inner.fmt_args(a).as_str());
                out.append(", ");
                out.append((**body).fmt_args(a).as_str());
                out.append(")");
                out
            },
        }
    }
}

/// The texts of the arms of a `match`, joined by a space.
#[verifier::loop_isolation(false)]
fn matchers_text(arms: &Vec<Matcher>, a: Args) -> (r: String)
    ensures
        r@ == join(matcher_texts(arms@, a), " "@),
    decreases arms,
{
    let mut parts: Vec<String> = Vec::new();
    let mut i: usize = 0;
    while i < arms.len()
        invariant
            i <= arms.len(),
            parts.len() == i,
            forall|j: int| 0 <= j < i ==> (#[trigger] parts@[j])@ == matcher_texts(arms@, a)[j],
        decreases arms.len() - i,
    {
        let mut s: String = "| ".to_owned();
        s.append(arms[i].ctor.name.as_str());
        s.append("(");
        s.append(names_text(&arms[i].vars).as_str());
        s.append(") -> ");
        s.append((*arms[i].body).fmt_args(a).as_str());
        parts.push(s);
        i += 1;
    }
    assert(texts_of(parts@) =~= matcher_texts(arms@, a));
    join_strings(&parts, " ")
}

/// The texts of the arms of a `comatch`, joined by a space.
#[verifier::loop_isolation(false)]
fn comatchers_text(arms: &Vec<Comatcher>, a: Args) -> (r: String)
    ensures
        r@ == join(comatcher_texts(arms@, a), " "@),
    decreases arms,
{
    let mut parts: Vec<String> = Vec::new();
    let mut i: usize = 0;
    while i < arms.len()
        invariant
            i <= arms.len(),
            parts.len() == i,
            forall|j: int| 0 <= j < i ==> (#[trigger] parts@[j])@ == comatcher_texts(arms@, a)[j],
        decreases arms.len() - i,
    {
        let mut s: String = "| .".to_owned();
        s.append(arms[i].dtor.name.as_str());
        s.append("(");
        s.append(names_text(&arms[i].vars).as_str());
        s.append(") -> ");
        s.append((*arms[i].body).fmt_args(a).as_str());
        parts.push(s);
        i += 1;
    }
    assert(texts_of(parts@) =~= comatcher_texts(arms@, a));
    join_strings(&parts, " ")
}

impl Span<TermComputation> {
    /// The computation as text.
    pub fn fmt_args(&self, a: Args) -> (r: String)
        ensures
            r@ == comp_text(*self, a),
        decreases self,
    {
        match &self.inner {
            TermComputation::Annotation { term, ty } => {
                let mut out: String = "(".to_owned();
                out.append((**term).fmt_args(a).as_str());
                out.append(" : ");
                out.append((**ty).inner.fmt_args(a).as_str());
                out.append(")");
                out
            },
            TermComputation::Ret(v) => {
                let mut out: String = "ret ".to_owned();
                out.append((**v).fmt_args(a).as_str());
                out
            },
            TermComputation::Force(v) => {
                let mut out: String = "! ".to_owned();
                out.append((**v).fmt_args(a).as_str());
                out
            },
            TermComputation::Let { var, def, body } => {
                let mut out: String = "let ".to_owned();
                out.append(var.name.as_str());
                out.append(" = ");
                out.append((**def).fmt_args(a).as_str());
                out.append(" in");
                out.append(a.br_indent().as_str());
                out.append((**body).fmt_args(a).as_str());
                out
            },
            TermComputation::Do { var, comp, body } => {
                let mut out: String = "do ".to_owned();
                out.append(var.name.as_str());
                out.append(" <- ");
                out.append((**comp).fmt_args(a).as_str());
                out.append(" ;");
                out.append(a.br_indent().as_str());
                out.append((**body).fmt_args(a).as_str());
                out
            },
            TermComputation::Rec { var, body } => {
                let mut out: String = "rec ".to_owned();
                out.append(var.name.as_str());
                out.append(" -> ");
                out.append((**body).fmt_args(a).as_str());
                out
            },
            TermComputation::Match { scrut, arms } => {
                let mut out: String = "match ".to_owned();
                out.append((**scrut).fmt_args(a).as_str());
                out.append(" ");
                out.append(matchers_text(arms, a).as_str());
                out.append(" end");
                out
            },
            TermComputation::Comatch { arms } => {
                let mut out: String = "comatch ".to_owned();
                out.append(comatchers_text(arms, a).as_str());
                out.append(" end");
                out
            },
            TermComputation::Dtor { body, dtor, args } => {
                let mut out = (**body).fmt_args(a);
                out.append(" .");
                out.append(dtor.name.as_str());
                out.append("(");
                out.append(values_text(args, a).as_str());
                out.append(")");
                out
            },
            TermComputation::TyAbsTerm { param, body } => {
                let mut out: String = "fn (".to_owned();
                out.append(param.0.name.as_str());
                out.append(" : ");
                out.append(param.1.fmt_args(a).as_str());
                out.append(") -> ");
                out.append((**body).fmt_args(a).as_str());
                out
            },
            TermComputation::TyAppTerm { body, arg } => {
                let mut out = (**body).fmt_args(a);
                out.append(" @(");
                out.append((**arg).inner.fmt_args(a).as_str());
                out.append(")");
                out
            },
            TermComputation::MatchPack { scrut, tvar, var, body } => {
                let mut out: String = "match ".to_owned();
                out.append((**scrut).fmt_args(a).as_str());
                out.append(" | pack (");
                out.append(tvar.name.as_str());
                out.append(", ");
                out.append(var.name.as_str());
                out.append(") -> ");
                out.append((**body).fmt_args(a).as_str());
                out.append(" end");
                out
            },
        }
    }
}

impl DeclSymbol<Data> {
    /// The declaration as text.
    pub fn fmt_args(&self, a: Args) -> (r: String)
        ensures
            r@ == data_text(*self),
    {
        let d = &self.inner;
        let mut parts: Vec<String> = Vec::new();
        let mut i: usize = 0;
        while i < d.ctors.len()
            invariant
                i <= d.ctors.len(),
                parts.len() == i,
                forall|j: int| 0 <= j < i ==> (#[trigger] parts@[j])@ == ctor_texts(d.ctors@)[j],
            decreases d.ctors.len() - i,
        {
            let mut s: String = "| ".to_owned();
            s.append(d.ctors[i].ctor.name.as_str());
            s.append("(");
            s.append(types_text(&d.ctors[i].tys, a).as_str());
            s.append(")");
            parts.push(s);
            i += 1;
        }
        assert(texts_of(parts@) =~= ctor_texts(d.ctors@));
        let mut out = public_marker(self.public);
        out.append("data ");
        out.append(d.name.name.as_str());
        out.append(" ");
        out.append(params_text(&d.params, a).as_str());
        out.append(" where ");
        out.append(join_strings(&parts, " ").as_str());
        out.append(" end");
        out
    }
}

impl DeclSymbol<Codata> {
    /// The declaration as text.
    pub fn fmt_args(&self, a: Args) -> (r: String)
        ensures
            r@ == codata_text(*self),
    {
        let d = &self.inner;
        let mut parts: Vec<String> = Vec::new();
        let mut i: usize = 0;
        while i < d.dtors.len()
            invariant
                i <= d.dtors.len(),
                parts.len() == i,
                forall|j: int| 0 <= j < i ==> (#[trigger] parts@[j])@ == dtor_texts(d.dtors@)[j],
            decreases d.dtors.len() - i,
        {
            let mut s: String = "| .".to_owned();
            s.append(d.dtors[i].dtor.name.as_str());
            s.append("(");
            s.append(types_text(&d.dtors[i].tys, a).as_str());
            s.append(") : ");
            s.append((*d.dtors[i].ty).inner.fmt_args(a).as_str());
            parts.push(s);
            i += 1;
        }
        assert(texts_of(parts@) =~= dtor_texts(d.dtors@));
        let mut out = public_marker(self.public);
        out.append("codata ");
        out.append(d.name.name.as_str());
        out.append(" ");
        out.append(params_text(&d.params, a).as_str());
        out.append(" where ");
        out.append(join_strings(&parts, " ").as_str());
        out.append(" end");
        out
    }
}

impl DeclSymbol<Alias> {
    /// The alias as text.
    pub fn fmt_args(&self, a: Args) -> (r: String)
        ensures
            r@ == alias_text(*self),
    {
        let mut out = public_marker(self.public);
        out.append("alias ");
        out.append(self.inner.name.name.as_str());
        out.append(" ");
        out.append(params_text(&self.inner.params, a).as_str());
        out.append(" = ");
        out.append((*self.inner.ty).inner.fmt_args(a).as_str());
        out.append(" end");
        out
    }
}

impl DeclSymbol<DefineExt> {
    /// The declaration as text.
    pub fn fmt_args(&self, a: Args) -> (r: String)
        ensures
            r@ == extern_text(*self),
    {
        let mut out = public_marker(self.public);
        out.append("extern ");
        out.append(self.inner.name.name.as_str());
        out.append(" : ");
        out.append((*self.inner.ty).inner.fmt_args(a).as_str());
        out.append(" end");
        out
    }
}

impl DeclSymbol<Define> {
    /// The definition as text.
    pub fn fmt_args(&self, a: Args) -> (r: String)
        ensures
            r@ == define_text(*self, a),
    {
        let mut out = public_marker(self.public);
        out.append("define ");
        out.append(self.inner.name.name.as_str());
        out.append(" = ");
        out.append((*self.inner.def).fmt_args(a).as_str());
        out.append(" end");
        out
    }
}

/// Each of `lines` followed by a line break and the indentation.
fn each_on_a_line(lines: &Vec<String>, a: Args) -> (r: String)
    ensures
        r@ == lines_text(texts_of(lines@), a, lines@.len()),
{
    let ghost texts = texts_of(lines@);
    let br = a.br_indent();
    let mut out = String::new();
    let mut i: usize = 0;
    while i < lines.len()
        invariant
            i <= lines.len(),
            texts == texts_of(lines@),
            br@ == br_indent(a),
            out@ == lines_text(texts, a, i as nat),
        decreases lines.len() - i,
    {
        out.append(lines[i].as_str());
        out.append(br.as_str());
        i += 1;
    }
    out
}

impl Module {
    /// The module as text.
    pub fn fmt_args(&self, a: Args) -> (r: String)
        ensures
            r@ == module_text(*self, a),
    {
        let mut out = match &self.name {
            Some(n) => {
                let mut s: String = "module ".to_owned();
                s.append(n.as_str());
                s.append(" where");
                s.append(a.br_indent().as_str());
                s
            },
            None => String::new(),
        };
        let ghost all = module_lines(*self, a);
        let mut decls: Vec<String> = Vec::new();
        let mut i: usize = 0;
        while i < self.data.len()
            invariant
                i <= self.data.len(),
                decls.len() == i,
                forall|j: int| 0 <= j < i ==> (#[trigger] decls@[j])@ == all[j],
                all == module_lines(*self, a),
            decreases self.data.len() - i,
        {
            decls.push(self.data[i].fmt_args(a));
            i += 1;
        }
        let n1 = self.data.len();
        i = 0;
        while i < self.codata.len()
            invariant
                i <= self.codata.len(),
                n1 == self.data.len(),
                decls.len() == n1 + i,
                forall|j: int| 0 <= j < n1 + i ==> (#[trigger] decls@[j])@ == all[j],
                all == module_lines(*self, a),
            decreases self.codata.len() - i,
        {
            decls.push(self.codata[i].fmt_args(a));
            i += 1;
        }
        let n_codata = n1 + self.codata.len();
        i = 0;
        while i < self.alias.len()
            invariant
                i <= self.alias.len(),
                n_codata == self.data.len() + self.codata.len(),
                decls.len() == n_codata + i,
                forall|j: int| 0 <= j < n_codata + i ==> (#[trigger] decls@[j])@ == all[j],
                all == module_lines(*self, a),
            decreases self.alias.len() - i,
        {
            decls.push(self.alias[i].fmt_args(a));
            i += 1;
        }
        let n2 = n_codata + self.alias.len();
        i = 0;
        while i < self.define_ext.len()
            invariant
                i <= self.define_ext.len(),
                n2 == self.data.len() + self.codata.len() + self.alias.len(),
                decls.len() == n2 + i,
                forall|j: int| 0 <= j < n2 + i ==> (#[trigger] decls@[j])@ == all[j],
                all == module_lines(*self, a),
            decreases self.define_ext.len() - i,
        {
            decls.push(self.define_ext[i].fmt_args(a));
            i += 1;
        }
        let n3 = n2 + self.define_ext.len();
        i = 0;
        while i < self.define.len()
            invariant
                i <= self.define.len(),
                n3 == self.data.len() + self.codata.len() + self.alias.len()
                    + self.define_ext.len(),
                decls.len() == n3 + i,
                forall|j: int| 0 <= j < n3 + i ==> (#[trigger] decls@[j])@ == all[j],
                all == module_lines(*self, a),
            decreases self.define.len() - i,
        {
            decls.push(self.define[i].fmt_args(a));
            i += 1;
        }
        assert(texts_of(decls@) =~= all);
        out.append(each_on_a_line(&decls, a).as_str());
        out
    }
}

impl Program {
    /// The program as text.
    pub fn fmt_args(&self, a: Args) -> (r: String)
        ensures
            r@ == program_text(*self, a),
    {
        let mut out = self.module.inner.fmt_args(a);
        out.append(a.br_indent().as_str());
        out.append(self.entry.fmt_args(a).as_str());
        out
    }
}

} // verus!
