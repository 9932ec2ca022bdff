//! The typing context: what is known of the type names, term variables,
//! data types and codata types in scope. The four tables are persistent
//! hash maps, so a context is copied in constant time and an extended
//! context shares what it can with the one it came from.

use vstd::prelude::*;
use crate::kind::{Kind, KindM};
use crate::span::Name;
use crate::term::{Codata, CodataM, Data, DataM};
use crate::types::{AbstVar, Type, TypeM};

verus! {

/// The persistent hash map of the `im` crate. It is carried through as it
/// is: what a map holds is known only from the functions below that make,
/// copy, read and extend one.
#[verifier::external_type_specification]
#[verifier::external_body]
#[verifier::reject_recursive_types(K)]
#[verifier::reject_recursive_types(V)]
#[verifier::reject_recursive_types(S)]
pub struct ExImHashMap<K, V, S>(im::HashMap<K, V, S>);

/// What a table of kinds holds: the value of the kind under each name.
pub uninterp spec fn kind_entries(m: im::HashMap<String, Kind>) -> Map<Seq<char>, KindM>;

/// What a table of types holds: the value of the type under each name.
pub uninterp spec fn type_entries(m: im::HashMap<String, Type>) -> Map<Seq<char>, TypeM>;

/// What a table of data types holds: the value of the declaration under
/// each name.
pub uninterp spec fn data_entries(m: im::HashMap<String, Data>) -> Map<Seq<char>, DataM>;

/// What a table of codata types holds: the value of the declaration under
/// each name.
pub uninterp spec fn codata_entries(m: im::HashMap<String, Codata>) -> Map<Seq<char>, CodataM>;

/// The typing context.
#[derive(Debug)]
pub struct Ctx {
    pub type_ctx: im::HashMap<String, Kind>,
    pub term_ctx: im::HashMap<String, Type>,
    pub data_ctx: im::HashMap<String, Data>,
    pub coda_ctx: im::HashMap<String, Codata>,
    /// The kinds of the abstract variables `$0`, `$1`, ... in use.
    pub abst_ctx: Vec<Kind>,
}

/// The mathematical value of a typing context.
pub struct CtxM {
    pub type_ctx: Map<Seq<char>, KindM>,
    pub term_ctx: Map<Seq<char>, TypeM>,
    pub data_ctx: Map<Seq<char>, DataM>,
    pub coda_ctx: Map<Seq<char>, CodataM>,
    pub abst_ctx: Seq<KindM>,
}

impl View for Ctx {
    type V = CtxM;

    open spec fn view(&self) -> CtxM {
        CtxM {
            type_ctx: kind_entries(self.type_ctx),
            term_ctx: type_entries(self.term_ctx),
            data_ctx: data_entries(self.data_ctx),
            coda_ctx: codata_entries(self.coda_ctx),
            abst_ctx: crate::kind::kinds_model(self.abst_ctx@),
        }
    }
}

impl CtxM {
    /// The context in which nothing is known.
    pub open spec fn empty() -> CtxM {
        CtxM {
            type_ctx: Map::empty(),
            term_ctx: Map::empty(),
            data_ctx: Map::empty(),
            coda_ctx: Map::empty(),
            abst_ctx: Seq::empty(),
        }
    }

    /// The context with the type name `x` at kind `k`.
    pub open spec fn bind_type(self, x: Seq<char>, k: KindM) -> CtxM {
        CtxM { type_ctx: self.type_ctx.insert(x, k), ..self }
    }

    /// The context with the term variable `x` at type `t`.
    pub open spec fn bind_term(self, x: Seq<char>, t: TypeM) -> CtxM {
        CtxM { term_ctx: self.term_ctx.insert(x, t), ..self }
    }

    /// The context with the data type `d` under the name `x`.
    pub open spec fn bind_data(self, x: Seq<char>, d: DataM) -> CtxM {
        CtxM { data_ctx: self.data_ctx.insert(x, d), ..self }
    }

    /// The context with the codata type `d` under the name `x`.
    pub open spec fn bind_codata(self, x: Seq<char>, d: CodataM) -> CtxM {
        CtxM { coda_ctx: self.coda_ctx.insert(x, d), ..self }
    }

    /// The context with one more abstract variable, of kind `k`.
    pub open spec fn fresh(self, k: KindM) -> CtxM {
        CtxM { abst_ctx: self.abst_ctx.push(k), ..self }
    }
}

/// The four tables of a context.
struct Tables {
    type_ctx: im::HashMap<String, Kind>,
    term_ctx: im::HashMap<String, Type>,
    data_ctx: im::HashMap<String, Data>,
    coda_ctx: im::HashMap<String, Codata>,
}

/// Four empty tables.
///
/// Calls `im::HashMap::new` once for each table. A map made by it holds no
/// entry.
#[verifier::external_body]
fn tables_new() -> (r: Tables)
    ensures
        kind_entries(r.type_ctx) == CtxM::empty().type_ctx,
        type_entries(r.term_ctx) == CtxM::empty().term_ctx,
        data_entries(r.data_ctx) == CtxM::empty().data_ctx,
        codata_entries(r.coda_ctx) == CtxM::empty().coda_ctx,
{
    Tables {
        type_ctx: im::HashMap::new(),
        term_ctx: im::HashMap::new(),
        data_ctx: im::HashMap::new(),
        coda_ctx: im::HashMap::new(),
    }
}

/// Copies of the four tables of `ctx`.
///
/// Calls `clone` of `im::HashMap` on each table, which copies the handle to
/// the shared tree of entries: the copy holds what the map it was made
/// from holds.
#[verifier::external_body]
fn tables_clone(ctx: &Ctx) -> (r: Tables)
    ensures
        kind_entries(r.type_ctx) == kind_entries(ctx.type_ctx),
        type_entries(r.term_ctx) == type_entries(ctx.term_ctx),
        data_entries(r.data_ctx) == data_entries(ctx.data_ctx),
        codata_entries(r.coda_ctx) == codata_entries(ctx.coda_ctx),
{
    Tables {
        type_ctx: ctx.type_ctx.clone(),
        term_ctx: ctx.term_ctx.clone(),
        data_ctx: ctx.data_ctx.clone(),
        coda_ctx: ctx.coda_ctx.clone(),
    }
}

/// The kind under `k`, if the table holds one.
///
/// Calls `im::HashMap::get`, which returns a reference to the value stored
/// under a key equal to `k`, or `None` if no key is equal to it.
#[verifier::external_body]
fn kind_get<'a>(m: &'a im::HashMap<String, Kind>, k: &String) -> (r: Option<&'a Kind>)
    ensures
        r.is_some() == kind_entries(*m).contains_key(k@),
        r matches Some(v) ==> v@ == kind_entries(*m)[k@],
{
    m.get(k)
}

/// The type under `k`, if the table holds one.
///
/// Calls `im::HashMap::get`, which returns a reference to the value stored
/// under a key equal to `k`, or `None` if no key is equal to it.
#[verifier::external_body]
fn type_get<'a>(m: &'a im::HashMap<String, Type>, k: &String) -> (r: Option<&'a Type>)
    ensures
        r.is_some() == type_entries(*m).contains_key(k@),
        r matches Some(v) ==> v@ == type_entries(*m)[k@],
{
    m.get(k)
}

/// The data type under `k`, if the table holds one.
///
/// Calls `im::HashMap::get`, which returns a reference to the value stored
/// under a key equal to `k`, or `None` if no key is equal to it.
#[verifier::external_body]
fn data_get<'a>(m: &'a im::HashMap<String, Data>, k: &String) -> (r: Option<&'a Data>)
    ensures
        r.is_some() == data_entries(*m).contains_key(k@),
        r matches Some(v) ==> v@ == data_entries(*m)[k@],
{
    m.get(k)
}

/// The codata type under `k`, if the table holds one.
///
/// Calls `im::HashMap::get`, which returns a reference to the value stored
/// under a key equal to `k`, or `None` if no key is equal to it.
#[verifier::external_body]
fn codata_get<'a>(m: &'a im::HashMap<String, Codata>, k: &String) -> (r: Option<&'a Codata>)
    ensures
        r.is_some() == codata_entries(*m).contains_key(k@),
        r matches Some(v) ==> v@ == codata_entries(*m)[k@],
{
    m.get(k)
}

/// The table with `v` under `k`.
///
/// Calls `im::HashMap::update`, which returns a new map that holds `v`
/// under `k`, in the place of what was under `k` if anything was, and
/// otherwise what the old map holds. The old map is left as it is.
#[verifier::external_body]
fn kind_update(m: &im::HashMap<String, Kind>, k: String, v: Kind) -> (r: im::HashMap<String, Kind>)
    ensures
        kind_entries(r) == kind_entries(*m).insert(k@, v@),
{
    m.update(k, v)
}

/// The table with `v` under `k`.
///
/// Calls `im::HashMap::update`, which returns a new map that holds `v`
/// under `k`, in the place of what was under `k` if anything was, and
/// otherwise what the old map holds. The old map is left as it is.
#[verifier::external_body]
fn type_update(m: &im::HashMap<String, Type>, k: String, v: Type) -> (r: im::HashMap<String, Type>)
    ensures
        type_entries(r) == type_entries(*m).insert(k@, v@),
{
    m.update(k, v)
}

/// The table with `v` under `k`.
///
/// Calls `im::HashMap::update`, which returns a new map that holds `v`
/// under `k`, in the place of what was under `k` if anything was, and
/// otherwise what the old map holds. The old map is left as it is.
#[verifier::external_body]
fn data_update(m: &im::HashMap<String, Data>, k: String, v: Data) -> (r: im::HashMap<String, Data>)
    ensures
        data_entries(r) == data_entries(*m).insert(k@, v@),
{
    m.update(k, v)
}

/// The table with `v` under `k`.
///
/// Calls `im::HashMap::update`, which returns a new map that holds `v`
/// under `k`, in the place of what was under `k` if anything was, and
/// otherwise what the old map holds. The old map is left as it is.
#[verifier::external_body]
fn codata_update(m: &im::HashMap<String, Codata>, k: String, v: Codata) -> (r: im::HashMap<
    String,
    Codata,
>)
    ensures
        codata_entries(r) == codata_entries(*m).insert(k@, v@),
{
    m.update(k, v)
}

/// A copy of a list of kinds.
pub fn clone_kinds(v: &Vec<Kind>) -> (r: Vec<Kind>)
    ensures
        crate::kind::kinds_model(r@) == crate::kind::kinds_model(v@),
{
    let mut out: Vec<Kind> = Vec::new();
    let mut i: usize = 0;
    while i < v.len()
        invariant
            i <= v.len(),
            out.len() == i,
            forall|j: int| 0 <= j < i ==> (#[trigger] out@[j])@ == v@[j]@,
        decreases v.len() - i,
    {
        out.push(v[i].clone());
        i += 1;
    }
    assert(crate::kind::kinds_model(out@) =~= crate::kind::kinds_model(v@));
    out
}

impl Clone for Ctx {
    fn clone(&self) -> (r: Self)
        ensures
            r@ == self@,
    {
        let t = tables_clone(self);
        Ctx {
            type_ctx: t.type_ctx,
            term_ctx: t.term_ctx,
            data_ctx: t.data_ctx,
            coda_ctx: t.coda_ctx,
            abst_ctx: clone_kinds(&self.abst_ctx),
        }
    }
}

impl Ctx {
    /// The context in which nothing is known.
    pub fn new() -> (r: Ctx)
        ensures
            r@ == CtxM::empty(),
    {
        let t = tables_new();
        let r = Ctx {
            type_ctx: t.type_ctx,
            term_ctx: t.term_ctx,
            data_ctx: t.data_ctx,
            coda_ctx: t.coda_ctx,
            abst_ctx: Vec::new(),
        };
        assert(r@.abst_ctx =~= Seq::empty());
        r
    }

    /// The kind of the type name `x`, if it is in scope.
    pub fn kind_of(&self, x: &Name) -> (r: Option<&Kind>)
        ensures
            r.is_some() == self@.type_ctx.contains_key(x@),
            r matches Some(k) ==> k@ == self@.type_ctx[x@],
    {
        kind_get(&self.type_ctx, &x.name)
    }

    /// The type of the term variable `x`, if it is in scope.
    pub fn type_of(&self, x: &Name) -> (r: Option<&Type>)
        ensures
            r.is_some() == self@.term_ctx.contains_key(x@),
            r matches Some(t) ==> t@ == self@.term_ctx[x@],
    {
        type_get(&self.term_ctx, &x.name)
    }

    /// The data type declared under `x`, if there is one.
    pub fn data(&self, x: &Name) -> (r: Option<&Data>)
        ensures
            r.is_some() == self@.data_ctx.contains_key(x@),
            r matches Some(d) ==> d@ == self@.data_ctx[x@],
    {
        data_get(&self.data_ctx, &x.name)
    }

    /// The codata type declared under `x`, if there is one.
    pub fn codata(&self, x: &Name) -> (r: Option<&Codata>)
        ensures
            r.is_some() == self@.coda_ctx.contains_key(x@),
            r matches Some(d) ==> d@ == self@.coda_ctx[x@],
    {
        codata_get(&self.coda_ctx, &x.name)
    }

    /// The kind of the abstract variable `v`, if it is in use.
    pub fn abst_kind(&self, v: &AbstVar) -> (r: Option<&Kind>)
        ensures
            r.is_some() == (v.0 < self@.abst_ctx.len()),
            r matches Some(k) ==> k@ == self@.abst_ctx[v.0 as int],
    {
        if v.0 < self.abst_ctx.len() {
            Some(&self.abst_ctx[v.0])
        } else {
            None
        }
    }

    /// The context with the type name `x` at kind `k`.
    pub fn bind_type(&self, x: &Name, k: Kind) -> (r: Ctx)
        ensures
            r@ == self@.bind_type(x@, k@),
    {
        let t = tables_clone(self);
        Ctx {
            type_ctx: kind_update(&self.type_ctx, x.name.clone(), k),
            term_ctx: t.term_ctx,
            data_ctx: t.data_ctx,
            coda_ctx: t.coda_ctx,
            abst_ctx: clone_kinds(&self.abst_ctx),
        }
    }

    /// The context with the term variable `x` at type `t`.
    pub fn bind_term(&self, x: &Name, ty: Type) -> (r: Ctx)
        ensures
            r@ == self@.bind_term(x@, ty@),
    {
        let t = tables_clone(self);
        Ctx {
            type_ctx: t.type_ctx,
            term_ctx: type_update(&self.term_ctx, x.name.clone(), ty),
            data_ctx: t.data_ctx,
            coda_ctx: t.coda_ctx,
            abst_ctx: clone_kinds(&self.abst_ctx),
        }
    }

    /// The context with the data type `d` under the name `x`.
    pub fn bind_data(&self, x: &Name, d: Data) -> (r: Ctx)
        ensures
            r@ == self@.bind_data(x@, d@),
    {
        let t = tables_clone(self);
        Ctx {
            type_ctx: t.type_ctx,
            term_ctx: t.term_ctx,
            data_ctx: data_update(&self.data_ctx, x.name.clone(), d),
            coda_ctx: t.coda_ctx,
            abst_ctx: clone_kinds(&self.abst_ctx),
        }
    }

    /// The context with the codata type `d` under the name `x`.
    pub fn bind_codata(&self, x: &Name, d: Codata) -> (r: Ctx)
        ensures
            r@ == self@.bind_codata(x@, d@),
    {
        let t = tables_clone(self);
        Ctx {
            type_ctx: t.type_ctx,
            term_ctx: t.term_ctx,
            data_ctx: t.data_ctx,
            coda_ctx: codata_update(&self.coda_ctx, x.name.clone(), d),
            abst_ctx: clone_kinds(&self.abst_ctx),
        }
    }

    /// The context with one more abstract variable, of kind `k`, and that
    /// variable.
    pub fn fresh(&self, k: Kind) -> (r: (Ctx, AbstVar))
        ensures
            r.0@ == self@.fresh(k@),
            r.1.0 == self@.abst_ctx.len(),
    {
        let t = tables_clone(self);
        let mut abst_ctx = clone_kinds(&self.abst_ctx);
        let n = abst_ctx.len();
        abst_ctx.push(k);
        let r = Ctx {
            type_ctx: t.type_ctx,
            term_ctx: t.term_ctx,
            data_ctx: t.data_ctx,
            coda_ctx: t.coda_ctx,
            abst_ctx,
        };
        assert(r@.abst_ctx =~= self@.abst_ctx.push(k@));
        (r, AbstVar(n))
    }
}

} // verus!
