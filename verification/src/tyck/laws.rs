//! Laws of the type checker.

use vstd::prelude::*;
use crate::ctx::CtxM;
use crate::err::{at, ErrorM, TyckErrorM};
use crate::kind::KindM;
use crate::span::{Span, SpanInfo};
use crate::dynamics::machine::find_arm;
use crate::link::{link_comatchers, link_matchers};
use crate::linked::ArmM;
use crate::term::{CodataM, Comatcher, DataM, Matcher, TermComputation};
use crate::tyck::kinding::ensure_kind;
use crate::tyck::outcome::first_err;
use crate::tyck::rules::{
    absent, ana_comatch, ana_comp, ana_match, ana_matchers, arm_types, branches_agree,
    comatcher_names, comatchers_consistent, ctor_names, dtor_names, matcher_names,
    matchers_consistent, open_codata, scrutinee_data, syn_comp, syn_match, syn_matchers,
    syn_value,
};
use crate::types::{EnvM, TypeM};

verus! {

/// No member of `a` is absent from `b` exactly when `b` has every member
/// of `a`.
pub proof fn lemma_absent(a: Seq<Seq<char>>, b: Seq<Seq<char>>)
    ensures
        absent(a, b).len() == 0 <==> forall|i: int| 0 <= i < a.len() ==> b.contains(#[trigger] a[i]),
    decreases a.len(),
{
    if a.len() > 0 {
        lemma_absent(a.drop_last(), b);
        if absent(a, b).len() == 0 {
            assert forall|i: int| 0 <= i < a.len() implies b.contains(#[trigger] a[i]) by {
                if i < a.len() - 1 {
                    assert(a[i] == a.drop_last()[i]);
                }
            }
        } else if b.contains(a.last()) {
            let i = choose|i: int|
                0 <= i < a.drop_last().len() && !b.contains(#[trigger] a.drop_last()[i]);
            assert(a[i] == a.drop_last()[i]);
        }
    }
}

/// The arms of a `match` are consistent with a data type exactly when the
/// set of constructors that they name is the set of the data type's
/// constructors.
pub proof fn lemma_matchers_consistent(arms: Seq<Seq<char>>, ctors: Seq<Seq<char>>, info: SpanInfo)
    ensures
        matchers_consistent(arms, ctors, info) is Ok <==> arms.to_set() == ctors.to_set(),
{
    lemma_absent(arms, ctors);
    lemma_absent(ctors, arms);
    if matchers_consistent(arms, ctors, info) is Ok {
        assert forall|x: Seq<char>| arms.to_set().contains(x) == ctors.to_set().contains(x) by {
            if arms.contains(x) {
                let i = choose|i: int| 0 <= i < arms.len() && arms[i] == x;
                assert(ctors.contains(arms[i]));
            }
            if ctors.contains(x) {
                let i = choose|i: int| 0 <= i < ctors.len() && ctors[i] == x;
                assert(arms.contains(ctors[i]));
            }
        }
        assert(arms.to_set() =~= ctors.to_set());
    }
    if arms.to_set() == ctors.to_set() {
        assert forall|i: int| 0 <= i < arms.len() implies ctors.contains(#[trigger] arms[i]) by {
            assert(arms.contains(arms[i]));
            assert(arms.to_set().contains(arms[i]));
        }
        assert forall|i: int| 0 <= i < ctors.len() implies arms.contains(#[trigger] ctors[i]) by {
            assert(ctors.contains(ctors[i]));
            assert(ctors.to_set().contains(ctors[i]));
        }
    }
}

/// The data type that the scrutinee of a `match` is an instance of, with
/// the substitution of the arguments for the parameters. The scrutinee
/// must have a type, and the type must be a value type.
pub open spec fn match_data(c: Span<TermComputation>, ctx: CtxM) -> Result<
    (DataM, EnvM),
    TyckErrorM,
> {
    match c.inner {
        TermComputation::Match { scrut, arms } => match syn_value(*scrut, ctx) {
            Err(e) => Err(e),
            Ok(t) => scrutinee_data(t, ctx, c.info),
        },
        _ => Err(at(c.info, ErrorM::Subsumption)),
    }
}

/// The arms of a `match`.
pub open spec fn match_arms(c: Span<TermComputation>) -> Seq<Matcher> {
    match c.inner {
        TermComputation::Match { scrut, arms } => arms@,
        _ => Seq::empty(),
    }
}

/// Whether `typ` is a computation type in `ctx`, as analysis at the place
/// `info` asks.
pub open spec fn computation_type(typ: TypeM, ctx: CtxM, info: SpanInfo) -> bool {
    ensure_kind(typ.syn_kind(ctx, info), KindM::CType, info, "ana computation"@) is Ok
}

/// Exhaustiveness in analysis. Where `typ` is a computation type, the
/// scrutinee of a `match` has a type that is an instance of a data type,
/// and every arm that names a constructor of it checks against `typ`, the
/// `match` checks against `typ` if and only if the set of the constructors
/// that its arms name is the set of the constructors of the data type.
/// Otherwise the arms that name no constructor and the constructors
/// without an arm are reported together.
pub proof fn lemma_match_exhaustive(c: Span<TermComputation>, typ: TypeM, ctx: CtxM)
    requires
        c.inner is Match,
        computation_type(typ, ctx, c.info),
        match_data(c, ctx) is Ok,
        first_err(
            ana_matchers(
                match_arms(c),
                match_data(c, ctx)->Ok_0.0,
                match_data(c, ctx)->Ok_0.1,
                typ,
                ctx,
            ),
        ).is_none(),
    ensures
        ana_comp(c, typ, ctx) is Ok <==> matcher_names(match_arms(c)).to_set() == ctor_names(
            match_data(c, ctx)->Ok_0.0,
        ).to_set(),
        ana_comp(c, typ, ctx) == matchers_consistent(
            matcher_names(match_arms(c)),
            ctor_names(match_data(c, ctx)->Ok_0.0),
            c.info,
        ),
{
    lemma_matchers_consistent(
        matcher_names(match_arms(c)),
        ctor_names(match_data(c, ctx)->Ok_0.0),
        c.info,
    );
    assert(ana_comp(c, typ, ctx) == ana_match(c, typ, ctx));
}

/// Where every arm of a `match` names a constructor of the data type and
/// has a type, the arms give as many types as there are arms.
pub proof fn lemma_arm_types(arms: Seq<Matcher>, d: DataM, diff: EnvM, ctx: CtxM, n: int)
    requires
        0 <= n <= arms.len(),
        first_err(syn_matchers(arms, d, diff, ctx)).is_none(),
        absent(matcher_names(arms), ctor_names(d)).len() == 0,
    ensures
        arm_types(syn_matchers(arms, d, diff, ctx).take(n)).len() == n,
    decreases n,
{
    let rs = syn_matchers(arms, d, diff, ctx);
    if n > 0 {
        lemma_arm_types(arms, d, diff, ctx, n - 1);
        assert(rs.take(n).drop_last() =~= rs.take(n - 1));
        crate::tyck::outcome::lemma_first_err_all_ok(rs);
        assert(rs[n - 1] is Ok);
        lemma_absent(matcher_names(arms), ctor_names(d));
        assert(ctor_names(d).contains(matcher_names(arms)[n - 1]));
        crate::tyck::scope::lemma_named_ctor(d, arms[n - 1].ctor@);
    } else {
        assert(rs.take(0) =~= Seq::empty());
    }
}

/// Exhaustiveness in synthesis. Where a `match` has an arm, its scrutinee
/// has a type that is an instance of a data type, every arm that names a
/// constructor of it has a type, and those types are equivalent one to
/// another, the `match` has a type if and only if the set of the
/// constructors that its arms name is the set of the constructors of the
/// data type. Otherwise the arms that name no constructor and the
/// constructors without an arm are reported together.
pub proof fn lemma_match_exhaustive_syn(c: Span<TermComputation>, ctx: CtxM)
    requires
        c.inner is Match,
        match_arms(c).len() > 0,
        match_data(c, ctx) is Ok,
        first_err(
            syn_matchers(match_arms(c), match_data(c, ctx)->Ok_0.0, match_data(c, ctx)->Ok_0.1, ctx),
        ).is_none(),
        ({
            let types = arm_types(
                syn_matchers(
                    match_arms(c),
                    match_data(c, ctx)->Ok_0.0,
                    match_data(c, ctx)->Ok_0.1,
                    ctx,
                ),
            );
            forall|i: int, j: int|
                0 <= i < types.len() && 0 <= j < types.len() ==> (#[trigger] types[i]).eqv(
                    #[trigger] types[j],
                    ctx.abst_ctx.len(),
                )
        }),
    ensures
        syn_comp(c, ctx) is Ok <==> matcher_names(match_arms(c)).to_set() == ctor_names(
            match_data(c, ctx)->Ok_0.0,
        ).to_set(),
        syn_comp(c, ctx) is Err ==> syn_comp(c, ctx) == Err::<TypeM, TyckErrorM>(
            at(
                c.info,
                ErrorM::InconsistentMatchers {
                    unexpected: absent(
                        matcher_names(match_arms(c)),
                        ctor_names(match_data(c, ctx)->Ok_0.0),
                    ),
                    missing: absent(
                        ctor_names(match_data(c, ctx)->Ok_0.0),
                        matcher_names(match_arms(c)),
                    ),
                },
            ),
        ),
{
    let arms = match_arms(c);
    let d = match_data(c, ctx)->Ok_0.0;
    let diff = match_data(c, ctx)->Ok_0.1;
    let rs = syn_matchers(arms, d, diff, ctx);
    lemma_matchers_consistent(matcher_names(arms), ctor_names(d), c.info);
    assert(syn_comp(c, ctx) == syn_match(c, ctx));
    if matchers_consistent(matcher_names(arms), ctor_names(d), c.info) is Ok {
        lemma_arm_types(arms, d, diff, ctx, arms.len() as int);
        assert(rs.take(arms.len() as int) =~= rs);
        assert(arm_types(rs).len() > 0);
        assert(branches_agree(arm_types(rs), ctx.abst_ctx.len(), c.info) is Ok);
    }
}

/// A `match` that checks is exhaustive: its scrutinee has a type that is
/// an instance of a data type, and the set of the constructors that its
/// arms name is the set of the constructors of that data type.
pub proof fn lemma_match_checked(c: Span<TermComputation>, typ: TypeM, ctx: CtxM)
    requires
        c.inner is Match,
        ana_comp(c, typ, ctx) is Ok,
    ensures
        match_data(c, ctx) is Ok,
        matcher_names(match_arms(c)).to_set() == ctor_names(match_data(c, ctx)->Ok_0.0).to_set(),
{
    assert(ana_comp(c, typ, ctx) == ana_match(c, typ, ctx));
    lemma_matchers_consistent(
        matcher_names(match_arms(c)),
        ctor_names(match_data(c, ctx)->Ok_0.0),
        c.info,
    );
}

/// The codata type that a `comatch` is analysed at, with the substitution
/// of the arguments for the parameters.
pub open spec fn comatch_data(c: Span<TermComputation>, typ: TypeM, ctx: CtxM) -> Result<
    (CodataM, EnvM),
    TyckErrorM,
> {
    open_codata(typ, ctx, c.info, "comatch"@, true)
}

/// The arms of a `comatch`.
pub open spec fn comatch_arms(c: Span<TermComputation>) -> Seq<Comatcher> {
    match c.inner {
        TermComputation::Comatch { arms } => arms@,
        _ => Seq::empty(),
    }
}

/// The arms of a `comatch` are consistent with a codata type exactly when
/// the set of destructors that they name is the set of the codata type's
/// destructors.
pub proof fn lemma_comatchers_consistent(
    arms: Seq<Seq<char>>,
    dtors: Seq<Seq<char>>,
    info: SpanInfo,
)
    ensures
        comatchers_consistent(arms, dtors, info) is Ok <==> arms.to_set() == dtors.to_set(),
{
    lemma_matchers_consistent(arms, dtors, info);
}

/// A `comatch` that checks is exhaustive: the type it is analysed at is an
/// instance of a codata type, and the set of the destructors that its arms
/// name is the set of the destructors of that codata type.
pub proof fn lemma_comatch_checked(c: Span<TermComputation>, typ: TypeM, ctx: CtxM)
    requires
        c.inner is Comatch,
        ana_comp(c, typ, ctx) is Ok,
    ensures
        comatch_data(c, typ, ctx) is Ok,
        comatcher_names(comatch_arms(c)).to_set() == dtor_names(
            comatch_data(c, typ, ctx)->Ok_0.0,
        ).to_set(),
{
    assert(ana_comp(c, typ, ctx) == ana_comatch(c, typ, ctx));
    lemma_comatchers_consistent(
        comatcher_names(comatch_arms(c)),
        dtor_names(comatch_data(c, typ, ctx)->Ok_0.0),
        c.info,
    );
}

/// The machine finds an arm for a tag exactly when some arm has the tag.
pub proof fn lemma_find_arm(arms: Seq<ArmM>, tag: Seq<char>)
    ensures
        find_arm(arms, tag).is_some() <==> exists|i: int|
            0 <= i < arms.len() && (#[trigger] arms[i]).tag == tag,
        find_arm(arms, tag) matches Some(i) ==> 0 <= i < arms.len() && arms[i].tag == tag,
    decreases arms.len(),
{
    if arms.len() > 0 {
        lemma_find_arm(arms.drop_last(), tag);
        if find_arm(arms.drop_last(), tag).is_some() {
            let i = choose|i: int|
                0 <= i < arms.drop_last().len() && (#[trigger] arms.drop_last()[i]).tag == tag;
            assert(arms[i].tag == tag);
        } else if arms.last().tag != tag {
            assert forall|i: int| 0 <= i < arms.len() implies (#[trigger] arms[i]).tag != tag by {
                if i < arms.len() - 1 {
                    assert(arms[i] == arms.drop_last()[i]);
                }
            }
        }
    }
}

/// A `match` that has passed the checker does not leave the machine
/// without an arm: for every constructor of the data type of its
/// scrutinee, the machine finds an arm in the linked `match`.
pub proof fn lemma_checked_match_has_arm(
    c: Span<TermComputation>,
    typ: TypeM,
    ctx: CtxM,
    tag: Seq<char>,
)
    requires
        c.inner is Match,
        ana_comp(c, typ, ctx) is Ok,
        ctor_names(match_data(c, ctx)->Ok_0.0).contains(tag),
    ensures
        find_arm(link_matchers(match_arms(c)), tag).is_some(),
{
    lemma_match_checked(c, typ, ctx);
    let names = matcher_names(match_arms(c));
    let ctors = ctor_names(match_data(c, ctx)->Ok_0.0);
    assert(ctors.to_set().contains(tag));
    assert(names.to_set().contains(tag));
    let i = choose|i: int| 0 <= i < names.len() && names[i] == tag;
    let linked = link_matchers(match_arms(c));
    assert(linked[i].tag == tag);
    lemma_find_arm(linked, tag);
}

/// A `comatch` that has passed the checker does not leave the machine
/// without an arm: for every destructor of the codata type it was
/// analysed at, the machine finds an arm in the linked `comatch`.
pub proof fn lemma_checked_comatch_has_arm(
    c: Span<TermComputation>,
    typ: TypeM,
    ctx: CtxM,
    tag: Seq<char>,
)
    requires
        c.inner is Comatch,
        ana_comp(c, typ, ctx) is Ok,
        dtor_names(comatch_data(c, typ, ctx)->Ok_0.0).contains(tag),
    ensures
        find_arm(link_comatchers(comatch_arms(c)), tag).is_some(),
{
    lemma_comatch_checked(c, typ, ctx);
    let names = comatcher_names(comatch_arms(c));
    let dtors = dtor_names(comatch_data(c, typ, ctx)->Ok_0.0);
    assert(dtors.to_set().contains(tag));
    assert(names.to_set().contains(tag));
    let i = choose|i: int| 0 <= i < names.len() && names[i] == tag;
    let linked = link_comatchers(comatch_arms(c));
    assert(linked[i].tag == tag);
    lemma_find_arm(linked, tag);
}

/// A `match` without arms is consistent with a data type exactly when the
/// data type has no constructor; otherwise every constructor is reported
/// as missing.
pub proof fn lemma_empty_match(ctors: Seq<Seq<char>>, info: SpanInfo)
    ensures
        matchers_consistent(Seq::empty(), ctors, info) == (if ctors.len() == 0 {
            Ok::<(), TyckErrorM>(())
        } else {
            Err(
                at(
                    info,
                    ErrorM::InconsistentMatchers { unexpected: Seq::empty(), missing: ctors },
                ),
            )
        }),
{
    lemma_absent_of_nothing(ctors);
}

/// A `match` without arms has no type to synthesise. Over a data type
/// without constructors no branch gives a type, which is reported as
/// branches that do not agree, of which there are none; over any other
/// data type every constructor is reported as missing.
pub proof fn lemma_empty_match_syn(c: Span<TermComputation>, ctx: CtxM)
    requires
        c.inner is Match,
        match_arms(c).len() == 0,
        match_data(c, ctx) is Ok,
    ensures
        syn_comp(c, ctx) == (if ctor_names(match_data(c, ctx)->Ok_0.0).len() == 0 {
            Err::<TypeM, TyckErrorM>(at(c.info, ErrorM::InconsistentBranches(Seq::empty())))
        } else {
            Err(
                at(
                    c.info,
                    ErrorM::InconsistentMatchers {
                        unexpected: Seq::empty(),
                        missing: ctor_names(match_data(c, ctx)->Ok_0.0),
                    },
                ),
            )
        }),
{
    let d = match_data(c, ctx)->Ok_0.0;
    let diff = match_data(c, ctx)->Ok_0.1;
    let rs = syn_matchers(match_arms(c), d, diff, ctx);
    assert(syn_comp(c, ctx) == syn_match(c, ctx));
    assert(rs =~= Seq::empty());
    assert(matcher_names(match_arms(c)) =~= Seq::empty());
    lemma_empty_match(ctor_names(d), c.info);
    assert(arm_types(rs) =~= Seq::empty());
}

/// Every member of a sequence is absent from the empty sequence.
pub proof fn lemma_absent_of_nothing(a: Seq<Seq<char>>)
    ensures
        absent(a, Seq::empty()) == a,
    decreases a.len(),
{
    if a.len() > 0 {
        lemma_absent_of_nothing(a.drop_last());
        assert(a.drop_last().push(a.last()) =~= a);
    } else {
        assert(absent(a, Seq::empty()) =~= a);
    }
}

/// A `rec` has no type to synthesise: it needs an annotation.
pub proof fn lemma_rec_needs_annotation(c: Span<TermComputation>, ctx: CtxM)
    requires
        c.inner is Rec,
    ensures
        syn_comp(c, ctx) == Err::<TypeM, TyckErrorM>(
            at(c.info, ErrorM::NeedAnnotation { content: "rec"@ }),
        ),
{
}

/// An arity without parameters has the normal form of its result kind.
pub proof fn lemma_nullary_arity(k: KindM)
    ensures
        KindM::Arity(Seq::empty(), Box::new(k)).normalize() == k.normalize(),
        KindM::Arity(Seq::empty(), Box::new(k)).eqv(k),
{
}

} // verus!
