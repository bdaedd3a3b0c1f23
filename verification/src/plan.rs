//! Construction plans and their builders: the field plan builder for one
//! member group, and the default-variant selector for enums.
//!
//! A construction plan is an ordered list of bindings, one per member in
//! declaration order, each binding either the member type's intrinsic
//! default operation or the resolved override expression.  Downstream
//! emission binds each field as a named local in plan order before
//! composing the final value, so an override expression may reference the
//! locals bound before it.

use vstd::prelude::*;

verus! {

use crate::diag::{Diag, DiagKind, MalformedKind};
use crate::directive::{
    default_flag,
    default_kinds,
    field_kinds,
    field_override,
    resolve_default_marker,
    resolve_field_directives,
};
use crate::names::{positional_ident, positional_ident_spec};
use crate::schema::{EnumSchema, Member, MemberGroup, SchemaVariant, Shape, StructSchema};

/// The expression bound to one member of a plan.
#[derive(Clone, PartialEq, Eq, Debug)]
pub enum BoundExpr {
    /// Call the member type's own intrinsic default operation.
    IntrinsicDefault,
    /// Evaluate the override expression carried as opaque text.
    Override(String),
}

/// One binding of a construction plan: the member's identity, its opaque
/// type reference, and the expression that constructs it.
#[derive(Clone, PartialEq, Eq, Debug)]
pub struct Binding {
    pub ident: String,
    pub ty: String,
    pub expr: BoundExpr,
}

/// An ordered construction plan for one member group, sufficient to build
/// one instance of a struct or of one enum variant.
#[derive(Clone, PartialEq, Eq, Debug)]
pub struct ConstructionPlan {
    pub shape: Shape,
    pub bindings: Vec<Binding>,
}

/// The value-level default plan of an enum: the chosen variant and the
/// construction plan of its member group.
#[derive(Clone, PartialEq, Eq, Debug)]
pub struct EnumDefaultPlan {
    pub variant_index: usize,
    pub variant_name: String,
    pub plan: ConstructionPlan,
}

/// The identity of member `i`: its declared name, or the synthesized
/// positional identity.
pub open spec fn member_ident_spec(ms: Seq<Member>, i: int) -> Seq<char> {
    match ms[i].name {
        Some(n) => n@,
        None => positional_ident_spec(i),
    }
}

/// The defects of one member's directive list.
pub open spec fn member_kinds(m: Member) -> Seq<MalformedKind> {
    field_kinds(m.directives@)
}

/// How many defects the members before `i` carry.
pub open spec fn kinds_before(ms: Seq<Member>, i: int) -> nat
    decreases i,
{
    if i <= 0 {
        0
    } else {
        kinds_before(ms, i - 1) + member_kinds(ms[i - 1]).len()
    }
}

/// Every member of the group resolves without defect.
pub open spec fn group_ok(g: MemberGroup) -> bool {
    forall|i: int|
        0 <= i < g.members@.len() ==> (#[trigger] member_kinds(g.members@[i])).len() == 0
}

/// One binding agrees with the member it was built for.
pub open spec fn binding_matches(b: Binding, m: Member, ident: Seq<char>) -> bool {
    &&& b.ident@ == ident
    &&& b.ty@ == m.ty@
    &&& match field_override(m.directives@) {
        None => b.expr is IntrinsicDefault,
        Some(e) => b.expr matches BoundExpr::Override(x) && x@ == e,
    }
}

/// The whole plan agrees with the group: one binding per member, in
/// declaration order.
pub open spec fn plan_matches_group(p: ConstructionPlan, g: MemberGroup) -> bool {
    &&& p.shape == g.shape
    &&& p.bindings@.len() == g.members@.len()
    &&& forall|i: int|
        0 <= i < g.members@.len() ==> binding_matches(
            #[trigger] p.bindings@[i],
            g.members@[i],
            member_ident_spec(g.members@, i),
        )
}

/// The diagnostics of the first `n` members, flattened in member order,
/// each carrying the identity of the member it points at.
pub open spec fn diags_match_members_upto(ds: Seq<Diag>, ms: Seq<Member>, n: int) -> bool {
    &&& ds.len() == kinds_before(ms, n)
    &&& forall|i: int, j: int|
        #![trigger member_kinds(ms[i])[j]]
        0 <= i < n && 0 <= j < member_kinds(ms[i]).len() ==> {
            &&& ds[kinds_before(ms, i) + j].kind == DiagKind::MalformedDirective(
                member_kinds(ms[i])[j],
            )
            &&& ds[kinds_before(ms, i) + j].site@ == member_ident_spec(ms, i)
        }
}

/// The diagnostics of a whole member group.
pub open spec fn diags_match_group(ds: Seq<Diag>, g: MemberGroup) -> bool {
    diags_match_members_upto(ds, g.members@, g.members@.len() as int)
}

proof fn lemma_kinds_before_mono(ms: Seq<Member>, a: int, b: int)
    requires
        a <= b,
    ensures
        kinds_before(ms, a) <= kinds_before(ms, b),
    decreases b - a,
{
    if a < b {
        lemma_kinds_before_mono(ms, a, b - 1);
    }
}

pub(crate) proof fn lemma_kinds_before_zero(ms: Seq<Member>, n: int)
    ensures
        (kinds_before(ms, n) == 0) <==> (forall|i: int|
            0 <= i < n ==> (#[trigger] member_kinds(ms[i])).len() == 0),
    decreases n,
{
    if n > 0 {
        lemma_kinds_before_zero(ms, n - 1);
    }
}

/// Writes one diagnostic per defect onto `diags`, all pointing at `site`.
pub(crate) fn append_site_diags(diags: &mut Vec<Diag>, kinds: &Vec<MalformedKind>, site: &String)
    ensures
        final(diags)@.len() == old(diags)@.len() + kinds@.len(),
        forall|k: int| 0 <= k < old(diags)@.len() ==> final(diags)@[k] == old(diags)@[k],
        forall|j: int|
            0 <= j < kinds@.len() ==> {
                &&& (#[trigger] final(diags)@[old(diags)@.len() + j]).kind
                    == DiagKind::MalformedDirective(kinds@[j])
                &&& final(diags)@[old(diags)@.len() + j].site@ == site@
            },
{
    let n: usize = kinds.len();
    let mut j: usize = 0;
    while j < n
        invariant
            j <= n,
            n == kinds@.len(),
            diags@.len() == old(diags)@.len() + j,
            forall|k: int| 0 <= k < old(diags)@.len() ==> diags@[k] == old(diags)@[k],
            forall|k: int|
                0 <= k < j ==> {
                    &&& (#[trigger] diags@[old(diags)@.len() + k]).kind
                        == DiagKind::MalformedDirective(kinds@[k])
                    &&& diags@[old(diags)@.len() + k].site@ == site@
                },
        decreases n - j,
    {
        diags.push(Diag { kind: DiagKind::MalformedDirective(kinds[j]), site: site.clone() });
        j += 1;
    }
}

/// The identity of member `i` of `ms`.
fn member_ident(ms: &Vec<Member>, i: usize) -> (r: String)
    requires
        i < ms@.len(),
    ensures
        r@ == member_ident_spec(ms@, i as int),
{
    match &ms[i].name {
        Some(n) => n.clone(),
        None => positional_ident(i),
    }
}

/// Builds the construction plan of one member group: one binding per
/// member, in declaration order, each bound to the resolved override
/// expression or to the member type's intrinsic default.  Fails exactly
/// when some member carries a malformed directive, returning every defect
/// of every member in one report.
pub fn build_group_plan(g: &MemberGroup) -> (r: Result<ConstructionPlan, Vec<Diag>>)
    ensures
        r is Ok <==> group_ok(*g),
        r matches Ok(p) ==> plan_matches_group(p, *g),
        r matches Err(ds) ==> !group_ok(*g) && diags_match_group(ds@, *g),
{
    let ms = &g.members;
    let n: usize = ms.len();
    let mut bindings: Vec<Binding> = Vec::new();
    let mut diags: Vec<Diag> = Vec::new();
    let mut i: usize = 0;
    while i < n
        invariant
            i <= n,
            n == ms@.len(),
            bindings@.len() == i,
            forall|k: int|
                0 <= k < i ==> binding_matches(
                    #[trigger] bindings@[k],
                    ms@[k],
                    member_ident_spec(ms@, k),
                ),
            diags_match_members_upto(diags@, ms@, i as int),
        decreases n - i,
    {
        let ident = member_ident(ms, i);
        let (cfg, kinds) = resolve_field_directives(&ms[i].directives);
        let expr = match cfg.override_expr {
            Some(x) => BoundExpr::Override(x),
            None => BoundExpr::IntrinsicDefault,
        };
        let ty = ms[i].ty.clone();
        proof {
            lemma_kinds_before_mono(ms@, 0, i as int);
        }
        append_site_diags(&mut diags, &kinds, &ident);
        bindings.push(Binding { ident, ty, expr });
        assert forall|ii: int, j: int|
            0 <= ii < i + 1 && 0 <= j < member_kinds(ms@[ii]).len() implies {
            &&& diags@[kinds_before(ms@, ii) + j].kind == DiagKind::MalformedDirective(
                member_kinds(ms@[ii])[j],
            )
            &&& diags@[kinds_before(ms@, ii) + j].site@ == member_ident_spec(ms@, ii)
        } by {
            if ii < i as int {
                lemma_kinds_before_mono(ms@, ii + 1, i as int);
            }
        }
        i += 1;
    }
    proof {
        lemma_kinds_before_zero(ms@, n as int);
    }
    if diags.len() == 0 {
        Ok(ConstructionPlan { shape: g.shape, bindings })
    } else {
        Err(diags)
    }
}

/// Builds the construction plan of a struct schema.
pub fn build_struct_plan(s: &StructSchema) -> (r: Result<ConstructionPlan, Vec<Diag>>)
    ensures
        r is Ok <==> group_ok(s.group),
        r matches Ok(p) ==> plan_matches_group(p, s.group),
        r matches Err(ds) ==> !group_ok(s.group) && diags_match_group(ds@, s.group),
{
    build_group_plan(&s.group)
}

/// Variant `i` is marked as the value-level default.
pub open spec fn variant_marked(vs: Seq<SchemaVariant>, i: int) -> bool {
    default_flag(vs[i].directives@)
}

/// The defects of one variant's default-marker directives.
pub open spec fn variant_default_kinds(v: SchemaVariant) -> Seq<MalformedKind> {
    default_kinds(v.directives@)
}

/// Every variant's default marker resolves without defect.
pub open spec fn selector_clean(vs: Seq<SchemaVariant>) -> bool {
    forall|i: int|
        0 <= i < vs.len() ==> (#[trigger] variant_default_kinds(vs[i])).len() == 0
}

/// How many of the variants before `i` are marked default.
pub open spec fn marked_before(vs: Seq<SchemaVariant>, i: int) -> nat
    decreases i,
{
    if i <= 0 {
        0
    } else {
        marked_before(vs, i - 1) + if variant_marked(vs, i - 1) {
            1nat
        } else {
            0nat
        }
    }
}

/// How many variants of the enum are marked default.
pub open spec fn marked_count(vs: Seq<SchemaVariant>) -> nat {
    marked_before(vs, vs.len() as int)
}

/// How many defects the variants before `i` carry on their default
/// markers.
pub open spec fn default_kinds_before(vs: Seq<SchemaVariant>, i: int) -> nat
    decreases i,
{
    if i <= 0 {
        0
    } else {
        default_kinds_before(vs, i - 1) + variant_default_kinds(vs[i - 1]).len()
    }
}

/// The diagnostics of the first `n` variants' default markers, flattened
/// in variant order, each carrying the identity of its variant.
pub open spec fn diags_match_variants_upto(ds: Seq<Diag>, vs: Seq<SchemaVariant>, n: int) -> bool {
    &&& ds.len() == default_kinds_before(vs, n)
    &&& forall|i: int, j: int|
        #![trigger variant_default_kinds(vs[i])[j]]
        0 <= i < n && 0 <= j < variant_default_kinds(vs[i]).len() ==> {
            &&& ds[default_kinds_before(vs, i) + j].kind == DiagKind::MalformedDirective(
                variant_default_kinds(vs[i])[j],
            )
            &&& ds[default_kinds_before(vs, i) + j].site@ == vs[i].name@
        }
}

proof fn lemma_default_kinds_before_mono(vs: Seq<SchemaVariant>, a: int, b: int)
    requires
        a <= b,
    ensures
        default_kinds_before(vs, a) <= default_kinds_before(vs, b),
    decreases b - a,
{
    if a < b {
        lemma_default_kinds_before_mono(vs, a, b - 1);
    }
}

proof fn lemma_default_kinds_before_zero(vs: Seq<SchemaVariant>, n: int)
    ensures
        (default_kinds_before(vs, n) == 0) <==> (forall|i: int|
            0 <= i < n ==> (#[trigger] variant_default_kinds(vs[i])).len() == 0),
    decreases n,
{
    if n > 0 {
        lemma_default_kinds_before_zero(vs, n - 1);
    }
}

proof fn lemma_marked_before_mono(vs: Seq<SchemaVariant>, a: int, b: int)
    requires
        a <= b,
    ensures
        marked_before(vs, a) <= marked_before(vs, b),
    decreases b - a,
{
    if a < b {
        lemma_marked_before_mono(vs, a, b - 1);
    }
}

proof fn lemma_marked_before_bound(vs: Seq<SchemaVariant>, i: int)
    ensures
        marked_before(vs, i) <= if i <= 0 {
            0
        } else {
            i
        },
    decreases i,
{
    if i > 0 {
        lemma_marked_before_bound(vs, i - 1);
    }
}

/// With exactly one variant marked, any two marked indices coincide.
proof fn lemma_marked_unique(vs: Seq<SchemaVariant>, i: int, j: int)
    requires
        marked_count(vs) == 1,
        0 <= i < vs.len(),
        0 <= j < vs.len(),
        variant_marked(vs, i),
        variant_marked(vs, j),
    ensures
        i == j,
{
    if i != j {
        let a = if i < j {
            i
        } else {
            j
        };
        let b = if i < j {
            j
        } else {
            i
        };
        assert(marked_before(vs, a + 1) == marked_before(vs, a) + 1);
        lemma_marked_before_mono(vs, a + 1, b);
        assert(marked_before(vs, b + 1) == marked_before(vs, b) + 1);
        lemma_marked_before_mono(vs, b + 1, vs.len() as int);
    }
}

/// Selects the unique variant marked as the value-level default and
/// builds its construction plan.
///
/// Fails, with every contributing site reported, when some variant's
/// default marker is malformed, when no variant is marked, when more than
/// one variant is marked (one enum-level diagnostic plus one per
/// offending variant), or when the chosen variant's fields are malformed.
pub fn build_enum_default_plan(e: &EnumSchema) -> (r: Result<EnumDefaultPlan, Vec<Diag>>)
    ensures
        r is Ok <==> selector_clean(e.variants@) && marked_count(e.variants@) == 1 && (forall|
            i: int,
        |
            0 <= i < e.variants@.len() && variant_marked(e.variants@, i) ==> group_ok(
                #[trigger] e.variants@[i].group,
            )),
        r matches Ok(p) ==> {
            &&& 0 <= (p.variant_index as int) < e.variants@.len()
            &&& variant_marked(e.variants@, p.variant_index as int)
            &&& p.variant_name@ == e.variants@[p.variant_index as int].name@
            &&& plan_matches_group(p.plan, e.variants@[p.variant_index as int].group)
        },
        r matches Err(ds) ==> (!selector_clean(e.variants@) ==> diags_match_variants_upto(
            ds@,
            e.variants@,
            e.variants@.len() as int,
        )),
        r matches Err(ds) ==> (selector_clean(e.variants@) && marked_count(e.variants@) == 0
            ==> {
            &&& ds@.len() == 1
            &&& ds@[0].kind == DiagKind::NoDefaultVariant
            &&& ds@[0].site@ == e.name@
        }),
        r matches Err(ds) ==> (selector_clean(e.variants@) && marked_count(e.variants@) >= 2
            ==> {
            &&& ds@.len() == 1 + marked_count(e.variants@)
            &&& ds@[0].kind == DiagKind::AmbiguousDefaultVariant
            &&& ds@[0].site@ == e.name@
            &&& forall|i: int|
                0 <= i < e.variants@.len() && variant_marked(e.variants@, i) ==> {
                    &&& (#[trigger] ds@[1 + marked_before(e.variants@, i) as int]).kind
                        == DiagKind::AmbiguousDefaultVariant
                    &&& ds@[1 + marked_before(e.variants@, i) as int].site@ == e.variants@[i].name@
                }
        }),
        r matches Err(ds) ==> (selector_clean(e.variants@) && marked_count(e.variants@) == 1
            ==> (forall|i: int|
            0 <= i < e.variants@.len() && variant_marked(e.variants@, i) ==> !group_ok(
                #[trigger] e.variants@[i].group,
            ) && diags_match_group(ds@, e.variants@[i].group))),
{
    let vs = &e.variants;
    let n: usize = vs.len();
    let mut diags: Vec<Diag> = Vec::new();
    let mut flags: Vec<bool> = Vec::new();
    let mut i: usize = 0;
    while i < n
        invariant
            i <= n,
            n == vs@.len(),
            flags@.len() == i,
            forall|k: int| 0 <= k < i ==> flags@[k] == variant_marked(vs@, k),
            diags_match_variants_upto(diags@, vs@, i as int),
        decreases n - i,
    {
        let (flag, kinds) = resolve_default_marker(&vs[i].directives);
        proof {
            lemma_default_kinds_before_mono(vs@, 0, i as int);
        }
        append_site_diags(&mut diags, &kinds, &vs[i].name);
        flags.push(flag);
        assert forall|ii: int, j: int|
            0 <= ii < i + 1 && 0 <= j < variant_default_kinds(vs@[ii]).len() implies {
            &&& diags@[default_kinds_before(vs@, ii) + j].kind == DiagKind::MalformedDirective(
                variant_default_kinds(vs@[ii])[j],
            )
            &&& diags@[default_kinds_before(vs@, ii) + j].site@ == vs@[ii].name@
        } by {
            if ii < i as int {
                lemma_default_kinds_before_mono(vs@, ii + 1, i as int);
            }
        }
        i += 1;
    }
    proof {
        lemma_default_kinds_before_zero(vs@, n as int);
    }
    if diags.len() != 0 {
        return Err(diags);
    }
    let mut count: usize = 0;
    let mut first: usize = n;
    let mut i: usize = 0;
    while i < n
        invariant
            i <= n,
            n == vs@.len(),
            flags@.len() == n,
            forall|k: int| 0 <= k < n ==> flags@[k] == variant_marked(vs@, k),
            count == marked_before(vs@, i as int),
            count == 0 <==> first == n,
            count > 0 ==> first < i && variant_marked(vs@, first as int),
        decreases n - i,
    {
        proof {
            lemma_marked_before_bound(vs@, i as int);
        }
        if flags[i] {
            if count == 0 {
                first = i;
            }
            count += 1;
        }
        i += 1;
    }
    if count == 0 {
        let mut ds: Vec<Diag> = Vec::new();
        ds.push(Diag { kind: DiagKind::NoDefaultVariant, site: e.name.clone() });
        return Err(ds);
    }
    if count >= 2 {
        let mut ds: Vec<Diag> = Vec::new();
        ds.push(Diag { kind: DiagKind::AmbiguousDefaultVariant, site: e.name.clone() });
        let mut i: usize = 0;
        while i < n
            invariant
                i <= n,
                n == vs@.len(),
                flags@.len() == n,
                forall|k: int| 0 <= k < n ==> flags@[k] == variant_marked(vs@, k),
                ds@.len() == 1 + marked_before(vs@, i as int),
                ds@[0].kind == DiagKind::AmbiguousDefaultVariant,
                ds@[0].site@ == e.name@,
                forall|k: int|
                    0 <= k < i && variant_marked(vs@, k) ==> {
                        &&& (#[trigger] ds@[1 + marked_before(vs@, k) as int]).kind
                            == DiagKind::AmbiguousDefaultVariant
                        &&& ds@[1 + marked_before(vs@, k) as int].site@ == vs@[k].name@
                    },
            decreases n - i,
        {
            proof {
                lemma_marked_before_bound(vs@, i as int);
            }
            if flags[i] {
                ds.push(Diag { kind: DiagKind::AmbiguousDefaultVariant, site: vs[i].name.clone() });
            }
            assert forall|k: int| 0 <= k < i + 1 && variant_marked(vs@, k) implies {
                &&& (#[trigger] ds@[1 + marked_before(vs@, k) as int]).kind
                    == DiagKind::AmbiguousDefaultVariant
                &&& ds@[1 + marked_before(vs@, k) as int].site@ == vs@[k].name@
            } by {
                assert(marked_before(vs@, k + 1) == marked_before(vs@, k) + 1);
                if k < i as int {
                    lemma_marked_before_mono(vs@, k + 1, i as int);
                }
            }
            i += 1;
        }
        return Err(ds);
    }
    let idx: usize = first;
    assert forall|i: int|
        0 <= i < vs@.len() && variant_marked(vs@, i) implies i == idx as int by {
        lemma_marked_unique(vs@, i, idx as int);
    }
    match build_group_plan(&vs[idx].group) {
        Ok(p) => Ok(
            EnumDefaultPlan {
                variant_index: idx,
                variant_name: vs[idx].name.clone(),
                plan: p,
            },
        ),
        Err(ds) => Err(ds),
    }
}

} // verus!
