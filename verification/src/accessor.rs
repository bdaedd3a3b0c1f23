//! The variant-accessor planner.
//!
//! For every variant of an enum this planner resolves an emission
//! configuration — generate a constant accessor, a function accessor,
//! both, or neither — by folding the variant's `variant` directives over
//! a baseline inherited from the enum's own location.  An absent
//! enum-level directive means everything off; an enum-level boolean
//! literal resets the baseline to all-off when false, and to the marker's
//! own profile (function accessors on, constants off) when true.  A
//! variant whose resolved configuration is fully off produces no artifact
//! and is skipped; every other variant yields its construction plan and
//! its derived accessor names.

use vstd::prelude::*;

verus! {

use crate::diag::{Diag, DiagKind, MalformedKind};
use crate::names::{
    constant_accessor_name,
    constant_accessor_spec,
    function_accessor_name,
    function_accessor_spec,
};
use crate::names::str_eq;
use crate::plan::{
    append_site_diags,
    build_group_plan,
    diags_match_group,
    group_ok,
    kinds_before,
    lemma_kinds_before_zero,
    plan_matches_group,
    ConstructionPlan,
};
use crate::schema::{Directive, DirectiveForm, EnumSchema, MarkerKind, NestedEntry, NestedValue};

/// The resolved emission configuration of one variant: whether to emit a
/// constant accessor, a function accessor, both, or neither.
#[derive(Clone, Copy, PartialEq, Eq, Structural, Debug)]
pub struct VariantConfig {
    pub constant: bool,
    pub function: bool,
}

impl VariantConfig {
    /// Whether a variant with this configuration produces any artifact.
    pub fn should_generate(&self) -> (r: bool)
        ensures
            r == (self.constant || self.function),
    {
        self.constant || self.function
    }
}

/// The accessor plan of one emitted variant: the derived names of the
/// requested artifacts and the construction plan both share.
#[derive(Clone, PartialEq, Eq, Debug)]
pub struct VariantAccessorPlan {
    pub variant: String,
    pub constant_name: Option<String>,
    pub function_name: Option<String>,
    pub plan: ConstructionPlan,
}

/// What one nested entry does to the running emission configuration.
/// The closed key set is `constant`/`const` and `function`/`fn`/`func`,
/// each bare (meaning true) or with a boolean literal.
pub open spec fn emission_entry_cfg(acc: VariantConfig, e: NestedEntry) -> VariantConfig {
    if e.key@ == "constant"@ || e.key@ == "const"@ {
        match e.value {
            None => VariantConfig { constant: true, function: acc.function },
            Some(NestedValue::BoolLit(b)) => VariantConfig { constant: b, function: acc.function },
            Some(NestedValue::ExprRef(_)) => acc,
        }
    } else if e.key@ == "function"@ || e.key@ == "fn"@ || e.key@ == "func"@ {
        match e.value {
            None => VariantConfig { constant: acc.constant, function: true },
            Some(NestedValue::BoolLit(b)) => VariantConfig { constant: acc.constant, function: b },
            Some(NestedValue::ExprRef(_)) => acc,
        }
    } else {
        acc
    }
}

/// The defects of one nested entry in emission context.
pub open spec fn emission_entry_kinds(e: NestedEntry) -> Seq<MalformedKind> {
    if e.key@ == "constant"@ || e.key@ == "const"@ || e.key@ == "function"@ || e.key@ == "fn"@
        || e.key@ == "func"@ {
        match e.value {
            Some(NestedValue::ExprRef(_)) => seq![MalformedKind::WrongLiteralKind],
            _ => Seq::empty(),
        }
    } else {
        seq![MalformedKind::UnrecognizedKey]
    }
}

/// The running emission configuration after the first `i` entries of a
/// nested list.
pub open spec fn emission_entries_cfg_upto(
    es: Seq<NestedEntry>,
    init: VariantConfig,
    i: int,
) -> VariantConfig
    decreases i,
{
    if i <= 0 {
        init
    } else {
        emission_entry_cfg(emission_entries_cfg_upto(es, init, i - 1), es[i - 1])
    }
}

/// The defects of the first `i` entries of a nested list in emission
/// context.
pub open spec fn emission_entries_kinds_upto(es: Seq<NestedEntry>, i: int) -> Seq<MalformedKind>
    decreases i,
{
    if i <= 0 {
        Seq::empty()
    } else {
        emission_entries_kinds_upto(es, i - 1) + emission_entry_kinds(es[i - 1])
    }
}

/// What one directive occurrence does to the running emission
/// configuration.  A bare marker turns the governing function flag on; a
/// boolean literal opts back into `profile` when true and fully out when
/// false; a nested list updates only the keys it names.
pub open spec fn emission_dir_cfg(
    acc: VariantConfig,
    d: Directive,
    profile: VariantConfig,
) -> VariantConfig {
    if d.marker != MarkerKind::VariantMarker {
        acc
    } else {
        match d.form {
            DirectiveForm::Bare => VariantConfig { constant: acc.constant, function: true },
            DirectiveForm::BoolLiteral(b) => if b {
                profile
            } else {
                VariantConfig { constant: false, function: false }
            },
            DirectiveForm::ExprLiteral(_) => acc,
            DirectiveForm::KeyList(es) => emission_entries_cfg_upto(es@, acc, es@.len() as int),
        }
    }
}

/// The defects of one directive occurrence in emission context.
pub open spec fn emission_dir_kinds(d: Directive) -> Seq<MalformedKind> {
    if d.marker != MarkerKind::VariantMarker {
        Seq::empty()
    } else {
        match d.form {
            DirectiveForm::Bare => Seq::empty(),
            DirectiveForm::BoolLiteral(_) => Seq::empty(),
            DirectiveForm::ExprLiteral(_) => seq![MalformedKind::WrongLiteralKind],
            DirectiveForm::KeyList(es) => if es@.len() == 0 {
                seq![MalformedKind::EmptyList]
            } else {
                emission_entries_kinds_upto(es@, es@.len() as int)
            },
        }
    }
}

/// The running emission configuration after the first `i` occurrences.
pub open spec fn emission_cfg_upto(
    ds: Seq<Directive>,
    start: VariantConfig,
    profile: VariantConfig,
    i: int,
) -> VariantConfig
    decreases i,
{
    if i <= 0 {
        start
    } else {
        emission_dir_cfg(emission_cfg_upto(ds, start, profile, i - 1), ds[i - 1], profile)
    }
}

/// The resolved emission configuration of a full directive list, folded
/// from `start`, with `profile` the target of an explicit true literal.
pub open spec fn emission_cfg(
    ds: Seq<Directive>,
    start: VariantConfig,
    profile: VariantConfig,
) -> VariantConfig {
    emission_cfg_upto(ds, start, profile, ds.len() as int)
}

/// The defects of the first `i` occurrences in emission context.
pub open spec fn emission_kinds_upto(ds: Seq<Directive>, i: int) -> Seq<MalformedKind>
    decreases i,
{
    if i <= 0 {
        Seq::empty()
    } else {
        emission_kinds_upto(ds, i - 1) + emission_dir_kinds(ds[i - 1])
    }
}

/// All defects of a full directive list in emission context.
pub open spec fn emission_kinds(ds: Seq<Directive>) -> Seq<MalformedKind> {
    emission_kinds_upto(ds, ds.len() as int)
}

/// The all-off configuration: no artifact requested.
pub open spec fn all_off() -> VariantConfig {
    VariantConfig { constant: false, function: false }
}

/// The `variant` marker's own profile: function accessors on, constants
/// off.
pub open spec fn marker_profile() -> VariantConfig {
    VariantConfig { constant: false, function: true }
}

/// The baseline configuration resolved at the enum's own location:
/// everything off when no directive says otherwise.
pub open spec fn enum_baseline_cfg(ds: Seq<Directive>) -> VariantConfig {
    emission_cfg(ds, all_off(), marker_profile())
}

/// The resolved emission configuration of variant `i`, inheriting the
/// enum-level baseline.
pub open spec fn variant_cfg_of(e: EnumSchema, i: int) -> VariantConfig {
    emission_cfg(
        e.variants@[i].directives@,
        enum_baseline_cfg(e.directives@),
        enum_baseline_cfg(e.directives@),
    )
}

/// Variant `i` produces at least one artifact.
pub open spec fn variant_generates(e: EnumSchema, i: int) -> bool {
    variant_cfg_of(e, i).constant || variant_cfg_of(e, i).function
}

/// How many of the variants before `i` produce an artifact.
pub open spec fn gen_before(e: EnumSchema, i: int) -> nat
    decreases i,
{
    if i <= 0 {
        0
    } else {
        gen_before(e, i - 1) + if variant_generates(e, i - 1) {
            1nat
        } else {
            0nat
        }
    }
}

/// The emission defects of variant `i`.
pub open spec fn variant_emission_kinds(e: EnumSchema, i: int) -> Seq<MalformedKind> {
    emission_kinds(e.variants@[i].directives@)
}

/// The field defects carried by variant `i`'s member group.
pub open spec fn variant_group_kind_count(e: EnumSchema, i: int) -> nat {
    kinds_before(e.variants@[i].group.members@, e.variants@[i].group.members@.len() as int)
}

/// One emitted accessor plan agrees with its variant: the names exist
/// exactly for the requested artifacts and are derived canonically, and
/// both artifacts share the variant's construction plan.
pub open spec fn accessor_plan_matches(p: VariantAccessorPlan, e: EnumSchema, i: int) -> bool {
    &&& p.variant@ == e.variants@[i].name@
    &&& (if variant_cfg_of(e, i).function {
        p.function_name matches Some(s) && s@ == function_accessor_spec(e.variants@[i].name@)
    } else {
        p.function_name is None
    })
    &&& (if variant_cfg_of(e, i).constant {
        p.constant_name matches Some(s) && s@ == constant_accessor_spec(e.variants@[i].name@)
    } else {
        p.constant_name is None
    })
    &&& plan_matches_group(p.plan, e.variants@[i].group)
}

/// Folds a directive list into an emission configuration, collecting
/// every defect along the way.  The configuration is meaningful only
/// when the defect list is empty.
pub fn resolve_variant_markers(
    ds: &Vec<Directive>,
    start: VariantConfig,
    profile: VariantConfig,
) -> (r: (VariantConfig, Vec<MalformedKind>))
    ensures
        r.0 == emission_cfg(ds@, start, profile),
        r.1@ == emission_kinds(ds@),
{
    let mut cfg: VariantConfig = start;
    let mut kinds: Vec<MalformedKind> = Vec::new();
    let n: usize = ds.len();
    let mut i: usize = 0;
    while i < n
        invariant
            i <= n,
            n == ds@.len(),
            cfg == emission_cfg_upto(ds@, start, profile, i as int),
            kinds@ == emission_kinds_upto(ds@, i as int),
        decreases n - i,
    {
        let d = &ds[i];
        let ghost acc0 = emission_cfg_upto(ds@, start, profile, i as int);
        if d.marker == MarkerKind::VariantMarker {
            match &d.form {
                DirectiveForm::Bare => {
                    cfg.function = true;
                },
                DirectiveForm::BoolLiteral(b) => {
                    if *b {
                        cfg = profile;
                    } else {
                        cfg = VariantConfig { constant: false, function: false };
                    }
                },
                DirectiveForm::ExprLiteral(_) => {
                    kinds.push(MalformedKind::WrongLiteralKind);
                },
                DirectiveForm::KeyList(es) => {
                    let m: usize = es.len();
                    if m == 0 {
                        kinds.push(MalformedKind::EmptyList);
                    } else {
                        let mut j: usize = 0;
                        while j < m
                            invariant
                                j <= m,
                                m == es@.len(),
                                m > 0,
                                cfg == emission_entries_cfg_upto(es@, acc0, j as int),
                                kinds@ == emission_kinds_upto(ds@, i as int)
                                    + emission_entries_kinds_upto(es@, j as int),
                            decreases m - j,
                        {
                            let en = &es[j];
                            let is_const = str_eq(en.key.as_str(), "constant") || str_eq(
                                en.key.as_str(),
                                "const",
                            );
                            let is_func = str_eq(en.key.as_str(), "function") || str_eq(
                                en.key.as_str(),
                                "fn",
                            ) || str_eq(en.key.as_str(), "func");
                            if is_const {
                                match &en.value {
                                    None => {
                                        cfg.constant = true;
                                    },
                                    Some(NestedValue::BoolLit(b)) => {
                                        cfg.constant = *b;
                                    },
                                    Some(NestedValue::ExprRef(_)) => {
                                        kinds.push(MalformedKind::WrongLiteralKind);
                                    },
                                }
                            } else if is_func {
                                match &en.value {
                                    None => {
                                        cfg.function = true;
                                    },
                                    Some(NestedValue::BoolLit(b)) => {
                                        cfg.function = *b;
                                    },
                                    Some(NestedValue::ExprRef(_)) => {
                                        kinds.push(MalformedKind::WrongLiteralKind);
                                    },
                                }
                            } else {
                                kinds.push(MalformedKind::UnrecognizedKey);
                            }
                            assert(kinds@ =~= emission_kinds_upto(ds@, i as int)
                                + emission_entries_kinds_upto(es@, j + 1));
                            j += 1;
                        }
                    }
                },
            }
        }
        assert(kinds@ =~= emission_kinds_upto(ds@, i + 1));
        i += 1;
    }
    (cfg, kinds)
}

/// The enum-level diagnostics stand first, in directive order, at the
/// enum's own site.
pub open spec fn planner_enum_prefix_ok(ds: Seq<Diag>, e: EnumSchema) -> bool {
    forall|j: int|
        0 <= j < emission_kinds(e.directives@).len() ==> {
            &&& (#[trigger] ds[j]).kind == DiagKind::MalformedDirective(
                emission_kinds(e.directives@)[j],
            )
            &&& ds[j].site@ == e.name@
        }
}

/// How many emission defects the variants before `i` carry.
pub open spec fn vkinds_before(e: EnumSchema, i: int) -> nat
    decreases i,
{
    if i <= 0 {
        0
    } else {
        vkinds_before(e, i - 1) + variant_emission_kinds(e, i - 1).len()
    }
}

/// Where variant `i`'s emission diagnostics begin: after the enum-level
/// diagnostics and those of the variants before it.
pub open spec fn planner_vbase(e: EnumSchema, i: int) -> int {
    emission_kinds(e.directives@).len() + vkinds_before(e, i) as int
}

/// Each variant's emission diagnostics stand at its base, in directive
/// order, at the variant's site.
pub open spec fn planner_variant_prefix_ok(ds: Seq<Diag>, e: EnumSchema, n: int) -> bool {
    forall|i: int, j: int|
        #![trigger variant_emission_kinds(e, i)[j]]
        0 <= i < n && 0 <= j < variant_emission_kinds(e, i).len() ==> {
            &&& ds[planner_vbase(e, i) + j].kind == DiagKind::MalformedDirective(
                variant_emission_kinds(e, i)[j],
            )
            &&& ds[planner_vbase(e, i) + j].site@ == e.variants@[i].name@
        }
}

/// How many field defects the artifact-producing variants before `i`
/// carry.
pub open spec fn gcount_before(e: EnumSchema, i: int) -> nat
    decreases i,
{
    if i <= 0 {
        0
    } else {
        gcount_before(e, i - 1) + if variant_generates(e, i - 1) {
            variant_group_kind_count(e, i - 1)
        } else {
            0nat
        }
    }
}

/// Where variant `i`'s field diagnostics begin: after every emission
/// diagnostic and the field diagnostics of the producing variants before
/// it.
pub open spec fn planner_gbase(e: EnumSchema, i: int) -> int {
    planner_vbase(e, e.variants@.len() as int) + gcount_before(e, i) as int
}

/// Each artifact-producing variant's field diagnostics stand at its
/// block, laid out as the field plan builder reports them.
pub open spec fn planner_groups_ok(ds: Seq<Diag>, e: EnumSchema, n: int) -> bool {
    forall|i: int|
        0 <= i < n && #[trigger] variant_generates(e, i) ==> diags_match_group(
            ds.subrange(
                planner_gbase(e, i),
                planner_gbase(e, i) + variant_group_kind_count(e, i) as int,
            ),
            e.variants@[i].group,
        )
}

/// How many diagnostics the whole planning pass reports.
pub open spec fn planner_total(e: EnumSchema) -> nat {
    emission_kinds(e.directives@).len() + vkinds_before(e, e.variants@.len() as int)
        + gcount_before(e, e.variants@.len() as int)
}

proof fn lemma_vkinds_before_mono(e: EnumSchema, a: int, b: int)
    requires
        a <= b,
    ensures
        vkinds_before(e, a) <= vkinds_before(e, b),
    decreases b - a,
{
    if a < b {
        lemma_vkinds_before_mono(e, a, b - 1);
    }
}

proof fn lemma_gcount_before_mono(e: EnumSchema, a: int, b: int)
    requires
        a <= b,
    ensures
        gcount_before(e, a) <= gcount_before(e, b),
    decreases b - a,
{
    if a < b {
        lemma_gcount_before_mono(e, a, b - 1);
    }
}

proof fn lemma_gen_before_mono(e: EnumSchema, a: int, b: int)
    requires
        a <= b,
    ensures
        gen_before(e, a) <= gen_before(e, b),
    decreases b - a,
{
    if a < b {
        lemma_gen_before_mono(e, a, b - 1);
    }
}

/// Resolves the emission configuration of every variant against the
/// enum-level baseline, collecting every emission defect: first the
/// enum's own, then each variant's, in declaration order.
fn collect_emission_configs(e: &EnumSchema) -> (r: (Vec<VariantConfig>, Vec<Diag>))
    ensures
        r.0@.len() == e.variants@.len(),
        forall|k: int| 0 <= k < e.variants@.len() ==> r.0@[k] == variant_cfg_of(*e, k),
        r.1@.len() == planner_vbase(*e, e.variants@.len() as int),
        planner_enum_prefix_ok(r.1@, *e),
        planner_variant_prefix_ok(r.1@, *e, e.variants@.len() as int),
{
    let vs = &e.variants;
    let n: usize = vs.len();
    let off = VariantConfig { constant: false, function: false };
    let profile = VariantConfig { constant: false, function: true };
    let (base_cfg, ekinds) = resolve_variant_markers(&e.directives, off, profile);
    let mut diags: Vec<Diag> = Vec::new();
    append_site_diags(&mut diags, &ekinds, &e.name);
    assert forall|j: int| 0 <= j < emission_kinds(e.directives@).len() implies {
        &&& (#[trigger] diags@[j]).kind == DiagKind::MalformedDirective(
            emission_kinds(e.directives@)[j],
        )
        &&& diags@[j].site@ == e.name@
    } by {
        assert(diags@[0 + j].kind == DiagKind::MalformedDirective(ekinds@[j]));
        assert(diags@[0 + j].site@ == e.name@);
    }
    let mut cfgs: Vec<VariantConfig> = Vec::new();
    let mut i: usize = 0;
    while i < n
        invariant
            i <= n,
            n == vs@.len(),
            vs == e.variants,
            base_cfg == enum_baseline_cfg(e.directives@),
            cfgs@.len() == i,
            forall|k: int| 0 <= k < i ==> cfgs@[k] == variant_cfg_of(*e, k),
            diags@.len() == planner_vbase(*e, i as int),
            planner_enum_prefix_ok(diags@, *e),
            planner_variant_prefix_ok(diags@, *e, i as int),
        decreases n - i,
    {
        let ghost d0 = diags@;
        let (cfg, vkinds) = resolve_variant_markers(&vs[i].directives, base_cfg, base_cfg);
        append_site_diags(&mut diags, &vkinds, &vs[i].name);
        cfgs.push(cfg);
        assert forall|ii: int, j: int|
            0 <= ii < i + 1 && 0 <= j < variant_emission_kinds(*e, ii).len() implies {
            &&& diags@[planner_vbase(*e, ii) + j].kind == DiagKind::MalformedDirective(
                variant_emission_kinds(*e, ii)[j],
            )
            &&& diags@[planner_vbase(*e, ii) + j].site@ == e.variants@[ii].name@
        } by {
            if ii < i as int {
                lemma_vkinds_before_mono(*e, ii + 1, i as int);
                assert(diags@[planner_vbase(*e, ii) + j] == d0[planner_vbase(*e, ii) + j]);
            }
        }
        i += 1;
    }
    (cfgs, diags)
}

/// Plans the accessors of every variant of an enum.
///
/// Succeeds exactly when no directive in sight is malformed, yielding one
/// accessor plan per artifact-producing variant, in declaration order;
/// variants resolved fully off are skipped and are no error.  Fails with
/// every defect of the enum level, of every variant's emission
/// directives, and of every due variant's fields, aggregated in one
/// report.
#[verifier::rlimit(100)]
#[verifier::loop_isolation(true)]
pub fn plan_variant_accessors(e: &EnumSchema) -> (r: Result<Vec<VariantAccessorPlan>, Vec<Diag>>)
    ensures
        r is Ok <==> planner_total(*e) == 0,
        r matches Ok(ps) ==> {
            &&& ps@.len() == gen_before(*e, e.variants@.len() as int)
            &&& forall|i: int|
                0 <= i < e.variants@.len() && #[trigger] variant_generates(*e, i)
                    ==> accessor_plan_matches(ps@[gen_before(*e, i) as int], *e, i)
        },
        r matches Err(ds) ==> {
            &&& ds@.len() == planner_total(*e)
            &&& planner_enum_prefix_ok(ds@, *e)
            &&& planner_variant_prefix_ok(ds@, *e, e.variants@.len() as int)
            &&& planner_groups_ok(ds@, *e, e.variants@.len() as int)
        },
{
    let vs = &e.variants;
    let n: usize = vs.len();
    let (cfgs, mut diags) = collect_emission_configs(e);
    let ghost dbase = diags@;
    let mut plans: Vec<VariantAccessorPlan> = Vec::new();
    let mut i: usize = 0;
    while i < n
        invariant
            i <= n,
            n == vs@.len(),
            vs == e.variants,
            cfgs@.len() == n,
            forall|k: int| 0 <= k < n ==> cfgs@[k] == variant_cfg_of(*e, k),
            dbase.len() == planner_vbase(*e, n as int),
            planner_enum_prefix_ok(dbase, *e),
            planner_variant_prefix_ok(dbase, *e, n as int),
            diags@.len() == planner_gbase(*e, i as int),
            forall|j: int| 0 <= j < dbase.len() ==> diags@[j] == dbase[j],
            planner_groups_ok(diags@, *e, i as int),
            diags@.len() == dbase.len() ==> {
                &&& plans@.len() == gen_before(*e, i as int)
                &&& forall|k: int|
                    0 <= k < i && #[trigger] variant_generates(*e, k) ==> accessor_plan_matches(
                        plans@[gen_before(*e, k) as int],
                        *e,
                        k,
                    )
            },
        decreases n - i,
    {
        let ghost d0 = diags@;
        let ghost mut gblock = Seq::<Diag>::empty();
        let cfg = cfgs[i];
        if cfg.should_generate() {
            match build_group_plan(&vs[i].group) {
                Ok(p) => {
                    proof {
                        lemma_kinds_before_zero(
                            e.variants@[i as int].group.members@,
                            e.variants@[i as int].group.members@.len() as int,
                        );
                        assert(variant_group_kind_count(*e, i as int) == 0);
                        assert(diags_match_group(gblock, e.variants@[i as int].group));
                    }
                    let fname = if cfg.function {
                        Some(function_accessor_name(vs[i].name.as_str()))
                    } else {
                        None
                    };
                    let cname = if cfg.constant {
                        Some(constant_accessor_name(vs[i].name.as_str()))
                    } else {
                        None
                    };
                    plans.push(
                        VariantAccessorPlan {
                            variant: vs[i].name.clone(),
                            constant_name: cname,
                            function_name: fname,
                            plan: p,
                        },
                    );
                },
                Err(mut gds) => {
                    proof {
                        gblock = gds@;
                        lemma_kinds_before_zero(
                            e.variants@[i as int].group.members@,
                            e.variants@[i as int].group.members@.len() as int,
                        );
                        assert(gblock.len() > 0);
                    }
                    diags.append(&mut gds);
                },
            }
        }
        proof {
            assert(diags@ =~= d0 + gblock);
            assert(diags@.len() == planner_gbase(*e, i + 1));
        }
        assert forall|ii: int|
            0 <= ii < i + 1 && #[trigger] variant_generates(*e, ii) implies diags_match_group(
            diags@.subrange(
                planner_gbase(*e, ii),
                planner_gbase(*e, ii) + variant_group_kind_count(*e, ii) as int,
            ),
            e.variants@[ii].group,
        ) by {
            let a = planner_gbase(*e, ii);
            let b = planner_gbase(*e, ii) + variant_group_kind_count(*e, ii) as int;
            if ii < i as int {
                lemma_gcount_before_mono(*e, ii + 1, i as int);
                assert(diags@.subrange(a, b) =~= d0.subrange(a, b));
            } else {
                assert(a == d0.len());
                assert(diags@.subrange(a, b) =~= gblock);
            }
        }
        proof {
            if diags@.len() == dbase.len() {
                assert forall|k: int|
                    0 <= k < i && #[trigger] variant_generates(*e, k) implies gen_before(*e, k)
                    < gen_before(*e, i as int) by {
                    lemma_gen_before_mono(*e, k + 1, i as int);
                }
                assert(plans@.len() == gen_before(*e, i + 1));
            }
        }
        i += 1;
    }
    assert forall|j: int| 0 <= j < emission_kinds(e.directives@).len() implies {
        &&& (#[trigger] diags@[j]).kind == DiagKind::MalformedDirective(
            emission_kinds(e.directives@)[j],
        )
        &&& diags@[j].site@ == e.name@
    } by {
        lemma_vkinds_before_mono(*e, 0, n as int);
        assert(diags@[j] == dbase[j]);
    }
    assert forall|ii: int, j: int|
        0 <= ii < n && 0 <= j < variant_emission_kinds(*e, ii).len() implies {
        &&& diags@[planner_vbase(*e, ii) + j].kind == DiagKind::MalformedDirective(
            variant_emission_kinds(*e, ii)[j],
        )
        &&& diags@[planner_vbase(*e, ii) + j].site@ == e.variants@[ii].name@
    } by {
        lemma_vkinds_before_mono(*e, ii + 1, n as int);
        assert(diags@[planner_vbase(*e, ii) + j] == dbase[planner_vbase(*e, ii) + j]);
    }
    if diags.len() == 0 {
        Ok(plans)
    } else {
        Err(diags)
    }
}

proof fn lemma_emission_cfg_upto_push(
    ds: Seq<Directive>,
    d: Directive,
    start: VariantConfig,
    profile: VariantConfig,
    i: int,
)
    requires
        0 <= i <= ds.len(),
    ensures
        emission_cfg_upto(ds.push(d), start, profile, i) == emission_cfg_upto(
            ds,
            start,
            profile,
            i,
        ),
    decreases i,
{
    if i > 0 {
        lemma_emission_cfg_upto_push(ds, d, start, profile, i - 1);
        assert(ds.push(d)[i - 1] == ds[i - 1]);
    }
}

/// A bare `variant` marker turns the governing flag fully on: whatever
/// the earlier occurrences left, the variant emits a function accessor,
/// and the constant flag is exactly what it already was.
pub proof fn lemma_bare_variant_marker_enables_function(
    ds: Seq<Directive>,
    d: Directive,
    start: VariantConfig,
    profile: VariantConfig,
)
    requires
        d.marker == MarkerKind::VariantMarker,
        d.form is Bare,
    ensures
        emission_cfg(ds.push(d), start, profile).function == true,
        emission_cfg(ds.push(d), start, profile).constant == emission_cfg(
            ds,
            start,
            profile,
        ).constant,
{
    let all = ds.push(d);
    lemma_emission_cfg_upto_push(ds, d, start, profile, ds.len() as int);
    assert(all[all.len() - 1] == d);
}

} // verus!
