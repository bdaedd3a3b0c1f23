//! The directive parser and merger.
//!
//! Each member carries an ordered list of raw directive occurrences.  A
//! resolver folds them, in source order, into one resolved configuration:
//! every occurrence updates zero or more fields of the running
//! configuration, and the last write per key wins.  Malformed occurrences
//! are collected, never short-circuited, so a caller sees every defect of
//! a member in one pass; a configuration is only consumed when no defect
//! was found.
//!
//! Two resolutions live here: the field override (the `default` marker on
//! a field, governing which expression constructs the field) and the
//! default-variant flag (the `default` marker on an enum variant).  The
//! accessor-emission resolution is with its planner.

use vstd::prelude::*;

verus! {

use crate::diag::MalformedKind;
use crate::names::str_eq;
use crate::schema::{Directive, DirectiveForm, MarkerKind, NestedEntry, NestedValue};

/// The resolved configuration of one field: the override expression that
/// constructs it, or none, in which case the field's own intrinsic
/// default operation is used.
#[derive(Clone, PartialEq, Eq, Debug)]
pub struct FieldConfig {
    pub override_expr: Option<String>,
}

/// The text of a boolean literal used in expression position.
pub open spec fn bool_text(b: bool) -> Seq<char> {
    if b {
        "true"@
    } else {
        "false"@
    }
}

/// What one nested entry does to the running field override.
pub open spec fn field_entry_override(acc: Option<Seq<char>>, e: NestedEntry) -> Option<
    Seq<char>,
> {
    if e.key@ == "expr"@ {
        match e.value {
            Some(NestedValue::BoolLit(b)) => Some(bool_text(b)),
            Some(NestedValue::ExprRef(x)) => Some(x@),
            None => acc,
        }
    } else {
        acc
    }
}

/// The defects of one nested entry in field context.  The closed key set
/// is `expr` (requires an expression value) and `constant`/`const` (an
/// optional boolean, accepted and reserved, with no effect on the plan).
pub open spec fn field_entry_kinds(e: NestedEntry) -> Seq<MalformedKind> {
    if e.key@ == "expr"@ {
        match e.value {
            None => seq![MalformedKind::MissingValue],
            Some(_) => Seq::empty(),
        }
    } else if e.key@ == "constant"@ || e.key@ == "const"@ {
        match e.value {
            Some(NestedValue::ExprRef(_)) => seq![MalformedKind::WrongLiteralKind],
            _ => Seq::empty(),
        }
    } else {
        seq![MalformedKind::UnrecognizedKey]
    }
}

/// The running field override after the first `i` entries of a nested
/// list, starting from `init`.
pub open spec fn field_entries_override_upto(
    es: Seq<NestedEntry>,
    init: Option<Seq<char>>,
    i: int,
) -> Option<Seq<char>>
    decreases i,
{
    if i <= 0 {
        init
    } else {
        field_entry_override(field_entries_override_upto(es, init, i - 1), es[i - 1])
    }
}

/// The defects of the first `i` entries of a nested list in field
/// context.
pub open spec fn field_entries_kinds_upto(es: Seq<NestedEntry>, i: int) -> Seq<MalformedKind>
    decreases i,
{
    if i <= 0 {
        Seq::empty()
    } else {
        field_entries_kinds_upto(es, i - 1) + field_entry_kinds(es[i - 1])
    }
}

/// What one directive occurrence does to the running field override.  A
/// bare marker asks for the intrinsic default and changes nothing; an
/// attached literal of any kind becomes the override expression; a nested
/// list applies its entries in order.
pub open spec fn field_dir_override(acc: Option<Seq<char>>, d: Directive) -> Option<Seq<char>> {
    if d.marker != MarkerKind::DefaultMarker {
        acc
    } else {
        match d.form {
            DirectiveForm::Bare => acc,
            DirectiveForm::BoolLiteral(b) => Some(bool_text(b)),
            DirectiveForm::ExprLiteral(x) => Some(x@),
            DirectiveForm::KeyList(es) => field_entries_override_upto(
                es@,
                acc,
                es@.len() as int,
            ),
        }
    }
}

/// The defects of one directive occurrence in field context.
pub open spec fn field_dir_kinds(d: Directive) -> Seq<MalformedKind> {
    if d.marker != MarkerKind::DefaultMarker {
        Seq::empty()
    } else {
        match d.form {
            DirectiveForm::Bare => Seq::empty(),
            DirectiveForm::BoolLiteral(_) => Seq::empty(),
            DirectiveForm::ExprLiteral(_) => Seq::empty(),
            DirectiveForm::KeyList(es) => if es@.len() == 0 {
                seq![MalformedKind::EmptyList]
            } else {
                field_entries_kinds_upto(es@, es@.len() as int)
            },
        }
    }
}

/// The running field override after the first `i` directive occurrences.
pub open spec fn field_override_upto(ds: Seq<Directive>, i: int) -> Option<Seq<char>>
    decreases i,
{
    if i <= 0 {
        None
    } else {
        field_dir_override(field_override_upto(ds, i - 1), ds[i - 1])
    }
}

/// The resolved field override of a full directive list: the last written
/// override expression, or none for the intrinsic default.
pub open spec fn field_override(ds: Seq<Directive>) -> Option<Seq<char>> {
    field_override_upto(ds, ds.len() as int)
}

/// The defects of the first `i` directive occurrences in field context.
pub open spec fn field_kinds_upto(ds: Seq<Directive>, i: int) -> Seq<MalformedKind>
    decreases i,
{
    if i <= 0 {
        Seq::empty()
    } else {
        field_kinds_upto(ds, i - 1) + field_dir_kinds(ds[i - 1])
    }
}

/// All defects of a full directive list in field context, in source
/// order.
pub open spec fn field_kinds(ds: Seq<Directive>) -> Seq<MalformedKind> {
    field_kinds_upto(ds, ds.len() as int)
}

/// The text of a boolean literal.
pub fn bool_literal_text(b: bool) -> (r: String)
    ensures
        r@ == bool_text(b),
{
    if b {
        String::from_str("true")
    } else {
        String::from_str("false")
    }
}

/// Folds a field's directive occurrences into its resolved configuration,
/// collecting every defect along the way.  The configuration is
/// meaningful only when the defect list is empty.
pub fn resolve_field_directives(ds: &Vec<Directive>) -> (r: (FieldConfig, Vec<MalformedKind>))
    ensures
        r.0.override_expr is Some <==> field_override(ds@) is Some,
        r.0.override_expr matches Some(s) ==> field_override(ds@) == Some(s@),
        r.1@ == field_kinds(ds@),
{
    let mut over: Option<String> = None;
    let mut kinds: Vec<MalformedKind> = Vec::new();
    let n: usize = ds.len();
    let mut i: usize = 0;
    while i < n
        invariant
            i <= n,
            n == ds@.len(),
            over is Some <==> field_override_upto(ds@, i as int) is Some,
            over matches Some(s) ==> field_override_upto(ds@, i as int) == Some(s@),
            kinds@ == field_kinds_upto(ds@, i as int),
        decreases n - i,
    {
        let d = &ds[i];
        let ghost acc0 = field_override_upto(ds@, i as int);
        if d.marker == MarkerKind::DefaultMarker {
            match &d.form {
                DirectiveForm::Bare => {},
                DirectiveForm::BoolLiteral(b) => {
                    over = Some(bool_literal_text(*b));
                },
                DirectiveForm::ExprLiteral(x) => {
                    over = Some(x.clone());
                },
                DirectiveForm::KeyList(es) => {
                    let m: usize = es.len();
                    if m == 0 {
                        kinds.push(MalformedKind::EmptyList);
                    } else {
                        let mut j: usize = 0;
                        while j < m
                            invariant
                                j <= m,
                                m == es@.len(),
                                m > 0,
                                over is Some <==> field_entries_override_upto(
                                    es@,
                                    acc0,
                                    j as int,
                                ) is Some,
                                over matches Some(s) ==> field_entries_override_upto(
                                    es@,
                                    acc0,
                                    j as int,
                                ) == Some(s@),
                                kinds@ == field_kinds_upto(ds@, i as int)
                                    + field_entries_kinds_upto(es@, j as int),
                            decreases m - j,
                        {
                            let e = &es[j];
                            if str_eq(e.key.as_str(), "expr") {
                                match &e.value {
                                    None => {
                                        kinds.push(MalformedKind::MissingValue);
                                    },
                                    Some(NestedValue::BoolLit(b)) => {
                                        over = Some(bool_literal_text(*b));
                                    },
                                    Some(NestedValue::ExprRef(x)) => {
                                        over = Some(x.clone());
                                    },
                                }
                            } else if str_eq(e.key.as_str(), "constant") || str_eq(
                                e.key.as_str(),
                                "const",
                            ) {
                                match &e.value {
                                    Some(NestedValue::ExprRef(_)) => {
                                        kinds.push(MalformedKind::WrongLiteralKind);
                                    },
                                    _ => {},
                                }
                            } else {
                                kinds.push(MalformedKind::UnrecognizedKey);
                            }
                            assert(kinds@ =~= field_kinds_upto(ds@, i as int)
                                + field_entries_kinds_upto(es@, j + 1));
                            j += 1;
                        }
                    }
                },
            }
        }
        assert(kinds@ =~= field_kinds_upto(ds@, i + 1));
        i += 1;
    }
    (FieldConfig { override_expr: over }, kinds)
}

/// What one nested entry does to the running default-variant flag.  The
/// one key this marker understands in a nested list is `default` itself,
/// bare or with a boolean literal.
pub open spec fn default_entry_flag(acc: bool, e: NestedEntry) -> bool {
    if e.key@ == "default"@ {
        match e.value {
            None => true,
            Some(NestedValue::BoolLit(b)) => b,
            Some(NestedValue::ExprRef(_)) => acc,
        }
    } else {
        acc
    }
}

/// The defects of one nested entry in default-variant context.
pub open spec fn default_entry_kinds(e: NestedEntry) -> Seq<MalformedKind> {
    if e.key@ == "default"@ {
        match e.value {
            Some(NestedValue::ExprRef(_)) => seq![MalformedKind::WrongLiteralKind],
            _ => Seq::empty(),
        }
    } else {
        seq![MalformedKind::UnrecognizedKey]
    }
}

/// The running default-variant flag after the first `i` entries of a
/// nested list.
pub open spec fn default_entries_flag_upto(es: Seq<NestedEntry>, init: bool, i: int) -> bool
    decreases i,
{
    if i <= 0 {
        init
    } else {
        default_entry_flag(default_entries_flag_upto(es, init, i - 1), es[i - 1])
    }
}

/// The defects of the first `i` entries of a nested list in
/// default-variant context.
pub open spec fn default_entries_kinds_upto(es: Seq<NestedEntry>, i: int) -> Seq<MalformedKind>
    decreases i,
{
    if i <= 0 {
        Seq::empty()
    } else {
        default_entries_kinds_upto(es, i - 1) + default_entry_kinds(es[i - 1])
    }
}

/// What one directive occurrence does to the running default-variant
/// flag: a bare marker turns it on, a boolean literal sets it, a nested
/// list applies its entries.
pub open spec fn default_dir_flag(acc: bool, d: Directive) -> bool {
    if d.marker != MarkerKind::DefaultMarker {
        acc
    } else {
        match d.form {
            DirectiveForm::Bare => true,
            DirectiveForm::BoolLiteral(b) => b,
            DirectiveForm::ExprLiteral(_) => acc,
            DirectiveForm::KeyList(es) => default_entries_flag_upto(es@, acc, es@.len() as int),
        }
    }
}

/// The defects of one directive occurrence in default-variant context.
/// An attached non-boolean literal is a wrong literal kind.
pub open spec fn default_dir_kinds(d: Directive) -> Seq<MalformedKind> {
    if d.marker != MarkerKind::DefaultMarker {
        Seq::empty()
    } else {
        match d.form {
            DirectiveForm::Bare => Seq::empty(),
            DirectiveForm::BoolLiteral(_) => Seq::empty(),
            DirectiveForm::ExprLiteral(_) => seq![MalformedKind::WrongLiteralKind],
            DirectiveForm::KeyList(es) => if es@.len() == 0 {
                seq![MalformedKind::EmptyList]
            } else {
                default_entries_kinds_upto(es@, es@.len() as int)
            },
        }
    }
}

/// The running default-variant flag after the first `i` occurrences.
pub open spec fn default_flag_upto(ds: Seq<Directive>, i: int) -> bool
    decreases i,
{
    if i <= 0 {
        false
    } else {
        default_dir_flag(default_flag_upto(ds, i - 1), ds[i - 1])
    }
}

/// The resolved default-variant flag of a full directive list; the
/// baseline is false.
pub open spec fn default_flag(ds: Seq<Directive>) -> bool {
    default_flag_upto(ds, ds.len() as int)
}

/// The defects of the first `i` occurrences in default-variant context.
pub open spec fn default_kinds_upto(ds: Seq<Directive>, i: int) -> Seq<MalformedKind>
    decreases i,
{
    if i <= 0 {
        Seq::empty()
    } else {
        default_kinds_upto(ds, i - 1) + default_dir_kinds(ds[i - 1])
    }
}

/// All defects of a full directive list in default-variant context.
pub open spec fn default_kinds(ds: Seq<Directive>) -> Seq<MalformedKind> {
    default_kinds_upto(ds, ds.len() as int)
}

/// Folds a variant's directive occurrences into its default-variant flag,
/// collecting every defect along the way.  The flag is meaningful only
/// when the defect list is empty.
pub fn resolve_default_marker(ds: &Vec<Directive>) -> (r: (bool, Vec<MalformedKind>))
    ensures
        r.0 == default_flag(ds@),
        r.1@ == default_kinds(ds@),
{
    let mut flag: bool = false;
    let mut kinds: Vec<MalformedKind> = Vec::new();
    let n: usize = ds.len();
    let mut i: usize = 0;
    while i < n
        invariant
            i <= n,
            n == ds@.len(),
            flag == default_flag_upto(ds@, i as int),
            kinds@ == default_kinds_upto(ds@, i as int),
        decreases n - i,
    {
        let d = &ds[i];
        let ghost acc0 = default_flag_upto(ds@, i as int);
        if d.marker == MarkerKind::DefaultMarker {
            match &d.form {
                DirectiveForm::Bare => {
                    flag = true;
                },
                DirectiveForm::BoolLiteral(b) => {
                    flag = *b;
                },
                DirectiveForm::ExprLiteral(_) => {
                    kinds.push(MalformedKind::WrongLiteralKind);
                },
                DirectiveForm::KeyList(es) => {
                    let m: usize = es.len();
                    if m == 0 {
                        kinds.push(MalformedKind::EmptyList);
                    } else {
                        let mut j: usize = 0;
                        while j < m
                            invariant
                                j <= m,
                                m == es@.len(),
                                m > 0,
                                flag == default_entries_flag_upto(es@, acc0, j as int),
                                kinds@ == default_kinds_upto(ds@, i as int)
                                    + default_entries_kinds_upto(es@, j as int),
                            decreases m - j,
                        {
                            let e = &es[j];
                            if str_eq(e.key.as_str(), "default") {
                                match &e.value {
                                    None => {
                                        flag = true;
                                    },
                                    Some(NestedValue::BoolLit(b)) => {
                                        flag = *b;
                                    },
                                    Some(NestedValue::ExprRef(_)) => {
                                        kinds.push(MalformedKind::WrongLiteralKind);
                                    },
                                }
                            } else {
                                kinds.push(MalformedKind::UnrecognizedKey);
                            }
                            assert(kinds@ =~= default_kinds_upto(ds@, i as int)
                                + default_entries_kinds_upto(es@, j + 1));
                            j += 1;
                        }
                    }
                },
            }
        }
        assert(kinds@ =~= default_kinds_upto(ds@, i + 1));
        i += 1;
    }
    (flag, kinds)
}

/// A directive occurrence that sets the field override to `e`: a literal
/// form, or a one-entry nested list `expr = E`.
pub open spec fn sets_override_to(d: Directive, e: Seq<char>) -> bool {
    d.marker == MarkerKind::DefaultMarker && match d.form {
        DirectiveForm::ExprLiteral(x) => x@ == e,
        DirectiveForm::KeyList(es) => es@.len() == 1 && es@[0].key@ == "expr"@ && match es@[0].value {
            Some(NestedValue::ExprRef(x)) => x@ == e,
            _ => false,
        },
        _ => false,
    }
}

proof fn lemma_field_override_upto_push(ds: Seq<Directive>, d: Directive, i: int)
    requires
        0 <= i <= ds.len(),
    ensures
        field_override_upto(ds.push(d), i) == field_override_upto(ds, i),
    decreases i,
{
    if i > 0 {
        lemma_field_override_upto_push(ds, d, i - 1);
        assert(ds.push(d)[i - 1] == ds[i - 1]);
    }
}

proof fn lemma_default_flag_upto_push(ds: Seq<Directive>, d: Directive, i: int)
    requires
        0 <= i <= ds.len(),
    ensures
        default_flag_upto(ds.push(d), i) == default_flag_upto(ds, i),
    decreases i,
{
    if i > 0 {
        lemma_default_flag_upto_push(ds, d, i - 1);
        assert(ds.push(d)[i - 1] == ds[i - 1]);
    }
}

/// Directive merge is last-write-wins per key: whatever override
/// expressions the earlier occurrences wrote, a final occurrence that
/// writes `e` leaves the member's resolved override at exactly `e`.
pub proof fn lemma_merge_last_write_wins(ds: Seq<Directive>, d: Directive, e: Seq<char>)
    requires
        sets_override_to(d, e),
    ensures
        field_override(ds.push(d)) == Some(e),
{
    let all = ds.push(d);
    lemma_field_override_upto_push(ds, d, ds.len() as int);
    assert(all[all.len() - 1] == d);
}

/// A bare `default` marker on a field is the baseline itself: it leaves
/// the resolved configuration exactly as it was, asking for the intrinsic
/// default when nothing else wrote an override.
pub proof fn lemma_bare_field_marker_keeps_config(ds: Seq<Directive>, d: Directive)
    requires
        d.marker == MarkerKind::DefaultMarker,
        d.form is Bare,
    ensures
        field_override(ds.push(d)) == field_override(ds),
{
    let all = ds.push(d);
    lemma_field_override_upto_push(ds, d, ds.len() as int);
    assert(all[all.len() - 1] == d);
}

/// A bare `default` marker on a variant turns the governing flag fully
/// on: the variant is marked as the value-level default whatever the
/// earlier occurrences said.
pub proof fn lemma_bare_default_marker_selects(ds: Seq<Directive>, d: Directive)
    requires
        d.marker == MarkerKind::DefaultMarker,
        d.form is Bare,
    ensures
        default_flag(ds.push(d)) == true,
{
    let all = ds.push(d);
    lemma_default_flag_upto_push(ds, d, ds.len() as int);
    assert(all[all.len() - 1] == d);
}

} // verus!
