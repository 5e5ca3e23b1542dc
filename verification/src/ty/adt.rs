//! Descriptors of algebraic data types.

use crate::ast::{Ident, Visibility};
use crate::fxmap::{fx_insert, fx_new, lookup};
use crate::index::{DefId, Symbol, VariantIdx};
use crate::indexed::Variants;
use crate::ty::error::{Diagnostic, TypeError};
use crate::ty::kind::Ty;
use itertools::Itertools;
use vstd::prelude::*;

verus! {

#[derive(Debug, Clone, Copy, PartialEq, Eq, Hash, Structural)]
pub enum AdtKind {
    Struct,
    Enum,
}

/// How the values of a variant are written.
#[derive(Debug, Clone, Copy, PartialEq, Eq, Hash, Structural)]
pub enum CtorKind {
    /// `S { x: 1 }`
    Struct,
    /// `S(1)`
    Tuple,
    /// `S`
    Unit,
}

/// A field: its name, who may see it, and its declared type.
#[derive(Debug, Clone, Copy, PartialEq, Eq, Hash, Structural)]
pub struct FieldTy {
    pub def_id: DefId,
    pub ident: Ident,
    pub vis: Visibility,
    pub ty: Ty,
}

/// A variant: its name, its constructor, and its fields in declaration
/// order.
#[derive(Debug)]
pub struct VariantTy {
    pub ctor: Option<DefId>,
    pub ident: Ident,
    pub fields: Vec<FieldTy>,
    pub ctor_kind: CtorKind,
}

/// An algebraic data type: a struct has one variant, an enum any number.
#[derive(Debug)]
pub struct AdtTy {
    pub def_id: DefId,
    pub kind: AdtKind,
    pub ident: Ident,
    pub variants: Variants,
}

/// The last field before position `below` that has the name, if any.
pub open spec fn last_named(fields: Seq<FieldTy>, name: Symbol, below: int) -> Option<int>
    decreases below,
{
    if below <= 0 {
        None
    } else if fields[below - 1].ident.symbol == name {
        Some(below - 1)
    } else {
        last_named(fields, name, below - 1)
    }
}

pub proof fn lemma_last_named_range(fields: Seq<FieldTy>, name: Symbol, below: int)
    ensures
        last_named(fields, name, below) is Some ==> 0 <= last_named(fields, name, below)->Some_0
            < below,
    decreases below,
{
    if below > 0 && fields[below - 1].ident.symbol != name {
        lemma_last_named_range(fields, name, below - 1);
    }
}

/// The complaints about the first `upto` fields of a variant: one for every
/// field whose name an earlier field has, in declaration order. Each points
/// at the field and at the last earlier field of that name.
pub open spec fn duplicate_fields(owner: Ident, fields: Seq<FieldTy>, upto: int) -> Seq<
    Diagnostic,
>
    decreases upto,
{
    if upto <= 0 {
        Seq::empty()
    } else {
        let f = fields[upto - 1];
        let before = duplicate_fields(owner, fields, upto - 1);
        match last_named(fields, f.ident.symbol, upto - 1) {
            Some(i) => before.push(
                Diagnostic {
                    span: f.ident.span,
                    related: Some(fields[i].ident.span),
                    error: TypeError::FieldAlreadyDeclared(f.ident, owner),
                },
            ),
            None => before,
        }
    }
}

/// The complaints about the first `upto` variants of a type, variant by
/// variant.
pub open spec fn duplicate_fields_of(owner: Ident, variants: Seq<VariantTy>, upto: int) -> Seq<
    Diagnostic,
>
    decreases upto,
{
    if upto <= 0 {
        Seq::empty()
    } else {
        duplicate_fields_of(owner, variants, upto - 1) + duplicate_fields(
            owner,
            variants[upto - 1].fields@,
            variants[upto - 1].fields@.len() as int,
        )
    }
}

/// Whether a field has the name.
pub fn has_name(f: &FieldTy, name: Symbol) -> (b: bool)
    ensures
        b == (f.ident.symbol == name),
{
    f.ident.symbol == name
}

/// The first field of a name, from a position on.
pub open spec fn first_named(fields: Seq<FieldTy>, name: Symbol, from: int) -> Option<int>
    decreases fields.len() - from,
{
    if from < 0 || from >= fields.len() {
        None
    } else if fields[from].ident.symbol == name {
        Some(from)
    } else {
        first_named(fields, name, from + 1)
    }
}

pub proof fn lemma_first_named_range(fields: Seq<FieldTy>, name: Symbol, from: int)
    requires
        0 <= from,
    ensures
        first_named(fields, name, from) matches Some(i) ==> from <= i < fields.len(),
    decreases fields.len() - from,
{
    if from < fields.len() && fields[from].ident.symbol != name {
        lemma_first_named_range(fields, name, from + 1);
    }
}

/// `Itertools::find_position` over the fields: the position of the first
/// field that has the name, if one has it. The predicate that is handed to
/// it is `has_name`.
#[verifier::external_body]
pub(crate) fn find_position_named(fields: &Vec<FieldTy>, name: Symbol) -> (res: Option<usize>)
    ensures
        res == match first_named(fields@, name, 0) {
            Some(i) => Some(i as usize),
            None => None,
        },
{
    fields.iter().find_position(|f| has_name(f, name)).map(|found| found.0)
}

/// A copy of a list of fields.
pub fn copy_fields(fields: &Vec<FieldTy>) -> (r: Vec<FieldTy>)
    ensures
        r@ == fields@,
{
    let mut r: Vec<FieldTy> = Vec::new();
    let mut i: usize = 0;
    while i < fields.len()
        invariant
            i <= fields.len(),
            r@ == fields@.take(i as int),
        decreases fields.len() - i,
    {
        r.push(fields[i]);
        assert(fields@.take(i + 1) == fields@.take(i as int).push(fields@[i as int]));
        i += 1;
    }
    assert(fields@.take(i as int) == fields@);
    r
}

/// The first variant that a constructor makes, from a position on.
pub open spec fn first_with_ctor(variants: Seq<VariantTy>, ctor: DefId, from: int) -> Option<int>
    decreases variants.len() - from,
{
    if from < 0 || from >= variants.len() {
        None
    } else if variants[from].ctor == Some(ctor) {
        Some(from)
    } else {
        first_with_ctor(variants, ctor, from + 1)
    }
}

pub proof fn lemma_first_with_ctor_range(variants: Seq<VariantTy>, ctor: DefId, from: int)
    requires
        0 <= from,
    ensures
        first_with_ctor(variants, ctor, from) matches Some(i) ==> from <= i < variants.len(),
    decreases variants.len() - from,
{
    if from < variants.len() && variants[from].ctor != Some(ctor) {
        lemma_first_with_ctor_range(variants, ctor, from + 1);
    }
}

impl AdtTy {
    /// The variant that a constructor makes: the first of them.
    pub fn variant_with_ctor(&self, ctor: DefId) -> (r: Option<usize>)
        ensures
            r == match first_with_ctor(self.variants@, ctor, 0) {
                Some(i) => Some(i as usize),
                None => None,
            },
            r matches Some(i) ==> i < self.variants@.len(),
    {
        let mut j: usize = 0;
        let n = self.variants.len();
        while j < n
            invariant
                j <= n,
                n == self.variants@.len(),
                first_with_ctor(self.variants@, ctor, 0) == first_with_ctor(
                    self.variants@,
                    ctor,
                    j as int,
                ),
            decreases n - j,
        {
            let hit = match self.variants.get(VariantIdx(j)).ctor {
                Some(d) => d == ctor,
                None => false,
            };
            if hit {
                return Some(j);
            }
            j += 1;
        }
        None
    }
}

impl AdtTy {
    /// The one variant of a struct.
    pub fn only_variant(&self) -> (v: &VariantTy)
        requires
            self.variants@.len() == 1,
        ensures
            *v == self.variants@[0],
    {
        self.variants.get(VariantIdx(0))
    }

    /// Whether a descriptor may be made of these parts: a struct has
    /// exactly one variant.
    pub open spec fn shape_ok(kind: AdtKind, variants: Seq<VariantTy>) -> bool {
        kind is Struct ==> variants.len() == 1
    }
}

/// Checks the variants of a type for field names that are declared twice in
/// one variant.
pub fn check_duplicates(owner: Ident, variants: &Variants) -> (errors: Vec<Diagnostic>)
    ensures
        errors@ == duplicate_fields_of(owner, variants@, variants@.len() as int),
{
    let mut errors: Vec<Diagnostic> = Vec::new();
    let mut i: usize = 0;
    let n = variants.len();
    while i < n
        invariant
            i <= n,
            n == variants@.len(),
            errors@ == duplicate_fields_of(owner, variants@, i as int),
        decreases n - i,
    {
        check_duplicate_fields(owner, &variants.get(VariantIdx(i)).fields, &mut errors);
        i += 1;
    }
    errors
}

/// Checks the fields of one variant for names that are declared twice.
pub fn check_duplicate_fields(owner: Ident, fields: &Vec<FieldTy>, errors: &mut Vec<Diagnostic>)
    ensures
        final(errors)@ == old(errors)@ + duplicate_fields(owner, fields@, fields@.len() as int),
{
    let mut seen = fx_new();
    let mut j: usize = 0;
    while j < fields.len()
        invariant
            j <= fields.len(),
            errors@ == old(errors)@ + duplicate_fields(owner, fields@, j as int),
            forall|name: usize| #[trigger]
                lookup(seen@, name) == match last_named(fields@, Symbol(name), j as int) {
                    Some(i) => Some(i as usize),
                    None => None,
                },
        decreases fields.len() - j,
    {
        let f = fields[j];
        let ghost before = seen@;
        let prev = fx_insert(&mut seen, f.ident.symbol.0, j);
        proof {
            assert(prev == lookup(before, f.ident.symbol.0));
            assert(Symbol(f.ident.symbol.0) == f.ident.symbol);
            lemma_last_named_range(fields@, f.ident.symbol, j as int);
        }
        match prev {
            Some(i) => {
                errors.push(
                    Diagnostic {
                        span: f.ident.span,
                        related: Some(fields[i].ident.span),
                        error: TypeError::FieldAlreadyDeclared(f.ident, owner),
                    },
                );
            },
            None => {},
        }
        proof {
            assert forall|name: usize| #[trigger]
                lookup(seen@, name) == match last_named(fields@, Symbol(name), j + 1) {
                    Some(i) => Some(i as usize),
                    None => None,
                } by {
                if name != f.ident.symbol.0 {
                    assert(lookup(before, name) == lookup(seen@, name));
                }
            }
            assert(errors@ =~= old(errors)@ + duplicate_fields(owner, fields@, j + 1));
        }
        j += 1;
    }
}

} // verus!
