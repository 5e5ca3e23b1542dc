use lcore::index::{DefId, ParamIdx, TyVid};
use lcore::infer::InferCtx;
use lcore::span::{FileIdx, Span};
use lcore::ast::{Ident, Visibility};
use lcore::index::{FieldIdx, Symbol, VariantIdx};
use lcore::indexed::Variants;
use lcore::list::List;
use lcore::mir::{ConstKind, Lvalue, Projection, VarId};
use lcore::ty::{
    AdtId, AdtKind, CtorKind, FieldTy, Forall, InferTy, ParamTy, TyCon, TyCtx, TyFlags, TyKind,
    TypeError, VariantTy,
};

fn sp() -> Span {
    Span::new(FileIdx(0), 0, 0)
}

#[test]
fn interning_the_same_descriptor_twice_gives_the_same_handle() {
    let mut tcx = TyCtx::new();
    let types = tcx.types();
    let a = tcx.mk_ty(TyKind::Fn(vec![types.int, types.bool], types.unit));
    let n = tcx.len();
    let b = tcx.mk_ty(TyKind::Fn(vec![types.int, types.bool], types.unit));
    assert_eq!(a, b);
    assert_eq!(tcx.len(), n);
    let c = tcx.mk_ty(TyKind::Fn(vec![types.bool, types.int], types.unit));
    assert_ne!(a, c);
    assert_eq!(tcx.len(), n + 1);
}

#[test]
fn the_common_types_are_interned_once() {
    let mut tcx = TyCtx::new();
    let types = tcx.types();
    assert_eq!(tcx.mk_ty(TyKind::Int), types.int);
    assert_eq!(tcx.mk_ty(TyKind::Bool), types.bool);
    assert_eq!(tcx.mk_ty(TyKind::Tuple(vec![])), types.unit);
    assert_eq!(tcx.mk_ty(TyKind::Error), types.error);
    assert!(matches!(tcx.kind(types.never), TyKind::Never));
}

#[test]
fn the_descriptor_of_a_type_is_what_was_interned() {
    let mut tcx = TyCtx::new();
    let types = tcx.types();
    let f = tcx.mk_fn_ty(vec![types.int, types.char], types.bool);
    match tcx.kind(f) {
        TyKind::Fn(params, ret) => {
            assert_eq!(params, vec![types.int, types.char]);
            assert_eq!(ret, types.bool);
        }
        _ => panic!("no function type"),
    }
}

fn param(tcx: &mut TyCtx, idx: usize) -> lcore::ty::Ty {
    tcx.mk_ty_param(DefId(1), ParamIdx(idx))
}

#[test]
fn the_flags_say_what_occurs_in_a_type() {
    let mut tcx = TyCtx::new();
    let types = tcx.types();
    let p = param(&mut tcx, 0);
    let v = tcx.mk_ty(TyKind::Infer(InferTy::TyVar(TyVid(0))));

    let plain = tcx.mk_fn_ty(vec![types.int], types.bool);
    assert_eq!(tcx.flags(plain), TyFlags::empty());

    let generic = tcx.mk_tup(vec![types.int, p]);
    let nested = tcx.mk_fn_ty(vec![generic], types.bool);
    assert!(tcx.flags(nested).has_param());
    assert!(!tcx.flags(nested).has_infer());
    assert!(!tcx.flags(nested).has_error());

    let open = tcx.mk_box_ty(v);
    assert!(tcx.flags(open).has_infer());
    assert!(!tcx.flags(open).has_param());

    let broken = tcx.mk_tup(vec![types.error, v, p]);
    assert_eq!(tcx.flags(broken).bits, 7);
}

#[test]
fn substitution_replaces_each_parameter_by_the_element_at_its_index() {
    let mut tcx = TyCtx::new();
    let types = tcx.types();
    let par_a = param(&mut tcx, 0);
    let par_b = param(&mut tcx, 1);
    let before = tcx.mk_fn_ty(vec![par_a, types.char], par_b);
    let after = tcx.subst(before, &vec![types.int, types.bool]);
    let expected = tcx.mk_fn_ty(vec![types.int, types.char], types.bool);
    assert_eq!(after, expected);
    // a parameter that the list does not reach stays
    let short = tcx.subst(before, &vec![types.int]);
    let expected = tcx.mk_fn_ty(vec![types.int, types.char], par_b);
    assert_eq!(short, expected);
}

#[test]
fn substituting_the_identity_changes_nothing() {
    let mut tcx = TyCtx::new();
    let types = tcx.types();
    let par_a = param(&mut tcx, 0);
    let par_b = param(&mut tcx, 1);
    let inner = tcx.mk_tup(vec![par_b, types.int]);
    let t = tcx.mk_fn_ty(vec![par_a, inner], par_b);
    let n = tcx.len();
    assert_eq!(tcx.subst(t, &vec![par_a, par_b]), t);
    assert_eq!(tcx.len(), n);
    assert_eq!(tcx.subst(types.int, &vec![par_a, par_b]), types.int);
}

#[test]
fn a_variable_is_bound_to_the_other_side() {
    let mut infcx = InferCtx::new(TyCtx::new());
    let types = infcx.tcx.types();
    let v = infcx.new_infer_var(sp());
    let pair = infcx.tcx.mk_tup(vec![v, types.bool]);
    let target = infcx.tcx.mk_tup(vec![types.int, types.bool]);
    let unified = infcx.equate(sp(), pair, target).unwrap();
    assert_eq!(unified, target);
    assert_eq!(infcx.vars[0], Some(types.int));
    assert_eq!(infcx.resolve_ty(v), types.int);
}

#[test]
fn unification_does_not_depend_on_the_order_of_its_sides() {
    let build = |swap: bool| {
        let mut infcx = InferCtx::new(TyCtx::new());
        let types = infcx.tcx.types();
        let a = infcx.new_infer_var(sp());
        let b = infcx.new_infer_var(sp());
        let c = infcx.new_infer_var(sp());
        let left = infcx.tcx.mk_fn_ty(vec![a, types.int, c], b);
        let right = infcx.tcx.mk_fn_ty(vec![types.bool, b, a], types.int);
        let r = if swap { infcx.equate(sp(), right, left) } else { infcx.equate(sp(), left, right) };
        assert!(r.is_ok());
        let resolved: Vec<_> = [a, b, c].iter().map(|v| infcx.resolve_ty(*v)).collect();
        (resolved, infcx.vars.clone(), types)
    };
    let (one, vars_one, types) = build(false);
    let (two, vars_two, _) = build(true);
    assert_eq!(one, two);
    assert_eq!(vars_one, vars_two);
    // a := bool, b := int, c := a = bool
    assert_eq!(one, vec![types.bool, types.int, types.bool]);
}

#[test]
fn two_open_variables_are_bound_the_same_way_in_both_orders() {
    let build = |swap: bool| {
        let mut infcx = InferCtx::new(TyCtx::new());
        let a = infcx.new_infer_var(sp());
        let b = infcx.new_infer_var(sp());
        let r = if swap { infcx.equate(sp(), b, a) } else { infcx.equate(sp(), a, b) };
        assert!(r.is_ok());
        (infcx.vars.clone(), a)
    };
    let (one, a) = build(false);
    let (two, _) = build(true);
    assert_eq!(one, two);
    // the younger variable is bound to the older one
    assert_eq!(one, vec![None, Some(a)]);
}

#[test]
fn a_mismatch_binds_nothing_and_carries_both_types() {
    let mut infcx = InferCtx::new(TyCtx::new());
    let types = infcx.tcx.types();
    let v = infcx.new_infer_var(sp());
    let left = infcx.tcx.mk_fn_ty(vec![v], types.int);
    let right = infcx.tcx.mk_fn_ty(vec![types.bool], types.char);
    let at = Span::new(FileIdx(0), 3, 9);
    let err = infcx.equate(at, left, right).unwrap_err();
    assert_eq!(err.span, at);
    assert_eq!(err.expected, left);
    assert_eq!(err.found, right);
    assert_eq!(infcx.vars, vec![None]);

    // a different number of arguments is a mismatch too
    let one = infcx.tcx.mk_tup(vec![types.int]);
    let two = infcx.tcx.mk_tup(vec![types.int, types.int]);
    assert!(infcx.equate(sp(), one, two).is_err());
    assert!(infcx.equate(sp(), two, one).is_err());
}

#[test]
fn a_variable_is_not_bound_to_a_type_that_holds_it() {
    let mut infcx = InferCtx::new(TyCtx::new());
    let v = infcx.new_infer_var(sp());
    let wrapped = infcx.tcx.mk_box_ty(v);
    assert!(infcx.equate(sp(), v, wrapped).is_err());
    assert!(infcx.equate(sp(), wrapped, v).is_err());
    assert_eq!(infcx.vars, vec![None]);
}

#[test]
fn the_error_sentinel_equals_everything() {
    let mut infcx = InferCtx::new(TyCtx::new());
    let types = infcx.tcx.types();
    let v = infcx.new_infer_var(sp());
    let broken = infcx.tcx.mk_tup(vec![types.error, v]);
    assert_eq!(infcx.equate(sp(), broken, types.int), Ok(types.error));
    assert_eq!(infcx.equate(sp(), types.int, broken), Ok(types.error));
    assert_eq!(infcx.vars, vec![None]);
}

#[test]
fn a_binding_is_applied_to_the_older_bindings() {
    let mut infcx = InferCtx::new(TyCtx::new());
    let types = infcx.tcx.types();
    let a = infcx.new_infer_var(sp());
    let b = infcx.new_infer_var(sp());
    let boxed = infcx.tcx.mk_box_ty(b);
    infcx.equate(sp(), a, boxed).unwrap();
    infcx.equate(sp(), b, types.int).unwrap();
    let expected = infcx.tcx.mk_box_ty(types.int);
    assert_eq!(infcx.vars, vec![Some(expected), Some(types.int)]);
}

#[test]
fn instantiating_a_scheme_twice_gives_fresh_variables_each_time() {
    let mut infcx = InferCtx::new(TyCtx::new());
    let par_a = infcx.tcx.mk_ty_param(DefId(1), ParamIdx(0));
    let par_b = infcx.tcx.mk_ty_param(DefId(1), ParamIdx(1));
    let body = infcx.tcx.mk_fn_ty(vec![par_a], par_b);
    let scheme = infcx.tcx.mk_ty_scheme(Forall { binders: 2 }, body);

    let vars_of = |infcx: &InferCtx, t| match infcx.tcx.kind(t) {
        TyKind::Fn(params, ret) => {
            let var = |t| match infcx.tcx.con(t) {
                TyCon::Infer(InferTy::TyVar(v)) => v.0,
                c => panic!("no variable: {:?}", c),
            };
            (var(params[0]), var(ret))
        }
        _ => panic!("no function type"),
    };
    let first = infcx.instantiate(sp(), scheme);
    let second = infcx.instantiate(sp(), scheme);
    assert_eq!(vars_of(&infcx, first), (0, 1));
    assert_eq!(vars_of(&infcx, second), (2, 3));
    assert_ne!(first, second);
    assert_eq!(infcx.vars.len(), 4);
    // a type that is no scheme is handed back as it is
    assert_eq!(infcx.instantiate(sp(), body), body);
    assert_eq!(infcx.vars.len(), 4);
}

#[test]
fn the_final_form_of_a_type_has_no_variable() {
    let mut infcx = InferCtx::new(TyCtx::new());
    let types = infcx.tcx.types();
    let a = infcx.new_infer_var(sp());
    let b = infcx.new_infer_var(sp());
    infcx.equate(sp(), a, types.int).unwrap();
    let pair = infcx.tcx.mk_tup(vec![a, b]);
    let (closed, ambiguous) = infcx.close_ty(pair);
    assert!(ambiguous);
    let expected = infcx.tcx.mk_tup(vec![types.int, types.error]);
    assert_eq!(closed, expected);
    let (closed, ambiguous) = infcx.close_ty(a);
    assert!(!ambiguous);
    assert_eq!(closed, types.int);
}

#[test]
fn a_parameter_type_is_what_it_was_made_of() {
    let mut tcx = TyCtx::new();
    let p = param(&mut tcx, 3);
    assert_eq!(tcx.con(p), TyCon::Param(ParamTy { def_id: DefId(1), idx: ParamIdx(3) }));
}

#[test]
fn a_type_tells_what_it_is_made_of() {
    let mut tcx = TyCtx::new();
    let types = tcx.types();
    assert!(tcx.is_unit(types.unit));
    assert!(!tcx.is_unit(types.int));
    let pair = tcx.mk_tup(vec![types.int, types.bool]);
    assert!(!tcx.is_unit(pair));

    let f = tcx.mk_fn_ty(vec![types.int, types.char], types.bool);
    assert_eq!(tcx.expect_fn(f), (vec![types.int, types.char], types.bool));
    let scheme = tcx.mk_ty_scheme(Forall { binders: 3 }, f);
    assert_eq!(tcx.expect_scheme(scheme), (Forall { binders: 3 }, f));
    let array = tcx.mk_array_ty(types.int, 4);
    assert_eq!(tcx.con(array), TyCon::Array(4));
    assert_eq!(tcx.args(array), &vec![types.int]);
    let other = tcx.mk_array_ty(types.int, 5);
    assert_ne!(array, other);
}

#[test]
fn the_questions_about_a_type_follow_its_flags() {
    let mut tcx = TyCtx::new();
    let types = tcx.types();
    let p = param(&mut tcx, 0);
    let v = tcx.mk_ty(TyKind::Infer(InferTy::TyVar(TyVid(0))));
    let generic = tcx.mk_tup(vec![types.int, p]);
    let open = tcx.mk_box_ty(v);
    assert!(tcx.has_ty_params(generic) && !tcx.has_infer_vars(generic) && !tcx.contains_err(generic));
    assert!(!tcx.has_ty_params(open) && tcx.has_infer_vars(open) && !tcx.contains_err(open));
    assert!(tcx.contains_err(types.error));
    assert!(tcx.has_flags(generic, tcx.flags(p)));
    assert!(!tcx.has_flags(generic, tcx.flags(v)));
    assert!(!tcx.has_flags(types.int, tcx.flags(generic)));
}

fn ident(symbol: usize) -> Ident {
    Ident { span: sp(), symbol: Symbol(symbol) }
}

#[test]
fn a_struct_has_one_variant_and_an_enum_has_those_it_was_given() {
    let mut tcx = TyCtx::new();
    let types = tcx.types();
    let field = |name: usize, ty| FieldTy { def_id: DefId(1), ident: ident(name), vis: Visibility::Public, ty };
    let variant = VariantTy {
        ctor: None,
        ident: ident(0),
        fields: vec![field(1, types.int), field(2, types.bool), field(1, types.char)],
        ctor_kind: CtorKind::Struct,
    };
    let (s, errors) = tcx.mk_struct_ty(DefId(1), ident(0), variant);
    assert_eq!(s, AdtId(0));
    assert_eq!(errors.len(), 1);
    assert_eq!(errors[0].error, TypeError::FieldAlreadyDeclared(ident(1), ident(0)));
    assert_eq!(tcx.adt(s).kind, AdtKind::Struct);
    assert_eq!(tcx.adt(s).variants.len(), 1);
    assert_eq!(tcx.adt(s).variants.get(VariantIdx(0)).ident, ident(0));
    assert_eq!(tcx.adt(s).only_variant().fields.len(), 3);

    let unit_variant = |name: usize, ctor: usize| VariantTy {
        ctor: Some(DefId(ctor)),
        ident: ident(name),
        fields: vec![],
        ctor_kind: CtorKind::Unit,
    };
    let mut variants = Variants::new();
    assert_eq!(variants.push(unit_variant(6, 3)), VariantIdx(0));
    assert_eq!(variants.push(unit_variant(7, 4)), VariantIdx(1));
    assert_eq!(variants.get(VariantIdx(1)).ident, ident(7));
    let (e, errors) = tcx.mk_enum_ty(DefId(2), ident(5), variants);
    assert_eq!(e, AdtId(1));
    assert!(errors.is_empty());
    assert_eq!(tcx.adt(e).kind, AdtKind::Enum);
    assert_eq!(tcx.adt(e).variants.len(), 2);
    assert_eq!(tcx.adt_count(), 2);
    let ty = tcx.mk_adt_ty(e, vec![]);
    assert_eq!(tcx.expect_adt(ty), e);
}

#[test]
fn a_constant_has_the_type_of_its_kind() {
    let tcx = TyCtx::new();
    let types = tcx.types();
    assert_eq!(tcx.mk_const_int(-3).kind, ConstKind::Int(-3));
    assert_eq!(tcx.mk_const_int(-3).ty, types.int);
    assert_eq!(tcx.mk_const_bool(true).ty, types.bool);
    assert_eq!(tcx.mk_const_float(7).ty, types.float);
    assert_eq!(tcx.mk_const_discr(VariantIdx(2)).ty, types.discr);
    assert_eq!(tcx.mk_const_discr(VariantIdx(2)).kind, ConstKind::Discr(VariantIdx(2)));
    assert_eq!(tcx.mk_const_unit().ty, types.unit);
    assert_eq!(tcx.mk_const(ConstKind::Unit), tcx.mk_const_unit());
}

fn steps(l: &Lvalue) -> Vec<Projection> {
    let mut out = Vec::new();
    let mut cur = &l.projs;
    while let List::Cons(p, rest) = cur {
        out.push(*p);
        cur = rest;
    }
    out
}

#[test]
fn a_projection_goes_one_step_into_a_place() {
    let mut tcx = TyCtx::new();
    let types = tcx.types();
    let boxed = tcx.mk_box_ty(types.int);
    let ptr = tcx.mk_ptr_ty(types.bool);
    assert_eq!(tcx.apply_projection(boxed, Projection::Deref), types.int);
    assert_eq!(tcx.apply_projection(ptr, Projection::Deref), types.bool);
    assert_eq!(tcx.apply_projection(boxed, Projection::Field(FieldIdx(1), types.char)), types.char);
    assert_eq!(tcx.apply_projection(boxed, Projection::PointerCast(ptr)), ptr);

    let whole = Lvalue { id: VarId(3), projs: List::Nil };
    let field = tcx.project_field(whole, FieldIdx(1), types.int);
    assert_eq!(field.id, VarId(3));
    assert_eq!(steps(&field), vec![Projection::Field(FieldIdx(1), types.int)]);
    let inner = tcx.project_deref(field);
    assert_eq!(steps(&inner), vec![Projection::Field(FieldIdx(1), types.int), Projection::Deref]);
}

#[test]
fn after_a_successful_equate_both_sides_are_the_same_type() {
    let mut infcx = InferCtx::new(TyCtx::new());
    let types = infcx.tcx.types();
    let a = infcx.new_infer_var(sp());
    let b = infcx.new_infer_var(sp());
    let c = infcx.new_infer_var(sp());
    let boxed = infcx.tcx.mk_box_ty(c);
    let left = infcx.tcx.mk_fn_ty(vec![a, boxed, types.int], b);
    let inner = infcx.tcx.mk_tup(vec![c, c]);
    let right = infcx.tcx.mk_fn_ty(vec![inner, b, c], a);
    // a := (c, c), b := box c, c := int, and (c, c) = box c fails
    assert!(infcx.equate(sp(), left, right).is_err());
    assert_eq!(infcx.vars, vec![None, None, None]);

    let right = infcx.tcx.mk_fn_ty(vec![inner, b, c], boxed);
    assert!(infcx.equate(sp(), left, right).is_ok());
    let l = infcx.resolve_ty(left);
    let r = infcx.resolve_ty(right);
    assert_eq!(l, r);
    let pair = infcx.tcx.mk_tup(vec![types.int, types.int]);
    let cell = infcx.tcx.mk_box_ty(types.int);
    let expected = infcx.tcx.mk_fn_ty(vec![pair, cell, types.int], cell);
    assert_eq!(l, expected);
    // no bound variable is left in a binding
    assert_eq!(infcx.vars, vec![Some(pair), Some(cell), Some(types.int)]);
}
