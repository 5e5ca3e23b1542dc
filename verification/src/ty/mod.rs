//! Types: constructors, the interned store, and the terms that handles stand
//! for.

pub mod adt;
pub mod error;
pub mod flags;
pub mod kind;
pub mod query;
pub mod store;
pub mod subst;
pub mod term;

pub use adt::{AdtKind, AdtTy, CtorKind, FieldTy, VariantTy};
pub use error::{Diagnostic, TypeError, TypeMismatch, TypeResult};
pub use flags::TyFlags;
pub use query::TyFlag;
pub use kind::{AdtId, Forall, InferTy, Node, ParamTy, Ty, TyCon, TyKind};
pub use store::{CommonTypes, TyCtx, TyS};
pub use term::Term;
