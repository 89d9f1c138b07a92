//! A pattern-matching evaluator over a closed model of values.
//!
//! A value is matched against an ordered list of arms. Each arm holds a
//! pattern, an optional guard and the name of a handler. The first arm whose
//! pattern matches and whose guard holds is selected, and the names that its
//! pattern bound are handed back as a binding environment.

pub mod arm;
pub mod basics;
pub mod binding_laws;
pub mod bindings;
pub mod guard;
pub mod laws;
pub mod matcher;
pub mod names;
pub mod pattern;
pub mod schema;
pub mod semantics;
pub mod validate;
pub mod value;

pub use crate::arm::MatchArm;
pub use crate::basics::{add_one, fn_pointers, slices, types};
pub use crate::bindings::{Binding, BindingEnvironment, Bound};
pub use crate::guard::{Comparison, Guard};
pub use crate::matcher::{evaluate, structural_match, NoArmMatched};
pub use crate::pattern::{FieldPattern, Pattern, Scalar};
pub use crate::schema::{arity_of, conforms_to, CaseDeclaration, EnumDeclaration};
pub use crate::validate::{validate, Fault, PatternValidationError};
pub use crate::value::{Field, Value};
