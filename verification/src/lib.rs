//! Validators of unions: an input is validated against several choices, and the union takes the
//! best match, the first match, or the choice that a tag of the input names.
//!
//! Each validator has a view that says what it does: which outcomes validating an input from a
//! state may have. The executable validators are proved against these views, and `laws` states
//! what follows of unions as a whole. The modules whose names end in `_laws` state what each kind
//! of validator is for, in terms of inputs and results alone.
pub mod choice_errors;
pub mod combined;
pub mod errors;
pub mod field;
pub mod laws;
pub mod model;
pub mod model_laws;
pub mod scalar;
pub mod schema;
pub mod schema_laws;
pub mod state;
pub mod tagged;
pub mod tagged_laws;
pub mod text;
pub mod text_laws;
pub mod union;
pub mod union_laws;
pub mod validator;
pub mod value;
pub mod value_laws;
