//! What holds of the library as a whole.
pub mod batch;
pub mod insurance;
pub mod instruction;
pub mod layout;
pub mod legs;
pub mod matching;
pub mod meaning;
pub mod pricing;
pub mod state;
pub mod terms;
pub mod wire;
