//! Context variables, physical quantities, engine errors, the multi-domain
//! state container and the calculator interface.

pub mod calculator;
pub mod calculators;
pub mod compute;
pub mod error;
pub mod quantity;
pub mod state;
pub mod value;
pub mod variable;

pub use calculator::ContextCalculator;
pub use error::OxiflowError;
pub use variable::ContextVariable;
