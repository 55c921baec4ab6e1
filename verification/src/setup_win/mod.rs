//! The Windows setup wizard.

pub mod wizard;
