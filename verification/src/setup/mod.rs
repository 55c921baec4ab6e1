//! The guided installer: what it finds on a box, what is chosen, the plan that follows, and the
//! text around it. A plan is data; running it is the caller's.

pub mod choices;
pub mod exec;
pub mod facts;
pub mod laws;
pub mod plan;
pub mod platform;
pub mod report;
pub mod ui;
