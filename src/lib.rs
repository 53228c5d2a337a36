//! Records for a shared-plot gardening scheme: users, plots, activities,
//! resources and events, kept in keyed stores with one identifier counter,
//! field validation and an administrator gate on every update and delete.

pub mod store;
pub mod pattern;
pub mod records;
pub mod registry;
pub mod users;
pub mod plots;
pub mod activities;
pub mod resources;
pub mod events;
pub mod laws;
