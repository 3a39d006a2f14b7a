//! Mission lifecycle and crew roster rules, verified with Verus.
//!
//! A mission is created by its chief, gathers a crew of bounded size, and is
//! driven by the chief through `Open -> InProgress -> Completed | Failed`.
//!
//! - [`mission_statuses`], [`errors`], [`missions`]: the status, the typed
//!   failures with their reasons, and the records.
//! - [`model`]: the rules as mathematics: the verdict on each operation, the
//!   state it leaves behind, and units of work.
//! - [`mission_operation`], [`crew_operation`], [`mission_viewing`]: the
//!   lifecycle engine, the roster manager and the read-only views.
//! - [`store`], [`transaction`]: the in-memory stores and all-or-nothing
//!   units of work.
//! - [`laws`]: what holds of every mission, proved from the model.
//! - [`authentication`], [`brawlers`], [`brawler_model`], [`friendships`],
//!   [`base64_image`], [`cloudinary`], [`stage`], [`text`]: the rules around
//!   accounts, avatars and configuration.

pub mod authentication;
pub mod base64_image;
pub mod brawler_model;
pub mod brawlers;
pub mod cloudinary;
pub mod crew_operation;
pub mod errors;
pub mod friendships;
pub mod laws;
pub mod mission_operation;
pub mod mission_statuses;
pub mod mission_viewing;
pub mod missions;
pub mod model;
pub mod stage;
pub mod store;
pub mod text;
pub mod transaction;
