//! Time booking against a remote time-tracking service through short local
//! aliases: the alias store, the composition of bookings (including the
//! "fill" time mode), paginated listing, selection and the grouping of booked
//! hours for display.

pub mod book;
pub mod catalog;
pub mod command;
pub mod copy;
pub mod date;
pub mod error;
pub mod hours;
pub mod link;
pub mod order;
pub mod remote;
pub mod table;
pub mod text;
