//! Resolution of the latest versioned image recipe of a family and the
//! conditional promotion of its build pipeline onto a new base image.

pub mod promote;
pub mod select;
pub mod version;
