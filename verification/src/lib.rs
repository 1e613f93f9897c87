//! Verified core of the okey command line: device path parsing, keyboard
//! listings, service status texts and the decision logic of the Windows
//! service and device queries.
pub mod text;
pub mod device;
pub mod name_search;
pub mod service;
pub mod launch;
