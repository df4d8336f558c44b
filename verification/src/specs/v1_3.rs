//! Schema version 1.3: its records, their conversion to and from the
//! canonical model, and their markup.
pub mod external_reference;
pub mod license;
pub mod organization;
pub mod property;
pub mod service;
pub mod service_laws;
pub mod service_markup;
pub mod service_reading;
