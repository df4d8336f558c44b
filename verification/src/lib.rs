//! A software bill of materials between its canonical form and the markup
//! of schema version 1.3, with the services of a document as the records.
//!
//! The canonical model (`models`, `external_models`) holds validated text
//! and open enumerations. A schema version (`specs::v1_3`) holds the same
//! records with plain text, converts them to and from the canonical model,
//! says as an element tree what their markup is, and reads them back from
//! such a tree. The markup model (`markup`, `lookup`, `parser`) is that tree
//! and its event stream. `writer` and `reader` hand the events to the `xml`
//! crate and take them from it.
pub mod errors;
pub mod external_models;
pub mod lookup;
pub mod markup;
pub mod models;
pub mod parser;
pub mod reader;
pub mod specs;
pub mod utilities;
pub mod writer;
