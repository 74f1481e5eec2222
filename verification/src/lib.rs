//! Parser and integrity checker for UVCI strings (the unique vaccination
//! certificate identifiers of the EU Digital COVID Certificate scheme),
//! with serializers for a flat line, a readable listing and a set of
//! graph statements, and a curve-fit estimator of the vaccination date
//! for Swedish EHM-issued identifiers.

mod checksum;
mod date;
mod graph;
mod parser;
mod record;
mod serialize;
mod text;

pub use date::get_vaccination_date_tan;
pub use graph::{to_graph, uvci_to_graph, uvcis_to_graph};
pub use parser::parse;
pub use record::Uvci;
pub use serialize::{to_csv, uvci_to_csv};
