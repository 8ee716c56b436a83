//! Selection of elements from parsed markup by composable filters, and
//! streaming serialisation of the selected elements as plain text, CSV,
//! JSON, XML or YAML.

pub mod text;
pub mod dom;
pub mod node;
pub mod scrap;
pub mod storage;
pub mod csv;
pub mod json;
pub mod xml;
pub mod yaml;
pub mod txt;
pub mod custom;
pub mod emit;
