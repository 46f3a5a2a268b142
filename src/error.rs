//! What can go wrong when a document is split or its frontmatter decoded.

use vstd::prelude::*;

verus! {

/// The error type of splitting and decoding.
#[derive(Debug)]
pub enum FrontmatterError {
    /// A block was found in a notation whose decoder is switched off.
    DisabledFormat(&'static str),
    /// An opening delimiter line has no matching closing line.
    AbsentClosingDelimiter(&'static str),
    /// The block is not well-formed JSON.
    InvalidJson(serde_json::Error),
    /// The block is not well-formed TOML.
    InvalidToml(toml::de::Error),
    /// The block is not well-formed YAML.
    InvalidYaml(serde_yaml::Error),
    /// Well-formed JSON that does not fit the target type.
    DeserializeJson(serde_json::Error),
    /// Well-formed TOML that does not fit the target type.
    DeserializeToml(toml::de::Error),
    /// Well-formed YAML that does not fit the target type.
    DeserializeYaml(serde_yaml::Error),
}

} // verus!
