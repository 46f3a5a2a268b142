//! Decoding a frontmatter block with the decoder of its notation.

use vstd::prelude::*;
use vstd::string::StringSliceAdditionalSpecFns;
use vstd::utf8::decode_utf8;

use crate::error::FrontmatterError;
use crate::format::FrontmatterFormat;
use crate::split::{split, split_spec, trimmed_bytes, SplitFrontmatter};

verus! {

/// Whether blocks in JSON are decoded; a block of a notation that is switched
/// off is still found, and its decoding fails with `DisabledFormat`.
pub const JSON_ENABLED: bool = true;

/// Whether blocks in TOML are decoded.
pub const TOML_ENABLED: bool = true;

/// Whether blocks in YAML are decoded.
pub const YAML_ENABLED: bool = true;

/// Whether blocks in notation `f` are decoded.
pub open spec fn enabled(f: FrontmatterFormat) -> bool {
    match f {
        FrontmatterFormat::Json => JSON_ENABLED,
        FrontmatterFormat::Toml => TOML_ENABLED,
        FrontmatterFormat::Yaml => YAML_ENABLED,
    }
}

/// Whether `serde_json::from_str` reads `s` as a `serde_json::Value`, that is
/// whether `s` is well-formed JSON.
pub uninterp spec fn json_accepts(s: Seq<char>) -> bool;

/// Whether `toml::from_str` reads `s` as a `toml::Value`.
pub uninterp spec fn toml_accepts(s: Seq<char>) -> bool;

/// Whether `serde_yaml::from_str` reads `s` as a `serde_yaml::Value`.
pub uninterp spec fn yaml_accepts(s: Seq<char>) -> bool;

/// Whether the decoder of notation `f` reads `s`.
pub open spec fn accepts(f: FrontmatterFormat, s: Seq<char>) -> bool {
    match f {
        FrontmatterFormat::Json => json_accepts(s),
        FrontmatterFormat::Toml => toml_accepts(s),
        FrontmatterFormat::Yaml => yaml_accepts(s),
    }
}

/// Relies on `serde_json::from_str` with `serde_json::Value` as target: it
/// succeeds exactly on well-formed JSON.
#[verifier::external_body]
fn read_json(s: &str) -> (r: Result<serde_json::Value, serde_json::Error>)
    ensures
        r is Ok <==> json_accepts(s@),
{
    serde_json::from_str(s)
}

/// Relies on `toml::from_str` with `toml::Value` as target: it succeeds
/// exactly on well-formed TOML.
#[verifier::external_body]
fn read_toml(s: &str) -> (r: Result<toml::Value, toml::de::Error>)
    ensures
        r is Ok <==> toml_accepts(s@),
{
    toml::from_str(s)
}

/// Relies on `serde_yaml::from_str` with `serde_yaml::Value` as target: it
/// succeeds exactly on well-formed YAML.
#[verifier::external_body]
fn read_yaml(s: &str) -> (r: Result<serde_yaml::Value, serde_yaml::Error>)
    ensures
        r is Ok <==> yaml_accepts(s@),
{
    serde_yaml::from_str(s)
}

/// A decoded frontmatter block, in the document model of its notation.
#[derive(Debug)]
pub enum FrontmatterValue {
    /// A JSON block.
    Json(serde_json::Value),
    /// A TOML block.
    Toml(toml::Value),
    /// A YAML block.
    Yaml(serde_yaml::Value),
}

impl FrontmatterValue {
    /// The notation the value was read from.
    pub open spec fn format(self) -> FrontmatterFormat {
        match self {
            FrontmatterValue::Json(_) => FrontmatterFormat::Json,
            FrontmatterValue::Toml(_) => FrontmatterFormat::Toml,
            FrontmatterValue::Yaml(_) => FrontmatterFormat::Yaml,
        }
    }
}

/// `e` is the syntax error of notation `f`.
pub open spec fn is_syntax_error(e: FrontmatterError, f: FrontmatterFormat) -> bool {
    match f {
        FrontmatterFormat::Json => e is InvalidJson,
        FrontmatterFormat::Toml => e is InvalidToml,
        FrontmatterFormat::Yaml => e is InvalidYaml,
    }
}

/// `r` is the outcome of decoding text `s` in notation `f`: `DisabledFormat`
/// when its decoder is switched off, else a value of notation `f` exactly when
/// the decoder reads `s`, and the syntax error of `f` when it does not.
pub open spec fn decoded_as(
    r: Result<FrontmatterValue, FrontmatterError>,
    f: FrontmatterFormat,
    s: Seq<char>,
) -> bool {
    if !enabled(f) {
        r == Err::<FrontmatterValue, FrontmatterError>(FrontmatterError::DisabledFormat(f.label()))
    } else {
        &&& (r is Ok <==> accepts(f, s))
        &&& (r is Ok ==> r->Ok_0.format() == f)
        &&& (r is Err ==> is_syntax_error(r->Err_0, f))
    }
}

impl FrontmatterFormat {
    /// Decodes `matter_str` with the decoder of this notation.
    pub fn parse(&self, matter_str: &str) -> (r: Result<FrontmatterValue, FrontmatterError>)
        ensures
            decoded_as(r, *self, matter_str@),
    {
        match self {
            FrontmatterFormat::Json => {
                if !JSON_ENABLED {
                    return Err(FrontmatterError::DisabledFormat(<&'static str>::from(*self)));
                }
                match read_json(matter_str) {
                    Ok(v) => Ok(FrontmatterValue::Json(v)),
                    Err(e) => Err(FrontmatterError::InvalidJson(e)),
                }
            },
            FrontmatterFormat::Toml => {
                if !TOML_ENABLED {
                    return Err(FrontmatterError::DisabledFormat(<&'static str>::from(*self)));
                }
                match read_toml(matter_str) {
                    Ok(v) => Ok(FrontmatterValue::Toml(v)),
                    Err(e) => Err(FrontmatterError::InvalidToml(e)),
                }
            },
            FrontmatterFormat::Yaml => {
                if !YAML_ENABLED {
                    return Err(FrontmatterError::DisabledFormat(<&'static str>::from(*self)));
                }
                match read_yaml(matter_str) {
                    Ok(v) => Ok(FrontmatterValue::Yaml(v)),
                    Err(e) => Err(FrontmatterError::InvalidYaml(e)),
                }
            },
        }
    }
}

/// The block that stands in for a document without one: an empty JSON object
/// when JSON is decoded, else an empty TOML document, else an empty YAML
/// mapping.
pub open spec fn default_matter() -> (FrontmatterFormat, Seq<char>) {
    if JSON_ENABLED {
        (FrontmatterFormat::Json, seq!['{', '}'])
    } else if TOML_ENABLED {
        (FrontmatterFormat::Toml, Seq::empty())
    } else {
        (FrontmatterFormat::Yaml, seq!['{', '}'])
    }
}

impl Default for SplitFrontmatter<'_> {
    fn default() -> (r: Self)
        ensures
            (r.0, r.1@) == default_matter(),
    {
        // At least one notation must be decoded.
        assert(JSON_ENABLED || TOML_ENABLED || YAML_ENABLED);
        proof {
            reveal_strlit("{}");
            reveal_strlit("");
        }
        if JSON_ENABLED {
            SplitFrontmatter(FrontmatterFormat::Json, "{}")
        } else if TOML_ENABLED {
            SplitFrontmatter(FrontmatterFormat::Toml, "")
        } else {
            SplitFrontmatter(FrontmatterFormat::Yaml, "{}")
        }
    }
}

/// Splits a document and decodes its frontmatter, or the stand-in block of
/// `default_matter` where it has none, returning the decoded value and the
/// body.
pub fn parse(content: &str) -> (r: Result<(FrontmatterValue, &str), FrontmatterError>)
    ensures
        match split_spec(trimmed_bytes(content@)) {
            Err(f) => r == Err::<(FrontmatterValue, &str), FrontmatterError>(
                FrontmatterError::AbsentClosingDelimiter(f.label()),
            ),
            Ok((block, body)) => {
                let (f, text) = match block {
                    Some((f, matter)) => (f, decode_utf8(matter)),
                    None => default_matter(),
                };
                &&& decoded_as(
                    match r {
                        Ok((v, _)) => Ok(v),
                        Err(e) => Err(e),
                    },
                    f,
                    text,
                )
                &&& (r is Ok ==> r->Ok_0.1.spec_bytes() == body)
            },
        },
{
    let (block, body) = match split(content) {
        Ok(pair) => pair,
        Err(e) => return Err(e),
    };
    let SplitFrontmatter(format, matter_str) = match block {
        Some(b) => b,
        None => SplitFrontmatter::default(),
    };
    proof {
        vstd::utf8::encode_utf8_decode_utf8(matter_str@);
    }
    match format.parse(matter_str) {
        Ok(v) => Ok((v, body)),
        Err(e) => Err(e),
    }
}

} // verus!
