//! The three frontmatter notations and their delimiter lines.

use vstd::prelude::*;
use vstd::string::{is_ascii, is_ascii_spec_bytes, StringSliceAdditionalSpecFns};

verus! {

/// `{`, the line that opens a JSON block.
pub const LEFT_BRACE: u8 = 0x7b;

/// `}`, the line that closes a JSON block.
pub const RIGHT_BRACE: u8 = 0x7d;

/// `+`, thrice on the lines around a TOML block.
pub const PLUS: u8 = 0x2b;

/// `-`, thrice on the lines around a YAML block.
pub const HYPHEN: u8 = 0x2d;

/// The notation of a frontmatter block.
#[derive(Debug, Clone, Copy, PartialEq, Eq, Structural)]
pub enum FrontmatterFormat {
    /// JSON frontmatter, denoted by `{...}`.
    Json,
    /// TOML frontmatter, denoted by `+++...+++`.
    Toml,
    /// YAML frontmatter, denoted by `---...---`.
    Yaml,
}

impl FrontmatterFormat {
    /// The bytes of the line that opens a block of this notation.
    pub open spec fn opening(self) -> Seq<u8> {
        match self {
            FrontmatterFormat::Json => seq![LEFT_BRACE],
            FrontmatterFormat::Toml => seq![PLUS, PLUS, PLUS],
            FrontmatterFormat::Yaml => seq![HYPHEN, HYPHEN, HYPHEN],
        }
    }

    /// The bytes of the line that closes a block of this notation.
    pub open spec fn closing(self) -> Seq<u8> {
        match self {
            FrontmatterFormat::Json => seq![RIGHT_BRACE],
            FrontmatterFormat::Toml => seq![PLUS, PLUS, PLUS],
            FrontmatterFormat::Yaml => seq![HYPHEN, HYPHEN, HYPHEN],
        }
    }

    /// The notation that a first line opens, trying JSON, TOML and YAML in
    /// that order.
    pub open spec fn opened_by(line: Seq<u8>) -> Option<FrontmatterFormat> {
        if line == FrontmatterFormat::Json.opening() {
            Some(FrontmatterFormat::Json)
        } else if line == FrontmatterFormat::Toml.opening() {
            Some(FrontmatterFormat::Toml)
        } else if line == FrontmatterFormat::Yaml.opening() {
            Some(FrontmatterFormat::Yaml)
        } else {
            None
        }
    }

    /// The upper-case name of the notation, as error values carry it.
    pub open spec fn label(self) -> &'static str {
        match self {
            FrontmatterFormat::Json => "JSON",
            FrontmatterFormat::Toml => "TOML",
            FrontmatterFormat::Yaml => "YAML",
        }
    }

    /// Detects the frontmatter format from the first line of a document.
    pub fn detect(first_line: &str) -> (r: Option<Self>)
        ensures
            r == Self::opened_by(first_line.spec_bytes()),
    {
        let line = first_line.as_bytes();
        if bytes_equal(line, FrontmatterFormat::Json.delimiter().0.as_bytes()) {
            Some(FrontmatterFormat::Json)
        } else if bytes_equal(line, FrontmatterFormat::Toml.delimiter().0.as_bytes()) {
            Some(FrontmatterFormat::Toml)
        } else if bytes_equal(line, FrontmatterFormat::Yaml.delimiter().0.as_bytes()) {
            Some(FrontmatterFormat::Yaml)
        } else {
            None
        }
    }

    /// The opening and the closing delimiter line of this notation.
    pub fn delimiter(&self) -> (r: (&'static str, &'static str))
        ensures
            r.0.spec_bytes() == self.opening(),
            r.1.spec_bytes() == self.closing(),
    {
        proof {
            reveal_strlit("{");
            reveal_strlit("}");
            reveal_strlit("+++");
            reveal_strlit("---");
        }
        match self {
            FrontmatterFormat::Json => {
                let r = ("{", "}");
                proof {
                    lemma_ascii_bytes(r.0);
                    lemma_ascii_bytes(r.1);
                }
                r
            },
            FrontmatterFormat::Toml => {
                let r = ("+++", "+++");
                proof {
                    lemma_ascii_bytes(r.0);
                }
                r
            },
            FrontmatterFormat::Yaml => {
                let r = ("---", "---");
                proof {
                    lemma_ascii_bytes(r.0);
                }
                r
            },
        }
    }
}

impl From<FrontmatterFormat> for &'static str {
    fn from(format: FrontmatterFormat) -> (r: &'static str) {
        match format {
            FrontmatterFormat::Json => "JSON",
            FrontmatterFormat::Toml => "TOML",
            FrontmatterFormat::Yaml => "YAML",
        }
    }
}

impl vstd::std_specs::convert::FromSpecImpl<FrontmatterFormat> for &'static str {
    open spec fn obeys_from_spec() -> bool {
        true
    }

    open spec fn from_spec(format: FrontmatterFormat) -> &'static str {
        format.label()
    }
}

/// An ASCII string is encoded as one byte per character.
proof fn lemma_ascii_bytes(s: &str)
    requires
        is_ascii(s),
    ensures
        s.spec_bytes() =~= Seq::new(s@.len(), |i: int| s@[i] as u8),
{
    is_ascii_spec_bytes(s);
}

/// Byte-wise equality of two slices.
pub fn bytes_equal(a: &[u8], b: &[u8]) -> (r: bool)
    ensures
        r == (a@ == b@),
{
    if a.len() != b.len() {
        return false;
    }
    let mut i: usize = 0;
    while i < a.len()
        invariant
            a@.len() == b@.len(),
            i <= a@.len(),
            forall|k: int| 0 <= k < i ==> a@[k] == b@[k],
        decreases a@.len() - i,
    {
        if a[i] != b[i] {
            return false;
        }
        i = i + 1;
    }
    assert(a@ =~= b@);
    true
}

} // verus!
