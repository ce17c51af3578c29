//! The text encodings a ciphertext may arrive in.

use vstd::prelude::*;
use vstd::string::*;

use crate::text::{lowercased, to_lowercase};

verus! {

/// How the bytes of a ciphertext are written as text.
#[derive(Clone, Copy, Debug, PartialEq, Eq, Structural)]
pub enum Encoding {
    Hex,
    Base64,
    Base64Url,
}

/// What the user says of the encoding: one of them, or to find it out.
#[derive(Clone, Copy, Debug, PartialEq, Eq, Structural)]
pub enum EncodingOption {
    Auto,
    Hex,
    Base64,
    Base64Url,
}

/// A text that names no encoding, or an option that fixes none.
#[derive(Clone, Copy, Debug, PartialEq, Eq, Structural)]
pub enum EncodingError {
    /// The text is not the name of an encoding.
    UnknownName,
    /// `EncodingOption::Auto` stands for no single encoding.
    AutoIsNotSpecific,
}

/// The encoding that `name` stands for, where it is one of `hex`, `base64`
/// and `base64url`.
pub open spec fn encoding_named(name: Seq<char>) -> Option<Encoding> {
    if name == "hex"@ {
        Some(Encoding::Hex)
    } else if name == "base64"@ {
        Some(Encoding::Base64)
    } else if name == "base64url"@ {
        Some(Encoding::Base64Url)
    } else {
        None
    }
}

/// The option that `name` stands for: `auto` or the name of an encoding.
pub open spec fn option_named(name: Seq<char>) -> Option<EncodingOption> {
    if name == "auto"@ {
        Some(EncodingOption::Auto)
    } else {
        match encoding_named(name) {
            Some(encoding) => Some(EncodingOption::spec_from_encoding(encoding)),
            None => None,
        }
    }
}

fn text_is(text: &str, word: &str) -> (same: bool)
    ensures
        same == (text@ == word@),
{
    let left = String::from_str(text);
    let right = String::from_str(word);
    left == right
}

impl Encoding {
    /// Reads an encoding from its name, in lower case.
    pub fn parse(input: &str) -> (encoding: Result<Encoding, EncodingError>)
        ensures
            match encoding_named(input@) {
                Some(named) => encoding == Ok::<Encoding, EncodingError>(named),
                None => encoding == Err::<Encoding, EncodingError>(EncodingError::UnknownName),
            },
    {
        if text_is(input, "hex") {
            Ok(Encoding::Hex)
        } else if text_is(input, "base64") {
            Ok(Encoding::Base64)
        } else if text_is(input, "base64url") {
            Ok(Encoding::Base64Url)
        } else {
            Err(EncodingError::UnknownName)
        }
    }

    /// The name of the encoding.
    pub fn name(&self) -> (name: &'static str)
        ensures
            encoding_named(name@) == Some(*self),
    {
        proof {
            lemma_names_differ();
        }
        match self {
            Encoding::Hex => "hex",
            Encoding::Base64 => "base64",
            Encoding::Base64Url => "base64url",
        }
    }

    /// The encoding that an option fixes; `Auto` fixes none.
    pub fn try_from_option(option: &EncodingOption) -> (encoding: Result<Encoding, EncodingError>)
        ensures
            encoding == (match *option {
                EncodingOption::Hex => Ok::<Encoding, EncodingError>(Encoding::Hex),
                EncodingOption::Base64 => Ok(Encoding::Base64),
                EncodingOption::Base64Url => Ok(Encoding::Base64Url),
                EncodingOption::Auto => Err(EncodingError::AutoIsNotSpecific),
            }),
    {
        match option {
            EncodingOption::Hex => Ok(Encoding::Hex),
            EncodingOption::Base64 => Ok(Encoding::Base64),
            EncodingOption::Base64Url => Ok(Encoding::Base64Url),
            EncodingOption::Auto => Err(EncodingError::AutoIsNotSpecific),
        }
    }
}

/// The four names are pairwise different texts.
pub proof fn lemma_names_differ()
    ensures
        "hex"@ != "base64"@,
        "hex"@ != "base64url"@,
        "base64"@ != "base64url"@,
        "auto"@ != "hex"@,
        "auto"@ != "base64"@,
        "auto"@ != "base64url"@,
{
    reveal_strlit("hex");
    reveal_strlit("base64");
    reveal_strlit("base64url");
    reveal_strlit("auto");
    assert("hex"@.len() == 3);
    assert("auto"@.len() == 4);
    assert("base64"@.len() == 6);
    assert("base64url"@.len() == 9);
}

impl EncodingOption {
    /// The option that fixes `encoding`.
    pub open spec fn spec_from_encoding(encoding: Encoding) -> EncodingOption {
        match encoding {
            Encoding::Hex => EncodingOption::Hex,
            Encoding::Base64 => EncodingOption::Base64,
            Encoding::Base64Url => EncodingOption::Base64Url,
        }
    }

    /// The option that fixes `encoding`.
    pub fn from_encoding(encoding: &Encoding) -> (option: EncodingOption)
        ensures
            option == Self::spec_from_encoding(*encoding),
    {
        match encoding {
            Encoding::Hex => EncodingOption::Hex,
            Encoding::Base64 => EncodingOption::Base64,
            Encoding::Base64Url => EncodingOption::Base64Url,
        }
    }

    /// Every option, in the order in which they are listed to the user.
    pub fn variants() -> (all: Vec<EncodingOption>)
        ensures
            all@ == seq![
                EncodingOption::Auto,
                EncodingOption::Hex,
                EncodingOption::Base64,
                EncodingOption::Base64Url,
            ],
    {
        let mut all: Vec<EncodingOption> = Vec::new();
        all.push(EncodingOption::Auto);
        all.push(EncodingOption::Hex);
        all.push(EncodingOption::Base64);
        all.push(EncodingOption::Base64Url);
        all
    }

    /// The name of the option.
    pub fn name(&self) -> (name: &'static str)
        ensures
            option_named(name@) == Some(*self),
    {
        proof {
            lemma_names_differ();
        }
        match self {
            EncodingOption::Auto => "auto",
            EncodingOption::Hex => "hex",
            EncodingOption::Base64 => "base64",
            EncodingOption::Base64Url => "base64url",
        }
    }

    /// Reads an option from its name, whatever the case of its letters.
    pub fn parse(input: &str) -> (option: Result<EncodingOption, EncodingError>)
        ensures
            option == Self::parse_lowercase(lowercased(input@)),
    {
        let lower = to_lowercase(input);
        Self::from_lowercase(lower.as_str())
    }

    /// What `parse` makes of a text once it is in lower case.
    pub open spec fn parse_lowercase(lower: Seq<char>) -> Result<EncodingOption, EncodingError> {
        match option_named(lower) {
            Some(named) => Ok(named),
            None => Err(EncodingError::UnknownName),
        }
    }

    /// Reads an option from its name in lower case.
    pub fn from_lowercase(lower: &str) -> (option: Result<EncodingOption, EncodingError>)
        ensures
            option == Self::parse_lowercase(lower@),
    {
        if text_is(lower, "auto") {
            Ok(EncodingOption::Auto)
        } else if text_is(lower, "hex") {
            Ok(EncodingOption::Hex)
        } else if text_is(lower, "base64") {
            Ok(EncodingOption::Base64)
        } else if text_is(lower, "base64url") {
            Ok(EncodingOption::Base64Url)
        } else {
            Err(EncodingError::UnknownName)
        }
    }
}

} // verus!
