use vstd::prelude::*;

verus! {

#[verifier::external_type_specification]
#[verifier::external_body]
pub struct ExVoid(void::Void);

/// A value-set entry written either as a plain string or as an IRI stem.
#[derive(Debug, PartialEq, Eq)]
pub enum StringOrIriStem {
    String(String),
    IriStem { stem: String },
}

/// A `StringOrIriStem` that is written as a bare string when it is one.
#[derive(Debug, PartialEq, Eq)]
pub struct StringOrIriStemWrapper {
    pub s: StringOrIriStem,
}

impl StringOrIriStem {
    /// The plain-string form of `s`.
    pub fn from_text(s: &str) -> (r: StringOrIriStem)
        ensures
            r matches StringOrIriStem::String(x) && x@ == s@,
    {
        StringOrIriStem::String(s.to_owned())
    }
}

impl std::str::FromStr for StringOrIriStem {
    type Err = void::Void;

    fn from_str(s: &str) -> Result<StringOrIriStem, void::Void> {
        Ok(StringOrIriStem::from_text(s))
    }
}

} // verus!
