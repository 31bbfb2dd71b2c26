use vstd::prelude::*;

verus! {

/// Configures an extraction before it is run.
#[derive(Debug, Clone)]
pub struct PdfExtractorBuilder {
    password: Option<String>,
}

/// An extraction with its options fixed.
#[derive(Debug, Clone)]
pub struct PdfExtractor {
    password: Option<String>,
}

/// The text of an optional string.
pub open spec fn option_text(s: Option<String>) -> Option<Seq<char>> {
    match s {
        Some(text) => Some(text@),
        None => None,
    }
}

impl View for PdfExtractorBuilder {
    type V = Option<Seq<char>>;

    /// The password that was set, if any.
    closed spec fn view(&self) -> Option<Seq<char>> {
        option_text(self.password)
    }
}

impl View for PdfExtractor {
    type V = Option<Seq<char>>;

    /// The password that the extraction was configured with, if any.
    closed spec fn view(&self) -> Option<Seq<char>> {
        option_text(self.password)
    }
}

impl PdfExtractorBuilder {
    /// A builder with no password set.
    pub fn new() -> (builder: Self)
        ensures
            builder@ is None,
    {
        PdfExtractorBuilder { password: None }
    }

    /// Sets the password with which an encrypted document is opened.
    pub fn password(self, password: &str) -> (builder: Self)
        ensures
            builder@ == Some(password@),
    {
        PdfExtractorBuilder { password: Some(password.to_owned()) }
    }

    /// Fixes the options.
    pub fn build(self) -> (extractor: PdfExtractor)
        ensures
            extractor@ == self@,
    {
        PdfExtractor { password: self.password }
    }
}

impl Default for PdfExtractorBuilder {
    fn default() -> (builder: Self)
        ensures
            builder@ is None,
    {
        PdfExtractorBuilder { password: None }
    }
}

impl Default for PdfExtractor {
    fn default() -> (extractor: Self)
        ensures
            extractor@ is None,
    {
        PdfExtractor { password: None }
    }
}

impl PdfExtractor {
    /// A builder with no password set.
    pub fn builder() -> (builder: PdfExtractorBuilder)
        ensures
            builder@ is None,
    {
        PdfExtractorBuilder::new()
    }

    /// The password to try on an encrypted document: the configured one, or the
    /// empty password where none was set.
    pub fn decryption_password(&self) -> (password: &str)
        ensures
            password@ == match self@ {
                Some(text) => text,
                None => Seq::<char>::empty(),
            },
    {
        match &self.password {
            Some(text) => text.as_str(),
            None => {
                proof {
                    reveal_strlit("");
                }
                ""
            },
        }
    }
}

} // verus!
