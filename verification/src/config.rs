//! The resolved options of one run, and the fixed defaults.

use vstd::prelude::*;

verus! {

/// Brightness adjustment applied when none was configured.
pub const DEFAULT_BRIGHTEN: i32 = 80;

/// Contrast adjustment, in whole percent, applied when none was
/// configured. The pixel transform takes a decimal percentage, so the
/// caller widens this constant at the call site.
pub const DEFAULT_CONTRAST_PERCENT: i32 = 40;

/// Output file name used when none was configured.
pub open spec fn default_output_spec() -> Seq<char> {
    "pdfified.pdf"@
}

/// The output name that a configured `output` option resolves to.
pub open spec fn resolved_output_spec(output: Option<Seq<char>>) -> Seq<char> {
    match output {
        Some(s) => s,
        None => default_output_spec(),
    }
}

/// The brightness amount that a configured `brighten` option resolves to.
pub open spec fn resolved_brighten_spec(brighten: Option<i32>) -> i32 {
    match brighten {
        Some(b) => b,
        None => DEFAULT_BRIGHTEN,
    }
}

/// One run's options, resolved once at startup and never mutated.
///
/// The contrast override is not held here: it is a decimal percentage,
/// which the verified plans never read; the caller keeps it beside this
/// configuration and hands it directly to the pixel transform, with
/// `DEFAULT_CONTRAST_PERCENT` as the fallback.
pub struct Config {
    /// Paths of the images to merge, in the order the PDF pages take.
    pub files: Vec<String>,
    /// Output file name; `None` means the fixed default.
    pub output: Option<String>,
    /// Whether to emit one progress line per stage and file.
    pub verbose: bool,
    /// Delete both the original and the processed files afterwards.
    pub delete_images: bool,
    /// Delete only the original files afterwards.
    pub delete_original: bool,
    /// Delete only the processed files afterwards.
    pub delete_processed: bool,
    /// Brightness override; `None` means the fixed default.
    pub brighten: Option<i32>,
}

impl Config {
    /// The configured output name, or the fixed default when none was given.
    pub fn resolve_output(&self) -> (r: String)
        ensures
            r@ == resolved_output_spec(self.output.deep_view()),
    {
        match &self.output {
            Some(s) => s.clone(),
            None => String::from_str("pdfified.pdf"),
        }
    }

    /// The configured brightness amount, or the fixed default when none was
    /// given.
    pub fn resolve_brighten(&self) -> (r: i32)
        ensures
            r == resolved_brighten_spec(self.brighten),
    {
        match self.brighten {
            Some(b) => b,
            None => DEFAULT_BRIGHTEN,
        }
    }
}

} // verus!
