//! The terminal value of a job.

use vstd::prelude::*;

verus! {

/// How a job ended. Every job ends with exactly one of these, a failed one
/// too: a failure is a result with `success` unset and the reason in `error`.
#[derive(Debug)]
pub struct ConversionResult {
    pub success: bool,
    pub output_path: Option<String>,
    pub output_size: Option<u64>,
    pub error: Option<String>,
}

/// What a [`ConversionResult`] says, with its texts as sequences of
/// characters.
pub struct ConversionResultView {
    pub success: bool,
    pub output_path: Option<Seq<char>>,
    pub output_size: Option<u64>,
    pub error: Option<Seq<char>>,
}

/// The result of a job that wrote `size` bytes to `path`.
pub open spec fn success_of(path: Seq<char>, size: u64) -> ConversionResultView {
    ConversionResultView {
        success: true,
        output_path: Some(path),
        output_size: Some(size),
        error: None,
    }
}

/// The result of a job that failed for the reason `message`.
pub open spec fn failure_of(message: Seq<char>) -> ConversionResultView {
    ConversionResultView {
        success: false,
        output_path: None,
        output_size: None,
        error: Some(message),
    }
}

impl View for ConversionResult {
    type V = ConversionResultView;

    open spec fn view(&self) -> ConversionResultView {
        ConversionResultView {
            success: self.success,
            output_path: match self.output_path {
                Some(p) => Some(p@),
                None => None,
            },
            output_size: self.output_size,
            error: match self.error {
                Some(e) => Some(e@),
                None => None,
            },
        }
    }
}

impl Clone for ConversionResult {
    fn clone(&self) -> (r: Self)
        ensures
            r@ == self@,
    {
        ConversionResult {
            success: self.success,
            output_path: match &self.output_path {
                Some(p) => Some(p.clone()),
                None => None,
            },
            output_size: self.output_size,
            error: match &self.error {
                Some(e) => Some(e.clone()),
                None => None,
            },
        }
    }
}

impl ConversionResult {
    /// The result of a job that wrote `size` bytes to `path`.
    pub fn succeeded(path: String, size: u64) -> (r: Self)
        ensures
            r@ == success_of(path@, size),
    {
        ConversionResult { success: true, output_path: Some(path), output_size: Some(size), error: None }
    }

    /// The result of a job that failed for the reason `message`.
    pub fn failed(message: String) -> (r: Self)
        ensures
            r@ == failure_of(message@),
    {
        ConversionResult { success: false, output_path: None, output_size: None, error: Some(message) }
    }
}

} // verus!
