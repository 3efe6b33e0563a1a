//! Why the shell could not start.
use vstd::prelude::*;
use vstd::string::*;

verus! {

/// A startup failure; each is fatal before the event loop begins.
#[derive(Debug)]
pub enum AppError {
    /// The content surface could not be built.
    WebViewCreation,
    /// The initial URL, given here, could not be set.
    UrlSetting(String),
    /// The rendering toolkit failed, with its description.
    Wry(String),
    /// The operating system refused the window, with its description.
    OsError(String),
}

impl AppError {
    /// The text shown to the operator.
    pub open spec fn message_spec(&self) -> Seq<char> {
        match self {
            AppError::WebViewCreation => "WebView creation failed"@,
            AppError::UrlSetting(u) => "URL setting failed: "@ + u@,
            AppError::Wry(e) => "Wry error: "@ + e@,
            AppError::OsError(e) => "OS error: "@ + e@,
        }
    }

    /// The text shown to the operator.
    pub fn message(&self) -> (r: String)
        ensures
            r@ == self.message_spec(),
    {
        match self {
            AppError::WebViewCreation => String::from_str("WebView creation failed"),
            AppError::UrlSetting(u) => String::from_str("URL setting failed: ").concat(u.as_str()),
            AppError::Wry(e) => String::from_str("Wry error: ").concat(e.as_str()),
            AppError::OsError(e) => String::from_str("OS error: ").concat(e.as_str()),
        }
    }
}

} // verus!
