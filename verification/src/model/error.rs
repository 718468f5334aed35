use vstd::prelude::*;

use crate::text::{cat, decimal, decimal_string, push_str};

verus! {

/// Why a model request failed.
#[derive(Debug)]
pub enum ModelError {
    /// The HTTP client failed; `timeout` and `connect` say whether it timed out or could not
    /// connect.
    Http { message: String, timeout: bool, connect: bool },
    Status { status: u16, body: String },
    Parse(String),
    Config(String),
    MissingApiKey(String),
    Transport(String),
}

/// Whether trying the same request again may succeed.
pub open spec fn retryable(e: ModelError) -> bool {
    match e {
        ModelError::Http { timeout, connect, .. } => timeout || connect,
        ModelError::Status { status, .. } => status == 429 || (500 <= status && status <= 599),
        _ => false,
    }
}

/// The text of an error.
pub open spec fn model_error_text(e: ModelError) -> Seq<char> {
    match e {
        ModelError::Http { message, .. } => "http error: "@ + message@,
        ModelError::Status { status, body } => "model endpoint returned status "@ + decimal(status as nat) + ": "@ + body@,
        ModelError::Parse(m) => "failed to parse model response: "@ + m@,
        ModelError::Config(m) => "invalid model configuration: "@ + m@,
        ModelError::MissingApiKey(v) => "missing API key environment variable "@ + v@,
        ModelError::Transport(m) => "transport error: "@ + m@,
    }
}

impl ModelError {
    pub fn is_retryable(&self) -> (r: bool)
        ensures
            r == retryable(*self),
    {
        match self {
            ModelError::Http { timeout, connect, .. } => *timeout || *connect,
            ModelError::Status { status, .. } => *status == 429 || (500 <= *status && *status <= 599),
            _ => false,
        }
    }

    /// The error's message.
    pub fn text(&self) -> (r: String)
        ensures
            r@ == model_error_text(*self),
    {
        match self {
            ModelError::Http { message, .. } => cat("http error: ", message.as_str()),
            ModelError::Status { status, body } => {
                let mut s = cat("model endpoint returned status ", decimal_string(*status as u64).as_str());
                push_str(&mut s, ": ");
                push_str(&mut s, body.as_str());
                s
            },
            ModelError::Parse(m) => cat("failed to parse model response: ", m.as_str()),
            ModelError::Config(m) => cat("invalid model configuration: ", m.as_str()),
            ModelError::MissingApiKey(v) => cat("missing API key environment variable ", v.as_str()),
            ModelError::Transport(m) => cat("transport error: ", m.as_str()),
        }
    }
}

} // verus!
