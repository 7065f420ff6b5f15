use vstd::prelude::*;

verus! {

/// The errors of the application, each with its message.
#[derive(Debug)]
pub enum GmtuiError {
    Auth(String),
    Api(String),
    Config(String),
    Io(String),
    Json(String),
}

} // verus!
