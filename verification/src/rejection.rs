//! The reasons for which a request is turned down, and how each is reported.

use vstd::prelude::*;

verus! {

/// Why a request is turned down.
#[derive(Clone, Copy, Debug, PartialEq, Eq, Structural)]
pub enum Rejection {
    /// The request is no GET request.
    MethodNotAllowed,
    /// The path names nothing to draw an identicon for.
    MissingIdentifier,
    /// The resolution is no multiple of the grid size; `recommended` is the
    /// nearest resolution that is one.
    ResolutionNotDivisible { recommended: u32 },
    /// The resolution is above `MAX_RESOLUTION`.
    ResolutionTooLarge,
    /// An ICO file was asked for, and the padded image is too large for one.
    ContainerSizeExceeded,
    /// The grid has more cells to a side than the resolution has pixels.
    CellSizeZero,
    /// The grid size has no hash function.
    GridSizeOutOfRange,
    /// The encoder could not write the image in the container asked for.
    EncodingFailure,
}

/// The HTTP status that reports a rejection.
pub open spec fn status_of(rejection: Rejection) -> u16 {
    match rejection {
        Rejection::MethodNotAllowed => 405,
        Rejection::MissingIdentifier => 404,
        Rejection::EncodingFailure => 500,
        _ => 400,
    }
}

/// The line of text that reports a rejection.
pub open spec fn message_of(rejection: Rejection) -> Seq<char> {
    match rejection {
        Rejection::MethodNotAllowed => "Only GET requests are supported"@,
        Rejection::MissingIdentifier => "No name was provided"@,
        Rejection::ResolutionNotDivisible { .. } => {
            "The resolution must be evenly divisible by the size"@
        },
        Rejection::ResolutionTooLarge => "Resolution cannot exceed 1000"@,
        Rejection::ContainerSizeExceeded => "ICO size (pad * 2 + res) must be in range 1-256"@,
        Rejection::CellSizeZero => "Grid size cannot be larger than resolution"@,
        Rejection::GridSizeOutOfRange => "Grid size must be less from range 1-21"@,
        Rejection::EncodingFailure => "Unable to write to formatted buffer"@,
    }
}

impl Rejection {
    /// The HTTP status that reports this rejection.
    pub fn status(&self) -> (code: u16)
        ensures
            code == status_of(*self),
    {
        match self {
            Rejection::MethodNotAllowed => 405,
            Rejection::MissingIdentifier => 404,
            Rejection::EncodingFailure => 500,
            _ => 400,
        }
    }

    /// The line of text that reports this rejection.
    pub fn message(&self) -> (text: &'static str)
        ensures
            text@ == message_of(*self),
    {
        match self {
            Rejection::MethodNotAllowed => "Only GET requests are supported",
            Rejection::MissingIdentifier => "No name was provided",
            Rejection::ResolutionNotDivisible { .. } => {
                "The resolution must be evenly divisible by the size"
            },
            Rejection::ResolutionTooLarge => "Resolution cannot exceed 1000",
            Rejection::ContainerSizeExceeded => "ICO size (pad * 2 + res) must be in range 1-256",
            Rejection::CellSizeZero => "Grid size cannot be larger than resolution",
            Rejection::GridSizeOutOfRange => "Grid size must be less from range 1-21",
            Rejection::EncodingFailure => "Unable to write to formatted buffer",
        }
    }

    /// The resolution that the rejection recommends in place of the one it
    /// turned down, where it recommends one.
    pub fn recommended_size(&self) -> (size: Option<u32>)
        ensures
            size == match *self {
                Rejection::ResolutionNotDivisible { recommended } => Some(recommended),
                _ => None,
            },
    {
        match self {
            Rejection::ResolutionNotDivisible { recommended } => Some(*recommended),
            _ => None,
        }
    }
}

} // verus!
