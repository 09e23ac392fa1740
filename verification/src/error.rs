//! Errors reported by the renderer.
use vstd::prelude::*;
use vstd::string::*;

verus! {

/// What went wrong while loading or rendering.
#[derive(Debug)]
pub enum GuiError {
    TextureLoadFailed(String),
    TextRenderFailed(String),
    BufferCreationFailed,
    InvalidTextureId,
}

/// The message shown for an error.
pub open spec fn error_message(e: GuiError) -> Seq<char> {
    match e {
        GuiError::TextureLoadFailed(msg) => "Texture load failed: "@ + msg@,
        GuiError::TextRenderFailed(msg) => "Text render failed: "@ + msg@,
        GuiError::BufferCreationFailed => "Buffer creation failed"@,
        GuiError::InvalidTextureId => "Invalid texture ID"@,
    }
}

impl GuiError {
    /// The human-readable message for this error.
    pub fn message(&self) -> (s: String)
        ensures
            s@ == error_message(*self),
    {
        match self {
            GuiError::TextureLoadFailed(msg) => {
                let mut s = String::from_str("Texture load failed: ");
                s.append(msg.as_str());
                s
            },
            GuiError::TextRenderFailed(msg) => {
                let mut s = String::from_str("Text render failed: ");
                s.append(msg.as_str());
                s
            },
            GuiError::BufferCreationFailed => String::from_str("Buffer creation failed"),
            GuiError::InvalidTextureId => String::from_str("Invalid texture ID"),
        }
    }
}

} // verus!
