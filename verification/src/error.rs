//! Error types of the rendering library.

use ash::vk;
use vstd::prelude::*;
use vstd::string::StringExecFns;

use crate::text::{append_decimal, decimal};

verus! {

/// Vulkan-specific errors.
#[derive(Debug)]
pub enum VulkanError {
    /// General Vulkan API error with result code (the raw value of the `vk::Result`)
    Api(i32),
    /// Resource with the given identifier could not be found
    ResourceNotFound { id: u64 },
    /// Invalid operation attempted
    InvalidOperation { reason: String },
    /// Memory allocation failed
    OutOfMemory { requested: usize },
    /// Vulkan context initialization failed
    InitializationFailed(String),
    /// No suitable memory type found
    NoSuitableMemoryType,
}

/// The text `ash`'s `Debug` impl gives the Vulkan result code with raw value `code`.
pub uninterp spec fn vk_result_name(code: i32) -> Seq<char>;

/// Formats the `vk::Result` with raw value `code` (`vk::Result::from_raw`) with the
/// `Debug` impl of `ash`: the name of the result code, such as `ERROR_DEVICE_LOST`, or
/// the raw value when `ash` has no name for it.  The contract claims only that the
/// text depends on the code alone, naming it [`vk_result_name`].
#[verifier::external_body]
fn vk_result_debug_text(code: i32) -> (s: String)
    ensures
        s@ == vk_result_name(code),
{
    format!("{:?}", vk::Result::from_raw(code))
}

/// The prefix of the message of an API error.
pub open spec fn api_prefix() -> Seq<char> {
    "Vulkan API error: "@
}

impl VulkanError {
    /// The text of the error, as it is displayed.
    pub open spec fn spec_message(&self) -> Seq<char> {
        match self {
            VulkanError::Api(code) => api_prefix() + vk_result_name(*code),
            VulkanError::ResourceNotFound { id } => "Resource not found: "@ + decimal(*id as nat),
            VulkanError::InvalidOperation { reason } => "Invalid operation: "@ + reason@,
            VulkanError::OutOfMemory { requested } => "Out of memory: "@ + decimal(*requested as nat)
                + " bytes"@,
            VulkanError::InitializationFailed(msg) => "Initialization failed: "@ + msg@,
            VulkanError::NoSuitableMemoryType => "No suitable memory type found"@,
        }
    }

    /// The text of the error, as it is displayed.  An API error is shown as
    /// `Vulkan API error: ` followed by the debug name of its result code.
    pub fn message(&self) -> (s: String)
        ensures
            s@ == self.spec_message(),
    {
        match self {
            VulkanError::Api(code) => {
                let mut s = String::from_str("Vulkan API error: ");
                let t = vk_result_debug_text(*code);
                s.append(t.as_str());
                s
            },
            VulkanError::ResourceNotFound { id } => {
                let mut s = String::from_str("Resource not found: ");
                append_decimal(&mut s, *id);
                s
            },
            VulkanError::InvalidOperation { reason } => {
                let mut s = String::from_str("Invalid operation: ");
                s.append(reason.as_str());
                s
            },
            VulkanError::OutOfMemory { requested } => {
                let mut s = String::from_str("Out of memory: ");
                append_decimal(&mut s, *requested as u64);
                s.append(" bytes");
                s
            },
            VulkanError::InitializationFailed(msg) => {
                let mut s = String::from_str("Initialization failed: ");
                s.append(msg.as_str());
                s
            },
            VulkanError::NoSuitableMemoryType => String::from_str("No suitable memory type found"),
        }
    }
}

/// High-level rendering errors, independent of the graphics API.
#[derive(Debug)]
pub enum RenderError {
    /// Renderer initialization failed during setup
    InitializationFailed(String),
    /// A rendering operation failed during execution
    RenderingFailed(String),
    /// Resource creation or management failed
    ResourceCreationFailed(String),
    /// Backend-specific error occurred
    BackendError(String),
}

impl RenderError {
    /// The text of the error, as it is displayed.
    pub open spec fn spec_message(&self) -> Seq<char> {
        match self {
            RenderError::InitializationFailed(m) => "Renderer initialization failed: "@ + m@,
            RenderError::RenderingFailed(m) => "Rendering failed: "@ + m@,
            RenderError::ResourceCreationFailed(m) => "Resource creation failed: "@ + m@,
            RenderError::BackendError(m) => "Backend error: "@ + m@,
        }
    }

    /// The text of the error, as it is displayed.
    pub fn message(&self) -> (s: String)
        ensures
            s@ == self.spec_message(),
    {
        let (mut s, m) = match self {
            RenderError::InitializationFailed(m) => (String::from_str("Renderer initialization failed: "), m),
            RenderError::RenderingFailed(m) => (String::from_str("Rendering failed: "), m),
            RenderError::ResourceCreationFailed(m) => (String::from_str("Resource creation failed: "), m),
            RenderError::BackendError(m) => (String::from_str("Backend error: "), m),
        };
        s.append(m.as_str());
        s
    }
}

} // verus!
