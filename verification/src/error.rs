//! Error taxonomy of the renderer.

use vstd::prelude::*;

verus! {

/// Why a display list could not be decoded. All three kinds belong to the
/// malformed-stream family: the frame they occur in is invalid.
#[derive(Clone, Copy, Debug, PartialEq, Eq, Structural)]
pub enum DecodeError {
    /// An opcode byte that names no operation.
    UnknownOpcode,
    /// A read that would cross the end of the buffer.
    UnexpectedEnd,
    /// A string field whose bytes are not UTF-8.
    InvalidUtf8,
}

impl DecodeError {
    /// The diagnostic text handed to the host.
    pub fn message(&self) -> (text: &'static str)
        ensures
            text@ == match *self {
                DecodeError::UnknownOpcode => "Unknown opcode"@,
                DecodeError::UnexpectedEnd => "Unexpected end of buffer"@,
                DecodeError::InvalidUtf8 => "Invalid UTF-8 in path data"@,
            },
    {
        match self {
            DecodeError::UnknownOpcode => "Unknown opcode",
            DecodeError::UnexpectedEnd => "Unexpected end of buffer",
            DecodeError::InvalidUtf8 => "Invalid UTF-8 in path data",
        }
    }
}

/// Why a renderer could not be created.
#[derive(Clone, Copy, Debug, PartialEq, Eq, Structural)]
pub enum InitError {
    /// The drawing surface could not be created on the canvas.
    SurfaceCreation,
    /// No adapter serves the surface.
    AdapterUnavailable,
    /// The adapter gave no device.
    DeviceUnavailable,
    /// None of the candidate offscreen formats can be bound as storage.
    Unsupported,
    /// The vector rasterizer could not be set up on the device.
    RasterizerCreation,
}

impl InitError {
    /// The diagnostic text handed to the host.
    pub fn message(&self) -> (text: &'static str)
        ensures
            text@ == match *self {
                InitError::SurfaceCreation => "Failed to create WebGPU surface"@,
                InitError::AdapterUnavailable => "Failed to acquire WebGPU adapter"@,
                InitError::DeviceUnavailable => "Failed to request WebGPU device"@,
                InitError::Unsupported => "Adapter does not support a storage-compatible render format"@,
                InitError::RasterizerCreation => "Failed to create Vello renderer"@,
            },
    {
        match self {
            InitError::SurfaceCreation => "Failed to create WebGPU surface",
            InitError::AdapterUnavailable => "Failed to acquire WebGPU adapter",
            InitError::DeviceUnavailable => "Failed to request WebGPU device",
            InitError::Unsupported => "Adapter does not support a storage-compatible render format",
            InitError::RasterizerCreation => "Failed to create Vello renderer",
        }
    }
}

/// Why a frame was not presented.
#[derive(Clone, Copy, Debug, PartialEq, Eq, Structural)]
pub enum RenderError {
    /// A surface error that does not outlast the frame; the next frame may
    /// be tried.
    GpuTransient,
    /// No swap-chain image could be acquired even after the surface was
    /// configured again.
    GpuAcquire,
    /// The surface is out of memory; the renderer should not be used further.
    GpuFatal,
    /// The vector rasterizer reported an error.
    RenderFailed,
}

impl RenderError {
    /// The diagnostic text handed to the host.
    pub fn message(&self) -> (text: &'static str)
        ensures
            text@ == match *self {
                RenderError::GpuTransient => "WebGPU surface error"@,
                RenderError::GpuAcquire => "Failed to acquire surface"@,
                RenderError::GpuFatal => "WebGPU surface out of memory"@,
                RenderError::RenderFailed => "Render failed"@,
            },
    {
        match self {
            RenderError::GpuTransient => "WebGPU surface error",
            RenderError::GpuAcquire => "Failed to acquire surface",
            RenderError::GpuFatal => "WebGPU surface out of memory",
            RenderError::RenderFailed => "Render failed",
        }
    }

    /// Whether the renderer may still be used after this error.
    pub fn is_recoverable(&self) -> (usable: bool)
        ensures
            usable == (*self != RenderError::GpuFatal),
    {
        match self {
            RenderError::GpuFatal => false,
            _ => true,
        }
    }
}

} // verus!
