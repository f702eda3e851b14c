//! Surface configuration and the policies that choose it.
//!
//! The types here stand for what the GPU backend reports and accepts; the
//! embedding program converts between them and the backend's own types.

use vstd::prelude::*;

verus! {

/// A color format of a texture. The four 8-bit formats are the candidates
/// for the offscreen target; every other format is told apart by a code that
/// the embedding program assigns.
#[derive(Clone, Copy, Debug, PartialEq, Eq, Structural)]
pub enum TextureFormat {
    Rgba8Unorm,
    Rgba8UnormSrgb,
    Bgra8Unorm,
    Bgra8UnormSrgb,
    Other(u32),
}

/// How presented frames are paced.
#[derive(Clone, Copy, Debug, PartialEq, Eq, Structural)]
pub enum PresentMode {
    AutoVsync,
    AutoNoVsync,
    Fifo,
    FifoRelaxed,
    Immediate,
    Mailbox,
}

/// How the surface's alpha channel is composited with what lies behind it.
#[derive(Clone, Copy, Debug, PartialEq, Eq, Structural)]
pub enum CompositeAlphaMode {
    Auto,
    Opaque,
    PreMultiplied,
    PostMultiplied,
    Inherit,
}

/// What an adapter supports on a surface, each list in the adapter's order.
#[derive(Debug)]
pub struct SurfaceCapabilities {
    pub formats: Vec<TextureFormat>,
    pub present_modes: Vec<PresentMode>,
    pub alpha_modes: Vec<CompositeAlphaMode>,
}

/// Which of the candidate offscreen formats the adapter can bind as storage.
#[derive(Clone, Copy, Debug, PartialEq, Eq, Structural)]
pub struct StorageSupport {
    pub rgba8_unorm: bool,
    pub rgba8_unorm_srgb: bool,
    pub bgra8_unorm: bool,
    pub bgra8_unorm_srgb: bool,
}

/// The configuration of the swap-chain surface.
#[derive(Clone, Copy, Debug, PartialEq, Eq, Structural)]
pub struct SurfaceConfiguration {
    pub width: u32,
    pub height: u32,
    pub format: TextureFormat,
    pub present_mode: PresentMode,
    pub alpha_mode: CompositeAlphaMode,
}

impl SurfaceConfiguration {
    /// A frame can only be presented on a surface of at least one pixel
    /// each way.
    pub open spec fn presentable(&self) -> bool {
        self.width >= 1 && self.height >= 1
    }
}

/// The swap-chain format: the first one the adapter reports, or 8-bit BGRA
/// if it reports none.
pub open spec fn surface_format_of(formats: Seq<TextureFormat>) -> TextureFormat {
    if formats.len() > 0 {
        formats[0]
    } else {
        TextureFormat::Bgra8Unorm
    }
}

/// The offscreen format: the first candidate, in the order RGBA, RGBA sRGB,
/// BGRA, BGRA sRGB, that can be bound as storage.
pub open spec fn storage_format_of(support: StorageSupport) -> Option<TextureFormat> {
    if support.rgba8_unorm {
        Some(TextureFormat::Rgba8Unorm)
    } else if support.rgba8_unorm_srgb {
        Some(TextureFormat::Rgba8UnormSrgb)
    } else if support.bgra8_unorm {
        Some(TextureFormat::Bgra8Unorm)
    } else if support.bgra8_unorm_srgb {
        Some(TextureFormat::Bgra8UnormSrgb)
    } else {
        None
    }
}

/// The present mode: FIFO where the adapter offers it, else the first mode
/// it reports, and FIFO if it reports none.
pub open spec fn present_mode_of(modes: Seq<PresentMode>) -> PresentMode {
    if modes.contains(PresentMode::Fifo) || modes.len() == 0 {
        PresentMode::Fifo
    } else {
        modes[0]
    }
}

/// The alpha mode: premultiplied where the adapter offers it, else opaque,
/// else the first mode it reports, and automatic if it reports none.
pub open spec fn alpha_mode_of(modes: Seq<CompositeAlphaMode>) -> CompositeAlphaMode {
    if modes.contains(CompositeAlphaMode::PreMultiplied) {
        CompositeAlphaMode::PreMultiplied
    } else if modes.contains(CompositeAlphaMode::Opaque) {
        CompositeAlphaMode::Opaque
    } else if modes.len() > 0 {
        modes[0]
    } else {
        CompositeAlphaMode::Auto
    }
}

/// Chooses the swap-chain format among those the adapter reports.
pub fn select_surface_format(formats: &[TextureFormat]) -> (format: TextureFormat)
    ensures
        format == surface_format_of(formats@),
{
    if formats.len() > 0 {
        formats[0]
    } else {
        TextureFormat::Bgra8Unorm
    }
}

/// Chooses the offscreen format among the candidates the adapter can bind
/// as storage, if there is any.
pub fn select_storage_format(support: &StorageSupport) -> (format: Option<TextureFormat>)
    ensures
        format == storage_format_of(*support),
{
    if support.rgba8_unorm {
        Some(TextureFormat::Rgba8Unorm)
    } else if support.rgba8_unorm_srgb {
        Some(TextureFormat::Rgba8UnormSrgb)
    } else if support.bgra8_unorm {
        Some(TextureFormat::Bgra8Unorm)
    } else if support.bgra8_unorm_srgb {
        Some(TextureFormat::Bgra8UnormSrgb)
    } else {
        None
    }
}

fn offers_present_mode(modes: &[PresentMode], wanted: PresentMode) -> (found: bool)
    ensures
        found == modes@.contains(wanted),
{
    let mut i: usize = 0;
    while i < modes.len()
        invariant
            i <= modes.len(),
            forall|j: int| 0 <= j < i ==> modes@[j] != wanted,
        decreases modes.len() - i,
    {
        if modes[i] == wanted {
            return true;
        }
        i += 1;
    }
    false
}

fn offers_alpha_mode(modes: &[CompositeAlphaMode], wanted: CompositeAlphaMode) -> (found: bool)
    ensures
        found == modes@.contains(wanted),
{
    let mut i: usize = 0;
    while i < modes.len()
        invariant
            i <= modes.len(),
            forall|j: int| 0 <= j < i ==> modes@[j] != wanted,
        decreases modes.len() - i,
    {
        if modes[i] == wanted {
            return true;
        }
        i += 1;
    }
    false
}

/// Chooses the present mode among those the adapter reports.
pub fn select_present_mode(modes: &[PresentMode]) -> (mode: PresentMode)
    ensures
        mode == present_mode_of(modes@),
{
    if offers_present_mode(modes, PresentMode::Fifo) {
        PresentMode::Fifo
    } else if modes.len() > 0 {
        modes[0]
    } else {
        PresentMode::Fifo
    }
}

/// Chooses the alpha mode among those the adapter reports.
pub fn select_alpha_mode(modes: &[CompositeAlphaMode]) -> (mode: CompositeAlphaMode)
    ensures
        mode == alpha_mode_of(modes@),
{
    if offers_alpha_mode(modes, CompositeAlphaMode::PreMultiplied) {
        CompositeAlphaMode::PreMultiplied
    } else if offers_alpha_mode(modes, CompositeAlphaMode::Opaque) {
        CompositeAlphaMode::Opaque
    } else if modes.len() > 0 {
        modes[0]
    } else {
        CompositeAlphaMode::Auto
    }
}

/// The configuration a renderer starts with on a canvas of the given size:
/// the size raised to one pixel each way, and the selected format and modes.
pub open spec fn initial_configuration(
    capabilities: SurfaceCapabilities,
    canvas_width: u32,
    canvas_height: u32,
) -> SurfaceConfiguration {
    SurfaceConfiguration {
        width: if canvas_width >= 1 {
            canvas_width
        } else {
            1
        },
        height: if canvas_height >= 1 {
            canvas_height
        } else {
            1
        },
        format: surface_format_of(capabilities.formats@),
        present_mode: present_mode_of(capabilities.present_modes@),
        alpha_mode: alpha_mode_of(capabilities.alpha_modes@),
    }
}

} // verus!
