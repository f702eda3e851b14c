//! The renderer's bookkeeping: surface size, cached GPU targets, the
//! retained scene and the frame driver.
//!
//! The handle here owns no GPU object. It records which ones exist and what
//! they were built for, decides when they have to be rebuilt, and tells the
//! embedding program what to do next; that program owns the device and does
//! the work.

use crate::display_list::decode;
use crate::display_list::decode_from;
use crate::display_list::ops_view;
use crate::display_list::Color;
use crate::display_list::DrawOp;
use crate::display_list::DrawOpView;
use crate::error::DecodeError;
use crate::error::InitError;
use crate::error::RenderError;
use crate::ieee::is_nan;
use crate::ieee::lemma_pixel_extent_at_least_one;
use crate::ieee::pixel_extent;
use crate::surface::initial_configuration;
use crate::surface::select_alpha_mode;
use crate::surface::select_present_mode;
use crate::surface::select_storage_format;
use crate::surface::select_surface_format;
use crate::surface::storage_format_of;
use crate::surface::StorageSupport;
use crate::surface::SurfaceCapabilities;
use crate::surface::SurfaceConfiguration;
use crate::surface::TextureFormat;
use vstd::prelude::*;

verus! {

/// The size of a texture in pixels.
#[derive(Clone, Copy, Debug, PartialEq, Eq, Structural)]
pub struct Extent {
    pub width: u32,
    pub height: u32,
}

/// The offscreen texture the vector rasterizer writes into, known by the
/// surface size it was made for.
#[derive(Clone, Copy, Debug, PartialEq, Eq, Structural)]
pub struct OffscreenTarget {
    pub width: u32,
    pub height: u32,
}

/// The composite pipeline, known by the fragment format it was built for.
#[derive(Clone, Copy, Debug, PartialEq, Eq, Structural)]
pub struct PresentPipeline {
    pub format: TextureFormat,
}

/// Why no swap-chain image could be acquired.
#[derive(Clone, Copy, Debug, PartialEq, Eq, Structural)]
pub enum SurfaceError {
    Timeout,
    Outdated,
    Lost,
    OutOfMemory,
    Other,
}

/// Which try at acquiring a swap-chain image an outcome belongs to.
#[derive(Clone, Copy, Debug, PartialEq, Eq, Structural)]
pub enum AcquireAttempt {
    First,
    Second,
}

/// What has to be built before a frame is drawn, and what it is drawn with.
#[derive(Clone, Copy, Debug, PartialEq, Eq, Structural)]
pub struct FramePlan {
    /// The size of the offscreen texture to create, if a new one is needed.
    pub offscreen: Option<Extent>,
    /// Whether the bind group of sampler and offscreen view has to be made.
    pub bind_group: bool,
    /// The fragment format to build the composite pipeline for, if a new
    /// one is needed.
    pub pipeline: Option<TextureFormat>,
    /// The color the rasterizer clears to.
    pub base_color: Color,
    /// The size the rasterizer draws at.
    pub width: u32,
    pub height: u32,
}

/// What follows when no swap-chain image could be acquired.
#[derive(Clone, Copy, Debug, PartialEq, Eq, Structural)]
pub enum Recovery {
    /// Configure the surface again and try once more to acquire an image.
    Reconfigure,
    /// Draw nothing this frame; this is no error.
    Skip,
    /// Give the frame up with this error.
    Fail(RenderError),
}

/// What follows from a failed try at acquiring a swap-chain image. On the
/// first try a lost or outdated surface is configured again and tried once
/// more, a timeout skips the frame, running out of memory is fatal, and any
/// other error is transient; on the second try every failure gives the
/// frame up.
pub open spec fn recovery_of(attempt: AcquireAttempt, error: SurfaceError) -> Recovery {
    match attempt {
        AcquireAttempt::Second => Recovery::Fail(RenderError::GpuAcquire),
        AcquireAttempt::First => match error {
            SurfaceError::Lost => Recovery::Reconfigure,
            SurfaceError::Outdated => Recovery::Reconfigure,
            SurfaceError::OutOfMemory => Recovery::Fail(RenderError::GpuFatal),
            SurfaceError::Timeout => Recovery::Skip,
            SurfaceError::Other => Recovery::Fail(RenderError::GpuTransient),
        },
    }
}

/// What follows from a failed try at acquiring a swap-chain image.
pub fn acquire_failed(attempt: AcquireAttempt, error: SurfaceError) -> (recovery: Recovery)
    ensures
        recovery == recovery_of(attempt, error),
{
    match attempt {
        AcquireAttempt::Second => Recovery::Fail(RenderError::GpuAcquire),
        AcquireAttempt::First => match error {
            SurfaceError::Lost => Recovery::Reconfigure,
            SurfaceError::Outdated => Recovery::Reconfigure,
            SurfaceError::OutOfMemory => Recovery::Fail(RenderError::GpuFatal),
            SurfaceError::Timeout => Recovery::Skip,
            SurfaceError::Other => Recovery::Fail(RenderError::GpuTransient),
        },
    }
}

/// Opaque black, the clear color of a frame that sets none.
pub open spec fn spec_opaque_black() -> Color {
    Color { r: 0, g: 0, b: 0, a: 0x3f80_0000 }
}

/// Opaque black.
#[verifier::when_used_as_spec(spec_opaque_black)]
pub fn opaque_black() -> (color: Color)
    ensures
        color == spec_opaque_black(),
{
    Color { r: 0, g: 0, b: 0, a: 0x3f80_0000 }
}

/// The clear color that a sequence of operations leaves: that of its last
/// `Clear`, or opaque black if it has none.
pub open spec fn clear_color_of(ops: Seq<DrawOpView>) -> Color
    decreases ops.len(),
{
    if ops.len() == 0 {
        opaque_black()
    } else {
        match ops.last() {
            DrawOpView::Clear(color) => color,
            _ => clear_color_of(ops.drop_last()),
        }
    }
}

/// The state of one renderer.
#[derive(Debug)]
pub struct RendererHandle {
    pub config: SurfaceConfiguration,
    pub storage_format: TextureFormat,
    pub offscreen: Option<OffscreenTarget>,
    /// Whether a bind group for the current offscreen view exists.
    pub present_bind_group: bool,
    pub present_pipeline: Option<PresentPipeline>,
    pub base_color: Color,
    /// The operations of the display list applied last.
    pub scene: Vec<DrawOp>,
}

/// Mathematical value of a [`RendererHandle`].
pub ghost struct RendererView {
    pub config: SurfaceConfiguration,
    pub storage_format: TextureFormat,
    pub offscreen: Option<OffscreenTarget>,
    pub present_bind_group: bool,
    pub present_pipeline: Option<PresentPipeline>,
    pub base_color: Color,
    pub scene: Seq<DrawOpView>,
}

impl View for RendererHandle {
    type V = RendererView;

    open spec fn view(&self) -> RendererView {
        RendererView {
            config: self.config,
            storage_format: self.storage_format,
            offscreen: self.offscreen,
            present_bind_group: self.present_bind_group,
            present_pipeline: self.present_pipeline,
            base_color: self.base_color,
            scene: ops_view(self.scene@),
        }
    }
}

impl RendererView {
    /// A renderer fresh from its creation: nothing cached, nothing to draw.
    pub open spec fn fresh(config: SurfaceConfiguration, storage_format: TextureFormat) -> Self {
        RendererView {
            config,
            storage_format,
            offscreen: None,
            present_bind_group: false,
            present_pipeline: None,
            base_color: opaque_black(),
            scene: seq![],
        }
    }

    /// Whether a resize to `width` by `height` changes the surface: neither
    /// is zero, and the surface has another size.
    pub open spec fn resize_takes_effect(self, width: u32, height: u32) -> bool {
        width != 0 && height != 0 && !(self.config.width == width && self.config.height == height)
    }

    /// The state after a resize: where it takes effect, the new size is
    /// configured and the offscreen target and the bind group are dropped.
    pub open spec fn resized(self, width: u32, height: u32) -> Self {
        if self.resize_takes_effect(width, height) {
            RendererView {
                config: SurfaceConfiguration { width, height, ..self.config },
                offscreen: None,
                present_bind_group: false,
                ..self
            }
        } else {
            self
        }
    }

    /// The state after a display list was applied: its operations are the
    /// scene, its clear color the base color.
    pub open spec fn applied(self, data: Seq<u8>) -> Self {
        RendererView {
            scene: decode_from(data, 0).ops,
            base_color: clear_color_of(decode_from(data, 0).ops),
            ..self
        }
    }

    /// Whether the offscreen target is missing or was made for another size.
    pub open spec fn offscreen_is_stale(self) -> bool {
        match self.offscreen {
            None => true,
            Some(target) => target.width != self.config.width || target.height
                != self.config.height,
        }
    }

    /// Whether the composite pipeline is missing or was built for another
    /// swap-chain format.
    pub open spec fn pipeline_is_stale(self) -> bool {
        match self.present_pipeline {
            None => true,
            Some(pipeline) => pipeline.format != self.config.format,
        }
    }

    /// The state once the offscreen target fits the surface. A new target
    /// drops the bind group.
    pub open spec fn with_offscreen(self) -> Self {
        if self.offscreen_is_stale() {
            RendererView {
                offscreen: Some(
                    OffscreenTarget { width: self.config.width, height: self.config.height },
                ),
                present_bind_group: false,
                ..self
            }
        } else {
            self
        }
    }

    /// The state once a bind group exists.
    pub open spec fn with_bind_group(self) -> Self {
        RendererView { present_bind_group: true, ..self }
    }

    /// The state once the composite pipeline fits the swap-chain format.
    pub open spec fn with_pipeline(self) -> Self {
        RendererView {
            present_pipeline: Some(PresentPipeline { format: self.config.format }),
            ..self
        }
    }

    /// The state once everything a frame needs is in place.
    pub open spec fn ready(self) -> Self {
        self.with_offscreen().with_bind_group().with_pipeline()
    }

    /// Whether every cached target fits the current configuration.
    pub open spec fn is_ready(self) -> bool {
        !self.offscreen_is_stale() && self.present_bind_group && !self.pipeline_is_stale()
    }

    /// The size of the offscreen texture for the current surface: the
    /// surface size, raised to one pixel each way.
    pub open spec fn offscreen_extent(self) -> Extent {
        Extent {
            width: if self.config.width >= 1 {
                self.config.width
            } else {
                1
            },
            height: if self.config.height >= 1 {
                self.config.height
            } else {
                1
            },
        }
    }

    /// What drawing a frame in this state takes.
    pub open spec fn frame_plan(self) -> FramePlan {
        FramePlan {
            offscreen: if self.offscreen_is_stale() {
                Some(self.offscreen_extent())
            } else {
                None
            },
            bind_group: !self.with_offscreen().present_bind_group,
            pipeline: if self.pipeline_is_stale() {
                Some(self.config.format)
            } else {
                None
            },
            base_color: self.base_color,
            width: self.config.width,
            height: self.config.height,
        }
    }
}

/// How drawing a frame ends, given what each try at acquiring an image and
/// the rasterizer would answer. A failed first try is answered as
/// `recovery_of` says; the second try is made only where that is to
/// configure the surface again, and its failure gives the frame up.
pub open spec fn frame_result(
    first: Result<(), SurfaceError>,
    second: Result<(), SurfaceError>,
    rasterized: bool,
) -> Result<(), RenderError> {
    let drawn = if rasterized {
        Ok(())
    } else {
        Err(RenderError::RenderFailed)
    };
    match first {
        Ok(_) => drawn,
        Err(error) => match recovery_of(AcquireAttempt::First, error) {
            Recovery::Skip => Ok(()),
            Recovery::Fail(reason) => Err(reason),
            Recovery::Reconfigure => match second {
                Ok(_) => drawn,
                Err(_) => Err(RenderError::GpuAcquire),
            },
        },
    }
}

/// A resize to the current size changes nothing: the offscreen target and
/// the bind group stay.
pub proof fn lemma_resize_to_same_size(state: RendererView, width: u32, height: u32)
    requires
        width == state.config.width,
        height == state.config.height,
    ensures
        state.resized(width, height) == state,
{
}

/// A resize to another size of at least one pixel each way configures that
/// size and drops the offscreen target and the bind group, so that the next
/// frame builds both anew.
pub proof fn lemma_resize_invalidates(state: RendererView, width: u32, height: u32)
    requires
        width >= 1,
        height >= 1,
        !(width == state.config.width && height == state.config.height),
    ensures
        state.resized(width, height).config.width == width,
        state.resized(width, height).config.height == height,
        state.resized(width, height).offscreen is None,
        !state.resized(width, height).present_bind_group,
        state.resized(width, height).frame_plan().offscreen == Some(Extent { width, height }),
        state.resized(width, height).frame_plan().bind_group,
{
}

/// Resizing twice to one size is resizing once.
pub proof fn lemma_resize_idempotent(state: RendererView, width: u32, height: u32)
    ensures
        state.resized(width, height).resized(width, height) == state.resized(width, height),
{
}

/// After a resize to a scaled size whose two lengths are numbers, the
/// surface has the pixels that the lengths come to, each at least one.
pub proof fn lemma_resize_scaled_size(state: RendererView, scaled_width: u32, scaled_height: u32)
    requires
        !is_nan(scaled_width),
        !is_nan(scaled_height),
    ensures
        state.resized(pixel_extent(scaled_width), pixel_extent(scaled_height)).config.width
            == pixel_extent(scaled_width),
        state.resized(pixel_extent(scaled_width), pixel_extent(scaled_height)).config.height
            == pixel_extent(scaled_height),
        pixel_extent(scaled_width) >= 1,
        pixel_extent(scaled_height) >= 1,
{
    lemma_pixel_extent_at_least_one(scaled_width);
    lemma_pixel_extent_at_least_one(scaled_height);
}

/// A resize leaves a presentable surface presentable.
pub proof fn lemma_resize_keeps_presentable(state: RendererView, width: u32, height: u32)
    requires
        state.config.presentable(),
    ensures
        state.resized(width, height).config.presentable(),
{
}

/// Applying one display list twice gives the state that applying it once
/// gives, and scene and base color depend on the display list alone.
pub proof fn lemma_apply_idempotent(state: RendererView, other: RendererView, data: Seq<u8>)
    ensures
        state.applied(data).applied(data) == state.applied(data),
        other.applied(data).scene == state.applied(data).scene,
        other.applied(data).base_color == state.applied(data).base_color,
{
}

/// Once a frame is drawn every target fits the configuration, and drawing
/// the next frame rebuilds nothing.
pub proof fn lemma_drawn_frame_is_ready(state: RendererView)
    ensures
        state.ready().is_ready(),
        state.ready().ready() == state.ready(),
        state.ready().frame_plan().offscreen is None,
        !state.ready().frame_plan().bind_group,
        state.ready().frame_plan().pipeline is None,
{
}

/// A frame ends without error where an image is acquired, at the first try
/// or after a lost or outdated surface was configured again, and the
/// rasterizer reports no error; and where the first try times out. Every
/// other course ends with the error that names it.
pub proof fn lemma_frame_results(second: Result<(), SurfaceError>, rasterized: bool)
    ensures
        frame_result(Ok(()), second, true) == Ok::<(), RenderError>(()),
        frame_result(Ok(()), second, false) == Err::<(), RenderError>(RenderError::RenderFailed),
        frame_result(Err(SurfaceError::Timeout), second, rasterized) == Ok::<(), RenderError>(()),
        frame_result(Err(SurfaceError::OutOfMemory), second, rasterized) == Err::<
            (),
            RenderError,
        >(RenderError::GpuFatal),
        frame_result(Err(SurfaceError::Other), second, rasterized) == Err::<(), RenderError>(
            RenderError::GpuTransient,
        ),
        frame_result(Err(SurfaceError::Lost), second, rasterized) == frame_result(
            Err(SurfaceError::Outdated),
            second,
            rasterized,
        ),
        second is Err ==> frame_result(Err(SurfaceError::Lost), second, rasterized) == Err::<
            (),
            RenderError,
        >(RenderError::GpuAcquire),
        second is Ok ==> frame_result(Err(SurfaceError::Lost), second, rasterized) == frame_result(
            Ok(()),
            second,
            rasterized,
        ),
{
}

/// A surface that is lost or outdated at the first try and acquired at the
/// second is drawn on without an error.
pub proof fn lemma_lost_surface_recovers(first: SurfaceError)
    requires
        first == SurfaceError::Lost || first == SurfaceError::Outdated,
    ensures
        recovery_of(AcquireAttempt::First, first) == Recovery::Reconfigure,
        frame_result(Err(first), Ok(()), true) == Ok::<(), RenderError>(()),
{
}

/// Creates the state of a renderer for a canvas of the given size on an
/// adapter with the given capabilities. Fails exactly when no candidate
/// offscreen format can be bound as storage.
pub fn create_renderer(
    capabilities: &SurfaceCapabilities,
    support: &StorageSupport,
    canvas_width: u32,
    canvas_height: u32,
) -> (r: Result<RendererHandle, InitError>)
    ensures
        match storage_format_of(*support) {
            None => r matches Err(e) && e == InitError::Unsupported,
            Some(storage) => r matches Ok(handle) && handle@ == RendererView::fresh(
                initial_configuration(*capabilities, canvas_width, canvas_height),
                storage,
            ) && handle.config.presentable(),
        },
{
    let storage_format = match select_storage_format(support) {
        Some(format) => format,
        None => {
            return Err(InitError::Unsupported);
        },
    };
    let config = SurfaceConfiguration {
        width: if canvas_width >= 1 {
            canvas_width
        } else {
            1
        },
        height: if canvas_height >= 1 {
            canvas_height
        } else {
            1
        },
        format: select_surface_format(capabilities.formats.as_slice()),
        present_mode: select_present_mode(capabilities.present_modes.as_slice()),
        alpha_mode: select_alpha_mode(capabilities.alpha_modes.as_slice()),
    };
    let handle = RendererHandle {
        config,
        storage_format,
        offscreen: None,
        present_bind_group: false,
        present_pipeline: None,
        base_color: opaque_black(),
        scene: Vec::new(),
    };
    assert(handle@.scene =~= seq![]);
    Ok(handle)
}

impl RendererHandle {
    /// Resizes the surface. A size of zero either way, or the current size,
    /// changes nothing. Returns whether the surface has to be configured
    /// again.
    pub fn resize(&mut self, width: u32, height: u32) -> (reconfigure: bool)
        ensures
            final(self)@ == old(self)@.resized(width, height),
            reconfigure == old(self)@.resize_takes_effect(width, height),
            final(self).scene == old(self).scene,
    {
        if width == 0 || height == 0 {
            return false;
        }
        if self.config.width == width && self.config.height == height {
            return false;
        }
        self.config.width = width;
        self.config.height = height;
        self.offscreen = None;
        self.present_bind_group = false;
        true
    }

    /// Resizes the surface to the pixels that a scaled size comes to. Each
    /// argument is the product of a logical length and the device pixel
    /// ratio, in single precision. Returns whether the surface has to be
    /// configured again.
    pub fn resize_scaled(&mut self, scaled_width: u32, scaled_height: u32) -> (reconfigure: bool)
        ensures
            final(self)@ == old(self)@.resized(
                pixel_extent(scaled_width),
                pixel_extent(scaled_height),
            ),
            reconfigure == old(self)@.resize_takes_effect(
                pixel_extent(scaled_width),
                pixel_extent(scaled_height),
            ),
            final(self).scene == old(self).scene,
    {
        self.resize(pixel_extent(scaled_width), pixel_extent(scaled_height))
    }

    /// Replaces the scene by the operations of a display list and the base
    /// color by its clear color. A malformed list leaves the operations that
    /// came before the malformed record, and reports what is wrong with it.
    pub fn apply(&mut self, bytes: &[u8]) -> (r: Result<(), DecodeError>)
        ensures
            final(self)@ == old(self)@.applied(bytes@),
            r == match decode_from(bytes@, 0).outcome {
                Ok(_) => Ok::<(), DecodeError>(()),
                Err(error) => Err::<(), DecodeError>(error),
            },
    {
        let decoded = decode(bytes);
        let mut base_color = opaque_black();
        let mut i: usize = 0;
        while i < decoded.ops.len()
            invariant
                i <= decoded.ops.len(),
                base_color == clear_color_of(ops_view(decoded.ops@).take(i as int)),
            decreases decoded.ops.len() - i,
        {
            proof {
                let ops = ops_view(decoded.ops@);
                assert(ops.take(i + 1).drop_last() =~= ops.take(i as int));
            }
            if let DrawOp::Clear(color) = &decoded.ops[i] {
                base_color = *color;
            }
            i += 1;
        }
        proof {
            let ops = ops_view(decoded.ops@);
            assert(ops.take(i as int) =~= ops);
        }
        self.scene = decoded.ops;
        self.base_color = base_color;
        match decoded.outcome {
            Ok(_) => Ok(()),
            Err(error) => Err(error),
        }
    }

    /// Makes the offscreen target fit the surface. Returns the size of the
    /// texture to create, if a new one is needed.
    pub fn ensure_offscreen_target(&mut self) -> (create: Option<Extent>)
        ensures
            final(self)@ == old(self)@.with_offscreen(),
            final(self).scene == old(self).scene,
            create == if old(self)@.offscreen_is_stale() {
                Some(old(self)@.offscreen_extent())
            } else {
                None
            },
    {
        let stale = match self.offscreen {
            None => true,
            Some(target) => target.width != self.config.width || target.height
                != self.config.height,
        };
        if !stale {
            return None;
        }
        let width = if self.config.width >= 1 {
            self.config.width
        } else {
            1
        };
        let height = if self.config.height >= 1 {
            self.config.height
        } else {
            1
        };
        self.offscreen = Some(
            OffscreenTarget { width: self.config.width, height: self.config.height },
        );
        self.present_bind_group = false;
        Some(Extent { width, height })
    }

    /// Makes sure a bind group exists. Returns whether one has to be made.
    pub fn ensure_present_bind_group(&mut self) -> (create: bool)
        ensures
            final(self)@ == old(self)@.with_bind_group(),
            final(self).scene == old(self).scene,
            create == !old(self).present_bind_group,
    {
        let create = !self.present_bind_group;
        self.present_bind_group = true;
        create
    }

    /// Makes the composite pipeline fit the swap-chain format. Returns the
    /// fragment format to build it for, if a new one is needed.
    pub fn ensure_present_pipeline(&mut self) -> (create: Option<TextureFormat>)
        ensures
            final(self)@ == old(self)@.with_pipeline(),
            final(self).scene == old(self).scene,
            create == if old(self)@.pipeline_is_stale() {
                Some(old(self).config.format)
            } else {
                None
            },
    {
        let format = self.config.format;
        let stale = match self.present_pipeline {
            None => true,
            Some(pipeline) => pipeline.format != format,
        };
        if !stale {
            return None;
        }
        self.present_pipeline = Some(PresentPipeline { format });
        Some(format)
    }

    /// Prepares a frame on an acquired swap-chain image: puts every target
    /// in place and returns what has to be built for that and what the
    /// frame is drawn with.
    pub fn render(&mut self) -> (plan: FramePlan)
        ensures
            plan == old(self)@.frame_plan(),
            final(self)@ == old(self)@.ready(),
            final(self).scene == old(self).scene,
    {
        let width = self.config.width;
        let height = self.config.height;
        let base_color = self.base_color;
        let offscreen = self.ensure_offscreen_target();
        let bind_group = self.ensure_present_bind_group();
        let pipeline = self.ensure_present_pipeline();
        FramePlan { offscreen, bind_group, pipeline, base_color, width, height }
    }
}

/// How a drawn frame ends: without error exactly when the rasterizer
/// reported none.
pub fn finish_frame(rasterized: bool) -> (r: Result<(), RenderError>)
    ensures
        r == if rasterized {
            Ok::<(), RenderError>(())
        } else {
            Err::<(), RenderError>(RenderError::RenderFailed)
        },
{
    if rasterized {
        Ok(())
    } else {
        Err(RenderError::RenderFailed)
    }
}

} // verus!
