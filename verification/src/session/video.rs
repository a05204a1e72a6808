//! How a frame is composed and handed to the encoder: the commands that are
//! recorded for the GPU, and the points of its timeline.

use vstd::prelude::*;
use crate::codec::VideoProfile;
use crate::compositor::buffers::{Buffer, BufferBacking, PlaneMetadata};
use crate::compositor::state::TextureSync;
use crate::compositor::surface::SurfaceConfiguration;
use crate::control::{DisplayParams, VideoStreamParams};

verus! {

/// Stands for whoever shares a buffer with the GPU.
pub const QUEUE_FAMILY_FOREIGN: u32 = 0xffff_fffd;

/// The points of a frame are so far from those of the frame before it.
pub const POINTS_PER_FRAME: u64 = 10;

/// A frame with its last point up to here is the first of its images.
pub const FIRST_FRAME_LIMIT: u64 = 20;

/// The command buffers of a frame: uploads are recorded to one, everything
/// else to the other.
#[derive(Debug, Clone, Copy, PartialEq, Eq, Structural)]
pub enum CommandBuffer {
    Staging,
    Render,
}

#[derive(Debug, Clone, Copy, PartialEq, Eq, Structural)]
pub enum Image {
    /// What surfaces are drawn to.
    Blend,
    /// What the encoder reads.
    Encode,
    /// The image of a client's buffer, by its handle.
    Texture(u64),
}

#[derive(Debug, Clone, Copy, PartialEq, Eq, Structural)]
pub enum Layout {
    Undefined,
    General,
    ColorAttachment,
    TransferDst,
    ShaderReadOnly,
    VideoEncodeSrc,
}

#[derive(Debug, Clone, Copy, PartialEq, Eq, Structural)]
pub enum Stage {
    Nothing,
    Transfer,
    FragmentShader,
    ColorAttachmentOutput,
    ComputeShader,
    AllGraphics,
}

#[derive(Debug, Clone, Copy, PartialEq, Eq, Structural)]
pub enum Access {
    Nothing,
    TransferWrite,
    ShaderRead,
    ColorAttachmentWrite,
    ShaderStorageRead,
    ShaderStorageWrite,
}

/// An image changes its layout, and perhaps its queue.
#[derive(Debug, Clone, Copy, PartialEq, Eq)]
pub struct Barrier {
    pub image: Image,
    pub queue_transfer: Option<(u32, u32)>,
    pub old_layout: Layout,
    pub new_layout: Layout,
    pub src: (Stage, Access),
    pub dst: (Stage, Access),
}

/// Where an image is drawn, in pixels of the display.
#[derive(Debug, Clone, Copy, PartialEq, Eq, Structural)]
pub struct Draw {
    pub image: u64,
    pub x: u32,
    pub y: u32,
    pub width: u32,
    pub height: u32,
}

#[derive(Debug, Clone, Copy, PartialEq, Eq)]
pub enum Command {
    Begin(CommandBuffer),
    ResetTimestamps(CommandBuffer),
    StartTimestamp(CommandBuffer),
    EndTimestamp(CommandBuffer),
    End(CommandBuffer),
    InsertBarrier(CommandBuffer, Barrier),
    /// Copies a staging buffer, with rows of so many pixels.
    Upload { image: u64, row_length: u32, height: u32 },
    CreateSemaphore { index: usize },
    /// A semaphore waits until the client has drawn.
    ImportSync { semaphore: usize, sync: TextureSync },
    BeginCompositing,
    DrawImage(Draw),
    EndCompositing,
    Convert { width: u32, height: u32, profile: VideoProfile },
    /// Moves the timeline to the end of the uploads.
    SignalStaging { value: u64 },
    /// Hands everything to the GPU: the uploads, if there are any, which move
    /// the timeline when they are done; then the rest, which waits for them
    /// and for the first of the semaphores.
    Submit { uploads: bool, staging_done: u64, semaphores: usize, render_done: u64 },
    SubmitEncode { wait: u64, signal: u64 },
    WaitStaging { value: u64 },
}

/// One of the frames that are in the making.
pub struct SwapFrame {
    pub texture_semas: usize,
    pub texture_semas_used: usize,
    pub draws: Vec<Draw>,
    pub use_staging: bool,
    pub tp_staging_done: u64,
    pub tp_render_done: u64,
    pub tp_clear: u64,
}

#[verifier::ext_equal]
pub struct SwapFrameView {
    pub texture_semas: usize,
    pub texture_semas_used: usize,
    pub draws: Seq<Draw>,
    pub use_staging: bool,
    pub tp_staging_done: u64,
    pub tp_render_done: u64,
    pub tp_clear: u64,
}

impl View for SwapFrame {
    type V = SwapFrameView;

    open spec fn view(&self) -> SwapFrameView {
        SwapFrameView {
            texture_semas: self.texture_semas,
            texture_semas_used: self.texture_semas_used,
            draws: self.draws@,
            use_staging: self.use_staging,
            tp_staging_done: self.tp_staging_done,
            tp_render_done: self.tp_render_done,
            tp_clear: self.tp_clear,
        }
    }
}

pub open spec fn blend_writable() -> Barrier {
    Barrier {
        image: Image::Blend,
        queue_transfer: None,
        old_layout: Layout::Undefined,
        new_layout: Layout::ColorAttachment,
        src: (Stage::Nothing, Access::Nothing),
        dst: (Stage::ColorAttachmentOutput, Access::ColorAttachmentWrite),
    }
}

pub open spec fn blend_readable() -> Barrier {
    Barrier {
        image: Image::Blend,
        queue_transfer: None,
        old_layout: Layout::ColorAttachment,
        new_layout: Layout::General,
        src: (Stage::ColorAttachmentOutput, Access::ColorAttachmentWrite),
        dst: (Stage::ComputeShader, Access::ShaderStorageRead),
    }
}

pub open spec fn texture_writable(image: u64) -> Barrier {
    Barrier {
        image: Image::Texture(image),
        queue_transfer: None,
        old_layout: Layout::Undefined,
        new_layout: Layout::TransferDst,
        src: (Stage::Nothing, Access::Nothing),
        dst: (Stage::Transfer, Access::TransferWrite),
    }
}

pub open spec fn texture_readable(image: u64) -> Barrier {
    Barrier {
        image: Image::Texture(image),
        queue_transfer: None,
        old_layout: Layout::TransferDst,
        new_layout: Layout::ShaderReadOnly,
        src: (Stage::Transfer, Access::TransferWrite),
        dst: (Stage::FragmentShader, Access::ShaderRead),
    }
}

/// A shared buffer is taken over from its client.
pub open spec fn texture_acquired(image: u64, family: u32) -> Barrier {
    Barrier {
        image: Image::Texture(image),
        queue_transfer: Some((QUEUE_FAMILY_FOREIGN, family)),
        old_layout: Layout::General,
        new_layout: Layout::ShaderReadOnly,
        src: (Stage::Nothing, Access::Nothing),
        dst: (Stage::FragmentShader, Access::ShaderRead),
    }
}

/// A shared buffer is given back.
pub open spec fn texture_released(image: u64, family: u32) -> Barrier {
    Barrier {
        image: Image::Texture(image),
        queue_transfer: Some((family, QUEUE_FAMILY_FOREIGN)),
        old_layout: Layout::ShaderReadOnly,
        new_layout: Layout::General,
        src: (Stage::AllGraphics, Access::ShaderRead),
        dst: (Stage::Nothing, Access::Nothing),
    }
}

/// The encoder gives its image back; for the first frame there is nothing to
/// give back.
pub open spec fn encode_acquired(first: bool, graphics: u32, encode: u32) -> Barrier {
    Barrier {
        image: Image::Encode,
        queue_transfer: if first {
            None
        } else {
            Some((encode, graphics))
        },
        old_layout: if first {
            Layout::Undefined
        } else {
            Layout::VideoEncodeSrc
        },
        new_layout: Layout::General,
        src: (Stage::Nothing, Access::Nothing),
        dst: (Stage::ComputeShader, Access::ShaderStorageWrite),
    }
}

/// The encoder gets its image.
pub open spec fn encode_released(graphics: u32, encode: u32) -> Barrier {
    Barrier {
        image: Image::Encode,
        queue_transfer: Some((graphics, encode)),
        old_layout: Layout::General,
        new_layout: Layout::VideoEncodeSrc,
        src: (Stage::ComputeShader, Access::ShaderStorageWrite),
        dst: (Stage::Nothing, Access::Nothing),
    }
}

pub open spec fn draw_commands(draws: Seq<Draw>) -> Seq<Command> {
    draws.map_values(|d: Draw| Command::DrawImage(d))
}

/// Where a configuration places an image.
pub open spec fn placed(image: u64, dest: SurfaceConfiguration) -> Draw {
    Draw { image, x: dest.x, y: dest.y, width: dest.width, height: dest.height }
}

impl SwapFrameView {
    /// The points of a frame follow each other, and semaphores that are used
    /// exist.
    pub open spec fn wf(self) -> bool {
        &&& self.tp_staging_done <= self.tp_render_done <= self.tp_clear <= self.tp_staging_done + 2
        &&& self.texture_semas_used <= self.texture_semas
    }

    /// A frame is begun: it gets new points.
    pub open spec fn begun(self) -> SwapFrameView {
        SwapFrameView {
            texture_semas_used: 0,
            tp_staging_done: (self.tp_staging_done + POINTS_PER_FRAME) as u64,
            tp_render_done: (self.tp_staging_done + POINTS_PER_FRAME + 1) as u64,
            tp_clear: (self.tp_staging_done + POINTS_PER_FRAME + 2) as u64,
            use_staging: false,
            ..self
        }
    }

    /// An image of shared memory is drawn: it is uploaded first, if its client
    /// has drawn.
    pub open spec fn with_shm(
        self,
        image: u64,
        format: PlaneMetadata,
        dirty: bool,
        dest: SurfaceConfiguration,
    ) -> (SwapFrameView, Seq<Command>) {
        (
            SwapFrameView {
                use_staging: self.use_staging || dirty,
                draws: self.draws.push(placed(image, dest)),
                ..self
            },
            (if dirty && !self.use_staging {
                seq![
                    Command::ResetTimestamps(CommandBuffer::Staging),
                    Command::StartTimestamp(CommandBuffer::Staging),
                ]
            } else {
                Seq::empty()
            }) + (if dirty {
                seq![
                    Command::InsertBarrier(CommandBuffer::Staging, texture_writable(image)),
                    Command::Upload {
                        image,
                        row_length: (format.stride as int / format.bpp as int) as u32,
                        height: format.height,
                    },
                ]
            } else {
                Seq::empty()
            }) + seq![Command::InsertBarrier(CommandBuffer::Render, texture_readable(image))],
        )
    }

    /// A buffer that is shared with the GPU is drawn, once its client has
    /// drawn. Semaphores are reused from frame to frame.
    pub open spec fn with_dmabuf(
        self,
        image: u64,
        family: u32,
        sync: Option<TextureSync>,
        dest: SurfaceConfiguration,
    ) -> (SwapFrameView, Seq<Command>) {
        let drawn = SwapFrameView { draws: self.draws.push(placed(image, dest)), ..self };
        let barriers = seq![
            Command::InsertBarrier(CommandBuffer::Render, texture_acquired(image, family)),
            Command::InsertBarrier(CommandBuffer::Render, texture_released(image, family)),
        ];
        match sync {
            None => (drawn, barriers),
            Some(sync) => {
                let index = self.texture_semas_used;
                let import = seq![Command::ImportSync { semaphore: index, sync }];
                if index < self.texture_semas {
                    (
                        SwapFrameView { texture_semas_used: (index + 1) as usize, ..drawn },
                        barriers + import,
                    )
                } else {
                    (
                        SwapFrameView {
                            texture_semas_used: (index + 1) as usize,
                            texture_semas: (self.texture_semas + 1) as usize,
                            ..drawn
                        },
                        barriers + seq![Command::CreateSemaphore { index }] + import,
                    )
                }
            },
        }
    }

    /// The commands that end a frame.
    pub open spec fn end_commands(
        self,
        width: u32,
        height: u32,
        profile: VideoProfile,
        graphics: u32,
        encode: u32,
    ) -> Seq<Command> {
        seq![Command::BeginCompositing] + draw_commands(self.draws) + seq![
            Command::EndCompositing,
            Command::InsertBarrier(CommandBuffer::Render, blend_readable()),
            Command::InsertBarrier(
                CommandBuffer::Render,
                encode_acquired(self.tp_clear <= FIRST_FRAME_LIMIT, graphics, encode),
            ),
            Command::Convert { width, height, profile },
            Command::InsertBarrier(CommandBuffer::Render, encode_released(graphics, encode)),
        ] + (if self.use_staging {
            seq![
                Command::EndTimestamp(CommandBuffer::Staging),
                Command::End(CommandBuffer::Staging),
            ]
        } else {
            seq![Command::SignalStaging { value: self.tp_staging_done }]
        }) + seq![
            Command::EndTimestamp(CommandBuffer::Render),
            Command::End(CommandBuffer::Render),
            Command::Submit {
                uploads: self.use_staging,
                staging_done: self.tp_staging_done,
                semaphores: self.texture_semas_used,
                render_done: self.tp_render_done,
            },
            Command::SubmitEncode { wait: self.tp_render_done, signal: self.tp_clear },
            Command::WaitStaging { value: self.tp_staging_done },
        ]
    }
}

fn barrier(
    image: Image,
    queue_transfer: Option<(u32, u32)>,
    old_layout: Layout,
    new_layout: Layout,
    src: (Stage, Access),
    dst: (Stage, Access),
) -> (result: Barrier)
    ensures
        result == (Barrier { image, queue_transfer, old_layout, new_layout, src, dst }),
{
    Barrier { image, queue_transfer, old_layout, new_layout, src, dst }
}

impl SwapFrame {
    pub fn new() -> (frame: SwapFrame)
        ensures
            frame@ == (SwapFrameView {
                texture_semas: 0,
                texture_semas_used: 0,
                draws: Seq::empty(),
                use_staging: false,
                tp_staging_done: 0,
                tp_render_done: 0,
                tp_clear: 0,
            }),
            frame@.wf(),
    {
        SwapFrame {
            texture_semas: 0,
            texture_semas_used: 0,
            draws: Vec::new(),
            use_staging: false,
            tp_staging_done: 0,
            tp_render_done: 0,
            tp_clear: 0,
        }
    }

    fn begin(&mut self) -> (commands: Vec<Command>)
        requires
            old(self)@.tp_staging_done + POINTS_PER_FRAME + 2 <= u64::MAX,
        ensures
            final(self)@ == old(self)@.begun(),
            commands@ == begin_commands(),
    {
        self.texture_semas_used = 0;
        self.tp_staging_done = self.tp_staging_done + POINTS_PER_FRAME;
        self.tp_render_done = self.tp_staging_done + 1;
        self.tp_clear = self.tp_render_done + 1;
        self.use_staging = false;
        let mut commands: Vec<Command> = Vec::new();
        commands.push(Command::Begin(CommandBuffer::Staging));
        commands.push(Command::Begin(CommandBuffer::Render));
        commands.push(Command::ResetTimestamps(CommandBuffer::Render));
        commands.push(Command::StartTimestamp(CommandBuffer::Render));
        commands.push(
            Command::InsertBarrier(
                CommandBuffer::Render,
                barrier(
                    Image::Blend,
                    None,
                    Layout::Undefined,
                    Layout::ColorAttachment,
                    (Stage::Nothing, Access::Nothing),
                    (Stage::ColorAttachmentOutput, Access::ColorAttachmentWrite),
                ),
            ),
        );
        assert(self@ =~= old(self)@.begun());
        assert(commands@ =~= begin_commands());
        commands
    }

    fn draw_shm(
        &mut self,
        image: u64,
        format: PlaneMetadata,
        dirty: bool,
        dest: SurfaceConfiguration,
    ) -> (commands: Vec<Command>)
        requires
            0 < format.bpp <= u32::MAX,
        ensures
            (final(self)@, commands@) == old(self)@.with_shm(image, format, dirty, dest),
    {
        let mut commands: Vec<Command> = Vec::new();
        if dirty {
            if !self.use_staging {
                commands.push(Command::ResetTimestamps(CommandBuffer::Staging));
                commands.push(Command::StartTimestamp(CommandBuffer::Staging));
            }
            self.use_staging = true;
            commands.push(
                Command::InsertBarrier(
                    CommandBuffer::Staging,
                    barrier(
                        Image::Texture(image),
                        None,
                        Layout::Undefined,
                        Layout::TransferDst,
                        (Stage::Nothing, Access::Nothing),
                        (Stage::Transfer, Access::TransferWrite),
                    ),
                ),
            );
            let row_length: u32 = format.stride / format.bpp as u32;
            commands.push(Command::Upload { image, row_length, height: format.height });
        }
        commands.push(
            Command::InsertBarrier(
                CommandBuffer::Render,
                barrier(
                    Image::Texture(image),
                    None,
                    Layout::TransferDst,
                    Layout::ShaderReadOnly,
                    (Stage::Transfer, Access::TransferWrite),
                    (Stage::FragmentShader, Access::ShaderRead),
                ),
            ),
        );
        self.draws.push(
            Draw { image, x: dest.x, y: dest.y, width: dest.width, height: dest.height },
        );
        assert(self@ =~= old(self)@.with_shm(image, format, dirty, dest).0);
        assert(commands@ =~= old(self)@.with_shm(image, format, dirty, dest).1);
        commands
    }

    fn draw_dmabuf(
        &mut self,
        image: u64,
        family: u32,
        sync: Option<TextureSync>,
        dest: SurfaceConfiguration,
    ) -> (commands: Vec<Command>)
        requires
            old(self)@.wf(),
            old(self)@.texture_semas < usize::MAX,
        ensures
            (final(self)@, commands@) == old(self)@.with_dmabuf(image, family, sync, dest),
    {
        let mut commands: Vec<Command> = Vec::new();
        commands.push(
            Command::InsertBarrier(
                CommandBuffer::Render,
                barrier(
                    Image::Texture(image),
                    Some((QUEUE_FAMILY_FOREIGN, family)),
                    Layout::General,
                    Layout::ShaderReadOnly,
                    (Stage::Nothing, Access::Nothing),
                    (Stage::FragmentShader, Access::ShaderRead),
                ),
            ),
        );
        commands.push(
            Command::InsertBarrier(
                CommandBuffer::Render,
                barrier(
                    Image::Texture(image),
                    Some((family, QUEUE_FAMILY_FOREIGN)),
                    Layout::ShaderReadOnly,
                    Layout::General,
                    (Stage::AllGraphics, Access::ShaderRead),
                    (Stage::Nothing, Access::Nothing),
                ),
            ),
        );
        if let Some(sync) = sync {
            let index: usize = self.texture_semas_used;
            self.texture_semas_used = index + 1;
            if self.texture_semas_used > self.texture_semas {
                self.texture_semas = self.texture_semas + 1;
                commands.push(Command::CreateSemaphore { index });
            }
            commands.push(Command::ImportSync { semaphore: index, sync });
        }
        self.draws.push(
            Draw { image, x: dest.x, y: dest.y, width: dest.width, height: dest.height },
        );
        assert(self@ =~= old(self)@.with_dmabuf(image, family, sync, dest).0);
        assert(commands@ =~= old(self)@.with_dmabuf(image, family, sync, dest).1);
        commands
    }
}

pub open spec fn begin_commands() -> Seq<Command> {
    seq![
        Command::Begin(CommandBuffer::Staging),
        Command::Begin(CommandBuffer::Render),
        Command::ResetTimestamps(CommandBuffer::Render),
        Command::StartTimestamp(CommandBuffer::Render),
        Command::InsertBarrier(CommandBuffer::Render, blend_writable()),
    ]
}

/// Composes the frames of a stream. Two frames are in the making at a time.
pub struct EncodePipeline {
    pub display_params: DisplayParams,
    pub streaming_params: VideoStreamParams,
    pub graphics_family: u32,
    pub encode_family: u32,
    pub swap: Vec<SwapFrame>,
    pub swap_idx: usize,
}

impl EncodePipeline {
    pub open spec fn wf(self) -> bool {
        &&& self.swap@.len() == 2
        &&& self.swap_idx < 2
        &&& forall|i: int| 0 <= i < 2 ==> (#[trigger] self.swap@[i])@.wf()
    }

    /// The frame that is next.
    pub open spec fn current(self) -> SwapFrameView {
        self.swap@[self.swap_idx as int]@
    }

    /// Nothing but the current frame is another.
    pub open spec fn only_current_changed(self, before: EncodePipeline) -> bool {
        &&& self.display_params == before.display_params
        &&& self.streaming_params == before.streaming_params
        &&& self.graphics_family == before.graphics_family
        &&& self.encode_family == before.encode_family
        &&& self.swap@.len() == before.swap@.len()
        &&& forall|i: int|
            0 <= i < self.swap@.len() && i != before.swap_idx ==> self.swap@[i] == before.swap@[i]
    }

    /// A pipeline for a stream of the size of the display.
    pub fn new(
        display_params: DisplayParams,
        streaming_params: VideoStreamParams,
        graphics_family: u32,
        encode_family: u32,
    ) -> (pipeline: EncodePipeline)
        requires
            streaming_params.width == display_params.width,
            streaming_params.height == display_params.height,
        ensures
            pipeline.wf(),
            pipeline.display_params == display_params,
            pipeline.streaming_params == streaming_params,
            pipeline.graphics_family == graphics_family,
            pipeline.encode_family == encode_family,
            pipeline.swap_idx == 0,
            forall|i: int|
                0 <= i < 2 ==> (#[trigger] pipeline.swap@[i])@ == (SwapFrameView {
                    texture_semas: 0,
                    texture_semas_used: 0,
                    draws: Seq::empty(),
                    use_staging: false,
                    tp_staging_done: 0,
                    tp_render_done: 0,
                    tp_clear: 0,
                }),
    {
        let mut swap: Vec<SwapFrame> = Vec::new();
        swap.push(SwapFrame::new());
        swap.push(SwapFrame::new());
        EncodePipeline {
            display_params,
            streaming_params,
            graphics_family,
            encode_family,
            swap,
            swap_idx: 0,
        }
    }

    /// Begins a frame. `counter` is how far the timeline of the frame has come.
    /// If what was last made of it is not encoded yet, the new frame is
    /// dropped, to let the application catch up.
    pub fn begin(&mut self, counter: u64) -> (commands: Option<Vec<Command>>)
        requires
            old(self).wf(),
            old(self).current().tp_staging_done + POINTS_PER_FRAME + 2 <= u64::MAX,
        ensures
            final(self).wf(),
            match commands {
                Some(commands) => {
                    &&& counter >= old(self).current().tp_clear
                    &&& commands@ == begin_commands()
                    &&& final(self).current() == old(self).current().begun()
                    &&& final(self).swap_idx == old(self).swap_idx
                    &&& final(self).only_current_changed(*old(self))
                },
                None => counter < old(self).current().tp_clear && *final(self) == *old(self),
            },
    {
        assert(self.swap@[self.swap_idx as int]@.wf());
        if counter < self.swap[self.swap_idx].tp_clear {
            return None;
        }
        let i: usize = self.swap_idx;
        let commands = self.swap[i].begin();
        Some(commands)
    }

    /// Adds a surface to the frame, with the handle of its image. Returns the
    /// commands, and the point after which the buffer is not read any more;
    /// one that is uploaded is not read at all.
    pub fn composite_surface(
        &mut self,
        buffer: &Buffer,
        image: u64,
        sync: Option<TextureSync>,
        dest: SurfaceConfiguration,
    ) -> (result: (Vec<Command>, Option<u64>))
        requires
            old(self).wf(),
            match buffer.backing {
                BufferBacking::Shm { format, .. } => sync is None && 0 < format.bpp <= u32::MAX,
                BufferBacking::Dmabuf { .. } => old(self).current().texture_semas < usize::MAX,
            },
        ensures
            final(self).wf(),
            final(self).swap_idx == old(self).swap_idx,
            final(self).only_current_changed(*old(self)),
            match buffer.backing {
                BufferBacking::Shm { format, dirty } => {
                    &&& (final(self).current(), result.0@) == old(self).current().with_shm(
                        image,
                        format,
                        dirty,
                        dest,
                    )
                    &&& result.1 is None
                },
                BufferBacking::Dmabuf { .. } => {
                    &&& (final(self).current(), result.0@) == old(self).current().with_dmabuf(
                        image,
                        old(self).graphics_family,
                        sync,
                        dest,
                    )
                    &&& result.1 == Some(old(self).current().tp_render_done)
                },
            },
    {
        assert(self.swap@[self.swap_idx as int]@.wf());
        let i: usize = self.swap_idx;
        let family: u32 = self.graphics_family;
        match buffer.backing {
            BufferBacking::Shm { format, dirty } => {
                let commands = self.swap[i].draw_shm(image, format, dirty, dest);
                (commands, None)
            },
            BufferBacking::Dmabuf { .. } => {
                let commands = self.swap[i].draw_dmabuf(image, family, sync, dest);
                (commands, Some(self.swap[i].tp_render_done))
            },
        }
    }

    /// Ends the frame and hands it to the encoder. Returns the commands, and
    /// the point at which the frame is both drawn and encoded. The other frame
    /// is next.
    pub fn end_and_submit(&mut self) -> (result: (Vec<Command>, u64))
        requires
            old(self).wf(),
        ensures
            final(self).wf(),
            final(self).only_current_changed(*old(self)),
            final(self).swap_idx == (old(self).swap_idx + 1) % 2,
            final(self).swap@[old(self).swap_idx as int]@ == (SwapFrameView {
                draws: Seq::empty(),
                ..old(self).current()
            }),
            result.0@ == old(self).current().end_commands(
                old(self).streaming_params.width,
                old(self).streaming_params.height,
                old(self).streaming_params.profile,
                old(self).graphics_family,
                old(self).encode_family,
            ),
            result.1 == old(self).current().tp_clear,
    {
        let i: usize = self.swap_idx;
        let ghost frame = self.current();
        assert(self.swap@[i as int]@.wf());
        let (graphics, encode): (u32, u32) = (self.graphics_family, self.encode_family);
        let mut commands: Vec<Command> = Vec::new();
        commands.push(Command::BeginCompositing);
        let mut draws: Vec<Draw> = Vec::new();
        draws.append(&mut self.swap[i].draws);
        let mut k: usize = 0;
        assert(draw_commands(frame.draws.take(0)) =~= Seq::empty());
        while k < draws.len()
            invariant
                k <= draws@.len(),
                draws@ == frame.draws,
                commands@ == seq![Command::BeginCompositing] + draw_commands(
                    frame.draws.take(k as int),
                ),
            decreases draws.len() - k,
        {
            let draw: Draw = draws[k];
            commands.push(Command::DrawImage(draw));
            assert(draw_commands(frame.draws.take(k + 1)) =~= draw_commands(
                frame.draws.take(k as int),
            ).push(Command::DrawImage(draw)));
            assert(commands@ =~= seq![Command::BeginCompositing] + draw_commands(
                frame.draws.take(k + 1),
            ));
            k += 1;
        }
        assert(frame.draws.take(k as int) =~= frame.draws);
        commands.push(Command::EndCompositing);
        commands.push(
            Command::InsertBarrier(
                CommandBuffer::Render,
                barrier(
                    Image::Blend,
                    None,
                    Layout::ColorAttachment,
                    Layout::General,
                    (Stage::ColorAttachmentOutput, Access::ColorAttachmentWrite),
                    (Stage::ComputeShader, Access::ShaderStorageRead),
                ),
            ),
        );
        let first = self.swap[i].tp_clear <= FIRST_FRAME_LIMIT;
        let acquired = if first {
            barrier(
                Image::Encode,
                None,
                Layout::Undefined,
                Layout::General,
                (Stage::Nothing, Access::Nothing),
                (Stage::ComputeShader, Access::ShaderStorageWrite),
            )
        } else {
            barrier(
                Image::Encode,
                Some((encode, graphics)),
                Layout::VideoEncodeSrc,
                Layout::General,
                (Stage::Nothing, Access::Nothing),
                (Stage::ComputeShader, Access::ShaderStorageWrite),
            )
        };
        commands.push(Command::InsertBarrier(CommandBuffer::Render, acquired));
        commands.push(
            Command::Convert {
                width: self.streaming_params.width,
                height: self.streaming_params.height,
                profile: self.streaming_params.profile,
            },
        );
        commands.push(
            Command::InsertBarrier(
                CommandBuffer::Render,
                barrier(
                    Image::Encode,
                    Some((graphics, encode)),
                    Layout::General,
                    Layout::VideoEncodeSrc,
                    (Stage::ComputeShader, Access::ShaderStorageWrite),
                    (Stage::Nothing, Access::Nothing),
                ),
            ),
        );
        let staging_done: u64 = self.swap[i].tp_staging_done;
        let render_done: u64 = self.swap[i].tp_render_done;
        let tp_clear: u64 = self.swap[i].tp_clear;
        let uploads = self.swap[i].use_staging;
        if uploads {
            commands.push(Command::EndTimestamp(CommandBuffer::Staging));
            commands.push(Command::End(CommandBuffer::Staging));
        } else {
            commands.push(Command::SignalStaging { value: staging_done });
        }
        commands.push(Command::EndTimestamp(CommandBuffer::Render));
        commands.push(Command::End(CommandBuffer::Render));
        commands.push(
            Command::Submit {
                uploads,
                staging_done,
                semaphores: self.swap[i].texture_semas_used,
                render_done,
            },
        );
        commands.push(Command::SubmitEncode { wait: render_done, signal: tp_clear });
        commands.push(Command::WaitStaging { value: staging_done });
        assert(commands@ =~= frame.end_commands(
            old(self).streaming_params.width,
            old(self).streaming_params.height,
            old(self).streaming_params.profile,
            graphics,
            encode,
        ));
        assert(self.swap@[i as int]@ =~= SwapFrameView { draws: Seq::empty(), ..frame });
        self.swap_idx = (self.swap_idx + 1) % 2;
        (commands, tp_clear)
    }
}

/// The points of a frame come in the order in which its work is done, and after
/// all points of the frame that was made of the same images before.
pub proof fn frame_points_grow(frame: SwapFrameView)
    requires
        frame.wf(),
        frame.tp_staging_done + POINTS_PER_FRAME + 2 <= u64::MAX,
    ensures
        ({
            let next = frame.begun();
            &&& frame.tp_clear < next.tp_staging_done
            &&& next.tp_staging_done < next.tp_render_done
            &&& next.tp_render_done < next.tp_clear
            &&& next.wf()
        }),
{
}

/// A buffer of a client is given back as it was taken.
pub proof fn textures_are_given_back(image: u64, family: u32)
    ensures
        texture_acquired(image, family).old_layout == texture_released(image, family).new_layout,
        texture_acquired(image, family).new_layout == texture_released(image, family).old_layout,
        texture_acquired(image, family).queue_transfer == Some((QUEUE_FAMILY_FOREIGN, family)),
        texture_released(image, family).queue_transfer == Some((family, QUEUE_FAMILY_FOREIGN)),
{
}

/// The image of the encoder is taken from it as it was handed over, in every
/// frame but the first of its images; and it was handed over in every frame.
pub proof fn encode_image_comes_back(frame: SwapFrameView, graphics: u32, encode: u32)
    requires
        frame.tp_clear > 0,
        frame.tp_staging_done % 10 == 0,
        frame.tp_clear == frame.tp_staging_done + 2,
        frame.tp_staging_done + POINTS_PER_FRAME + 2 <= u64::MAX,
    ensures
        ({
            let next = frame.begun();
            let taken = encode_acquired(next.tp_clear <= FIRST_FRAME_LIMIT, graphics, encode);
            let given = encode_released(graphics, encode);
            frame.tp_staging_done >= 10 ==> {
                &&& taken.old_layout == given.new_layout
                &&& taken.new_layout == given.old_layout
                &&& taken.queue_transfer == Some((encode, graphics))
                &&& given.queue_transfer == Some((graphics, encode))
            }
        }),
        frame.tp_staging_done == 10 ==> encode_acquired(
            frame.tp_clear <= FIRST_FRAME_LIMIT,
            graphics,
            encode,
        ).queue_transfer is None,
{
}

pub const G8_B8R8_2PLANE_420: i32 = 1_000_156_003;

pub const G8_B8R8_2PLANE_422: i32 = 1_000_156_005;

pub const G8_B8R8_2PLANE_444: i32 = 1_000_330_000;

pub const G8_B8_R8_3PLANE_420: i32 = 1_000_156_002;

pub const G8_B8_R8_3PLANE_422: i32 = 1_000_156_004;

pub const G8_B8_R8_3PLANE_444: i32 = 1_000_156_006;

pub const G10X6_2PLANE_420: i32 = 1_000_156_013;

pub const G10X6_2PLANE_422: i32 = 1_000_156_015;

pub const G10X6_2PLANE_444: i32 = 1_000_330_001;

pub const G10X6_3PLANE_420: i32 = 1_000_156_012;

pub const G10X6_3PLANE_422: i32 = 1_000_156_014;

pub const G10X6_3PLANE_444: i32 = 1_000_156_016;

pub const G12X4_2PLANE_420: i32 = 1_000_156_023;

pub const G12X4_2PLANE_422: i32 = 1_000_156_025;

pub const G12X4_2PLANE_444: i32 = 1_000_330_002;

pub const G12X4_3PLANE_420: i32 = 1_000_156_022;

pub const G12X4_3PLANE_422: i32 = 1_000_156_024;

pub const G12X4_3PLANE_444: i32 = 1_000_156_026;

pub const G16_2PLANE_420: i32 = 1_000_156_030;

pub const G16_2PLANE_422: i32 = 1_000_156_032;

pub const G16_2PLANE_444: i32 = 1_000_330_003;

pub const G16_3PLANE_420: i32 = 1_000_156_029;

pub const G16_3PLANE_422: i32 = 1_000_156_031;

pub const G16_3PLANE_444: i32 = 1_000_156_033;

pub const R8: i32 = 9;

pub const R8G8: i32 = 16;

pub const R16: i32 = 70;

pub const R16G16: i32 = 77;

pub const R10X6: i32 = 1_000_156_007;

pub const R10X6G10X6: i32 = 1_000_156_008;

pub const R12X4: i32 = 1_000_156_017;

pub const R12X4G12X4: i32 = 1_000_156_018;

/// A format with two planes: one for brightness, and one for both parts of
/// colour.
pub open spec fn is_semiplanar(format: i32) -> bool {
    ||| format == G8_B8R8_2PLANE_420 || format == G8_B8R8_2PLANE_422 || format
        == G8_B8R8_2PLANE_444
    ||| format == G10X6_2PLANE_420 || format == G10X6_2PLANE_422 || format == G10X6_2PLANE_444
    ||| format == G12X4_2PLANE_420 || format == G12X4_2PLANE_422 || format == G12X4_2PLANE_444
    ||| format == G16_2PLANE_420 || format == G16_2PLANE_422 || format == G16_2PLANE_444
}

/// A format with three planes.
pub open spec fn is_planar(format: i32) -> bool {
    ||| format == G8_B8_R8_3PLANE_420 || format == G8_B8_R8_3PLANE_422 || format
        == G8_B8_R8_3PLANE_444
    ||| format == G10X6_3PLANE_420 || format == G10X6_3PLANE_422 || format == G10X6_3PLANE_444
    ||| format == G12X4_3PLANE_420 || format == G12X4_3PLANE_422 || format == G12X4_3PLANE_444
    ||| format == G16_3PLANE_420 || format == G16_3PLANE_422 || format == G16_3PLANE_444
}

pub fn format_is_semiplanar(format: i32) -> (semiplanar: bool)
    ensures
        semiplanar == is_semiplanar(format),
{
    format == G8_B8R8_2PLANE_420 || format == G8_B8R8_2PLANE_422 || format == G8_B8R8_2PLANE_444
        || format == G10X6_2PLANE_420 || format == G10X6_2PLANE_422 || format == G10X6_2PLANE_444
        || format == G12X4_2PLANE_420 || format == G12X4_2PLANE_422 || format == G12X4_2PLANE_444
        || format == G16_2PLANE_420 || format == G16_2PLANE_422 || format == G16_2PLANE_444
}

/// The formats of single planes: one with one component, and one with two.
pub open spec fn plane_formats(format: i32) -> Option<(i32, i32)> {
    if format == G8_B8R8_2PLANE_420 || format == G8_B8R8_2PLANE_422 || format == G8_B8R8_2PLANE_444
        || format == G8_B8_R8_3PLANE_420 || format == G8_B8_R8_3PLANE_422 || format
        == G8_B8_R8_3PLANE_444 {
        Some((R8, R8G8))
    } else if format == G10X6_2PLANE_420 || format == G10X6_2PLANE_422 || format
        == G10X6_2PLANE_444 || format == G10X6_3PLANE_420 || format == G10X6_3PLANE_422 || format
        == G10X6_3PLANE_444 {
        Some((R10X6, R10X6G10X6))
    } else if format == G12X4_2PLANE_420 || format == G12X4_2PLANE_422 || format
        == G12X4_2PLANE_444 || format == G12X4_3PLANE_420 || format == G12X4_3PLANE_422 || format
        == G12X4_3PLANE_444 {
        Some((R12X4, R12X4G12X4))
    } else if format == G16_2PLANE_420 || format == G16_2PLANE_422 || format == G16_2PLANE_444
        || format == G16_3PLANE_420 || format == G16_3PLANE_422 || format == G16_3PLANE_444 {
        Some((R16, R16G16))
    } else {
        None
    }
}

pub fn disjoint_plane_formats(format: i32) -> (formats: Option<(i32, i32)>)
    ensures
        formats == plane_formats(format),
{
    if format == G8_B8R8_2PLANE_420 || format == G8_B8R8_2PLANE_422 || format == G8_B8R8_2PLANE_444
        || format == G8_B8_R8_3PLANE_420 || format == G8_B8_R8_3PLANE_422 || format
        == G8_B8_R8_3PLANE_444 {
        Some((R8, R8G8))
    } else if format == G10X6_2PLANE_420 || format == G10X6_2PLANE_422 || format
        == G10X6_2PLANE_444 || format == G10X6_3PLANE_420 || format == G10X6_3PLANE_422 || format
        == G10X6_3PLANE_444 {
        Some((R10X6, R10X6G10X6))
    } else if format == G12X4_2PLANE_420 || format == G12X4_2PLANE_422 || format
        == G12X4_2PLANE_444 || format == G12X4_3PLANE_420 || format == G12X4_3PLANE_422 || format
        == G12X4_3PLANE_444 {
        Some((R12X4, R12X4G12X4))
    } else if format == G16_2PLANE_420 || format == G16_2PLANE_422 || format == G16_2PLANE_444
        || format == G16_3PLANE_420 || format == G16_3PLANE_422 || format == G16_3PLANE_444 {
        Some((R16, R16G16))
    } else {
        None
    }
}

/// The formats in which each plane of an image is written to, in the order of
/// the planes; none, where planes cannot be written to.
pub fn plane_view_formats(format: i32) -> (formats: Option<Vec<i32>>)
    ensures
        match (formats, plane_formats(format)) {
            (Some(views), Some((single, double))) => views@ == if is_semiplanar(format) {
                seq![single, double]
            } else {
                seq![single, single, single]
            },
            (None, None) => true,
            _ => false,
        },
{
    match disjoint_plane_formats(format) {
        Some((single, double)) => {
            let mut views: Vec<i32> = Vec::new();
            if format_is_semiplanar(format) {
                views.push(single);
                views.push(double);
                assert(views@ =~= seq![single, double]);
            } else {
                views.push(single);
                views.push(single);
                views.push(single);
                assert(views@ =~= seq![single, single, single]);
            }
            Some(views)
        },
        None => None,
    }
}

/// Every format with several planes can be written to, plane by plane, and no
/// other.
pub proof fn planar_formats_can_be_written(format: i32)
    ensures
        plane_formats(format) is Some <==> is_semiplanar(format) || is_planar(format),
        !(is_semiplanar(format) && is_planar(format)),
{
}

/// A surface that is added to a frame is drawn over those that were added
/// before, in exactly the rectangle of its configuration, be it of shared
/// memory or of the GPU. The surfaces before it stay where they were.
pub proof fn surface_is_drawn_in_its_rectangle(
    frame: SwapFrameView,
    image: u64,
    format: PlaneMetadata,
    dirty: bool,
    family: u32,
    sync: Option<TextureSync>,
    dest: SurfaceConfiguration,
    i: int,
)
    ensures
        ({
            let shm = frame.with_shm(image, format, dirty, dest).0.draws;
            let dmabuf = frame.with_dmabuf(image, family, sync, dest).0.draws;
            &&& shm.len() == frame.draws.len() + 1
            &&& shm.last().image == image
            &&& shm.last().x == dest.x && shm.last().y == dest.y
            &&& shm.last().width == dest.width && shm.last().height == dest.height
            &&& dmabuf.len() == frame.draws.len() + 1
            &&& dmabuf.last().image == image
            &&& dmabuf.last().x == dest.x && dmabuf.last().y == dest.y
            &&& dmabuf.last().width == dest.width && dmabuf.last().height == dest.height
            &&& 0 <= i < frame.draws.len() ==> shm[i] == frame.draws[i] && dmabuf[i]
                == frame.draws[i]
        }),
{
}

/// A frame ends with one drawing command for each surface, in the order in which
/// they were added, and with no other.
pub proof fn frame_draws_its_surfaces(
    frame: SwapFrameView,
    width: u32,
    height: u32,
    profile: VideoProfile,
    graphics: u32,
    encode: u32,
    i: int,
)
    ensures
        ({
            let commands = frame.end_commands(width, height, profile, graphics, encode);
            &&& commands.len() > frame.draws.len() + 1
            &&& commands[0] == Command::BeginCompositing
            &&& 0 <= i < frame.draws.len() ==> commands[i + 1] == Command::DrawImage(
                frame.draws[i],
            )
            &&& commands[frame.draws.len() as int + 1] == Command::EndCompositing
            &&& frame.draws.len() < i < commands.len() ==> !(commands[i] is DrawImage)
        }),
{
}

/// What was drawn is turned into a picture of the size and the profile of the
/// stream; the encoder waits for just that, and the frame is free when the
/// encoder is done.
pub proof fn frame_is_converted_and_encoded(
    frame: SwapFrameView,
    width: u32,
    height: u32,
    profile: VideoProfile,
    graphics: u32,
    encode: u32,
)
    requires
        graphics != encode,
    ensures
        ({
            let commands = frame.end_commands(width, height, profile, graphics, encode);
            let n = commands.len() as int;
            &&& n >= 5
            &&& commands.contains(Command::Convert { width, height, profile })
            &&& forall|i: int, j: int|
                0 <= i < n && 0 <= j < n && #[trigger] commands[i] is DrawImage
                    && #[trigger] commands[j] is Convert ==> i < j
            &&& forall|i: int, j: int|
                0 <= i < n && 0 <= j < n && #[trigger] commands[i] is Convert
                    && #[trigger] commands[j] is Submit ==> i < j
            &&& commands[n - 3] matches Command::Submit {
                uploads,
                staging_done,
                semaphores,
                render_done,
            } && uploads == frame.use_staging && staging_done == frame.tp_staging_done
                && semaphores == frame.texture_semas_used && render_done == frame.tp_render_done
            &&& commands[n - 2] matches Command::SubmitEncode { wait, signal } && wait
                == frame.tp_render_done && signal == frame.tp_clear
            &&& commands[n - 1] matches Command::WaitStaging { value } && value
                == frame.tp_staging_done
            &&& !frame.use_staging ==> commands.contains(
                Command::SignalStaging { value: frame.tp_staging_done },
            )
            &&& frame.use_staging ==> commands.contains(Command::End(CommandBuffer::Staging))
            &&& commands.contains(Command::End(CommandBuffer::Render))
            &&& forall|i: int| #![trigger commands[i]]
                0 <= i < n && commands[i] is Convert ==> i >= 2 && (commands[i - 1] matches
                    Command::InsertBarrier(_, taken) && taken.image == Image::Encode
                    && taken.new_layout == Layout::General) && (commands[i + 1] matches
                    Command::InsertBarrier(_, given) && given.image == Image::Encode
                    && given.old_layout == Layout::General && given.new_layout
                    == Layout::VideoEncodeSrc && given.queue_transfer == Some((graphics, encode)))
        }),
{
    let commands = frame.end_commands(width, height, profile, graphics, encode);
    let d = frame.draws.len() as int;
    assert(commands[d + 4] == Command::Convert { width, height, profile });
    if frame.use_staging {
        assert(commands[d + 7] == Command::End(CommandBuffer::Staging));
        assert(commands[d + 9] == Command::End(CommandBuffer::Render));
    } else {
        assert(commands[d + 6] == Command::SignalStaging { value: frame.tp_staging_done });
        assert(commands[d + 8] == Command::End(CommandBuffer::Render));
    }
}

/// An image of shared memory is uploaded if and only if its client has drawn,
/// with rows of as many whole pixels as a line of the buffer has room for; only
/// then does the frame have uploads to wait for on its account.
pub proof fn drawn_image_is_uploaded(
    frame: SwapFrameView,
    image: u64,
    format: PlaneMetadata,
    dirty: bool,
    dest: SurfaceConfiguration,
)
    requires
        0 < format.bpp <= u32::MAX,
    ensures
        ({
            let (after, commands) = frame.with_shm(image, format, dirty, dest);
            &&& after.use_staging <==> frame.use_staging || dirty
            &&& after.texture_semas_used == frame.texture_semas_used
            &&& after.tp_staging_done == frame.tp_staging_done
            &&& after.tp_render_done == frame.tp_render_done
            &&& after.tp_clear == frame.tp_clear
            &&& !dirty ==> commands.len() == 1
            &&& dirty ==> (commands[commands.len() - 2] matches Command::Upload {
                image: target,
                row_length,
                height,
            } && target == image && height == format.height && row_length * format.bpp
                <= format.stride < (row_length + 1) * format.bpp)
            &&& dirty ==> (commands[commands.len() - 3] matches Command::InsertBarrier(
                buffer,
                before,
            ) && buffer == CommandBuffer::Staging && before.image == Image::Texture(image)
                && before.new_layout == Layout::TransferDst && before.dst == (
                Stage::Transfer,
                Access::TransferWrite,
            ))
            &&& commands.last() matches Command::InsertBarrier(buffer, then) && buffer
                == CommandBuffer::Render && then.image == Image::Texture(image) && then.old_layout
                == Layout::TransferDst && then.new_layout == Layout::ShaderReadOnly && then.src == (
                Stage::Transfer,
                Access::TransferWrite,
            ) && then.dst == (Stage::FragmentShader, Access::ShaderRead)
            &&& dirty && !frame.use_staging <==> commands.contains(
                Command::StartTimestamp(CommandBuffer::Staging),
            )
        }),
{
    let (after, commands) = frame.with_shm(image, format, dirty, dest);
    let q = format.stride as int / format.bpp as int;
    vstd::arithmetic::div_mod::lemma_fundamental_div_mod(format.stride as int, format.bpp as int);
    assert(0 <= q <= format.stride) by (nonlinear_arith)
        requires
            q == format.stride as int / format.bpp as int,
            format.bpp > 0,
            format.stride >= 0,
    ;
    assert(q * format.bpp <= format.stride < (q + 1) * format.bpp) by (nonlinear_arith)
        requires
            format.stride == format.bpp * q + format.stride as int % format.bpp as int,
            0 <= format.stride as int % format.bpp as int,
            (format.stride as int % format.bpp as int) < format.bpp,
    ;
    if dirty && !frame.use_staging {
        assert(commands[1] == Command::StartTimestamp(CommandBuffer::Staging));
    }
}

/// A shared buffer is taken from its client and given back, each for just as
/// long as it is read. If the client is still drawing, the frame waits for it,
/// with a semaphore that no other surface of the frame uses.
pub proof fn shared_buffer_is_waited_for(
    frame: SwapFrameView,
    image: u64,
    family: u32,
    sync: Option<TextureSync>,
    dest: SurfaceConfiguration,
)
    requires
        frame.wf(),
        frame.texture_semas < usize::MAX,
    ensures
        ({
            let (after, commands) = frame.with_dmabuf(image, family, sync, dest);
            &&& after.use_staging == frame.use_staging
            &&& after.tp_staging_done == frame.tp_staging_done
            &&& after.tp_render_done == frame.tp_render_done
            &&& after.tp_clear == frame.tp_clear
            &&& after.wf()
            &&& commands[0] matches Command::InsertBarrier(buffer, taken) && buffer
                == CommandBuffer::Render && taken.image == Image::Texture(image)
                && taken.queue_transfer == Some((QUEUE_FAMILY_FOREIGN, family)) && taken.new_layout
                == Layout::ShaderReadOnly && taken.dst == (
                Stage::FragmentShader,
                Access::ShaderRead,
            )
            &&& commands[1] matches Command::InsertBarrier(buffer, given) && buffer
                == CommandBuffer::Render && given.image == Image::Texture(image)
                && given.queue_transfer == Some((family, QUEUE_FAMILY_FOREIGN)) && given.old_layout
                == Layout::ShaderReadOnly && given.src.1 == Access::ShaderRead
            &&& match sync {
                None => after.texture_semas_used == frame.texture_semas_used
                    && after.texture_semas == frame.texture_semas && commands.len() == 2,
                Some(sync) => {
                    &&& after.texture_semas_used == frame.texture_semas_used + 1
                    &&& commands.last() == Command::ImportSync {
                        semaphore: frame.texture_semas_used,
                        sync,
                    }
                    &&& commands.contains(
                        Command::CreateSemaphore { index: frame.texture_semas_used },
                    ) <==> frame.texture_semas_used == frame.texture_semas
                    &&& after.texture_semas >= frame.texture_semas
                },
            }
        }),
{
    let (after, commands) = frame.with_dmabuf(image, family, sync, dest);
    if sync is Some && frame.texture_semas_used == frame.texture_semas {
        assert(commands[2] == Command::CreateSemaphore { index: frame.texture_semas_used });
    }
}

/// A frame that is begun waits for nothing and has nothing uploaded yet, keeps
/// its semaphores, and prepares the image that surfaces are drawn to; that image
/// is read as it was drawn at the end.
pub proof fn begun_frame_is_empty(
    frame: SwapFrameView,
    width: u32,
    height: u32,
    profile: VideoProfile,
    graphics: u32,
    encode: u32,
)
    ensures
        frame.begun().texture_semas_used == 0,
        !frame.begun().use_staging,
        frame.begun().texture_semas == frame.texture_semas,
        frame.begun().draws == frame.draws,
        begin_commands().contains(Command::Begin(CommandBuffer::Staging)),
        begin_commands().contains(Command::Begin(CommandBuffer::Render)),
        begin_commands().last() matches Command::InsertBarrier(buffer, drawn) && buffer
            == CommandBuffer::Render && drawn.image == Image::Blend && drawn.new_layout
            == Layout::ColorAttachment && drawn.dst == (
            Stage::ColorAttachmentOutput,
            Access::ColorAttachmentWrite,
        ) && (frame.end_commands(width, height, profile, graphics, encode)[frame.draws.len() as int
            + 2] matches Command::InsertBarrier(also, read) && also == CommandBuffer::Render
            && read.image == Image::Blend && read.old_layout == drawn.new_layout && read.src
            == drawn.dst && read.new_layout == Layout::General && read.dst == (
            Stage::ComputeShader,
            Access::ShaderStorageRead,
        )),
{
    assert(begin_commands()[0] == Command::Begin(CommandBuffer::Staging));
    assert(begin_commands()[1] == Command::Begin(CommandBuffer::Render));
}

/// The planes of a format have one or two components of the same depth: formats
/// that differ only in how colour is sampled, or in how many planes there are,
/// share them, and formats of different depths do not.
pub proof fn planes_have_the_depth_of_the_image()
    ensures
        plane_formats(G8_B8R8_2PLANE_420) == Some((R8, R8G8)),
        plane_formats(G8_B8R8_2PLANE_422) == plane_formats(G8_B8R8_2PLANE_420),
        plane_formats(G8_B8R8_2PLANE_444) == plane_formats(G8_B8R8_2PLANE_420),
        plane_formats(G8_B8_R8_3PLANE_420) == plane_formats(G8_B8R8_2PLANE_420),
        plane_formats(G8_B8_R8_3PLANE_422) == plane_formats(G8_B8R8_2PLANE_420),
        plane_formats(G8_B8_R8_3PLANE_444) == plane_formats(G8_B8R8_2PLANE_420),
        plane_formats(G10X6_2PLANE_420) == Some((R10X6, R10X6G10X6)),
        plane_formats(G10X6_2PLANE_422) == plane_formats(G10X6_2PLANE_420),
        plane_formats(G10X6_2PLANE_444) == plane_formats(G10X6_2PLANE_420),
        plane_formats(G10X6_3PLANE_420) == plane_formats(G10X6_2PLANE_420),
        plane_formats(G10X6_3PLANE_422) == plane_formats(G10X6_2PLANE_420),
        plane_formats(G10X6_3PLANE_444) == plane_formats(G10X6_2PLANE_420),
        plane_formats(G12X4_2PLANE_420) == Some((R12X4, R12X4G12X4)),
        plane_formats(G12X4_2PLANE_422) == plane_formats(G12X4_2PLANE_420),
        plane_formats(G12X4_2PLANE_444) == plane_formats(G12X4_2PLANE_420),
        plane_formats(G12X4_3PLANE_420) == plane_formats(G12X4_2PLANE_420),
        plane_formats(G12X4_3PLANE_422) == plane_formats(G12X4_2PLANE_420),
        plane_formats(G12X4_3PLANE_444) == plane_formats(G12X4_2PLANE_420),
        plane_formats(G16_2PLANE_420) == Some((R16, R16G16)),
        plane_formats(G16_2PLANE_422) == plane_formats(G16_2PLANE_420),
        plane_formats(G16_2PLANE_444) == plane_formats(G16_2PLANE_420),
        plane_formats(G16_3PLANE_420) == plane_formats(G16_2PLANE_420),
        plane_formats(G16_3PLANE_422) == plane_formats(G16_2PLANE_420),
        plane_formats(G16_3PLANE_444) == plane_formats(G16_2PLANE_420),
{
}

} // verus!
