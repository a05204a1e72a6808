//! Buffers that clients draw into: what is accepted, and when they are given
//! back.

use vstd::prelude::*;
use slotmap::DefaultKey;
use crate::compositor::modifiers::{
    fourcc_to_vk, verify_dmabuf_support, ARGB8888, VK_FORMAT_B8G8R8A8_UNORM, XRGB8888,
};
use crate::compositor::slots::{same_key, BufferSlots, SurfaceSlots};
use crate::compositor::surface::{ContentUpdate, Surface, SyncobjTimelinePoint};

verus! {

/// How the pixels of a buffer are laid out.
#[derive(Debug, Clone, Copy, PartialEq, Eq, Structural)]
pub struct PlaneMetadata {
    pub format: u32,
    pub bpp: usize,
    pub width: u32,
    pub height: u32,
    pub stride: u32,
    pub offset: u32,
}

#[derive(Debug, Clone, Copy, PartialEq, Eq, Structural)]
pub enum BufferBacking {
    Shm {
        format: PlaneMetadata,
        /// The buffer was written to, and is not uploaded yet.
        dirty: bool,
    },
    Dmabuf { format: PlaneMetadata },
}

pub struct Buffer {
    /// The id of the Wayland object.
    pub wl_buffer: u32,
    pub backing: BufferBacking,
    /// The client destroyed the buffer: it goes once it is not in use.
    pub needs_destruction: bool,
}

impl Buffer {
    pub fn dimensions(&self) -> (size: (u32, u32))
        ensures
            size == match self.backing {
                BufferBacking::Shm { format, .. } => (format.width, format.height),
                BufferBacking::Dmabuf { format } => (format.width, format.height),
            },
    {
        match self.backing {
            BufferBacking::Shm { format, .. } => (format.width, format.height),
            BufferBacking::Dmabuf { format } => (format.width, format.height),
        }
    }
}

/// What is wrong with the parameters of a buffer, if anything is.
pub open spec fn buffer_flaw(offset: i32, width: i32, height: i32, stride: i32, bpp: usize) -> Option<
    Seq<char>,
> {
    if offset < 0 {
        Some("Negative offset."@)
    } else if width <= 0 || height <= 0 {
        Some("Invalid height or width."@)
    } else if stride <= 0 || (bpp as i32) <= 0 || (stride as int / (bpp as i32) as int) < width
        || stride * height > i32::MAX {
        Some("Invalid stride."@)
    } else if offset + stride * height > i32::MAX {
        Some("Invalid offset."@)
    } else {
        None
    }
}

/// Checks the parameters of a buffer: each row has room for its pixels, and
/// the buffer does not reach further than its size can say.
pub fn validate_buffer_parameters(offset: i32, width: i32, height: i32, stride: i32, bpp: usize) -> (
result: Result<(), String>)
    ensures
        match (result, buffer_flaw(offset, width, height, stride, bpp)) {
            (Ok(_), None) => true,
            (Err(text), Some(expected)) => text@ == expected,
            _ => false,
        },
{
    if offset < 0 {
        return Err("Negative offset.".to_owned());
    }
    if width <= 0 || height <= 0 {
        return Err("Invalid height or width.".to_owned());
    }
    let pixel: i32 =
        #[verifier::truncate]
        (bpp as i32);
    if stride <= 0 || pixel <= 0 || stride / pixel < width || stride.checked_mul(height).is_none() {
        proof {
            assert(stride > 0 ==> stride * height >= 0) by (nonlinear_arith)
                requires
                    height > 0,
            ;
        }
        return Err("Invalid stride.".to_owned());
    }
    match stride.checked_mul(height) {
        Some(size) => {
            proof {
                assert(stride * height >= 0) by (nonlinear_arith)
                    requires
                        height > 0,
                        stride > 0,
                ;
            }
            if offset.checked_add(size).is_none() {
                return Err("Invalid offset.".to_owned());
            }
        },
        None => {
            return Err("Invalid total size.".to_owned());
        },
    }
    Ok(())
}

/// Every pixel of a buffer that passed lies within what its last row reaches.
pub proof fn pixels_lie_in_buffer(
    offset: i32,
    width: i32,
    height: i32,
    stride: i32,
    bpp: usize,
    x: int,
    y: int,
)
    requires
        buffer_flaw(offset, width, height, stride, bpp) is None,
        0 <= x < width,
        0 <= y < height,
        bpp <= i32::MAX,
    ensures
        0 <= offset + y * stride + x * bpp,
        offset + y * stride + (x + 1) * bpp <= offset + height * stride <= i32::MAX,
{
    let b = bpp as int;
    assert((bpp as i32) as int == b);
    assert(x * b >= 0 && y * stride >= 0) by (nonlinear_arith)
        requires
            0 <= x,
            0 <= y,
            b > 0,
            stride > 0,
    ;
    assert((x + 1) * b <= stride) by (nonlinear_arith)
        requires
            0 <= x < width,
            b > 0,
            stride > 0,
            stride as int / b >= width,
    ;
    assert(y * stride + stride <= height * stride) by (nonlinear_arith)
        requires
            0 <= y < height,
            stride > 0,
    ;
    assert(height * stride == stride * height) by (nonlinear_arith);
}

/// How a buffer in shared memory is imported: with a staging buffer of its
/// size, and an image that it is uploaded to.
#[derive(Debug, Clone, Copy, PartialEq, Eq, Structural)]
pub struct ShmImport {
    pub vk_format: i32,
    pub ignore_alpha: bool,
    pub staging_len: u32,
    pub width: u32,
    pub height: u32,
}

/// Plans the import of a buffer in shared memory. The buffer is dirty until
/// it is uploaded.
pub fn import_shm_buffer(wl_buffer: u32, format: PlaneMetadata) -> (result: (ShmImport, Buffer))
    requires
        format.format == ARGB8888 || format.format == XRGB8888,
        format.stride * format.height <= u32::MAX,
    ensures
        result.0 == (ShmImport {
            vk_format: VK_FORMAT_B8G8R8A8_UNORM,
            ignore_alpha: format.format == XRGB8888,
            staging_len: (format.stride * format.height) as u32,
            width: format.width,
            height: format.height,
        }),
        result.1 == (Buffer {
            wl_buffer,
            backing: BufferBacking::Shm { format, dirty: true },
            needs_destruction: false,
        }),
{
    let import = ShmImport {
        vk_format: VK_FORMAT_B8G8R8A8_UNORM,
        ignore_alpha: format.format == XRGB8888,
        staging_len: format.stride * format.height,
        width: format.width,
        height: format.height,
    };
    let buffer = Buffer {
        wl_buffer,
        backing: BufferBacking::Shm { format, dirty: true },
        needs_destruction: false,
    };
    (import, buffer)
}

/// How the memory of a client is made an image.
#[derive(Debug, Clone, Copy, PartialEq, Eq, Structural)]
pub struct DmabufImport {
    pub vk_format: i32,
    pub ignore_alpha: bool,
    pub modifier: u64,
    pub offset: u64,
    pub row_pitch: u64,
    pub width: u32,
    pub height: u32,
}

#[derive(Debug, Clone, Copy, PartialEq, Eq, Structural)]
pub enum ImportError {
    UnsupportedFormat,
}

/// Plans the import of a buffer that is shared with the GPU. `handle_types` is
/// what the device answers for images of its format and modifier: the kinds of
/// memory that it can read them from, or that there are no such images.
pub fn import_dmabuf_buffer(
    wl_buffer: u32,
    format: PlaneMetadata,
    modifier: u64,
    handle_types: Option<u32>,
) -> (result: Result<(DmabufImport, Buffer), ImportError>)
    ensures
        result is Ok <==> crate::compositor::modifiers::is_supported(format.format)
            && crate::compositor::modifiers::is_importable(handle_types),
        result matches Ok((import, buffer)) ==> {
            &&& exists|f: crate::compositor::modifiers::SupportedFormat| #[trigger]
                crate::compositor::modifiers::is_format(f, format.format) && import == (
                DmabufImport {
                    vk_format: f.vk_format,
                    ignore_alpha: f.ignore_alpha,
                    modifier,
                    offset: format.offset as u64,
                    row_pitch: format.stride as u64,
                    width: format.width,
                    height: format.height,
                })
            &&& buffer == (Buffer {
                wl_buffer,
                backing: BufferBacking::Dmabuf { format },
                needs_destruction: false,
            })
        },
{
    let (vk_format, ignore_alpha): (i32, bool) = match fourcc_to_vk(format.format) {
        Some(found) => found,
        None => {
            return Err(ImportError::UnsupportedFormat);
        },
    };
    if !verify_dmabuf_support(handle_types) {
        return Err(ImportError::UnsupportedFormat);
    }
    let import = DmabufImport {
        vk_format,
        ignore_alpha,
        modifier,
        offset: format.offset as u64,
        row_pitch: format.stride as u64,
        width: format.width,
        height: format.height,
    };
    let buffer = Buffer {
        wl_buffer,
        backing: BufferBacking::Dmabuf { format },
        needs_destruction: false,
    };
    Ok((import, buffer))
}

/// The error number for an argument that makes no sense.
pub const ERRNO_INVAL: i32 = 22;

/// The request to export the fence of a buffer, before the kernel fills in the
/// descriptor.
#[derive(Debug, Clone, Copy, PartialEq, Eq, Structural)]
pub struct ExportSyncFile {
    pub flags: u32,
    pub fd: i32,
}

impl ExportSyncFile {
    pub fn new(flags: u32) -> (request: ExportSyncFile)
        ensures
            request.flags == flags,
            request.fd == -1,
    {
        ExportSyncFile { flags, fd: -1 }
    }

    /// What the request came to: the descriptor, or the number of an error.
    pub fn output(&self, out: i32) -> (result: Result<i32, i32>)
        ensures
            result == if out != 0 {
                Err::<i32, i32>(out)
            } else if self.fd <= 0 {
                Err(ERRNO_INVAL)
            } else {
                Ok(self.fd)
            },
    {
        if out != 0 {
            Err(out)
        } else if self.fd <= 0 {
            Err(ERRNO_INVAL)
        } else {
            Ok(self.fd)
        }
    }
}

/// What is done for content that is no longer shown, in the order given.
#[derive(Debug, Clone, Copy, PartialEq, Eq, Structural)]
pub enum ReleaseAction {
    /// The client may draw into the buffer again.
    Release { wl_buffer: u32 },
    /// The client waits for this point.
    Signal(SyncobjTimelinePoint),
    /// The content was never shown.
    DiscardFeedback { feedback: u32 },
}

/// What is done for content that is no longer shown.
pub open spec fn release_actions(
    content: ContentUpdate,
    buffers: Map<DefaultKey, Buffer>,
) -> Seq<ReleaseAction> {
    (if content.needs_release {
        seq![ReleaseAction::Release { wl_buffer: buffers[content.buffer].wl_buffer }]
    } else {
        Seq::empty()
    }) + (match content.explicit_sync {
        Some((_, release)) => seq![ReleaseAction::Signal(release)],
        None => Seq::empty(),
    }) + (match content.wp_presentation_feedback {
        Some(feedback) => seq![ReleaseAction::DiscardFeedback { feedback }],
        None => Seq::empty(),
    })
}

/// A frame still reads the content.
pub open spec fn in_progress(content: ContentUpdate, done: bool) -> bool {
    content.tp_done is Some && !done
}

/// Splits content into what is still in progress, and what is done for the
/// rest.
pub open spec fn released(
    in_flight: Seq<ContentUpdate>,
    done: Seq<bool>,
    buffers: Map<DefaultKey, Buffer>,
) -> (Seq<ContentUpdate>, Seq<ReleaseAction>)
    decreases in_flight.len(),
{
    if in_flight.len() == 0 {
        (Seq::empty(), Seq::empty())
    } else {
        let (still, actions) = released(in_flight.drop_last(), done, buffers);
        let content = in_flight.last();
        if in_progress(content, done[in_flight.len() - 1]) {
            (still.push(content), actions)
        } else {
            (still, actions + release_actions(content, buffers))
        }
    }
}

/// A buffer is in use: a frame in progress reads it, or a surface shows it
/// until there is something else to show.
pub open spec fn in_use(
    surfaces: Map<DefaultKey, Surface>,
    in_flight: Seq<ContentUpdate>,
    buffer: DefaultKey,
) -> bool {
    ||| exists|key: DefaultKey| #[trigger]
        surfaces.contains_key(key) && surfaces[key].content is Some
            && surfaces[key].content->0.buffer == buffer
    ||| exists|i: int| 0 <= i < in_flight.len() && (#[trigger] in_flight[i]).buffer == buffer
}

fn push_release_actions(
    actions: &mut Vec<ReleaseAction>,
    content: &ContentUpdate,
    buffers: &BufferSlots,
)
    requires
        content.needs_release ==> buffers@.contains_key(content.buffer),
    ensures
        final(actions)@ == old(actions)@ + release_actions(*content, buffers@),
{
    if content.needs_release {
        if let Some(buffer) = buffers.get(content.buffer) {
            actions.push(ReleaseAction::Release { wl_buffer: buffer.wl_buffer });
        }
    }
    if let Some((_, release)) = content.explicit_sync {
        actions.push(ReleaseAction::Signal(release));
    }
    if let Some(feedback) = content.wp_presentation_feedback {
        actions.push(ReleaseAction::DiscardFeedback { feedback });
    }
    assert(actions@ =~= old(actions)@ + release_actions(*content, buffers@));
}

fn holds_key(keys: &Vec<DefaultKey>, key: DefaultKey) -> (found: bool)
    ensures
        found == keys@.contains(key),
{
    let mut i: usize = 0;
    while i < keys.len()
        invariant
            i <= keys@.len(),
            forall|j: int| 0 <= j < i ==> keys@[j] != key,
        decreases keys.len() - i,
    {
        if same_key(keys[i], key) {
            assert(keys@[i as int] == key);
            return true;
        }
        i += 1;
    }
    false
}

/// The buffers that are in use.
fn used_buffers(surfaces: &SurfaceSlots, in_flight: &Vec<ContentUpdate>) -> (used: Vec<DefaultKey>)
    ensures
        forall|key: DefaultKey| #[trigger]
            used@.contains(key) <==> in_use(surfaces@, in_flight@, key),
{
    let keys = surfaces.keys();
    let mut used: Vec<DefaultKey> = Vec::new();
    let mut i: usize = 0;
    while i < keys.len()
        invariant
            i <= keys@.len(),
            keys@.to_set() == surfaces@.dom(),
            forall|j: int|
                0 <= j < used@.len() ==> in_use(surfaces@, in_flight@, #[trigger] used@[j]),
            forall|j: int|
                0 <= j < i && surfaces@[#[trigger] keys@[j]].content is Some ==> used@.contains(
                    surfaces@[keys@[j]].content->0.buffer,
                ),
        decreases keys.len() - i,
    {
        let ghost before = used@;
        assert(keys@.to_set().contains(keys@[i as int]));
        if let Some(surface) = surfaces.get(keys[i]) {
            assert(surfaces@.contains_key(keys@[i as int]));
            if let Some(content) = &surface.content {
                used.push(content.buffer);
                proof {
                    assert(used@[before.len() as int] == content.buffer);
                    assert forall|j: int|
                        0 <= j < i + 1 && surfaces@[
                            #[trigger] keys@[j]].content is Some implies used@.contains(
                        surfaces@[keys@[j]].content->0.buffer,
                    ) by {
                        if j < i {
                            let buffer = surfaces@[keys@[j]].content->0.buffer;
                            let k = choose|k: int| 0 <= k < before.len() && before[k] == buffer;
                            assert(used@[k] == buffer);
                        }
                    }
                }
            }
        }
        i += 1;
    }
    let mut i: usize = 0;
    while i < in_flight.len()
        invariant
            i <= in_flight@.len(),
            keys@.to_set() == surfaces@.dom(),
            forall|j: int|
                0 <= j < used@.len() ==> in_use(surfaces@, in_flight@, #[trigger] used@[j]),
            forall|j: int|
                0 <= j < keys@.len() && surfaces@[#[trigger] keys@[j]].content is Some
                    ==> used@.contains(surfaces@[keys@[j]].content->0.buffer),
            forall|j: int| 0 <= j < i ==> used@.contains((#[trigger] in_flight@[j]).buffer),
        decreases in_flight.len() - i,
    {
        let ghost before = used@;
        used.push(in_flight[i].buffer);
        proof {
            assert(used@[before.len() as int] == in_flight@[i as int].buffer);
            assert forall|key: DefaultKey| before.contains(key) implies used@.contains(key) by {
                let k = choose|k: int| 0 <= k < before.len() && before[k] == key;
                assert(used@[k] == key);
            }
        }
        i += 1;
    }
    proof {
        assert forall|key: DefaultKey| #[trigger] used@.contains(key) <==> in_use(
            surfaces@,
            in_flight@,
            key,
        ) by {
            if in_use(surfaces@, in_flight@, key) {
                if exists|k: DefaultKey| #[trigger]
                    surfaces@.contains_key(k) && surfaces@[k].content is Some
                        && surfaces@[k].content->0.buffer == key {
                    let k = choose|k: DefaultKey| #[trigger]
                        surfaces@.contains_key(k) && surfaces@[k].content is Some
                            && surfaces@[k].content->0.buffer == key;
                    assert(keys@.to_set().contains(k));
                    let j = choose|j: int| 0 <= j < keys@.len() && keys@[j] == k;
                    assert(surfaces@[keys@[j]].content is Some);
                }
            }
        }
    }
    used
}

/// Gives back what is no longer shown, and drops buffers that were destroyed
/// and are not in use. `done` says of each content in flight whether the frame
/// that reads it is done.
pub fn release_buffers(
    surfaces: &SurfaceSlots,
    buffers: &mut BufferSlots,
    in_flight: &mut Vec<ContentUpdate>,
    done: &Vec<bool>,
) -> (actions: Vec<ReleaseAction>)
    requires
        done@.len() == old(in_flight)@.len(),
        forall|i: int|
            0 <= i < old(in_flight)@.len() && (#[trigger] old(in_flight)@[i]).needs_release ==> old(
                buffers)@.contains_key(old(in_flight)@[i].buffer),
    ensures
        (final(in_flight)@, actions@) == released(old(in_flight)@, done@, old(buffers)@),
        final(buffers)@ == old(buffers)@.restrict(
            Set::new(|key: DefaultKey| is_kept(surfaces@, final(in_flight)@, old(buffers)@, key)),
        ),
{
    let ghost all = in_flight@;
    let ghost held = buffers@;
    let mut actions: Vec<ReleaseAction> = Vec::new();
    let mut still: Vec<ContentUpdate> = Vec::new();
    let mut i: usize = 0;
    assert(all.take(0) =~= Seq::empty());
    while i < in_flight.len()
        invariant
            i <= in_flight@.len(),
            in_flight@ == all,
            buffers@ == held,
            all.len() == done@.len(),
            forall|j: int|
                0 <= j < all.len() && (#[trigger] all[j]).needs_release ==> held.contains_key(
                    all[j].buffer,
                ),
            (still@, actions@) == released(all.take(i as int), done@, held),
        decreases in_flight.len() - i,
    {
        assert(all.take(i + 1).drop_last() =~= all.take(i as int));
        assert(all.take(i + 1).last() == all[i as int]);
        let content: ContentUpdate = in_flight[i];
        if content.tp_done.is_some() && !done[i] {
            still.push(content);
        } else {
            push_release_actions(&mut actions, &content, buffers);
        }
        i += 1;
    }
    assert(all.take(i as int) =~= all);
    *in_flight = still;
    let used = used_buffers(surfaces, in_flight);
    let ghost flying = in_flight@;
    let keys = buffers.keys();
    let mut k: usize = 0;
    while k < keys.len()
        invariant
            k <= keys@.len(),
            keys@.no_duplicates(),
            keys@.to_set() == held.dom(),
            flying == in_flight@,
            forall|key: DefaultKey| #[trigger]
                used@.contains(key) <==> in_use(surfaces@, flying, key),
            forall|key: DefaultKey| #[trigger]
                buffers@.contains_key(key) <==> held.contains_key(key) && (is_kept(
                    surfaces@,
                    flying,
                    held,
                    key,
                ) || !keys@.take(k as int).contains(key)),
            forall|key: DefaultKey| #[trigger]
                buffers@.contains_key(key) ==> buffers@[key] == held[key],
        decreases keys.len() - k,
    {
        let key = keys[k];
        proof {
            assert(keys@.to_set().contains(keys@[k as int]));
            assert(!keys@.take(k as int).contains(key)) by {
                if keys@.take(k as int).contains(key) {
                    let j = choose|j: int|
                        0 <= j < k && keys@.take(k as int)[j] == key;
                    assert(keys@[j] == keys@[k as int]);
                }
            }
            assert(buffers@.contains_key(key));
            assert(keys@.take(k + 1) =~= keys@.take(k as int).push(key));
            assert forall|other: DefaultKey| keys@.take(k + 1).contains(other) <==> (other == key
                || keys@.take(k as int).contains(other)) by {
                if keys@.take(k as int).contains(other) {
                    let j = choose|j: int| 0 <= j < k && keys@.take(k as int)[j] == other;
                    assert(keys@.take(k + 1)[j] == other);
                }
                assert(keys@.take(k + 1)[k as int] == key);
            }
        }
        let needs_destruction = match buffers.get(key) {
            Some(buffer) => buffer.needs_destruction,
            None => false,
        };
        if needs_destruction && !holds_key(&used, key) {
            buffers.remove(key);
        }
        k += 1;
    }
    proof {
        let kept = Set::new(|key: DefaultKey| is_kept(surfaces@, flying, held, key));
        assert forall|key: DefaultKey| #[trigger] buffers@.contains_key(key) <==> held.restrict(
            kept,
        ).contains_key(key) by {
            if held.contains_key(key) {
                assert(keys@.to_set().contains(key));
                assert(keys@.take(k as int) =~= keys@);
            }
        }
        assert(buffers@ =~= held.restrict(kept));
    }
    actions
}

/// A buffer stays: it was not destroyed, or is in use.
pub open spec fn is_kept(
    surfaces: Map<DefaultKey, Surface>,
    in_flight: Seq<ContentUpdate>,
    buffers: Map<DefaultKey, Buffer>,
    key: DefaultKey,
) -> bool {
    !buffers[key].needs_destruction || in_use(surfaces, in_flight, key)
}

/// Content that a frame still reads keeps its buffer, though the client
/// destroyed it.
pub proof fn read_buffer_is_kept(
    surfaces: Map<DefaultKey, Surface>,
    in_flight: Seq<ContentUpdate>,
    done: Seq<bool>,
    buffers: Map<DefaultKey, Buffer>,
    i: int,
)
    requires
        in_flight.len() == done.len(),
        0 <= i < in_flight.len(),
        in_progress(in_flight[i], done[i]),
    ensures
        released(in_flight, done, buffers).0.contains(in_flight[i]),
        is_kept(surfaces, released(in_flight, done, buffers).0, buffers, in_flight[i].buffer),
{
    lemma_released_keeps(in_flight, done, buffers, i);
    let still = released(in_flight, done, buffers).0;
    let j = choose|j: int| 0 <= j < still.len() && still[j] == in_flight[i];
    assert(still[j].buffer == in_flight[i].buffer);
}

proof fn lemma_released_keeps(
    in_flight: Seq<ContentUpdate>,
    done: Seq<bool>,
    buffers: Map<DefaultKey, Buffer>,
    i: int,
)
    requires
        in_flight.len() <= done.len(),
        0 <= i < in_flight.len(),
        in_progress(in_flight[i], done[i]),
    ensures
        released(in_flight, done, buffers).0.contains(in_flight[i]),
    decreases in_flight.len(),
{
    let init = in_flight.drop_last();
    let still = released(init, done, buffers).0;
    let after = released(in_flight, done, buffers).0;
    if i == in_flight.len() - 1 {
        assert(after[still.len() as int] == in_flight[i]);
    } else {
        lemma_released_keeps(init, done, buffers, i);
        assert(init[i] == in_flight[i]);
        let j = choose|j: int| 0 <= j < still.len() && still[j] == in_flight[i];
        assert(after[j] == in_flight[i]);
    }
}

/// The parameters of a buffer pass exactly if every row has room for its pixels,
/// and the last one ends where it can be addressed.
pub proof fn buffers_with_room_pass(offset: i32, width: i32, height: i32, stride: i32, bpp: usize)
    requires
        0 < bpp <= i32::MAX,
    ensures
        buffer_flaw(offset, width, height, stride, bpp) is None <==> offset >= 0 && width > 0
            && height > 0 && stride > 0 && width * bpp <= stride && offset + stride * height
            <= i32::MAX,
{
    let b = bpp as int;
    assert((bpp as i32) as int == b);
    if stride > 0 {
        assert(stride as int / b >= width <==> width * b <= stride) by (nonlinear_arith)
            requires
                b > 0,
                stride > 0,
        ;
    }
    if width > 0 && height > 0 && stride > 0 {
        assert(stride * height >= 0) by (nonlinear_arith)
            requires
                stride > 0,
                height > 0,
        ;
    }
}

/// A buffer of shared memory is imported in its own size, with room for all of
/// its rows; its alpha counts unless its format has none. It has to be uploaded
/// first.
pub proof fn shared_memory_is_imported_whole(
    wl_buffer: u32,
    format: PlaneMetadata,
    result: (ShmImport, Buffer),
)
    requires
        call_ensures(import_shm_buffer, (wl_buffer, format), result),
        format.stride * format.height <= u32::MAX,
    ensures
        ({
            let (import, buffer) = result;
            &&& import.width == format.width && import.height == format.height
            &&& import.staging_len == format.stride * format.height
            &&& import.ignore_alpha <==> format.format == XRGB8888
            &&& buffer.wl_buffer == wl_buffer && !buffer.needs_destruction
            &&& buffer.backing matches BufferBacking::Shm { format: kept, dirty } && kept == format
                && dirty
        }),
{
}

/// A buffer that is shared with the GPU is imported as the client laid it out, if
/// its format is known and the device can read it.
pub proof fn shared_buffer_is_imported_as_laid_out(
    wl_buffer: u32,
    format: PlaneMetadata,
    modifier: u64,
    handle_types: Option<u32>,
    result: Result<(DmabufImport, Buffer), ImportError>,
)
    requires
        call_ensures(import_dmabuf_buffer, (wl_buffer, format, modifier, handle_types), result),
    ensures
        result is Ok <==> crate::compositor::modifiers::is_supported(format.format)
            && crate::compositor::modifiers::is_importable(handle_types),
        result matches Ok((import, buffer)) ==> {
            &&& import.width == format.width && import.height == format.height
            &&& import.offset == format.offset && import.row_pitch == format.stride
            &&& import.modifier == modifier
            &&& buffer.wl_buffer == wl_buffer && !buffer.needs_destruction
            &&& buffer.backing == (BufferBacking::Dmabuf { format })
        },
{
}

/// The size of a buffer is that of its picture.
pub proof fn buffers_have_the_size_of_their_picture(buffer: &Buffer, size: (u32, u32))
    requires
        call_ensures(Buffer::dimensions, (buffer,), size),
    ensures
        ({
            let format = match buffer.backing {
                BufferBacking::Shm { format, .. } => format,
                BufferBacking::Dmabuf { format } => format,
            };
            let (width, height) = size;
            width == format.width && height == format.height
        }),
{
}

/// Whoever waits for content is told once it is not shown any more: the client
/// that drew it gets its own buffer back, the release point (and not the acquire
/// point) is signalled, and feedback is discarded.
pub proof fn released_content_is_given_back(
    content: ContentUpdate,
    buffers: Map<DefaultKey, Buffer>,
)
    ensures
        ({
            let actions = release_actions(content, buffers);
            let wl_buffer = buffers[content.buffer].wl_buffer;
            &&& actions.contains(ReleaseAction::Release { wl_buffer }) <==> content.needs_release
            &&& content.explicit_sync matches Some((acquire, release)) ==> actions.contains(
                ReleaseAction::Signal(release),
            )
            &&& content.explicit_sync is None ==> forall|i: int|
                0 <= i < actions.len() ==> !(#[trigger] actions[i] is Signal)
            &&& content.wp_presentation_feedback matches Some(feedback) ==> actions.contains(
                ReleaseAction::DiscardFeedback { feedback },
            )
            &&& actions.len() == (if content.needs_release { 1int } else { 0 }) + (
            if content.explicit_sync is Some { 1int } else { 0 }) + (
            if content.wp_presentation_feedback is Some { 1int } else { 0 })
        }),
{
    let actions = release_actions(content, buffers);
    let second: int = if content.needs_release {
        1
    } else {
        0
    };
    let third: int = if content.explicit_sync is Some {
        second + 1
    } else {
        second
    };
    if content.needs_release {
        assert(actions[0] == ReleaseAction::Release {
            wl_buffer: buffers[content.buffer].wl_buffer,
        });
    }
    if let Some((acquire, release)) = content.explicit_sync {
        assert(actions[second] == ReleaseAction::Signal(release));
    }
    if let Some(feedback) = content.wp_presentation_feedback {
        assert(actions[third] == ReleaseAction::DiscardFeedback { feedback });
    }
}

/// Content stays in flight exactly while a frame reads it that is not done; what
/// stays was there before, and each other content is given back.
pub proof fn content_stays_while_read(
    in_flight: Seq<ContentUpdate>,
    done: Seq<bool>,
    buffers: Map<DefaultKey, Buffer>,
    i: int,
)
    requires
        in_flight.len() <= done.len(),
        0 <= i < in_flight.len(),
    ensures
        ({
            let (still, actions) = released(in_flight, done, buffers);
            let read = in_flight[i].tp_done is Some && !done[i];
            &&& read ==> still.contains(in_flight[i])
            &&& !read && in_flight[i].needs_release ==> actions.contains(
                ReleaseAction::Release { wl_buffer: buffers[in_flight[i].buffer].wl_buffer },
            )
            &&& still.len() <= in_flight.len()
        }),
    decreases in_flight.len(),
{
    let init = in_flight.drop_last();
    let (still, actions) = released(init, done, buffers);
    let (all_still, all) = released(in_flight, done, buffers);
    if in_flight.len() > 1 {
        content_stays_while_read(init, done, buffers, if i < init.len() { i } else { 0 });
    }
    if i < init.len() {
        assert(init[i] == in_flight[i]);
        if still.contains(in_flight[i]) {
            let k = still.index_of(in_flight[i]);
            assert(all_still[k] == in_flight[i]);
        }
        let given = ReleaseAction::Release { wl_buffer: buffers[in_flight[i].buffer].wl_buffer };
        if actions.contains(given) {
            let k = actions.index_of(given);
            assert(all[k] == given);
        }
    } else {
        let content = in_flight.last();
        if in_progress(content, done[i]) {
            assert(all_still[still.len() as int] == content);
        } else if content.needs_release {
            released_content_is_given_back(content, buffers);
            let more = release_actions(content, buffers);
            let given = ReleaseAction::Release { wl_buffer: buffers[content.buffer].wl_buffer };
            let k = more.index_of(given);
            assert(all[actions.len() + k] == given);
        }
    }
}

/// A buffer goes only if its client destroyed it and nothing shows or reads it.
pub proof fn only_unused_buffers_go(
    surfaces: Map<DefaultKey, Surface>,
    in_flight: Seq<ContentUpdate>,
    buffers: Map<DefaultKey, Buffer>,
    key: DefaultKey,
)
    ensures
        !is_kept(surfaces, in_flight, buffers, key) <==> buffers[key].needs_destruction && (forall|
            surface: DefaultKey,
        | #[trigger]
            surfaces.contains_key(surface) && surfaces[surface].content is Some
                ==> surfaces[surface].content->0.buffer != key) && (forall|i: int|
            0 <= i < in_flight.len() ==> (#[trigger] in_flight[i]).buffer != key),
{
}

/// A fence is exported if the kernel says so and hands one out.
pub proof fn exported_fence_is_valid(
    request: &ExportSyncFile,
    out: i32,
    result: Result<i32, i32>,
)
    requires
        call_ensures(ExportSyncFile::output, (request, out), result),
    ensures
        result is Ok <==> out == 0 && request.fd > 0,
        result matches Ok(fd) ==> fd == request.fd,
        out != 0 ==> result == Err::<i32, i32>(out),
{
}

} // verus!
