//! Formats of buffers that are shared with the GPU.

use vstd::prelude::*;

verus! {

pub const ARGB8888: u32 = 0x34325241;

pub const XRGB8888: u32 = 0x34325258;

pub const ABGR8888: u32 = 0x34324241;

pub const XBGR8888: u32 = 0x34324258;

pub const ARGB16161616F: u32 = 0x48345241;

pub const XRGB16161616F: u32 = 0x48345258;

pub const ABGR16161616F: u32 = 0x48344241;

pub const XBGR16161616F: u32 = 0x48344258;

/// Formats of Vulkan, by number.
pub const VK_FORMAT_B8G8R8A8_UNORM: i32 = 44;

pub const VK_FORMAT_R8G8B8A8_UNORM: i32 = 37;

pub const VK_FORMAT_R16G16B16A16_SFLOAT: i32 = 97;

/// A format that clients can share buffers in.
#[derive(Debug, Clone, Copy, PartialEq, Eq, Structural)]
pub struct SupportedFormat {
    pub fourcc: u32,
    pub vk_format: i32,
    /// The alpha channel holds nothing.
    pub ignore_alpha: bool,
    /// Bytes per pixel.
    pub bpp: usize,
}

/// The formats, each opaque one beside the one with alpha: drivers want both.
pub open spec fn supported_drm_formats() -> Seq<SupportedFormat> {
    seq![
        supported_format(ARGB8888, VK_FORMAT_B8G8R8A8_UNORM, false, 4),
        supported_format(XRGB8888, VK_FORMAT_B8G8R8A8_UNORM, true, 4),
        supported_format(ABGR8888, VK_FORMAT_R8G8B8A8_UNORM, false, 4),
        supported_format(XBGR8888, VK_FORMAT_R8G8B8A8_UNORM, true, 4),
        supported_format(ARGB16161616F, VK_FORMAT_R16G16B16A16_SFLOAT, false, 8),
        supported_format(XRGB16161616F, VK_FORMAT_R16G16B16A16_SFLOAT, true, 8),
        supported_format(ABGR16161616F, VK_FORMAT_R16G16B16A16_SFLOAT, false, 8),
        supported_format(XBGR16161616F, VK_FORMAT_R16G16B16A16_SFLOAT, true, 8),
    ]
}

pub open spec fn supported_format(
    fourcc: u32,
    vk_format: i32,
    ignore_alpha: bool,
    bpp: usize,
) -> SupportedFormat {
    SupportedFormat { fourcc, vk_format, ignore_alpha, bpp }
}

fn format(fourcc: u32, vk_format: i32, ignore_alpha: bool, bpp: usize) -> (format: SupportedFormat)
    ensures
        format == supported_format(fourcc, vk_format, ignore_alpha, bpp),
{
    SupportedFormat { fourcc, vk_format, ignore_alpha, bpp }
}

pub fn supported_formats() -> (formats: Vec<SupportedFormat>)
    ensures
        formats@ == supported_drm_formats(),
{
    let mut formats: Vec<SupportedFormat> = Vec::new();
    formats.push(format(ARGB8888, VK_FORMAT_B8G8R8A8_UNORM, false, 4));
    formats.push(format(XRGB8888, VK_FORMAT_B8G8R8A8_UNORM, true, 4));
    formats.push(format(ABGR8888, VK_FORMAT_R8G8B8A8_UNORM, false, 4));
    formats.push(format(XBGR8888, VK_FORMAT_R8G8B8A8_UNORM, true, 4));
    formats.push(format(ARGB16161616F, VK_FORMAT_R16G16B16A16_SFLOAT, false, 8));
    formats.push(format(XRGB16161616F, VK_FORMAT_R16G16B16A16_SFLOAT, true, 8));
    formats.push(format(ABGR16161616F, VK_FORMAT_R16G16B16A16_SFLOAT, false, 8));
    formats.push(format(XBGR16161616F, VK_FORMAT_R16G16B16A16_SFLOAT, true, 8));
    assert(formats@ =~= supported_drm_formats());
    formats
}

/// The entry with a code.
pub open spec fn is_format(format: SupportedFormat, fourcc: u32) -> bool {
    supported_drm_formats().contains(format) && format.fourcc == fourcc
}

/// A code is supported.
pub open spec fn is_supported(fourcc: u32) -> bool {
    exists|i: int| 0 <= i < 8 && (#[trigger] supported_drm_formats()[i]).fourcc == fourcc
}

fn find_format(fourcc: u32) -> (found: Option<SupportedFormat>)
    ensures
        match found {
            Some(format) => is_format(format, fourcc) && is_supported(fourcc),
            None => !is_supported(fourcc),
        },
{
    let formats = supported_formats();
    let mut i: usize = 0;
    while i < formats.len()
        invariant
            i <= formats@.len(),
            formats@ == supported_drm_formats(),
            forall|j: int| 0 <= j < i ==> (#[trigger] formats@[j]).fourcc != fourcc,
        decreases formats.len() - i,
    {
        if formats[i].fourcc == fourcc {
            assert(supported_drm_formats()[i as int].fourcc == fourcc);
            return Some(formats[i]);
        }
        i += 1;
    }
    None
}

/// The format of Vulkan for a code, and whether its alpha channel is ignored.
pub fn fourcc_to_vk(fourcc: u32) -> (format: Option<(i32, bool)>)
    ensures
        match format {
            Some((vk_format, ignore_alpha)) => exists|f: SupportedFormat| #[trigger]
                is_format(f, fourcc) && f.vk_format == vk_format && f.ignore_alpha == ignore_alpha,
            None => !is_supported(fourcc),
        },
        format is Some <==> is_supported(fourcc),
{
    match find_format(fourcc) {
        Some(format) => {
            assert(is_format(format, fourcc));
            Some((format.vk_format, format.ignore_alpha))
        },
        None => None,
    }
}

/// The bytes per pixel for a code.
pub fn fourcc_bpp(fourcc: u32) -> (bpp: Option<usize>)
    ensures
        match bpp {
            Some(bpp) => exists|f: SupportedFormat| #[trigger]
                is_format(f, fourcc) && f.bpp == bpp,
            None => !is_supported(fourcc),
        },
        bpp is Some <==> is_supported(fourcc),
{
    match find_format(fourcc) {
        Some(format) => {
            assert(is_format(format, fourcc));
            Some(format.bpp)
        },
        None => None,
    }
}

/// No code is listed twice, so each has one format.
pub proof fn formats_are_unique(a: SupportedFormat, b: SupportedFormat, fourcc: u32)
    requires
        is_format(a, fourcc),
        is_format(b, fourcc),
    ensures
        a == b,
{
    let all = supported_drm_formats();
    let i = choose|i: int| 0 <= i < all.len() && all[i] == a;
    let j = choose|j: int| 0 <= j < all.len() && all[j] == b;
    assert(all.len() == 8);
    assert(i == j);
}

/// A driver drops a format if it comes with alpha only, or without it only: for
/// each format there is another with the same layout, and alpha the other way.
pub proof fn formats_come_in_pairs(i: int)
    requires
        0 <= i < supported_drm_formats().len(),
    ensures
        exists|j: int|
            0 <= j < supported_drm_formats().len() && (
            #[trigger] supported_drm_formats()[j]).vk_format
                == supported_drm_formats()[i].vk_format && supported_drm_formats()[j].bpp
                == supported_drm_formats()[i].bpp && supported_drm_formats()[j].ignore_alpha
                != supported_drm_formats()[i].ignore_alpha,
{
    let all = supported_drm_formats();
    let j = if i % 2 == 0 {
        i + 1
    } else {
        i - 1
    };
    assert(all.len() == 8);
    assert(all[j].vk_format == all[i].vk_format && all[j].bpp == all[i].bpp && all[j].ignore_alpha
        != all[i].ignore_alpha);
}

/// A format, with how the memory of its buffers is laid out.
#[derive(Debug, Clone, Copy, PartialEq, Eq, Structural)]
pub struct DrmFormat {
    pub code: u32,
    pub modifier: u64,
}

/// The bit for memory that is shared by descriptors, among the kinds of memory.
pub const HANDLE_TYPE_DMA_BUF: u32 = 0x200;

/// A layout that the device has for a format.
#[derive(Debug, Clone, Copy, PartialEq, Eq, Structural)]
pub struct ModifierProperties {
    pub modifier: u64,
    pub plane_count: u32,
    /// The kinds of memory that images in this layout can be read from, if the
    /// device has such images at all.
    pub handle_types: Option<u32>,
}

/// Images can be read from memory that a client shares.
pub open spec fn is_importable(handle_types: Option<u32>) -> bool {
    handle_types is Some && handle_types->0 & HANDLE_TYPE_DMA_BUF != 0
}

/// Whether images of some format and layout can be read from memory that a
/// client shares. `handle_types` is what the device answers for images that
/// are sampled: the kinds of memory, or that there are no such images.
pub fn verify_dmabuf_support(handle_types: Option<u32>) -> (supported: bool)
    ensures
        supported == is_importable(handle_types),
{
    match handle_types {
        Some(types) => types & HANDLE_TYPE_DMA_BUF != 0,
        None => false,
    }
}

/// The bytes of a number, in the order that the machine keeps them in.
pub open spec fn native_bytes(value: u64, size: nat, big_endian: bool) -> Seq<u8> {
    Seq::new(
        size,
        |i: int|
            {
                let place = if big_endian {
                    size - 1 - i
                } else {
                    i
                };
                (value as int / pow256(place) % 256) as u8
            },
    )
}

pub open spec fn pow256(n: int) -> int
    decreases n,
{
    if n <= 0 {
        1
    } else {
        256 * pow256(n - 1)
    }
}

fn push_native_bytes(bytes: &mut Vec<u8>, value: u64, size: usize, big_endian: bool)
    requires
        size <= 8,
    ensures
        final(bytes)@ == old(bytes)@ + native_bytes(value, size as nat, big_endian),
{
    let ghost all = native_bytes(value, size as nat, big_endian);
    let ghost before = bytes@;
    let mut i: usize = 0;
    assert(bytes@ =~= before + all.take(0));
    while i < size
        invariant
            i <= size <= 8,
            before == old(bytes)@,
            all == native_bytes(value, size as nat, big_endian),
            bytes@ == before + all.take(i as int),
        decreases size - i,
    {
        let place: usize = if big_endian {
            size - 1 - i
        } else {
            i
        };
        let byte: u8 = byte_at(value, place);
        bytes.push(byte);
        assert(all[i as int] == byte);
        assert(all.take(i + 1) =~= all.take(i as int).push(byte));
        assert(bytes@ =~= before + all.take(i + 1));
        i += 1;
    }
    assert(all.take(i as int) =~= all);
}

/// The byte of a number at a place; the lowest is at zero.
fn byte_at(value: u64, place: usize) -> (byte: u8)
    requires
        place < 8,
    ensures
        byte == (value as int / pow256(place as int) % 256) as u8,
{
    let mut rest: u64 = value;
    let mut i: usize = 0;
    assert(value as int / pow256(0) == value);
    while i < place
        invariant
            i <= place < 8,
            rest == value as int / pow256(i as int),
        decreases place - i,
    {
        proof {
            lemma_pow256_pos(i as int);
            vstd::arithmetic::div_mod::lemma_div_denominator(
                value as int,
                pow256(i as int),
                256,
            );
            assert(pow256(i as int) * 256 == pow256(i + 1)) by (nonlinear_arith)
                requires
                    pow256(i + 1) == 256 * pow256(i as int),
            ;
        }
        rest = rest / 256;
        i += 1;
    }
    (rest % 256) as u8
}

proof fn lemma_pow256_pos(n: int)
    ensures
        pow256(n) > 0,
    decreases n,
{
    if n > 0 {
        lemma_pow256_pos(n - 1);
    }
}

/// An entry of the table that clients get: the code, four bytes of padding,
/// and the modifier.
pub open spec fn table_entry(format: DrmFormat, big_endian: bool) -> Seq<u8> {
    native_bytes(format.code as u64, 4, big_endian) + seq![0u8, 0, 0, 0] + native_bytes(
        format.modifier,
        8,
        big_endian,
    )
}

pub open spec fn table_bytes(formats: Seq<DrmFormat>, big_endian: bool) -> Seq<u8>
    decreases formats.len(),
{
    if formats.len() == 0 {
        Seq::empty()
    } else {
        table_bytes(formats.drop_last(), big_endian) + table_entry(formats.last(), big_endian)
    }
}

/// The places in the table, each as two bytes.
pub open spec fn index_bytes(count: nat, big_endian: bool) -> Seq<u8>
    decreases count,
{
    if count == 0 {
        Seq::empty()
    } else {
        index_bytes((count - 1) as nat, big_endian) + native_bytes((count - 1) as u64, 2, big_endian)
    }
}

/// The layouts with a single plane, for one format.
pub open spec fn single_plane_formats(code: u32, modifiers: Seq<ModifierProperties>) -> Seq<
    DrmFormat,
>
    decreases modifiers.len(),
{
    if modifiers.len() == 0 {
        Seq::empty()
    } else {
        let rest = single_plane_formats(code, modifiers.drop_last());
        if modifiers.last().plane_count == 1 {
            rest.push(DrmFormat { code, modifier: modifiers.last().modifier })
        } else {
            rest
        }
    }
}

/// The layouts of the first `n` formats.
pub open spec fn usable_formats(modifiers: Seq<Vec<ModifierProperties>>, n: nat) -> Seq<DrmFormat>
    decreases n,
{
    if n == 0 {
        Seq::empty()
    } else {
        usable_formats(modifiers, (n - 1) as nat) + single_plane_formats(
            supported_drm_formats()[n - 1].fourcc,
            modifiers[n - 1]@,
        )
    }
}

/// Every format that clients are told of is a supported one.
pub proof fn listed_formats_are_supported(
    modifiers: Seq<Vec<ModifierProperties>>,
    n: nat,
    format: DrmFormat,
)
    requires
        n <= supported_drm_formats().len(),
        usable_formats(modifiers, n).contains(format),
    ensures
        is_supported(format.code),
    decreases n,
{
    if n > 0 {
        let before = usable_formats(modifiers, (n - 1) as nat);
        let code = supported_drm_formats()[n - 1].fourcc;
        let last = single_plane_formats(code, modifiers[n - 1]@);
        let k = choose|k: int| 0 <= k < (before + last).len() && (before + last)[k] == format;
        if k < before.len() {
            assert(before[k] == format);
            listed_formats_are_supported(modifiers, (n - 1) as nat, format);
        } else {
            lemma_single_plane_code(code, modifiers[n - 1]@, k - before.len());
            assert(last[k - before.len()] == format);
            assert(supported_drm_formats()[n - 1].fourcc == format.code);
        }
    }
}

proof fn lemma_single_plane_code(code: u32, modifiers: Seq<ModifierProperties>, k: int)
    requires
        0 <= k < single_plane_formats(code, modifiers).len(),
    ensures
        single_plane_formats(code, modifiers)[k].code == code,
    decreases modifiers.len(),
{
    if modifiers.len() > 0 {
        let rest = single_plane_formats(code, modifiers.drop_last());
        if k < rest.len() {
            lemma_single_plane_code(code, modifiers.drop_last(), k);
        }
    }
}

/// What clients are told of the formats.
pub struct CachedDmabufFeedback {
    pub drm_node: u64,
    pub formats: Vec<DrmFormat>,
    pub table: Vec<u8>,
}

impl CachedDmabufFeedback {
    /// Collects the formats. `modifiers` gives the layouts that the device has
    /// for each of the supported formats, in their order. Those with a single
    /// plane can be read from the memory of clients.
    pub fn new(drm_node: u64, modifiers: &Vec<Vec<ModifierProperties>>, big_endian: bool) -> (
    feedback: CachedDmabufFeedback)
        requires
            modifiers@.len() == supported_drm_formats().len(),
            forall|i: int, j: int|
                0 <= i < modifiers@.len() && 0 <= j < modifiers@[i]@.len()
                    && (#[trigger] modifiers@[i]@[j]).plane_count == 1 ==> is_importable(
                    modifiers@[i]@[j].handle_types,
                ),
        ensures
            feedback.drm_node == drm_node,
            feedback.formats@ == usable_formats(modifiers@, 8),
            feedback.table@ == table_bytes(feedback.formats@, big_endian),
    {
        let supported = supported_formats();
        let mut formats: Vec<DrmFormat> = Vec::new();
        let mut i: usize = 0;
        while i < supported.len()
            invariant
                i <= supported@.len() == 8,
                supported@ == supported_drm_formats(),
                modifiers@.len() == 8,
                formats@ == usable_formats(modifiers@, i as nat),
            decreases supported.len() - i,
        {
            let code: u32 = supported[i].fourcc;
            let list = &modifiers[i];
            let ghost before = formats@;
            let mut j: usize = 0;
            assert(formats@ =~= before + single_plane_formats(code, list@.take(0)));
            while j < list.len()
                invariant
                    j <= list@.len(),
                    formats@ == before + single_plane_formats(code, list@.take(j as int)),
                decreases list.len() - j,
            {
                assert(list@.take(j + 1).drop_last() =~= list@.take(j as int));
                if list[j].plane_count == 1 {
                    formats.push(DrmFormat { code, modifier: list[j].modifier });
                }
                assert(formats@ =~= before + single_plane_formats(code, list@.take(j + 1)));
                j += 1;
            }
            assert(list@.take(j as int) =~= list@);
            i += 1;
        }
        let mut table: Vec<u8> = Vec::new();
        let mut k: usize = 0;
        assert(formats@.take(0) =~= Seq::empty());
        while k < formats.len()
            invariant
                k <= formats@.len(),
                table@ == table_bytes(formats@.take(k as int), big_endian),
            decreases formats.len() - k,
        {
            let ghost before = table@;
            let entry: DrmFormat = formats[k];
            push_native_bytes(&mut table, entry.code as u64, 4, big_endian);
            table.push(0);
            table.push(0);
            table.push(0);
            table.push(0);
            push_native_bytes(&mut table, entry.modifier, 8, big_endian);
            assert(formats@.take(k + 1).drop_last() =~= formats@.take(k as int));
            assert(formats@.take(k + 1).last() == entry);
            assert(table@ =~= before + table_entry(entry, big_endian));
            k += 1;
        }
        assert(formats@.take(k as int) =~= formats@);
        CachedDmabufFeedback { drm_node, formats, table }
    }

    /// Some format has a modifier.
    pub fn contains(&self, modifier: u64) -> (found: bool)
        ensures
            found == exists|i: int|
                0 <= i < self.formats@.len() && (#[trigger] self.formats@[i]).modifier == modifier,
    {
        let mut i: usize = 0;
        while i < self.formats.len()
            invariant
                i <= self.formats@.len(),
                forall|j: int| 0 <= j < i ==> (#[trigger] self.formats@[j]).modifier != modifier,
            decreases self.formats.len() - i,
        {
            if self.formats[i].modifier == modifier {
                return true;
            }
            i += 1;
        }
        false
    }

    /// The device, as bytes.
    pub fn device_bytes(&self, big_endian: bool) -> (bytes: Vec<u8>)
        ensures
            bytes@ == native_bytes(self.drm_node, 8, big_endian),
    {
        let mut bytes: Vec<u8> = Vec::new();
        push_native_bytes(&mut bytes, self.drm_node, 8, big_endian);
        assert(bytes@ =~= native_bytes(self.drm_node, 8, big_endian));
        bytes
    }

    /// Every place in the table, as bytes. Places are sixteen bits wide.
    pub fn tranche_indices(&self, big_endian: bool) -> (bytes: Vec<u8>)
        ensures
            bytes@ == index_bytes((self.formats@.len() % 0x1_0000) as nat, big_endian),
    {
        let count: usize = self.formats.len() % 0x1_0000;
        let mut bytes: Vec<u8> = Vec::new();
        let mut i: usize = 0;
        while i < count
            invariant
                i <= count < 0x1_0000,
                bytes@ == index_bytes(i as nat, big_endian),
            decreases count - i,
        {
            push_native_bytes(&mut bytes, i as u64, 2, big_endian);
            i += 1;
        }
        bytes
    }
}

/// The codes of formats say what they are: they begin with the letter of the
/// channel that comes last, which is an X where there is no alpha; then comes the
/// order of the colours, and at the end how wide they are.
pub proof fn codes_say_what_formats_are(i: int)
    requires
        0 <= i < supported_drm_formats().len(),
    ensures
        ({
            let format = supported_drm_formats()[i];
            let first = format.fourcc % 256;
            let second = format.fourcc / 256 % 256;
            let last = format.fourcc / 0x100_0000;
            &&& first == 0x41 || first == 0x58
            &&& format.ignore_alpha <==> first == 0x58
            &&& format.bpp == 8 <==> last == 0x48
            &&& format.bpp == 4 <==> last == 0x34
            &&& format.bpp == 8 ==> format.vk_format == 97
            &&& format.bpp == 4 && second == 0x52 ==> format.vk_format == 44
            &&& format.bpp == 4 && second == 0x42 ==> format.vk_format == 37
        }),
{
    assert(supported_drm_formats().len() == 8);
}

/// The bytes of a number come from the lowest on, or the other way round on
/// machines that keep them so.
pub proof fn bytes_are_in_native_order(value: u64, size: nat, i: int)
    requires
        0 <= i < size,
    ensures
        native_bytes(value, size, false)[i] == native_bytes(value, size, true)[size - 1 - i],
        native_bytes(value, size, false)[0] == value % 256,
        native_bytes(value, size, false).len() == size,
        i > 0 ==> native_bytes(value, size, false)[i] == native_bytes(
            (value / 256) as u64,
            size,
            false,
        )[i - 1],
{
    lemma_pow256_pos(i - 1);
    if i > 0 {
        vstd::arithmetic::div_mod::lemma_div_denominator(value as int, 256, pow256(i - 1));
        assert(256 * pow256(i - 1) == pow256(i));
    }
}

/// Clients are told of a layout exactly if it has one plane.
pub proof fn single_planes_are_listed(
    code: u32,
    modifiers: Seq<ModifierProperties>,
    format: DrmFormat,
)
    ensures
        single_plane_formats(code, modifiers).contains(format) <==> format.code == code && exists|
            i: int,
        |
            0 <= i < modifiers.len() && (#[trigger] modifiers[i]).plane_count == 1
                && modifiers[i].modifier == format.modifier,
    decreases modifiers.len(),
{
    if modifiers.len() > 0 {
        let init = modifiers.drop_last();
        let n = modifiers.len() - 1;
        let last = modifiers.last();
        assert(modifiers[n] == last);
        single_planes_are_listed(code, init, format);
        let rest = single_plane_formats(code, init);
        let all = single_plane_formats(code, modifiers);
        if rest.contains(format) {
            let k = rest.index_of(format);
            assert(all[k] == format);
            let i = choose|i: int|
                0 <= i < init.len() && (#[trigger] init[i]).plane_count == 1 && init[i].modifier
                    == format.modifier;
            assert(modifiers[i].plane_count == 1 && modifiers[i].modifier == format.modifier);
        }
        if last.plane_count == 1 {
            assert(all[rest.len() as int] == DrmFormat { code, modifier: last.modifier });
        }
        if all.contains(format) && !rest.contains(format) {
            let k = all.index_of(format);
            if k < rest.len() {
                assert(rest[k] == format);
            }
        }
        if format.code == code && exists|i: int|
            0 <= i < modifiers.len() && (#[trigger] modifiers[i]).plane_count == 1
                && modifiers[i].modifier == format.modifier {
            let i = choose|i: int|
                0 <= i < modifiers.len() && (#[trigger] modifiers[i]).plane_count == 1
                    && modifiers[i].modifier == format.modifier;
            if i < n {
                assert(init[i].plane_count == 1 && init[i].modifier == format.modifier);
            }
        }
    }
}

/// An entry of the table has sixteen bytes: the code, then padding, then the
/// modifier.
pub proof fn table_entries_have_two_parts(format: DrmFormat, big_endian: bool, i: int)
    ensures
        table_entry(format, big_endian).len() == 16,
        0 <= i < 4 ==> table_entry(format, big_endian)[i] == native_bytes(
            format.code as u64,
            4,
            big_endian,
        )[i],
        4 <= i < 8 ==> table_entry(format, big_endian)[i] == 0,
        8 <= i < 16 ==> table_entry(format, big_endian)[i] == native_bytes(
            format.modifier,
            8,
            big_endian,
        )[i - 8],
{
}

/// A device can read what clients share if it says so.
pub proof fn importable_memory_is_shared(handle_types: Option<u32>)
    ensures
        is_importable(handle_types) <==> (handle_types matches Some(types) && types & 0x200 != 0),
{
}

/// Each format has its number in the list of indices, in two bytes, at twice that
/// number.
pub proof fn indices_are_counted(count: nat, big_endian: bool, i: int)
    requires
        0 <= i < count <= 0x1_0000,
    ensures
        ({
            let bytes = index_bytes(count, big_endian);
            let (low, high) = if big_endian {
                (bytes[2 * i + 1], bytes[2 * i])
            } else {
                (bytes[2 * i], bytes[2 * i + 1])
            };
            &&& bytes.len() == 2 * count
            &&& low + 256 * high == i
        }),
    decreases count,
{
    let before = index_bytes((count - 1) as nat, big_endian);
    let last = native_bytes((count - 1) as u64, 2, big_endian);
    let bytes = index_bytes(count, big_endian);
    lemma_index_bytes_len((count - 1) as nat, big_endian);
    assert(bytes == before + last);
    if i < count - 1 {
        indices_are_counted((count - 1) as nat, big_endian, i);
        assert(bytes[2 * i] == before[2 * i]);
        assert(bytes[2 * i + 1] == before[2 * i + 1]);
    } else {
        bytes_are_in_native_order((count - 1) as u64, 2, 0);
        bytes_are_in_native_order((count - 1) as u64, 2, 1);
        assert(bytes[2 * i] == last[0]);
        assert(bytes[2 * i + 1] == last[1]);
        assert(pow256(0) == 1);
        assert(pow256(1) == 256);
    }
}

proof fn lemma_index_bytes_len(count: nat, big_endian: bool)
    ensures
        index_bytes(count, big_endian).len() == 2 * count,
    decreases count,
{
    if count > 0 {
        lemma_index_bytes_len((count - 1) as nat, big_endian);
    }
}

} // verus!
