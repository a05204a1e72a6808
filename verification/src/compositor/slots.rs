//! Slot maps: surfaces and buffers by their keys.

use vstd::prelude::*;
use slotmap::{DefaultKey, SlotMap};
use crate::compositor::buffers::Buffer;
use crate::compositor::surface::Surface;

verus! {

/// `slotmap::DefaultKey`: the key of an entry in a slot map.
#[verifier::external_type_specification]
#[verifier::external_body]
pub struct ExDefaultKey(slotmap::DefaultKey);

/// `slotmap::DefaultKey::eq`: whether two keys are the same.
#[verifier::external_body]
pub(crate) fn same_key(a: DefaultKey, b: DefaultKey) -> (same: bool)
    ensures
        same == (a == b),
{
    a.eq(&b)
}

/// A slot map is full with so many entries.
pub const MAX_SLOTS: u32 = 0xffff_fffe;

/// The surfaces, held in a `slotmap::SlotMap`.
#[verifier::external_body]
pub struct SurfaceSlots {
    inner: SlotMap<DefaultKey, Surface>,
}

/// The surfaces that a slot map holds, by key.
pub uninterp spec fn surfaces_of(slots: SurfaceSlots) -> Map<DefaultKey, Surface>;

impl View for SurfaceSlots {
    type V = Map<DefaultKey, Surface>;

    open spec fn view(&self) -> Map<DefaultKey, Surface> {
        surfaces_of(*self)
    }
}

impl SurfaceSlots {
    /// `slotmap::SlotMap::new`: there are no surfaces.
    #[verifier::external_body]
    pub(crate) fn new() -> (slots: SurfaceSlots)
        ensures
            surfaces_of(slots).dom() == Set::<DefaultKey>::empty(),
    {
        SurfaceSlots { inner: SlotMap::new() }
    }

    /// `slotmap::SlotMap::insert`: files a surface under a key that no other
    /// surface has. It panics where the map is full.
    #[verifier::external_body]
    pub(crate) fn insert(&mut self, surface: Surface) -> (key: DefaultKey)
        requires
            surfaces_of(*old(self)).dom().len() < MAX_SLOTS,
        ensures
            !surfaces_of(*old(self)).contains_key(key),
            surfaces_of(*final(self)) == surfaces_of(*old(self)).insert(key, surface),
    {
        self.inner.insert(surface)
    }

    /// `slotmap::SlotMap::get`: the surface under a key, if there is one.
    #[verifier::external_body]
    pub(crate) fn get(&self, key: DefaultKey) -> (found: Option<&Surface>)
        ensures
            match found {
                Some(surface) => surfaces_of(*self).contains_key(key) && *surface == surfaces_of(*self)[key],
                None => !surfaces_of(*self).contains_key(key),
            },
    {
        self.inner.get(key)
    }

    /// `slotmap::SlotMap::get_mut`: lends the surface under a key, if there is
    /// one, and keeps every other entry.
    #[verifier::external_body]
    pub(crate) fn get_mut(&mut self, key: DefaultKey) -> (found: Option<&mut Surface>)
        ensures
            match found {
                Some(surface) => surfaces_of(*old(self)).contains_key(key) && *surface == surfaces_of(
                    *old(self),
                )[key] && surfaces_of(*final(self)) == surfaces_of(*old(self)).insert(
                    key,
                    *final(surface),
                ),
                None => !surfaces_of(*old(self)).contains_key(key) && surfaces_of(*final(self))
                    == surfaces_of(*old(self)),
            },
    {
        self.inner.get_mut(key)
    }

    /// `slotmap::SlotMap::keys`: every key once, in no particular order.
    #[verifier::external_body]
    pub(crate) fn keys(&self) -> (keys: Vec<DefaultKey>)
        ensures
            keys@.no_duplicates(),
            keys@.to_set() == surfaces_of(*self).dom(),
    {
        self.inner.keys().collect()
    }
}

/// The buffers, held in a `slotmap::SlotMap`.
#[verifier::external_body]
pub struct BufferSlots {
    inner: SlotMap<DefaultKey, Buffer>,
}

/// The buffers that a slot map holds, by key.
pub uninterp spec fn buffers_of(slots: BufferSlots) -> Map<DefaultKey, Buffer>;

impl View for BufferSlots {
    type V = Map<DefaultKey, Buffer>;

    open spec fn view(&self) -> Map<DefaultKey, Buffer> {
        buffers_of(*self)
    }
}

impl BufferSlots {
    /// `slotmap::SlotMap::new`: there are no buffers.
    #[verifier::external_body]
    pub(crate) fn new() -> (slots: BufferSlots)
        ensures
            buffers_of(slots).dom() == Set::<DefaultKey>::empty(),
    {
        BufferSlots { inner: SlotMap::new() }
    }

    /// `slotmap::SlotMap::insert`: files a buffer under a key that no other
    /// buffer has. It panics where the map is full.
    #[verifier::external_body]
    pub(crate) fn insert(&mut self, buffer: Buffer) -> (key: DefaultKey)
        requires
            buffers_of(*old(self)).dom().len() < MAX_SLOTS,
        ensures
            !buffers_of(*old(self)).contains_key(key),
            buffers_of(*final(self)) == buffers_of(*old(self)).insert(key, buffer),
    {
        self.inner.insert(buffer)
    }

    /// `slotmap::SlotMap::get`: the buffer under a key, if there is one.
    #[verifier::external_body]
    pub(crate) fn get(&self, key: DefaultKey) -> (found: Option<&Buffer>)
        ensures
            match found {
                Some(buffer) => buffers_of(*self).contains_key(key) && *buffer == buffers_of(*self)[key],
                None => !buffers_of(*self).contains_key(key),
            },
    {
        self.inner.get(key)
    }

    /// `slotmap::SlotMap::get_mut`: lends the buffer under a key, if there is
    /// one, and keeps every other entry.
    #[verifier::external_body]
    pub(crate) fn get_mut(&mut self, key: DefaultKey) -> (found: Option<&mut Buffer>)
        ensures
            match found {
                Some(buffer) => buffers_of(*old(self)).contains_key(key) && *buffer == buffers_of(
                    *old(self),
                )[key] && buffers_of(*final(self)) == buffers_of(*old(self)).insert(
                    key,
                    *final(buffer),
                ),
                None => !buffers_of(*old(self)).contains_key(key) && buffers_of(*final(self))
                    == buffers_of(*old(self)),
            },
    {
        self.inner.get_mut(key)
    }

    /// `slotmap::SlotMap::keys`: every key once, in no particular order.
    #[verifier::external_body]
    pub(crate) fn keys(&self) -> (keys: Vec<DefaultKey>)
        ensures
            keys@.no_duplicates(),
            keys@.to_set() == buffers_of(*self).dom(),
    {
        self.inner.keys().collect()
    }

    /// `slotmap::SlotMap::remove`: takes the buffer under a key out, if there
    /// is one.
    #[verifier::external_body]
    pub(crate) fn remove(&mut self, key: DefaultKey) -> (removed: Option<Buffer>)
        ensures
            buffers_of(*final(self)) == buffers_of(*old(self)).remove(key),
            match removed {
                Some(buffer) => buffers_of(*old(self)).contains_key(key) && buffer == buffers_of(
                    *old(self),
                )[key],
                None => !buffers_of(*old(self)).contains_key(key),
            },
    {
        self.inner.remove(key)
    }
}

} // verus!
