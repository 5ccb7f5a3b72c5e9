//! The live terminal surfaces.
//!
//! A surface is known by its address, which may be used again after the surface
//! is gone. An identity adds a generation to the address, so that work queued for
//! an earlier surface does not reach a later one.
use std::collections::HashMap;

use vstd::prelude::*;
use vstd::std_specs::hash::*;

use crate::terminal::cursor::{MouseCursorState, MouseCursorUpdate};

verus! {

broadcast use group_hash_axioms;

/// One surface: its address, and which surface at that address.
#[derive(Clone, Copy, Debug, PartialEq, Eq, Structural)]
pub struct SurfaceIdentity {
    pub surface_key: usize,
    pub generation: u64,
}

/// Which surface lives at which address.
#[derive(Debug)]
pub struct SurfaceIdentityRegistry {
    pub next_generation: u64,
    pub active_generations: HashMap<usize, u64>,
}

impl SurfaceIdentityRegistry {
    /// The generation of the surface at each address.
    pub open spec fn live(self) -> Map<usize, u64> {
        self.active_generations@
    }

    /// Whether an identity is that of a live surface.
    pub open spec fn holds(self, identity: SurfaceIdentity) -> bool {
        self.live().contains_key(identity.surface_key) && self.live()[identity.surface_key]
            == identity.generation
    }

    /// The generation that the next surface gets. After 2^64 surfaces the count
    /// starts again.
    pub open spec fn upcoming(self) -> u64 {
        if self.next_generation == u64::MAX {
            0
        } else {
            (self.next_generation + 1) as u64
        }
    }

    /// Enters a new surface at an address, in place of one that was there.
    pub fn register(&mut self, surface_key: usize) -> (r: SurfaceIdentity)
        ensures
            r == (SurfaceIdentity { surface_key, generation: old(self).upcoming() }),
            final(self).next_generation == r.generation,
            final(self).live() == old(self).live().insert(surface_key, r.generation),
    {
        self.next_generation = self.next_generation.wrapping_add(1);
        let generation: u64 = self.next_generation;
        self.active_generations.insert(surface_key, generation);
        SurfaceIdentity { surface_key, generation }
    }

    /// The identity of the surface at an address.
    pub fn current(&self, surface_key: usize) -> (r: Option<SurfaceIdentity>)
        ensures
            r == (if self.live().contains_key(surface_key) {
                Some(SurfaceIdentity { surface_key, generation: self.live()[surface_key] })
            } else {
                None
            }),
    {
        match self.active_generations.get(&surface_key) {
            Some(generation) => Some(SurfaceIdentity { surface_key, generation: *generation }),
            None => None,
        }
    }

    pub fn is_current(&self, identity: SurfaceIdentity) -> (r: bool)
        ensures
            r == self.holds(identity),
    {
        match self.current(identity.surface_key) {
            Some(current) => current.generation == identity.generation,
            None => false,
        }
    }

    /// Takes a surface out. A later surface at the same address stays.
    pub fn unregister(&mut self, identity: SurfaceIdentity)
        ensures
            final(self).next_generation == old(self).next_generation,
            final(self).live() == (if old(self).holds(identity) {
                old(self).live().remove(identity.surface_key)
            } else {
                old(self).live()
            }),
    {
        if self.is_current(identity) {
            self.active_generations.remove(&identity.surface_key);
        }
    }
}

impl Default for SurfaceIdentityRegistry {
    fn default() -> (r: Self)
        ensures
            r.next_generation == 0,
            r.live() == Map::<usize, u64>::empty(),
    {
        SurfaceIdentityRegistry { next_generation: 0, active_generations: HashMap::new() }
    }
}

/// An identity is no longer current once another surface was entered at its
/// address. Identities are handed out with generations up to the latest one; the
/// law holds until the count starts again after 2^64 surfaces.
pub proof fn lemma_stale_identity_is_not_current(
    before: SurfaceIdentityRegistry,
    after: SurfaceIdentityRegistry,
    stale: SurfaceIdentity,
)
    requires
        stale.generation <= before.next_generation < u64::MAX,
        after.live() == before.live().insert(stale.surface_key, before.upcoming()),
    ensures
        !after.holds(stale),
        after.holds(
            SurfaceIdentity { surface_key: stale.surface_key, generation: before.upcoming() },
        ),
{
}

/// What the host keeps of a live surface.
#[derive(Clone, Copy, Debug, PartialEq, Eq, Structural)]
pub struct SurfaceEntry {
    pub identity: SurfaceIdentity,
    pub mouse_cursor: MouseCursorState,
    /// A link that is being clicked is to be opened outside.
    pub open_url_external: bool,
}

/// The surfaces that are shown, by address.
#[derive(Debug)]
pub struct SurfaceMap {
    pub entries: HashMap<usize, SurfaceEntry>,
}

impl SurfaceMap {
    pub open spec fn live(self) -> Map<usize, SurfaceEntry> {
        self.entries@
    }

    /// Whether the surface with this identity is shown.
    pub open spec fn shows(self, identity: SurfaceIdentity) -> bool {
        self.live().contains_key(identity.surface_key) && self.live()[identity.surface_key].identity
            == identity
    }

    pub fn new() -> (r: Self)
        ensures
            r.live() == Map::<usize, SurfaceEntry>::empty(),
    {
        SurfaceMap { entries: HashMap::new() }
    }

    /// Enters a new surface, with the usual cursor.
    pub fn insert(&mut self, identity: SurfaceIdentity)
        ensures
            final(self).live() == old(self).live().insert(
                identity.surface_key,
                SurfaceEntry {
                    identity,
                    mouse_cursor: MouseCursorState {
                        shape: crate::terminal::cursor::MouseShape::Text,
                        visible: true,
                    },
                    open_url_external: false,
                },
            ),
    {
        self.entries.insert(
            identity.surface_key,
            SurfaceEntry {
                identity,
                mouse_cursor: MouseCursorState::default(),
                open_url_external: false,
            },
        );
    }

    pub fn get(&self, surface_key: usize) -> (r: Option<SurfaceEntry>)
        ensures
            r == (if self.live().contains_key(surface_key) {
                Some(self.live()[surface_key])
            } else {
                None
            }),
    {
        match self.entries.get(&surface_key) {
            Some(entry) => Some(*entry),
            None => None,
        }
    }

    pub fn surface_is_registered(&self, surface_key: usize) -> (r: bool)
        ensures
            r == self.live().contains_key(surface_key),
    {
        self.entries.contains_key(&surface_key)
    }

    /// Takes a surface out and returns what was kept of it.
    pub fn remove(&mut self, surface_key: usize) -> (r: Option<SurfaceEntry>)
        ensures
            r == (if old(self).live().contains_key(surface_key) {
                Some(old(self).live()[surface_key])
            } else {
                None
            }),
            final(self).live() == old(self).live().remove(surface_key),
    {
        let removed = self.entries.remove(&surface_key);
        proof {
            assert(self.live() =~= old(self).live().remove(surface_key));
        }
        removed
    }

    /// Marks whether links are to be opened outside while a click is handled.
    pub fn set_open_url_external(&mut self, surface_key: usize, external: bool)
        ensures
            final(self).live() == (if old(self).live().contains_key(surface_key) {
                old(self).live().insert(
                    surface_key,
                    SurfaceEntry { open_url_external: external, ..old(self).live()[surface_key] },
                )
            } else {
                old(self).live()
            }),
    {
        if let Some(entry) = self.get(surface_key) {
            self.entries.insert(
                surface_key,
                SurfaceEntry { open_url_external: external, ..entry },
            );
        }
    }

    /// Changes the cursor of the surface with this identity and returns the name
    /// of the cursor to show. Another surface at the same address is left alone.
    pub fn apply_mouse_cursor_update(
        &mut self,
        identity: SurfaceIdentity,
        update: MouseCursorUpdate,
    ) -> (r: Option<&'static str>)
        ensures
            r is Some == old(self).shows(identity),
            match r {
                Some(name) => {
                    let entry = old(self).live()[identity.surface_key];
                    let cursor = entry.mouse_cursor.updated(update);
                    &&& name@ == cursor.cursor_name()
                    &&& final(self).live() == old(self).live().insert(
                        identity.surface_key,
                        SurfaceEntry { mouse_cursor: cursor, ..entry },
                    )
                },
                None => final(self).live() == old(self).live(),
            },
    {
        match self.get(identity.surface_key) {
            Some(entry) => {
                if entry.identity != identity {
                    return None;
                }
                let cursor = entry.mouse_cursor.update(update);
                self.entries.insert(
                    identity.surface_key,
                    SurfaceEntry { mouse_cursor: cursor, ..entry },
                );
                Some(cursor.gtk_cursor_name())
            },
            None => None,
        }
    }
}

/// A cursor update that was queued for a surface does not touch a later surface
/// at the same address.
pub proof fn lemma_queued_update_misses_later_surface(
    surfaces: SurfaceMap,
    stale: SurfaceIdentity,
    later: SurfaceIdentity,
)
    requires
        surfaces.shows(later),
        later.surface_key == stale.surface_key,
        later.generation != stale.generation,
    ensures
        !surfaces.shows(stale),
{
}

/// Whether a wakeup of the terminal library is waiting to be handled. At most one
/// waits at a time.
#[derive(Clone, Copy, Debug, PartialEq, Eq, Structural)]
pub struct WakeupSlot {
    pub queued: bool,
}

impl WakeupSlot {
    pub fn new() -> (r: Self)
        ensures
            !r.queued,
    {
        WakeupSlot { queued: false }
    }

    /// Takes the slot. Says whether it was free, so that the caller is the one to
    /// queue the work.
    pub fn claim_wakeup_idle_slot(&mut self) -> (r: bool)
        ensures
            r == !old(self).queued,
            final(self).queued,
    {
        let free = !self.queued;
        self.queued = true;
        free
    }

    /// Frees the slot.
    pub fn release_wakeup_idle_slot(&mut self)
        ensures
            !final(self).queued,
    {
        self.queued = false;
    }
}

} // verus!
