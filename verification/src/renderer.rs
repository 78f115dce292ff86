//! The state of the animated background: which images are shown, pending
//! and cached, and when a cross-fade between two of them is under way.
//! Images are referred to by handles that the drawing side hands out.
use vstd::prelude::*;

verus! {

/// A color of the animated background.
#[derive(Clone, Copy, Debug, PartialEq, Eq, Structural)]
pub struct Color {
    pub r: u8,
    pub g: u8,
    pub b: u8,
}

/// What the renderer shows and has still to upload.
#[derive(Clone, Copy, Debug, PartialEq, Eq, Structural)]
pub struct SharedRendererState {
    /// The image on screen.
    pub current_image_id: Option<u64>,
    /// The image fading in over it.
    pub next_image_id: Option<u64>,
    /// A cross-fade is under way.
    pub transitioning: bool,
    pub needs_redraw: bool,
    /// The last background image, kept to restore it.
    pub cached_image: Option<u64>,
    /// An image to upload and fade in.
    pub pending_next: Option<u64>,
    /// An image to upload and show at once.
    pub pending_current: Option<u64>,
}

/// What the drawing side does after a tick of the cross-fade.
#[derive(Clone, Copy, Debug, PartialEq, Eq, Structural)]
pub struct TickOutcome {
    /// An image to free.
    pub delete: Option<u64>,
    /// The cross-fade just completed (the user interface is told).
    pub completed: bool,
}

/// Images to upload before drawing, and the images they replace.
#[derive(Clone, Copy, Debug, PartialEq, Eq, Structural)]
pub struct PendingUploads {
    pub next: Option<u64>,
    pub current: Option<u64>,
    pub delete_next: Option<u64>,
    pub delete_current: Option<u64>,
}

/// A renderer with nothing to show.
pub fn init_global_renderer() -> (r: SharedRendererState)
    ensures
        r == (SharedRendererState {
            current_image_id: None,
            next_image_id: None,
            transitioning: false,
            needs_redraw: false,
            cached_image: None,
            pending_next: None,
            pending_current: None,
        }),
{
    SharedRendererState {
        current_image_id: None,
        next_image_id: None,
        transitioning: false,
        needs_redraw: false,
        cached_image: None,
        pending_next: None,
        pending_current: None,
    }
}

/// A new background image: it is cached and fades in on the next draw.
pub fn update_background(state: &mut SharedRendererState, img: u64)
    ensures
        *final(state) == (SharedRendererState {
            cached_image: Some(img),
            pending_next: Some(img),
            needs_redraw: true,
            ..*old(state)
        }),
{
    state.cached_image = Some(img);
    state.pending_next = Some(img);
    state.needs_redraw = true;
}

/// Shows the cached background again at once, if there is one.
pub fn restore_background(state: &mut SharedRendererState)
    ensures
        match old(state).cached_image {
            Some(img) => *final(state) == (SharedRendererState {
                pending_current: Some(img),
                transitioning: false,
                needs_redraw: true,
                ..*old(state)
            }),
            None => *final(state) == *old(state),
        },
{
    match state.cached_image {
        Some(img) => {
            state.pending_current = Some(img);
            state.transitioning = false;
            state.needs_redraw = true;
        },
        None => {},
    }
}

/// Asks for a redraw.
pub fn trigger_redraw(state: &mut SharedRendererState)
    ensures
        *final(state) == (SharedRendererState { needs_redraw: true, ..*old(state) }),
{
    state.needs_redraw = true;
}

impl SharedRendererState {
    /// Advances the cross-fade; `elapsed_done` tells whether its time is up.
    /// At its end the fading image becomes the current one, the old current
    /// image is freed and the user interface is told.
    pub fn tick_transition(&mut self, elapsed_done: bool) -> (r: TickOutcome)
        ensures
            old(self).transitioning && elapsed_done ==> {
                &&& r == (TickOutcome { delete: old(self).current_image_id, completed: true })
                &&& *final(self) == (SharedRendererState {
                    current_image_id: old(self).next_image_id,
                    next_image_id: None,
                    transitioning: false,
                    ..*old(self)
                })
            },
            !(old(self).transitioning && elapsed_done) ==> r == (TickOutcome {
                delete: None,
                completed: false,
            }) && *final(self) == *old(self),
    {
        if self.transitioning && elapsed_done {
            let old_current = self.current_image_id;
            self.current_image_id = self.next_image_id;
            self.next_image_id = None;
            self.transitioning = false;
            TickOutcome { delete: old_current, completed: true }
        } else {
            TickOutcome { delete: None, completed: false }
        }
    }

    /// Takes the images waiting to be uploaded for drawing, with the images
    /// they replace (which the drawing side frees).
    pub fn take_pending(&mut self) -> (r: PendingUploads)
        ensures
            r == (PendingUploads {
                next: old(self).pending_next,
                current: old(self).pending_current,
                delete_next: if old(self).pending_next is Some {
                    old(self).next_image_id
                } else {
                    None
                },
                delete_current: if old(self).pending_current is Some {
                    old(self).current_image_id
                } else {
                    None
                },
            }),
            *final(self) == (SharedRendererState {
                pending_next: None,
                pending_current: None,
                next_image_id: if old(self).pending_next is Some {
                    None
                } else {
                    old(self).next_image_id
                },
                current_image_id: if old(self).pending_current is Some {
                    None
                } else {
                    old(self).current_image_id
                },
                ..*old(self)
            }),
    {
        let next = self.pending_next;
        let current = self.pending_current;
        self.pending_next = None;
        self.pending_current = None;
        let delete_next = if next.is_some() {
            let d = self.next_image_id;
            self.next_image_id = None;
            d
        } else {
            None
        };
        let delete_current = if current.is_some() {
            let d = self.current_image_id;
            self.current_image_id = None;
            d
        } else {
            None
        };
        PendingUploads { next, current, delete_next, delete_current }
    }

    /// Records the uploaded images: the new next image starts a cross-fade,
    /// the new current image shows at once. `None` is a failed upload.
    pub fn install_uploads(&mut self, uploads: &PendingUploads, next_id: Option<u64>, current_id: Option<u64>)
        ensures
            final(self).next_image_id == if uploads.next is Some {
                next_id
            } else {
                old(self).next_image_id
            },
            final(self).transitioning == (uploads.next is Some || old(self).transitioning),
            final(self).current_image_id == if uploads.current is Some {
                current_id
            } else {
                old(self).current_image_id
            },
            final(self).needs_redraw == old(self).needs_redraw,
            final(self).cached_image == old(self).cached_image,
            final(self).pending_next == old(self).pending_next,
            final(self).pending_current == old(self).pending_current,
    {
        if uploads.next.is_some() {
            self.next_image_id = next_id;
            self.transitioning = true;
        }
        if uploads.current.is_some() {
            self.current_image_id = current_id;
        }
    }
}

} // verus!
