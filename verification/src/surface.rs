//! The drawing surface of a window: its configured size, whether it may be
//! drawn on yet, and which texture format it is given.

use vstd::prelude::*;

verus! {

/// The size of a window's surface and whether it has been configured.
/// A surface starts unconfigured and is only drawn on once configured.
#[derive(Clone, Copy, Debug, PartialEq, Eq, Structural)]
pub struct SurfaceState {
    pub width: u32,
    pub height: u32,
    pub configured: bool,
}

/// A side of a surface: the asked length, raised to at least one pixel.
pub open spec fn surface_side(len: u32) -> u32 {
    if len == 0 {
        1
    } else {
        len
    }
}

/// The state after a resize to `width` by `height`.
pub open spec fn resized(width: u32, height: u32) -> SurfaceState {
    SurfaceState { width: surface_side(width), height: surface_side(height), configured: true }
}

impl SurfaceState {
    /// The state of a new window's surface: the window's size, not yet
    /// configured.
    pub fn new(width: u32, height: u32) -> (s: Self)
        ensures
            s == (SurfaceState { width, height, configured: false }),
    {
        SurfaceState { width, height, configured: false }
    }

    /// Resizes the surface to `width` by `height`, each side at least one
    /// pixel, and marks it configured.
    pub fn resize(&mut self, width: u32, height: u32)
        ensures
            *final(self) == resized(width, height),
    {
        let w = if width > 1 { width } else { 1 };
        let h = if height > 1 { height } else { 1 };
        if w > 0 && h > 0 {
            self.width = w;
            self.height = h;
            self.configured = true;
        }
    }

    /// Whether a frame may be drawn: only on a configured surface.
    pub fn can_render(&self) -> (b: bool)
        ensures
            b == self.configured,
    {
        self.configured
    }
}

/// After any resize the surface may be drawn on and has a positive size;
/// resizing twice to the same size is the same as resizing once, and the
/// state after a resize depends on the last resize alone.
pub proof fn lemma_resize_laws(s: SurfaceState, w1: u32, h1: u32, w2: u32, h2: u32)
    ensures
        resized(w1, h1).configured,
        resized(w1, h1).width >= 1,
        resized(w1, h1).height >= 1,
        w1 >= 1 && h1 >= 1 ==> resized(w1, h1).width == w1 && resized(w1, h1).height == h1,
        resized(resized(w1, h1).width, resized(w1, h1).height) == resized(w1, h1),
{
}

/// Each side after a resize is the smallest length that is at least the
/// asked one and at least one pixel: the asked length when it is positive,
/// one pixel when it is zero.
pub proof fn lemma_resize_side_is_least_allowed(w: u32, h: u32, len: u32)
    ensures
        resized(w, h).width >= w && resized(w, h).width >= 1,
        resized(w, h).height >= h && resized(w, h).height >= 1,
        len >= w && len >= 1 ==> resized(w, h).width <= len,
        len >= h && len >= 1 ==> resized(w, h).height <= len,
{
}

/// The index of the surface format to use, given for each format the
/// surface offers whether it is sRGB: the first sRGB one, else the first.
pub fn choose_surface_format(is_srgb: &[bool]) -> (i: usize)
    requires
        is_srgb@.len() > 0,
    ensures
        i < is_srgb@.len(),
        (exists|j: int| 0 <= j < is_srgb@.len() && is_srgb@[j]) ==> is_srgb@[i as int] && forall|j: int|
            0 <= j < i ==> !is_srgb@[j],
        !(exists|j: int| 0 <= j < is_srgb@.len() && is_srgb@[j]) ==> i == 0,
{
    let n = is_srgb.len();
    let mut i: usize = 0;
    while i < n
        invariant
            n == is_srgb@.len(),
            i <= n,
            forall|j: int| 0 <= j < i ==> !is_srgb@[j],
        decreases n - i,
    {
        if is_srgb[i] {
            return i;
        }
        i = i + 1;
    }
    0
}

} // verus!
