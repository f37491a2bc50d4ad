use vstd::prelude::*;

verus! {

/// A size in physical pixels.
#[derive(Clone, Copy, PartialEq, Eq, Structural, Debug)]
pub struct PhysicalSize {
    pub width: u32,
    pub height: u32,
}

impl PhysicalSize {
    pub fn new(width: u32, height: u32) -> (s: Self)
        ensures
            s.width == width,
            s.height == height,
    {
        PhysicalSize { width, height }
    }
}

/// Tracks whether the surface has to be reconfigured for a new window size.
pub struct WindowHandle {
    pub is_need_resize: bool,
    pub current_size: PhysicalSize,
}

/// The handle after the window reported `n_size`: a size equal to the current one
/// changes nothing; any other becomes current and marks a pending resize.
pub open spec fn after_resized(h: WindowHandle, n_size: PhysicalSize) -> WindowHandle {
    if n_size == h.current_size {
        h
    } else {
        WindowHandle { is_need_resize: true, current_size: n_size }
    }
}

/// The handle after its pending resize was taken, and the size to configure the
/// surface with (`None` when nothing was pending).
pub open spec fn after_taken(h: WindowHandle) -> (WindowHandle, Option<PhysicalSize>) {
    (
        WindowHandle { is_need_resize: false, current_size: h.current_size },
        if h.is_need_resize { Some(h.current_size) } else { None },
    )
}

impl WindowHandle {
    /// Records a size reported by the window.
    pub fn set_window_resized(&mut self, n_size: PhysicalSize)
        ensures
            *final(self) == after_resized(*old(self), n_size),
    {
        if n_size == self.current_size {
            return;
        }
        self.current_size = n_size;
        self.is_need_resize = true;
    }

    /// Takes the pending resize: returns the size the surface must be configured
    /// with when one is pending, and clears it.
    pub fn resize_window(&mut self) -> (r: Option<PhysicalSize>)
        ensures
            (*final(self), r) == after_taken(*old(self)),
    {
        if self.is_need_resize {
            self.is_need_resize = false;
            Some(self.current_size)
        } else {
            None
        }
    }
}

/// A size that differs from the current one, once recorded, is what the next take
/// hands back; a take right after a take finds nothing pending; reporting the
/// current size again changes nothing.
pub proof fn lemma_resize_protocol(h: WindowHandle, n_size: PhysicalSize)
    ensures
        n_size != h.current_size ==> after_taken(after_resized(h, n_size)).1 == Some(n_size),
        after_taken(after_taken(h).0).1 == None::<PhysicalSize>,
        after_resized(h, h.current_size) == h,
        after_resized(after_resized(h, n_size), n_size) == after_resized(h, n_size),
{
}

/// The surface extent used for a window of the given inner size: each side at least 1.
pub open spec fn spec_surface_extent(size: PhysicalSize) -> PhysicalSize {
    PhysicalSize {
        width: if size.width < 1 { 1 } else { size.width },
        height: if size.height < 1 { 1 } else { size.height },
    }
}

/// Clamps a window's inner size to a configurable surface size (no side 0).
pub fn surface_extent(size: PhysicalSize) -> (r: PhysicalSize)
    ensures
        r == spec_surface_extent(size),
        r.width >= 1 && r.height >= 1,
{
    let width: u32 = if size.width < 1 { 1 } else { size.width };
    let height: u32 = if size.height < 1 { 1 } else { size.height };
    PhysicalSize { width, height }
}

} // verus!
