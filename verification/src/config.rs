use vstd::prelude::*;

verus! {

/// Settings of the window the renderer opens.
pub struct WindowConfig {
    pub title: &'static str,
}

/// The title that a window gets when no other is configured.
pub open spec fn default_window_title() -> Seq<char> {
    "IceSpar"@
}

impl Default for WindowConfig {
    fn default() -> (r: Self)
        ensures
            r.title@ == default_window_title(),
    {
        WindowConfig { title: "IceSpar" }
    }
}

} // verus!
