//! What the render loop is asked to do each frame, and the draw selection
//! the user flips between.
use vstd::prelude::*;

verus! {

/// A request for the renderer.
#[derive(Debug)]
pub enum RenderChoice {
    /// Rebuild the renderer, as after the window changed size.
    Restart,
    /// Draw these models of the scene, with or without a depth buffer.
    DrawGroupWithSetting { models: Vec<usize>, should_use_depth: bool },
}

/// The remainder of `n` divided by two, with the sign of `n`, as Rust's `%`
/// gives it.
pub open spec fn spec_rem2(n: int) -> int {
    if n >= 0 {
        n % 2
    } else {
        -((-n) % 2)
    }
}

/// The draw selection after the user flips it: one more, kept to its
/// remainder by two.
pub fn next_draw_selection(draw_id: i32) -> (r: i32)
    requires
        draw_id < i32::MAX,
    ensures
        r == spec_rem2(draw_id + 1),
{
    let n: i32 = draw_id + 1;
    if n >= 0 {
        let m: u32 = n as u32;
        if m % 2 == 0 {
            0
        } else {
            1
        }
    } else {
        let m: u64 = (-(n as i64)) as u64;
        if m % 2 == 0 {
            0
        } else {
            -1
        }
    }
}

/// Picks the frame's request. A pending restart wins and is cleared;
/// otherwise selection 0 draws the first model, and any other selection
/// the second and third. Returns the request and the restart flag after it.
pub fn choose_render_request(restart: bool, draw_id: i32, should_use_depth: bool) -> (r: (
    RenderChoice,
    bool,
))
    ensures
        !r.1,
        restart ==> r.0 is Restart,
        !restart ==> (r.0 matches RenderChoice::DrawGroupWithSetting { models, should_use_depth: d }
            && d == should_use_depth && models@ == (if draw_id == 0 {
            seq![0usize]
        } else {
            seq![1usize, 2usize]
        })),
{
    if restart {
        (RenderChoice::Restart, false)
    } else if draw_id == 0 {
        (RenderChoice::DrawGroupWithSetting { models: vec![0], should_use_depth }, false)
    } else {
        (RenderChoice::DrawGroupWithSetting { models: vec![1, 2], should_use_depth }, false)
    }
}

/// Flipping the selection twice from 0 or 1 comes back to it, and each flip
/// leaves 0 or 1.
pub proof fn law_selection_flips_between_two(draw_id: i32)
    requires
        0 <= draw_id <= 1,
    ensures
        0 <= spec_rem2(draw_id + 1) <= 1,
        spec_rem2(draw_id + 1) != draw_id,
        spec_rem2(spec_rem2(draw_id + 1) + 1) == draw_id,
{
}

} // verus!
