//! The choices a renderer makes when it opens an adapter and sets up a
//! swapchain: which adapter and queue family, which presentation mode,
//! alpha compositing and image format, and how many images.
use vstd::prelude::*;

verus! {

/// How finished images are handed to the display.
#[derive(Debug, Copy, Clone, PartialEq, Eq, Structural)]
pub enum PresentMode {
    Immediate,
    Mailbox,
    Fifo,
    Relaxed,
}

/// How the window system blends the image's alpha.
#[derive(Debug, Copy, Clone, PartialEq, Eq, Structural)]
pub enum CompositeAlpha {
    Opaque,
    Inherit,
    PreMultiplied,
    PostMultiplied,
}

/// The image format picked for the swapchain.
#[derive(Debug, Copy, Clone, PartialEq, Eq, Structural)]
pub enum FormatChoice {
    /// The surface states no preference: eight-bit sRGB RGBA.
    DefaultRgba8Srgb,
    /// The surface's preferred format at this index.
    Preferred(usize),
}

/// Width and height of an image.
#[derive(Debug, Copy, Clone, PartialEq, Eq, Structural)]
pub struct Extent2D {
    pub width: u32,
    pub height: u32,
}

/// What a swapchain is set up with.
#[derive(Debug, Copy, Clone, PartialEq, Eq, Structural)]
pub struct SwapchainPlan {
    pub present_mode: PresentMode,
    pub composite_alpha: CompositeAlpha,
    pub format: FormatChoice,
    pub extent: Extent2D,
    pub image_count: u32,
}

/// The presentation modes in the order they are preferred.
pub open spec fn present_mode_preference() -> Seq<PresentMode> {
    seq![PresentMode::Mailbox, PresentMode::Fifo, PresentMode::Relaxed, PresentMode::Immediate]
}

/// The alpha modes in the order they are preferred.
pub open spec fn composite_alpha_preference() -> Seq<CompositeAlpha> {
    seq![
        CompositeAlpha::Opaque,
        CompositeAlpha::Inherit,
        CompositeAlpha::PreMultiplied,
        CompositeAlpha::PostMultiplied,
    ]
}

/// The first of `preference` that `available` holds, if any.
pub open spec fn first_available<T>(preference: Seq<T>, available: Seq<T>) -> Option<T>
    decreases preference.len(),
{
    if preference.len() == 0 {
        None
    } else if available.contains(preference[0]) {
        Some(preference[0])
    } else {
        first_available(preference.drop_first(), available)
    }
}

/// The index of the first `true` in `s`, if any.
pub open spec fn first_true(s: Seq<bool>) -> Option<int> {
    if exists|i: int| 0 <= i < s.len() && s[i] {
        Some(choose|i: int| 0 <= i < s.len() && s[i] && forall|j: int| 0 <= j < i ==> !s[j])
    } else {
        None
    }
}

/// Whether `s` holds no `true`.
pub open spec fn none_true(s: Seq<bool>) -> bool {
    forall|j: int| 0 <= j < s.len() ==> !s[j]
}

/// Whether `i` is the first `true` of `s`.
pub open spec fn is_first_true(s: Seq<bool>, i: int) -> bool {
    &&& 0 <= i < s.len()
    &&& s[i]
    &&& forall|j: int| 0 <= j < i ==> !s[j]
}

/// Picks the first adapter that has a queue family able to draw to the
/// surface, and that family. `adapters[a][q]` says whether family `q` of
/// adapter `a` supports graphics and the surface.
pub fn select_adapter(adapters: &Vec<Vec<bool>>) -> (r: Result<(usize, usize), &'static str>)
    ensures
        match r {
            Ok((a, q)) => {
                &&& a < adapters@.len()
                &&& is_first_true(adapters@[a as int]@, q as int)
                &&& forall|b: int| 0 <= b < a ==> none_true(#[trigger] adapters@[b]@)
            },
            Err(msg) => {
                &&& msg == "Couldn't find a graphical Adapter!"
                &&& forall|b: int| 0 <= b < adapters@.len() ==> none_true(#[trigger] adapters@[b]@)
            },
        },
{
    let mut a: usize = 0;
    while a < adapters.len()
        invariant
            a <= adapters@.len(),
            forall|b: int| 0 <= b < a ==> none_true(#[trigger] adapters@[b]@),
        decreases adapters@.len() - a,
    {
        let families = &adapters[a];
        let mut q: usize = 0;
        while q < families.len()
            invariant
                a < adapters@.len(),
                families@ == adapters@[a as int]@,
                forall|b: int| 0 <= b < a ==> none_true(#[trigger] adapters@[b]@),
                q <= families@.len(),
                forall|j: int| 0 <= j < q ==> !families@[j],
            decreases families@.len() - q,
        {
            if families[q] {
                return Ok((a, q));
            }
            q = q + 1;
        }
        assert(none_true(adapters@[a as int]@));
        a = a + 1;
    }
    Err("Couldn't find a graphical Adapter!")
}

fn holds_present_mode(available: &Vec<PresentMode>, m: PresentMode) -> (r: bool)
    ensures
        r == available@.contains(m),
{
    let mut i: usize = 0;
    while i < available.len()
        invariant
            i <= available@.len(),
            forall|j: int| 0 <= j < i ==> available@[j] != m,
        decreases available@.len() - i,
    {
        if available[i] == m {
            return true;
        }
        i = i + 1;
    }
    false
}

fn holds_composite_alpha(available: &Vec<CompositeAlpha>, m: CompositeAlpha) -> (r: bool)
    ensures
        r == available@.contains(m),
{
    let mut i: usize = 0;
    while i < available.len()
        invariant
            i <= available@.len(),
            forall|j: int| 0 <= j < i ==> available@[j] != m,
        decreases available@.len() - i,
    {
        if available[i] == m {
            return true;
        }
        i = i + 1;
    }
    false
}

/// The most preferred presentation mode the surface offers: mailbox, then
/// FIFO, then relaxed FIFO, then immediate.
pub fn choose_present_mode(available: &Vec<PresentMode>) -> (r: Option<PresentMode>)
    ensures
        r == first_available(present_mode_preference(), available@),
{
    let preference = [PresentMode::Mailbox, PresentMode::Fifo, PresentMode::Relaxed, PresentMode::Immediate];
    assert(present_mode_preference().skip(0) =~= present_mode_preference());
    let mut i: usize = 0;
    while i < 4
        invariant
            i <= 4,
            preference@ == present_mode_preference(),
            first_available(present_mode_preference(), available@) == first_available(
                present_mode_preference().skip(i as int),
                available@,
            ),
        decreases 4 - i,
    {
        proof {
            assert(present_mode_preference().skip(i as int).drop_first() =~= present_mode_preference().skip(
                i + 1,
            ));
        }
        if holds_present_mode(available, preference[i]) {
            return Some(preference[i]);
        }
        i = i + 1;
    }
    None
}

/// The most preferred alpha mode the surface offers: opaque, then inherit,
/// then premultiplied, then postmultiplied.
pub fn choose_composite_alpha(available: &Vec<CompositeAlpha>) -> (r: Option<CompositeAlpha>)
    ensures
        r == first_available(composite_alpha_preference(), available@),
{
    let preference = [
        CompositeAlpha::Opaque,
        CompositeAlpha::Inherit,
        CompositeAlpha::PreMultiplied,
        CompositeAlpha::PostMultiplied,
    ];
    assert(composite_alpha_preference().skip(0) =~= composite_alpha_preference());
    let mut i: usize = 0;
    while i < 4
        invariant
            i <= 4,
            preference@ == composite_alpha_preference(),
            first_available(composite_alpha_preference(), available@) == first_available(
                composite_alpha_preference().skip(i as int),
                available@,
            ),
        decreases 4 - i,
    {
        proof {
            assert(composite_alpha_preference().skip(i as int).drop_first()
                =~= composite_alpha_preference().skip(i + 1));
        }
        if holds_composite_alpha(available, preference[i]) {
            return Some(preference[i]);
        }
        i = i + 1;
    }
    None
}

/// The format: eight-bit sRGB RGBA when the surface states no preference,
/// else its first sRGB format, else its first format. `preferred[i]` says
/// whether the surface's `i`-th preferred format is an sRGB one.
pub fn choose_format(preferred: &Option<Vec<bool>>) -> (r: Result<FormatChoice, &'static str>)
    ensures
        r == spec_format_choice(preferred),
{
    match preferred {
        None => Ok(FormatChoice::DefaultRgba8Srgb),
        Some(srgb) => {
            let mut i: usize = 0;
            while i < srgb.len()
                invariant
                    preferred matches Some(v) && v@ == srgb@,
                    i <= srgb@.len(),
                    forall|j: int| 0 <= j < i ==> !srgb@[j],
                decreases srgb@.len() - i,
            {
                if srgb[i] {
                    proof {
                        lemma_first_true_is(srgb@, i as int);
                    }
                    return Ok(FormatChoice::Preferred(i));
                }
                i = i + 1;
            }
            if srgb.len() > 0 {
                Ok(FormatChoice::Preferred(0))
            } else {
                Err("Preferred format list was empty!")
            }
        },
    }
}

proof fn lemma_first_true_is(s: Seq<bool>, i: int)
    requires
        is_first_true(s, i),
    ensures
        first_true(s) == Some(i),
{
    let k = choose|k: int| 0 <= k < s.len() && s[k] && forall|j: int| 0 <= j < k ==> !s[j];
    assert(0 <= k < s.len() && s[k] && forall|j: int| 0 <= j < k ==> !s[j]);
    if k < i {
        assert(!s[k]);
    } else if k > i {
        assert(!s[i]);
    }
}

/// How many images the swapchain asks for: one less than the surface's
/// exclusive upper bound, at most three with mailbox presentation and at
/// most two otherwise.
pub fn swapchain_image_count(image_count_end: u32, present_mode: PresentMode) -> (r: u32)
    requires
        image_count_end >= 1,
    ensures
        r == spec_image_count(image_count_end, present_mode),
{
    let most: u32 = if present_mode == PresentMode::Mailbox {
        3
    } else {
        2
    };
    let offered: u32 = image_count_end - 1;
    if offered < most {
        offered
    } else {
        most
    }
}

/// The images' size: the surface's largest size, cut down to the window's
/// size in each dimension.
pub open spec fn spec_extent(max_extent: (u32, u32), window_size: (u32, u32)) -> Extent2D {
    Extent2D {
        width: if max_extent.0 <= window_size.0 {
            max_extent.0
        } else {
            window_size.0
        },
        height: if max_extent.1 <= window_size.1 {
            max_extent.1
        } else {
            window_size.1
        },
    }
}

/// The images' size, computed.
pub fn swapchain_extent(max_extent: (u32, u32), window_size: (u32, u32)) -> (r: Extent2D)
    ensures
        r == spec_extent(max_extent, window_size),
{
    Extent2D {
        width: if max_extent.0 <= window_size.0 {
            max_extent.0
        } else {
            window_size.0
        },
        height: if max_extent.1 <= window_size.1 {
            max_extent.1
        } else {
            window_size.1
        },
    }
}

/// The plan for a surface: the first thing missing, among a presentation
/// mode, an alpha mode, a format, the window (its size; `None` once it is
/// gone) and support for colour attachments, refuses it; otherwise the
/// preferred choices.
pub open spec fn spec_plan(
    present_modes: Seq<PresentMode>,
    composite_alphas: Seq<CompositeAlpha>,
    preferred_formats: &Option<Vec<bool>>,
    max_extent: (u32, u32),
    window_size: Option<(u32, u32)>,
    image_count_end: u32,
    supports_color_attachment: bool,
) -> Result<SwapchainPlan, &'static str> {
    match first_available(present_mode_preference(), present_modes) {
        None => Err("No PresentMode values specified!"),
        Some(present_mode) => match first_available(composite_alpha_preference(), composite_alphas) {
            None => Err("No CompositeAlpha values specified!"),
            Some(composite_alpha) => match spec_format_choice(preferred_formats) {
                Err(e) => Err(e),
                Ok(format) => match window_size {
                    None => Err("Window doesn't exist!"),
                    Some(size) => if supports_color_attachment {
                        Ok(
                            SwapchainPlan {
                                present_mode,
                                composite_alpha,
                                format,
                                extent: spec_extent(max_extent, size),
                                image_count: spec_image_count(image_count_end, present_mode),
                            },
                        )
                    } else {
                        Err("The Surface isn't capable of supporting color!")
                    },
                },
            },
        },
    }
}

/// Plans a swapchain from what the surface offers and the window's size,
/// refusing with the first thing missing: a presentation mode, an alpha
/// mode, a format, the window, and support for colour attachments, in that
/// order.
pub fn plan_swapchain(
    present_modes: &Vec<PresentMode>,
    composite_alphas: &Vec<CompositeAlpha>,
    preferred_formats: &Option<Vec<bool>>,
    max_extent: (u32, u32),
    window_size: Option<(u32, u32)>,
    image_count_end: u32,
    supports_color_attachment: bool,
) -> (r: Result<SwapchainPlan, &'static str>)
    requires
        image_count_end >= 1,
    ensures
        r == spec_plan(
            present_modes@,
            composite_alphas@,
            preferred_formats,
            max_extent,
            window_size,
            image_count_end,
            supports_color_attachment,
        ),
{
    let present_mode = match choose_present_mode(present_modes) {
        Some(m) => m,
        None => {
            return Err("No PresentMode values specified!");
        },
    };
    let composite_alpha = match choose_composite_alpha(composite_alphas) {
        Some(a) => a,
        None => {
            return Err("No CompositeAlpha values specified!");
        },
    };
    let format = match choose_format(preferred_formats) {
        Ok(f) => f,
        Err(e) => {
            return Err(e);
        },
    };
    let extent = match window_size {
        Some(size) => swapchain_extent(max_extent, size),
        None => {
            return Err("Window doesn't exist!");
        },
    };
    let image_count = swapchain_image_count(image_count_end, present_mode);
    if !supports_color_attachment {
        return Err("The Surface isn't capable of supporting color!");
    }
    Ok(SwapchainPlan { present_mode, composite_alpha, format, extent, image_count })
}

/// The format that `choose_format` picks.
pub open spec fn spec_format_choice(preferred: &Option<Vec<bool>>) -> Result<FormatChoice, &'static str> {
    match preferred {
        None => Ok(FormatChoice::DefaultRgba8Srgb),
        Some(srgb) => match first_true(srgb@) {
            Some(i) => Ok(FormatChoice::Preferred(i as usize)),
            None => if srgb@.len() > 0 {
                Ok(FormatChoice::Preferred(0))
            } else {
                Err("Preferred format list was empty!")
            },
        },
    }
}

/// The count that `swapchain_image_count` gives.
pub open spec fn spec_image_count(image_count_end: u32, present_mode: PresentMode) -> u32 {
    let most: u32 = if present_mode == PresentMode::Mailbox {
        3
    } else {
        2
    };
    if ((image_count_end - 1) as u32) < most {
        (image_count_end - 1) as u32
    } else {
        most
    }
}

/// The frame slot after `current`, going round `max_frames_in_flight` slots.
pub fn next_frame(current: usize, max_frames_in_flight: usize) -> (r: usize)
    requires
        current < usize::MAX,
        max_frames_in_flight > 0,
    ensures
        r == (current + 1) % (max_frames_in_flight as int),
{
    (current + 1) % max_frames_in_flight
}

/// Whether a swapchain made for `cached` dimensions is stale for a window
/// now of `current` dimensions; it answers so when they are the same.
pub fn is_stale_for_window(cached: (u32, u32), current: (u32, u32)) -> (r: bool)
    ensures
        r == (cached == current),
{
    cached.0 == current.0 && cached.1 == current.1
}

/// The mode picked from a preference list is one the surface offers, and no
/// mode earlier in the list is offered; when none is picked, the surface
/// offers none of the list.
pub proof fn law_first_available_is_best<T>(preference: Seq<T>, available: Seq<T>)
    ensures
        match first_available(preference, available) {
            Some(m) => {
                &&& available.contains(m)
                &&& exists|k: int|
                    0 <= k < preference.len() && preference[k] == m && forall|j: int|
                        0 <= j < k ==> !available.contains(#[trigger] preference[j])
            },
            None => forall|j: int| 0 <= j < preference.len() ==> !available.contains(#[trigger] preference[j]),
        },
    decreases preference.len(),
{
    if preference.len() > 0 {
        let rest = preference.drop_first();
        law_first_available_is_best(rest, available);
        if !available.contains(preference[0]) {
            match first_available(rest, available) {
                Some(m) => {
                    let k = choose|k: int|
                        0 <= k < rest.len() && rest[k] == m && forall|j: int|
                            0 <= j < k ==> !available.contains(#[trigger] rest[j]);
                    assert forall|j: int| 0 <= j < k + 1 implies !available.contains(
                        #[trigger] preference[j],
                    ) by {
                        if j > 0 {
                            assert(preference[j] == rest[j - 1]);
                        }
                    }
                    assert(preference[k + 1] == m);
                },
                None => {
                    assert forall|j: int| 0 <= j < preference.len() implies !available.contains(
                        #[trigger] preference[j],
                    ) by {
                        if j > 0 {
                            assert(preference[j] == rest[j - 1]);
                        }
                    }
                },
            }
        }
    }
}

/// The format picked is eight-bit sRGB RGBA when the surface states no
/// preference. Otherwise, when some preferred format is an sRGB one, the pick
/// is an sRGB format at an index before which none is; when none is, it is
/// the first format; and an empty list is an error.
pub proof fn law_format_is_first_srgb(srgb: Vec<bool>)
    requires
        srgb@.len() <= usize::MAX,
    ensures
        spec_format_choice(&None) == Ok::<FormatChoice, &'static str>(FormatChoice::DefaultRgba8Srgb),
        (exists|i: int| 0 <= i < srgb@.len() && srgb@[i]) ==> (spec_format_choice(&Some(srgb)) matches Ok(
            FormatChoice::Preferred(k),
        ) && k < srgb@.len() && srgb@[k as int] && forall|j: int| 0 <= j < k ==> !srgb@[j]),
        srgb@.len() > 0 && (forall|i: int| 0 <= i < srgb@.len() ==> !srgb@[i])
            ==> spec_format_choice(&Some(srgb)) == Ok::<FormatChoice, &'static str>(
            FormatChoice::Preferred(0),
        ),
        srgb@.len() == 0 ==> spec_format_choice(&Some(srgb)) is Err,
{
    if exists|i: int| 0 <= i < srgb@.len() && srgb@[i] {
        let i = choose|i: int| 0 <= i < srgb@.len() && srgb@[i];
        lemma_some_first_true(srgb@, i);
        let k = choose|k: int| is_first_true(srgb@, k);
        lemma_first_true_is(srgb@, k);
    }
}

proof fn lemma_some_first_true(s: Seq<bool>, i: int)
    requires
        0 <= i < s.len(),
        s[i],
    ensures
        exists|k: int| is_first_true(s, k),
    decreases i,
{
    if exists|j: int| 0 <= j < i && s[j] {
        let j = choose|j: int| 0 <= j < i && s[j];
        lemma_some_first_true(s, j);
    } else {
        assert(is_first_true(s, i));
    }
}

/// The frame slot always stays below the number of slots, and going round
/// that many times from a slot below it comes back to it.
pub proof fn law_frames_go_round(current: int, max_frames_in_flight: int)
    requires
        0 <= current < max_frames_in_flight,
    ensures
        0 <= (current + 1) % max_frames_in_flight < max_frames_in_flight,
        (current + max_frames_in_flight) % max_frames_in_flight == current,
{
    vstd::arithmetic::div_mod::lemma_mod_bound(current + 1, max_frames_in_flight);
    vstd::arithmetic::div_mod::lemma_mod_add_multiples_vanish(current, max_frames_in_flight);
    vstd::arithmetic::div_mod::lemma_small_mod(current as nat, max_frames_in_flight as nat);
}

} // verus!
