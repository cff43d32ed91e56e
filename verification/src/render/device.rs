//! Choosing the physical device and queue family a renderer runs on.
use vstd::prelude::*;

verus! {

/// The kind of a physical device.
#[derive(Debug, Copy, Clone, PartialEq, Eq, Structural)]
pub enum PhysicalDeviceType {
    IntegratedGpu,
    DiscreteGpu,
    VirtualGpu,
    Cpu,
    Other,
}

/// What the renderer should prefer when choosing a device.
#[derive(Debug)]
pub struct RendererPreferences {
    pub preferred_physical_device: Option<String>,
    pub preferred_physical_device_type: Option<PhysicalDeviceType>,
}

impl Default for RendererPreferences {
    /// No preference at all.
    fn default() -> (r: RendererPreferences)
        ensures
            r.preferred_physical_device is None,
            r.preferred_physical_device_type is None,
    {
        RendererPreferences { preferred_physical_device: None, preferred_physical_device_type: None }
    }
}

/// What the choice reads of a physical device: its name and kind, whether it
/// supports swapchains, and, per queue family, whether it can do graphics;
/// and where it stood in the enumeration, to find the device again.
#[derive(Debug)]
pub struct PhysicalDeviceInfo {
    pub enumeration_index: usize,
    pub device_name: String,
    pub device_type: PhysicalDeviceType,
    pub supports_swapchain: bool,
    pub graphics_families: Vec<bool>,
}

/// Why no device could be chosen.
#[derive(Debug, Copy, Clone, PartialEq, Eq, Structural)]
pub enum DeviceSelectionError {
    /// No device supports swapchains.
    NoPhysicalDevice,
    /// The chosen device has no queue family that can do graphics.
    PhysicalDeviceMissingGraphicsCapabilities,
}

/// The devices a renderer may run on, best last, and the device (the best)
/// and queue family chosen among them.
#[derive(Debug)]
pub struct DeviceSelection {
    pub ordered_physical_devices: Vec<PhysicalDeviceInfo>,
    pub selected_physical_device_idx: usize,
    pub selected_queue_family_idx: u32,
}

/// The rank of a device kind, from least to most preferred; 1 is the least.
pub open spec fn spec_type_rank(t: PhysicalDeviceType) -> int {
    match t {
        PhysicalDeviceType::Other => 1,
        PhysicalDeviceType::Cpu => 2,
        PhysicalDeviceType::VirtualGpu => 3,
        PhysicalDeviceType::IntegratedGpu => 4,
        PhysicalDeviceType::DiscreteGpu => 5,
    }
}

/// A device's score: 1 shifted left by one more than whether its kind is the
/// preferred one, when its name is the preferred one (0 otherwise), times six,
/// plus the rank of its kind.
pub open spec fn spec_score(pref: &RendererPreferences, name: Seq<char>, t: PhysicalDeviceType) -> int {
    let name_score: int = if pref.preferred_physical_device matches Some(n) && n@ == name {
        1
    } else {
        0
    };
    let pdt_pref_score: int = if pref.preferred_physical_device_type matches Some(p) && p == t {
        1
    } else {
        0
    };
    let shifted: int = if name_score == 0 {
        0
    } else if pdt_pref_score == 0 {
        2
    } else {
        4
    };
    shifted * 6 + spec_type_rank(t)
}

/// The score of a device.
pub open spec fn spec_device_score(pref: &RendererPreferences, d: PhysicalDeviceInfo) -> int {
    spec_score(pref, d.device_name@, d.device_type)
}

/// `s` with `d` put after every device whose score is at most `d`'s, and
/// before the run of devices at its end that score higher than `d`.
pub open spec fn insert_by_score(
    pref: &RendererPreferences,
    s: Seq<PhysicalDeviceInfo>,
    d: PhysicalDeviceInfo,
) -> Seq<PhysicalDeviceInfo>
    decreases s.len(),
{
    if s.len() == 0 {
        seq![d]
    } else if spec_device_score(pref, s.last()) <= spec_device_score(pref, d) {
        s.push(d)
    } else {
        insert_by_score(pref, s.drop_last(), d).push(s.last())
    }
}

/// The devices that support swapchains, stably sorted by ascending score:
/// each one, in the order given, is inserted after those of no higher score.
pub open spec fn ordered_devices(pref: &RendererPreferences, s: Seq<PhysicalDeviceInfo>) -> Seq<
    PhysicalDeviceInfo,
>
    decreases s.len(),
{
    if s.len() == 0 {
        Seq::empty()
    } else {
        let rest = ordered_devices(pref, s.drop_last());
        if s.last().supports_swapchain {
            insert_by_score(pref, rest, s.last())
        } else {
            rest
        }
    }
}

/// Whether the first family that can do graphics, if there is one, has an
/// index that fits in a `u32`.
pub open spec fn first_graphics_fits(families: Seq<bool>) -> bool {
    forall|i: int|
        0 <= i < families.len() && families[i] && (forall|j: int| 0 <= j < i ==> !families[j])
            ==> i <= u32::MAX
}

/// Inserting at the place found by scanning back past higher scores is
/// `insert_by_score`.
proof fn lemma_insert_at(
    pref: &RendererPreferences,
    s: Seq<PhysicalDeviceInfo>,
    d: PhysicalDeviceInfo,
    k: int,
)
    requires
        0 <= k <= s.len(),
        forall|i: int| k <= i < s.len() ==> spec_device_score(pref, s[i]) > spec_device_score(pref, d),
        k > 0 ==> spec_device_score(pref, s[k - 1]) <= spec_device_score(pref, d),
    ensures
        insert_by_score(pref, s, d) == s.insert(k, d),
    decreases s.len(),
{
    if s.len() == 0 {
        assert(seq![d] =~= s.insert(k, d));
    } else if k == s.len() {
        assert(s.push(d) =~= s.insert(k, d));
    } else {
        lemma_insert_at(pref, s.drop_last(), d, k);
        assert(s.drop_last().insert(k, d).push(s.last()) =~= s.insert(k, d));
    }
}


/// Whether the scores of `s` never go down.
pub open spec fn ascending_by_score(pref: &RendererPreferences, s: Seq<PhysicalDeviceInfo>) -> bool {
    forall|i: int, j: int|
        0 <= i <= j < s.len() ==> spec_device_score(pref, #[trigger] s[i]) <= spec_device_score(
            pref,
            #[trigger] s[j],
        )
}

/// Whether a device may be chosen at all.
pub open spec fn is_eligible(d: PhysicalDeviceInfo) -> bool {
    d.supports_swapchain
}

proof fn lemma_filter_push<A>(s: Seq<A>, x: A, pred: spec_fn(A) -> bool)
    ensures
        s.push(x).filter(pred) == (if pred(x) {
            s.filter(pred).push(x)
        } else {
            s.filter(pred)
        }),
{
    reveal(Seq::filter);
    assert(s.push(x).drop_last() =~= s);
}

proof fn lemma_insert_keeps_ascending(
    pref: &RendererPreferences,
    s: Seq<PhysicalDeviceInfo>,
    d: PhysicalDeviceInfo,
    bound: int,
)
    requires
        ascending_by_score(pref, s),
        forall|i: int| 0 <= i < s.len() ==> spec_device_score(pref, #[trigger] s[i]) <= bound,
        spec_device_score(pref, d) <= bound,
    ensures
        ascending_by_score(pref, insert_by_score(pref, s, d)),
        forall|i: int|
            0 <= i < insert_by_score(pref, s, d).len() ==> spec_device_score(
                pref,
                #[trigger] insert_by_score(pref, s, d)[i],
            ) <= bound,
        insert_by_score(pref, s, d).len() == s.len() + 1,
    decreases s.len(),
{
    if s.len() == 0 {
    } else if spec_device_score(pref, s.last()) <= spec_device_score(pref, d) {
    } else {
        let last = s.last();
        lemma_insert_keeps_ascending(pref, s.drop_last(), d, spec_device_score(pref, last));
    }
}

proof fn lemma_insert_multiset(pref: &RendererPreferences, s: Seq<PhysicalDeviceInfo>, d: PhysicalDeviceInfo)
    ensures
        insert_by_score(pref, s, d).to_multiset() == s.to_multiset().insert(d),
    decreases s.len(),
{
    broadcast use vstd::seq_lib::group_to_multiset_ensures, vstd::multiset::group_multiset_axioms;

    if s.len() == 0 {
        assert(seq![d] =~= s.push(d));
    } else if spec_device_score(pref, s.last()) <= spec_device_score(pref, d) {
    } else {
        let rest = s.drop_last();
        lemma_insert_multiset(pref, rest, d);
        assert(rest.push(s.last()) =~= s);
        assert(s.to_multiset().insert(d) =~= rest.to_multiset().insert(d).insert(s.last()));
    }
}

proof fn lemma_insert_same_score(
    pref: &RendererPreferences,
    s: Seq<PhysicalDeviceInfo>,
    d: PhysicalDeviceInfo,
    v: int,
)
    ensures
        insert_by_score(pref, s, d).filter(|e: PhysicalDeviceInfo| spec_device_score(pref, e) == v)
            == (if spec_device_score(pref, d) == v {
            s.filter(|e: PhysicalDeviceInfo| spec_device_score(pref, e) == v).push(d)
        } else {
            s.filter(|e: PhysicalDeviceInfo| spec_device_score(pref, e) == v)
        }),
    decreases s.len(),
{
    let p = |e: PhysicalDeviceInfo| spec_device_score(pref, e) == v;
    if s.len() == 0 {
        assert(seq![d] =~= s.push(d));
        lemma_filter_push(s, d, p);
    } else if spec_device_score(pref, s.last()) <= spec_device_score(pref, d) {
        lemma_filter_push(s, d, p);
    } else {
        let rest = s.drop_last();
        lemma_insert_same_score(pref, rest, d, v);
        lemma_filter_push(insert_by_score(pref, rest, d), s.last(), p);
        lemma_filter_push(rest, s.last(), p);
        assert(rest.push(s.last()) =~= s);
    }
}

/// The ordered devices never go down in score.
pub proof fn law_ordered_ascending(pref: &RendererPreferences, devices: Seq<PhysicalDeviceInfo>)
    ensures
        ascending_by_score(pref, ordered_devices(pref, devices)),
    decreases devices.len(),
{
    if devices.len() > 0 {
        let rest = ordered_devices(pref, devices.drop_last());
        law_ordered_ascending(pref, devices.drop_last());
        if devices.last().supports_swapchain {
            let d = devices.last();
            let bound = if rest.len() == 0 || spec_device_score(pref, rest.last())
                <= spec_device_score(pref, d) {
                spec_device_score(pref, d)
            } else {
                spec_device_score(pref, rest.last())
            };
            assert forall|i: int| 0 <= i < rest.len() implies spec_device_score(
                pref,
                #[trigger] rest[i],
            ) <= bound by {
                assert(spec_device_score(pref, rest[i]) <= spec_device_score(pref, rest[rest.len() - 1]));
            }
            lemma_insert_keeps_ascending(pref, rest, d, bound);
        }
    }
}

/// The ordered devices are exactly the devices that support swapchains, each
/// as often as it was given.
pub proof fn law_ordered_are_the_eligible(pref: &RendererPreferences, devices: Seq<PhysicalDeviceInfo>)
    ensures
        ordered_devices(pref, devices).to_multiset() == devices.filter(
            |d: PhysicalDeviceInfo| is_eligible(d),
        ).to_multiset(),
    decreases devices.len(),
{
    broadcast use vstd::seq_lib::group_to_multiset_ensures;

    let p = |d: PhysicalDeviceInfo| is_eligible(d);
    if devices.len() == 0 {
        reveal(Seq::filter);
    } else {
        let init = devices.drop_last();
        law_ordered_are_the_eligible(pref, init);
        assert(init.push(devices.last()) =~= devices);
        lemma_filter_push(init, devices.last(), p);
        if devices.last().supports_swapchain {
            lemma_insert_multiset(pref, ordered_devices(pref, init), devices.last());
        }
    }
}

/// Among devices of equal score, the ordering keeps the order they were given in.
pub proof fn law_ordering_is_stable(pref: &RendererPreferences, devices: Seq<PhysicalDeviceInfo>, v: int)
    ensures
        ordered_devices(pref, devices).filter(|d: PhysicalDeviceInfo| spec_device_score(pref, d) == v)
            == devices.filter(
            |d: PhysicalDeviceInfo| is_eligible(d) && spec_device_score(pref, d) == v,
        ),
    decreases devices.len(),
{
    let p = |d: PhysicalDeviceInfo| spec_device_score(pref, d) == v;
    let q = |d: PhysicalDeviceInfo| is_eligible(d) && spec_device_score(pref, d) == v;
    if devices.len() == 0 {
        reveal(Seq::filter);
    } else {
        let init = devices.drop_last();
        law_ordering_is_stable(pref, init, v);
        assert(init.push(devices.last()) =~= devices);
        lemma_filter_push(init, devices.last(), q);
        if devices.last().supports_swapchain {
            lemma_insert_same_score(pref, ordered_devices(pref, init), devices.last(), v);
        }
    }
}

/// The device a selection chooses, the last of the ordered devices, is one of
/// highest score among those that support swapchains, and there is one
/// whenever any device supports them.
pub proof fn law_selected_device_scores_highest(
    pref: &RendererPreferences,
    devices: Seq<PhysicalDeviceInfo>,
    i: int,
)
    requires
        0 <= i < devices.len(),
        is_eligible(devices[i]),
    ensures
        ordered_devices(pref, devices).len() > 0,
        spec_device_score(pref, ordered_devices(pref, devices).last()) >= spec_device_score(
            pref,
            devices[i],
        ),
{
    broadcast use vstd::seq_lib::group_to_multiset_ensures;

    let o = ordered_devices(pref, devices);
    let p = |d: PhysicalDeviceInfo| is_eligible(d);
    law_ordered_are_the_eligible(pref, devices);
    law_ordered_ascending(pref, devices);
    devices.lemma_filter_contains(p, i);
    assert(devices.filter(p).to_multiset().count(devices[i]) > 0);
    assert(o.contains(devices[i]));
    let j = choose|j: int| 0 <= j < o.len() && o[j] == devices[i];
    assert(spec_device_score(pref, o[j]) <= spec_device_score(pref, o[o.len() - 1]));
}

impl RendererPreferences {
    /// Scores a device: the higher, the more it matches the preferences.
    pub fn score_physical_device(&self, device_name: &String, device_type: PhysicalDeviceType) -> (r: usize)
        ensures
            r == spec_score(self, device_name@, device_type),
    {
        let name_score: usize = match &self.preferred_physical_device {
            Some(name) => if *device_name == *name {
                1
            } else {
                0
            },
            None => 0,
        };
        let pdt_pref_score: usize = match &self.preferred_physical_device_type {
            Some(pdt) => if device_type == *pdt {
                1
            } else {
                0
            },
            None => 0,
        };
        let pdt_ord_arr: [PhysicalDeviceType; 5] = [
            PhysicalDeviceType::Other,
            PhysicalDeviceType::Cpu,
            PhysicalDeviceType::VirtualGpu,
            PhysicalDeviceType::IntegratedGpu,
            PhysicalDeviceType::DiscreteGpu,
        ];
        let mut pdt_ord_score: usize = 0;
        let mut idx: usize = 0;
        while idx < 5
            invariant
                idx <= 5,
                pdt_ord_arr@ == seq![
                    PhysicalDeviceType::Other,
                    PhysicalDeviceType::Cpu,
                    PhysicalDeviceType::VirtualGpu,
                    PhysicalDeviceType::IntegratedGpu,
                    PhysicalDeviceType::DiscreteGpu,
                ],
                pdt_ord_score == 0 ==> forall|k: int| 0 <= k < idx ==> pdt_ord_arr@[k] != device_type,
                pdt_ord_score != 0 ==> pdt_ord_score == spec_type_rank(device_type),
                pdt_ord_score <= idx,
            decreases 5 - idx,
        {
            if pdt_ord_score == 0 && pdt_ord_arr[idx] == device_type {
                pdt_ord_score = idx + 1;
            }
            idx += 1;
        }
        assert(pdt_ord_score == spec_type_rank(device_type));
        let shift: usize = 1 + pdt_pref_score;
        let shifted: usize = name_score << shift;
        assert(shifted == (if name_score == 0 {
            0usize
        } else if pdt_pref_score == 0 {
            2usize
        } else {
            4usize
        })) by (bit_vector)
            requires
                name_score <= 1,
                pdt_pref_score <= 1,
                shift == 1 + pdt_pref_score,
                shifted == name_score << shift,
        ;
        let ranks: usize = 5 + 1;
        shifted * ranks + pdt_ord_score
    }

    /// The devices that support swapchains, stably sorted by ascending score.
    pub fn order_physical_devices(&self, devices: Vec<PhysicalDeviceInfo>) -> (ordered: Vec<
        PhysicalDeviceInfo,
    >)
        ensures
            ordered@ == ordered_devices(self, devices@),
    {
        let ghost all = devices@;
        let n: usize = devices.len();
        let mut rest = devices;
        let mut ordered: Vec<PhysicalDeviceInfo> = Vec::new();
        let mut scores: Vec<usize> = Vec::new();
        let mut taken: usize = 0;
        while rest.len() > 0
            invariant
                taken + rest@.len() == all.len(),
                all.len() == n,
                rest@ == all.skip(taken as int),
                ordered@ == ordered_devices(self, all.take(taken as int)),
                scores@.len() == ordered@.len(),
                forall|i: int|
                    0 <= i < scores@.len() ==> scores@[i] == spec_device_score(self, #[trigger] ordered@[i]),
            decreases rest@.len(),
        {
            let d = rest.remove(0);
            proof {
                assert(d == all[taken as int]);
                assert(all.take(taken + 1).drop_last() =~= all.take(taken as int));
                assert(all.skip(taken + 1) =~= rest@);
            }
            if d.supports_swapchain {
                let sd = self.score_physical_device(&d.device_name, d.device_type);
                let mut k: usize = ordered.len();
                while k > 0 && scores[k - 1] > sd
                    invariant
                        k <= ordered@.len(),
                        scores@.len() == ordered@.len(),
                        forall|i: int|
                            0 <= i < scores@.len() ==> scores@[i] == spec_device_score(self, #[trigger] ordered@[i]),
                        forall|i: int| k <= i < ordered@.len() ==> spec_device_score(self, #[trigger] ordered@[i]) > sd,
                    decreases k,
                {
                    k = k - 1;
                }
                let ghost before = ordered@;
                let ghost before_scores = scores@;
                proof {
                    lemma_insert_at(self, ordered@, d, k as int);
                }
                ordered.insert(k, d);
                scores.insert(k, sd);
                proof {
                    assert forall|i: int| 0 <= i < scores@.len() implies scores@[i] == spec_device_score(
                        self,
                        #[trigger] ordered@[i],
                    ) by {
                        if i > k {
                            assert(ordered@[i] == before[i - 1]);
                            assert(scores@[i] == before_scores[i - 1]);
                        }
                    }
                }
            }
            taken = taken + 1;
        }
        proof {
            assert(all.take(taken as int) =~= all);
        }
        ordered
    }

    /// Orders the devices, takes the one of highest score (the last), and
    /// picks its first queue family that can do graphics.
    pub fn select_physical_device(&self, devices: Vec<PhysicalDeviceInfo>) -> (r: Result<
        DeviceSelection,
        DeviceSelectionError,
    >)
        requires
            ordered_devices(self, devices@).len() > 0 ==> first_graphics_fits(
                ordered_devices(self, devices@).last().graphics_families@,
            ),
        ensures
            ({
                let ordered = ordered_devices(self, devices@);
                let best = ordered.last();
                match r {
                    Ok(sel) => {
                        &&& ordered.len() > 0
                        &&& sel.ordered_physical_devices@ == ordered
                        &&& sel.selected_physical_device_idx == ordered.len() - 1
                        &&& sel.selected_queue_family_idx < best.graphics_families@.len()
                        &&& best.graphics_families@[sel.selected_queue_family_idx as int]
                        &&& forall|j: int|
                            0 <= j < sel.selected_queue_family_idx ==> !best.graphics_families@[j]
                    },
                    Err(DeviceSelectionError::NoPhysicalDevice) => ordered.len() == 0,
                    Err(DeviceSelectionError::PhysicalDeviceMissingGraphicsCapabilities) => {
                        &&& ordered.len() > 0
                        &&& forall|j: int|
                            0 <= j < best.graphics_families@.len() ==> !best.graphics_families@[j]
                    },
                }
            }),
    {
        let ghost input = devices@;
        let ordered = self.order_physical_devices(devices);
        if ordered.len() == 0 {
            return Err(DeviceSelectionError::NoPhysicalDevice);
        }
        let best: usize = ordered.len() - 1;
        let families = &ordered[best].graphics_families;
        let mut idx: usize = 0;
        while idx < families.len()
            invariant
                input == devices@,
                ordered@ == ordered_devices(self, input),
                ordered@.len() > 0,
                best == ordered@.len() - 1,
                families@ == ordered@.last().graphics_families@,
                first_graphics_fits(families@),
                idx <= families@.len(),
                forall|j: int| 0 <= j < idx ==> !families@[j],
            decreases families@.len() - idx,
        {
            if families[idx] {
                assert(idx <= u32::MAX);
                let queue_family: u32 = idx as u32;
                return Ok(
                    DeviceSelection {
                        ordered_physical_devices: ordered,
                        selected_physical_device_idx: best,
                        selected_queue_family_idx: queue_family,
                    },
                );
            }
            idx = idx + 1;
        }
        Err(DeviceSelectionError::PhysicalDeviceMissingGraphicsCapabilities)
    }
}

} // verus!
