use vstd::prelude::*;

verus! {

/// Whether a raw queue-family flag mask announces support for graphics commands.
pub open spec fn graphics_flag_set(queue_flags: u32) -> bool {
    queue_flags & 1u32 == 1u32
}

/// Relies on ash's `QueueFlags::contains` against `QueueFlags::GRAPHICS`
/// (the mask `0b1`): true exactly when every bit of the graphics mask is set.
#[verifier::external_body]
fn queue_flags_contain_graphics(queue_flags: u32) -> (r: bool)
    ensures
        r == graphics_flag_set(queue_flags),
{
    ash::vk::QueueFlags::from_raw(queue_flags).contains(ash::vk::QueueFlags::GRAPHICS)
}

/// One queue family of a device, as the runtime reports it. Its index is its
/// position in the device's family list.
#[derive(Clone, Copy, Debug, PartialEq, Eq, Structural)]
pub struct QueueFamilyDescriptor {
    /// The raw capability-flag mask of the family.
    pub queue_flags: u32,
}

impl QueueFamilyDescriptor {
    pub open spec fn spec_supports_graphics(&self) -> bool {
        graphics_flag_set(self.queue_flags)
    }

    pub fn new(queue_flags: u32) -> (r: Self)
        ensures
            r.queue_flags == queue_flags,
    {
        QueueFamilyDescriptor { queue_flags }
    }

    /// Whether the family accepts graphics commands.
    pub fn supports_graphics(&self) -> (r: bool)
        ensures
            r == self.spec_supports_graphics(),
    {
        queue_flags_contain_graphics(self.queue_flags)
    }
}


/// `found` is the least index at which `s` holds, or absent when `s` holds nowhere.
pub open spec fn is_first_match(s: Seq<bool>, found: Option<u32>) -> bool {
    match found {
        Some(i) => (i as int) < s.len() && s[i as int] && forall|j: int| 0 <= j < i ==> !s[j],
        None => forall|j: int| 0 <= j < s.len() ==> !s[j],
    }
}

/// A match found in a prefix is the first match of the whole sequence.
proof fn lemma_first_match_of_prefix(s: Seq<bool>, k: int, found: Option<u32>)
    requires
        0 <= k <= s.len(),
        is_first_match(s.take(k), found),
        found.is_some(),
    ensures
        is_first_match(s, found),
{
    let i = found.unwrap();
    assert(s.take(k)[i as int] == s[i as int]);
    assert forall|j: int| 0 <= j < i implies !s[j] by {
        assert(s.take(k)[j] == s[j]);
    }
}

/// For each family of the list, whether it supports graphics commands.
pub open spec fn graphics_support(families: Seq<QueueFamilyDescriptor>) -> Seq<bool> {
    families.map_values(|d: QueueFamilyDescriptor| d.spec_supports_graphics())
}

/// The chosen indices of a device: at most one graphics-capable family and at
/// most one presentation-capable family.
#[derive(Clone, Copy, Debug, PartialEq, Eq, Structural)]
pub struct QueueFamilyIndices {
    pub graphics_family: Option<u32>,
    pub present_family: Option<u32>,
}

impl QueueFamilyIndices {
    pub open spec fn spec_is_complete(&self) -> bool {
        self.graphics_family.is_some() && self.present_family.is_some()
    }

    /// The distinct indices held, graphics first.
    pub open spec fn unique_seq(&self) -> Seq<u32> {
        match (self.graphics_family, self.present_family) {
            (Some(g), Some(p)) => if g == p { seq![g] } else { seq![g, p] },
            (Some(g), None) => seq![g],
            (None, Some(p)) => seq![p],
            (None, None) => Seq::empty(),
        }
    }

    /// The set of indices held.
    pub open spec fn index_set(&self) -> Set<u32> {
        let gs = match self.graphics_family {
            Some(g) => set![g],
            None => Set::empty(),
        };
        let ps = match self.present_family {
            Some(p) => set![p],
            None => Set::empty(),
        };
        gs.union(ps)
    }

    /// `self` holds the indices that a scan of `families` (with the
    /// presentation answer of each index in `presentation_support`) selects:
    /// the first match of each kind.
    pub open spec fn is_selection_of(
        &self,
        families: Seq<QueueFamilyDescriptor>,
        presentation_support: Seq<bool>,
    ) -> bool {
        &&& is_first_match(graphics_support(families), self.graphics_family)
        &&& is_first_match(presentation_support, self.present_family)
    }

    /// Both fields absent.
    pub fn new() -> (r: Self)
        ensures
            r.graphics_family.is_none(),
            r.present_family.is_none(),
    {
        QueueFamilyIndices { graphics_family: None, present_family: None }
    }

    /// Whether both a graphics family and a presentation family were found.
    pub fn is_complete(&self) -> (r: bool)
        ensures
            r == self.spec_is_complete(),
    {
        self.graphics_family.is_some() && self.present_family.is_some()
    }

    /// The distinct family indices held, each once: one queue-creation
    /// request per entry.
    pub fn get_unique_family_indices(&self) -> (r: Vec<u32>)
        ensures
            r@ == self.unique_seq(),
            r@.no_duplicates(),
            r@.to_set() == self.index_set(),
    {
        let mut indices: Vec<u32> = Vec::new();
        if let Some(g) = self.graphics_family {
            indices.push(g);
        }
        if let Some(p) = self.present_family {
            let already: bool = match self.graphics_family {
                Some(g) => g == p,
                None => false,
            };
            if !already {
                indices.push(p);
            }
        }
        proof {
            let s = indices@;
            assert(s == self.unique_seq());
            assert(s.to_set() =~= self.index_set()) by {
                assert forall|x: u32| s.to_set().contains(x) <==> self.index_set().contains(x) by {
                    if s.to_set().contains(x) {
                        let k = choose|k: int| 0 <= k < s.len() && s[k] == x;
                    }
                    if self.index_set().contains(x) {
                        if self.graphics_family == Some(x) {
                            assert(s[0] == x);
                        } else {
                            assert(s[s.len() - 1] == x);
                        }
                    }
                }
            }
        }
        indices
    }
}

impl Default for QueueFamilyIndices {
    fn default() -> (r: Self)
        ensures
            r.graphics_family.is_none(),
            r.present_family.is_none(),
    {
        QueueFamilyIndices::new()
    }
}

/// Scans the families in ascending index order and records the first
/// graphics-capable index and the first presentation-capable index, stopping
/// once both are known. `presentation_support[i]` answers whether family `i`
/// can present to the target surface.
pub fn select_queue_families(
    families: &Vec<QueueFamilyDescriptor>,
    presentation_support: &Vec<bool>,
) -> (r: QueueFamilyIndices)
    requires
        presentation_support@.len() == families@.len(),
        families@.len() <= u32::MAX,
    ensures
        r.is_selection_of(families@, presentation_support@),
{
    let mut indices = QueueFamilyIndices::new();
    let n = families.len();
    let mut i: usize = 0;
    while i < n
        invariant
            n == families@.len(),
            presentation_support@.len() == n,
            n <= u32::MAX,
            i <= n,
            is_first_match(graphics_support(families@).take(i as int), indices.graphics_family),
            is_first_match(presentation_support@.take(i as int), indices.present_family),
            !indices.spec_is_complete() || is_first_match(graphics_support(families@), indices.graphics_family)
                && is_first_match(presentation_support@, indices.present_family),
        ensures
            i == n || indices.spec_is_complete(),
            is_first_match(graphics_support(families@).take(i as int), indices.graphics_family),
            is_first_match(presentation_support@.take(i as int), indices.present_family),
            i <= n,
        decreases n - i,
    {
        let index: u32 = i as u32;
        if indices.graphics_family.is_none() && families[i].supports_graphics() {
            indices.graphics_family = Some(index);
        }
        if indices.present_family.is_none() && presentation_support[i] {
            indices.present_family = Some(index);
        }
        assert(graphics_support(families@).take(i + 1) =~= graphics_support(families@).take(i as int).push(families@[i as int].spec_supports_graphics()));
        assert(presentation_support@.take(i + 1) =~= presentation_support@.take(i as int).push(presentation_support@[i as int]));
        i = i + 1;
        if indices.is_complete() {
            proof {
                lemma_first_match_of_prefix(graphics_support(families@), i as int, indices.graphics_family);
                lemma_first_match_of_prefix(presentation_support@, i as int, indices.present_family);
            }
            break;
        }
    }
    proof {
        if !indices.spec_is_complete() {
            assert(graphics_support(families@).take(n as int) =~= graphics_support(families@));
            assert(presentation_support@.take(n as int) =~= presentation_support@);
        }
    }
    indices
}


/// Where some family supports graphics and some family (possibly the same
/// one) can present, a selection is complete; and whatever the families, every
/// index a selection holds is a position in the family list.
pub proof fn lemma_selection_complete_and_in_bounds(
    families: Seq<QueueFamilyDescriptor>,
    presentation_support: Seq<bool>,
)
    requires
        presentation_support.len() == families.len(),
    ensures
        forall|r: QueueFamilyIndices| #[trigger]
            r.is_selection_of(families, presentation_support) ==> {
                &&& (r.graphics_family matches Some(g) ==> (g as int) < families.len())
                &&& (r.present_family matches Some(p) ==> (p as int) < families.len())
            },
        (exists|i: int| 0 <= i < families.len() && #[trigger] families[i].spec_supports_graphics())
            && (exists|i: int| 0 <= i < presentation_support.len() && #[trigger] presentation_support[i])
            ==> forall|r: QueueFamilyIndices| #[trigger]
            r.is_selection_of(families, presentation_support) ==> r.spec_is_complete(),
{
    assert forall|r: QueueFamilyIndices| #[trigger]
        r.is_selection_of(families, presentation_support) && (exists|i: int|
            0 <= i < families.len() && #[trigger] families[i].spec_supports_graphics()) && (exists|
            i: int,
        | 0 <= i < presentation_support.len() && #[trigger] presentation_support[i]) implies r.spec_is_complete() by {
        let gi = choose|i: int| 0 <= i < families.len() && #[trigger] families[i].spec_supports_graphics();
        assert(graphics_support(families)[gi]);
    }
}

/// A device none of whose families supports graphics gets no graphics
/// family, whatever its presentation support.
pub proof fn lemma_no_graphics_family(
    families: Seq<QueueFamilyDescriptor>,
    presentation_support: Seq<bool>,
)
    requires
        presentation_support.len() == families.len(),
        forall|i: int| 0 <= i < families.len() ==> !#[trigger] families[i].spec_supports_graphics(),
    ensures
        forall|r: QueueFamilyIndices| #[trigger]
            r.is_selection_of(families, presentation_support) ==> r.graphics_family.is_none(),
{
    assert forall|r: QueueFamilyIndices| #[trigger]
        r.is_selection_of(families, presentation_support) implies r.graphics_family.is_none() by {
        if let Some(g) = r.graphics_family {
            assert(!families[g as int].spec_supports_graphics());
        }
    }
}

/// On complete indices, the distinct indices form a one-element set when both
/// fields hold the same index and a two-element set when they differ.
pub proof fn lemma_unique_indices_size(indices: QueueFamilyIndices)
    requires
        indices.spec_is_complete(),
    ensures
        indices.graphics_family == indices.present_family ==> indices.unique_seq().len() == 1
            && indices.unique_seq().to_set() =~= set![indices.graphics_family.unwrap()],
        indices.graphics_family != indices.present_family ==> indices.unique_seq().len() == 2
            && indices.unique_seq().to_set() =~= set![
            indices.graphics_family.unwrap(),
            indices.present_family.unwrap(),
        ] && indices.unique_seq().to_set().len() == 2,
{
    let g = indices.graphics_family.unwrap();
    let p = indices.present_family.unwrap();
    let s = indices.unique_seq();
    if g == p {
        assert(s.to_set() =~= set![g]) by {
            assert(s[0] == g);
        }
    } else {
        assert(s.to_set() =~= set![g, p]) by {
            assert(s[0] == g);
            assert(s[1] == p);
        }
        assert(set![g, p].len() == 2) by {
            assert(set![g, p] == set![g].insert(p));
        }
    }
}

} // verus!
