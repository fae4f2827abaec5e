use vstd::prelude::*;

use crate::ecs::component::ComponentId;
use crate::ecs::material::MaterialAttachmentKind;

verus! {

/// The position of the first sRGB format; the length where there is none.
pub open spec fn first_srgb(is_srgb: Seq<bool>) -> int
    decreases is_srgb.len(),
{
    if is_srgb.len() == 0 {
        0
    } else if is_srgb[0] {
        0
    } else {
        1 + first_srgb(is_srgb.drop_first())
    }
}

/// The first format that is sRGB; the first format where none is.
pub open spec fn preferred_format(is_srgb: Seq<bool>) -> int {
    if first_srgb(is_srgb) < is_srgb.len() {
        first_srgb(is_srgb)
    } else {
        0
    }
}

proof fn lemma_preferred_format(is_srgb: Seq<bool>, i: int)
    requires
        0 <= i <= is_srgb.len(),
        forall|j: int| 0 <= j < i ==> !#[trigger] is_srgb[j],
        i == is_srgb.len() || is_srgb[i],
    ensures
        first_srgb(is_srgb) == i,
    decreases i,
{
    if i > 0 {
        let t = is_srgb.drop_first();
        assert forall|j: int| 0 <= j < i - 1 implies !#[trigger] t[j] by {
            assert(t[j] == is_srgb[j + 1]);
        }
        if i - 1 < t.len() {
            assert(t[i - 1] == is_srgb[i]);
        }
        lemma_preferred_format(t, i - 1);
    }
}

/// The position, among the formats a surface offers (marked by whether
/// each is sRGB), of the format to render in: the first sRGB one, else the first.
pub fn preferred_format_index(is_srgb: &Vec<bool>) -> (r: usize)
    requires
        is_srgb@.len() > 0,
    ensures
        r < is_srgb@.len(),
        r == preferred_format(is_srgb@),
        is_srgb@.contains(true) ==> is_srgb@[r as int] && forall|j: int| 0 <= j < r ==> !#[trigger] is_srgb@[j],
        !is_srgb@.contains(true) ==> r == 0,
{
    let mut i: usize = 0;
    while i < is_srgb.len()
        invariant
            i <= is_srgb@.len(),
            forall|j: int| 0 <= j < i ==> !#[trigger] is_srgb@[j],
        decreases is_srgb@.len() - i,
    {
        if is_srgb[i] {
            proof {
                lemma_preferred_format(is_srgb@, i as int);
            }
            return i;
        }
        i = i + 1;
    }
    proof {
        lemma_preferred_format(is_srgb@, i as int);
        if is_srgb@.contains(true) {
            let j = choose|j: int| 0 <= j < is_srgb@.len() && is_srgb@[j] == true;
            assert(!is_srgb@[j]);
        }
    }
    0
}

/// The number of bind group slots an attachment takes: two for a texture
/// (view and sampler), one for a buffer.
pub open spec fn attachment_slots(a: MaterialAttachmentKind) -> int {
    match a {
        MaterialAttachmentKind::Texture => 2,
        MaterialAttachmentKind::Buffer => 1,
    }
}

/// The slots that the first `n` attachments take together.
pub open spec fn slots_before(attachments: Seq<MaterialAttachmentKind>, n: int) -> int
    decreases n,
{
    if n <= 0 {
        0
    } else {
        slots_before(attachments, n - 1) + attachment_slots(attachments[n - 1])
    }
}

proof fn lemma_slots_before_monotone(attachments: Seq<MaterialAttachmentKind>, a: int, b: int)
    requires
        0 <= a <= b,
    ensures
        slots_before(attachments, a) <= slots_before(attachments, b),
    decreases b - a,
{
    if a < b {
        lemma_slots_before_monotone(attachments, a, b - 1);
    }
}

/// The group index at which each of a material's bind groups is set: each
/// starts where the slots of the attachments before it end.
pub fn bind_group_indices(attachments: &Vec<MaterialAttachmentKind>) -> (r: Vec<u32>)
    requires
        slots_before(attachments@, attachments@.len() as int) <= u32::MAX,
    ensures
        r@.len() == attachments@.len(),
        forall|i: int| 0 <= i < r@.len() ==> #[trigger] r@[i] == slots_before(attachments@, i),
{
    let mut out: Vec<u32> = Vec::new();
    let mut accumulated: u32 = 0;
    let mut i: usize = 0;
    while i < attachments.len()
        invariant
            slots_before(attachments@, attachments@.len() as int) <= u32::MAX,
            i <= attachments@.len(),
            out@.len() == i,
            accumulated == slots_before(attachments@, i as int),
            forall|k: int| 0 <= k < i ==> #[trigger] out@[k] == slots_before(attachments@, k),
        decreases attachments@.len() - i,
    {
        out.push(accumulated);
        proof {
            lemma_slots_before_monotone(attachments@, i + 1, attachments@.len() as int);
        }
        let step: u32 = match attachments[i] {
            MaterialAttachmentKind::Texture => 2,
            MaterialAttachmentKind::Buffer => 1,
        };
        accumulated = accumulated + step;
        i = i + 1;
    }
    out
}

/// Bind groups are numbered from 0, and each starts two slots after a
/// texture (view and sampler) and one slot after a buffer.
pub proof fn law_bind_group_slots(attachments: Seq<MaterialAttachmentKind>, i: int)
    requires
        0 <= i < attachments.len(),
    ensures
        slots_before(attachments, 0) == 0,
        attachments[i] is Texture ==> slots_before(attachments, i + 1) == slots_before(attachments, i) + 2,
        attachments[i] is Buffer ==> slots_before(attachments, i + 1) == slots_before(attachments, i) + 1,
{
}

/// The positions, among the first `n` text buffers, of those whose
/// component is among the enabled ones.
pub open spec fn visible_text_positions(
    buffer_owners: Seq<ComponentId>,
    enabled: Seq<ComponentId>,
    n: int,
) -> Seq<usize>
    decreases n,
{
    if n <= 0 {
        Seq::empty()
    } else {
        let prev = visible_text_positions(buffer_owners, enabled, n - 1);
        if enabled.contains(buffer_owners[n - 1]) {
            prev.push((n - 1) as usize)
        } else {
            prev
        }
    }
}

fn contains_component(ids: &Vec<ComponentId>, id: ComponentId) -> (r: bool)
    ensures
        r == ids@.contains(id),
{
    let mut i: usize = 0;
    while i < ids.len()
        invariant
            i <= ids@.len(),
            forall|j: int| 0 <= j < i ==> ids@[j] != id,
        decreases ids@.len() - i,
    {
        if ids[i] == id {
            assert(ids@[i as int] == id);
            return true;
        }
        i = i + 1;
    }
    false
}

/// Which text buffers to draw, in order: those owned by an enabled component.
pub fn visible_text_buffers(buffer_owners: &Vec<ComponentId>, enabled: &Vec<ComponentId>) -> (r: Vec<
    usize,
>)
    ensures
        r@ == visible_text_positions(buffer_owners@, enabled@, buffer_owners@.len() as int),
{
    let mut out: Vec<usize> = Vec::new();
    let mut i: usize = 0;
    while i < buffer_owners.len()
        invariant
            i <= buffer_owners@.len(),
            out@ == visible_text_positions(buffer_owners@, enabled@, i as int),
        decreases buffer_owners@.len() - i,
    {
        if contains_component(enabled, buffer_owners[i]) {
            out.push(i);
        }
        i = i + 1;
    }
    out
}

/// Exactly the text buffers owned by an enabled component are drawn, each
/// once and in order.
pub proof fn law_visible_text_is_enabled_text(
    buffer_owners: Seq<ComponentId>,
    enabled: Seq<ComponentId>,
    n: int,
)
    requires
        0 <= n <= buffer_owners.len(),
        n <= usize::MAX + 1,
    ensures
        forall|i: int|
            #![trigger buffer_owners[i]]
            0 <= i < n ==> (visible_text_positions(buffer_owners, enabled, n).contains(i as usize)
                <==> enabled.contains(buffer_owners[i])),
        forall|a: int, b: int|
            0 <= a < b < visible_text_positions(buffer_owners, enabled, n).len() ==> (
            #[trigger] visible_text_positions(buffer_owners, enabled, n)[a]) < (
            #[trigger] visible_text_positions(buffer_owners, enabled, n)[b]),
        forall|a: int|
            0 <= a < visible_text_positions(buffer_owners, enabled, n).len() ==> (
            #[trigger] visible_text_positions(buffer_owners, enabled, n)[a]) < n,
    decreases n,
{
    if n > 0 {
        law_visible_text_is_enabled_text(buffer_owners, enabled, n - 1);
        let prev = visible_text_positions(buffer_owners, enabled, n - 1);
        let cur = visible_text_positions(buffer_owners, enabled, n);
        assert forall|i: int| #![trigger buffer_owners[i]] 0 <= i < n implies (cur.contains(
            i as usize,
        ) <==> enabled.contains(buffer_owners[i])) by {
            if i < n - 1 {
                if cur.contains(i as usize) && !prev.contains(i as usize) {
                    let k = choose|k: int| 0 <= k < cur.len() && cur[k] == i as usize;
                    assert(k == prev.len());
                }
                if prev.contains(i as usize) {
                    let k = choose|k: int| 0 <= k < prev.len() && prev[k] == i as usize;
                    assert(cur[k] == i as usize);
                }
            } else {
                if enabled.contains(buffer_owners[i]) {
                    assert(cur[prev.len() as int] == i as usize);
                } else {
                    if cur.contains(i as usize) {
                        let k = choose|k: int| 0 <= k < cur.len() && cur[k] == i as usize;
                        assert(prev[k] < n - 1);
                    }
                }
            }
        }
    }
}

} // verus!
