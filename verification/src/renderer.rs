//! Rendering stages, and how a material's uniforms are laid out in the bind
//! groups of its pipeline.

use vstd::prelude::*;

verus! {

/// The order of a rendering stage among the others.
pub struct RenderStage {
    pub order: u32,
}

/// Marks an entity as shown.
pub struct Visible;

/// A material uniform as its bind group is laid out: its group, its binding,
/// and the bytes it holds in the group's uniform buffer, if it is held in one
/// (textures and samplers are not).
pub struct UniformData {
    pub group: u32,
    pub binding: u32,
    pub bytes: Option<Vec<u8>>,
}

/// What a bind group entry binds.
#[derive(Clone, Copy, Debug, PartialEq, Eq, Structural)]
pub enum EntryResource {
    /// A range of the group's uniform buffer.
    Buffer { offset: u64, size: u64 },
    /// The uniform's own texture or sampler.
    Resource,
}

/// One entry of a bind group: a binding and what it binds.
#[derive(Clone, Copy, Debug, PartialEq, Eq, Structural)]
pub struct GroupEntry {
    pub binding: u32,
    pub resource: EntryResource,
}

/// A uniform as the contracts see it: group, binding and bytes.
pub open spec fn uniform_view(u: UniformData) -> (u32, u32, Option<Seq<u8>>) {
    (
        u.group,
        u.binding,
        match u.bytes {
            Some(b) => Some(b@),
            None => None,
        },
    )
}

/// The uniforms as the contracts see them.
pub open spec fn uniforms_view(us: Seq<UniformData>) -> Seq<(u32, u32, Option<Seq<u8>>)> {
    us.map_values(|u: UniformData| uniform_view(u))
}

/// The binding and byte count of each uniform of group `g` that is held in the
/// uniform buffer, in order.
pub open spec fn group_sizes(us: Seq<(u32, u32, Option<Seq<u8>>)>, g: u32) -> Seq<(u32, nat)>
    decreases us.len(),
{
    if us.len() == 0 {
        seq![]
    } else {
        let rest = group_sizes(us.drop_last(), g);
        let u = us.last();
        match u.2 {
            Some(b) => if u.0 == g {
                rest.push((u.1, b.len()))
            } else {
                rest
            },
            None => rest,
        }
    }
}

/// The uniform buffer of group `g`: the bytes of its uniforms, one after another.
pub open spec fn group_buffer(us: Seq<(u32, u32, Option<Seq<u8>>)>, g: u32) -> Seq<u8>
    decreases us.len(),
{
    if us.len() == 0 {
        seq![]
    } else {
        let rest = group_buffer(us.drop_last(), g);
        let u = us.last();
        match u.2 {
            Some(b) => if u.0 == g {
                rest + b
            } else {
                rest
            },
            None => rest,
        }
    }
}

/// The byte count that `sizes` gives first for binding `b`.
pub open spec fn size_for(sizes: Seq<(u32, nat)>, b: u32) -> Option<nat>
    decreases sizes.len(),
{
    if sizes.len() == 0 {
        None
    } else if sizes[0].0 == b {
        Some(sizes[0].1)
    } else {
        size_for(sizes.drop_first(), b)
    }
}

/// The entries of group `g`, one for each of its uniforms in order, and the
/// offset after them. A uniform whose binding has a byte count in `sizes` binds
/// that many bytes of the buffer at the running offset, which then grows by
/// them; any other binds its own resource.
pub open spec fn group_entries(us: Seq<(u32, u32, Option<Seq<u8>>)>, g: u32, sizes: Seq<(u32, nat)>) -> (
    Seq<GroupEntry>,
    nat,
)
    decreases us.len(),
{
    if us.len() == 0 {
        (seq![], 0)
    } else {
        let (es, offset) = group_entries(us.drop_last(), g, sizes);
        let u = us.last();
        if u.0 != g {
            (es, offset)
        } else {
            match size_for(sizes, u.1) {
                Some(size) => (
                    es.push(
                        GroupEntry {
                            binding: u.1,
                            resource: EntryResource::Buffer { offset: offset as u64, size: size as u64 },
                        },
                    ),
                    offset + size,
                ),
                None => (es.push(GroupEntry { binding: u.1, resource: EntryResource::Resource }), offset),
            }
        }
    }
}

/// The running offset never shrinks as uniforms are taken.
proof fn lemma_offset_grows(us: Seq<(u32, u32, Option<Seq<u8>>)>, g: u32, sizes: Seq<(u32, nat)>, k: int)
    requires
        0 <= k <= us.len(),
    ensures
        group_entries(us.subrange(0, k), g, sizes).1 <= group_entries(us, g, sizes).1,
    decreases us.len() - k,
{
    if k < us.len() {
        lemma_offset_grows(us, g, sizes, k + 1);
        assert(us.subrange(0, k + 1).drop_last() =~= us.subrange(0, k));
    } else {
        assert(us.subrange(0, k) =~= us);
    }
}

/// The byte counts with their exact values.
pub open spec fn sizes_view(sizes: Seq<(u32, usize)>) -> Seq<(u32, nat)> {
    sizes.map_values(|p: (u32, usize)| (p.0, p.1 as nat))
}

/// The byte count that `sizes` gives first for `binding`.
fn size_for_binding(sizes: &Vec<(u32, usize)>, binding: u32) -> (r: Option<usize>)
    ensures
        match r {
            Some(n) => size_for(sizes_view(sizes@), binding) == Some(n as nat),
            None => size_for(sizes_view(sizes@), binding) is None,
        },
{
    let mut i: usize = 0;
    proof {
        assert(sizes_view(sizes@).subrange(0, sizes@.len() as int) =~= sizes_view(sizes@));
    }
    while i < sizes.len()
        invariant
            i <= sizes@.len(),
            size_for(sizes_view(sizes@), binding) == size_for(
                sizes_view(sizes@).subrange(i as int, sizes@.len() as int),
                binding,
            ),
        decreases sizes@.len() - i,
    {
        proof {
            let rest = sizes_view(sizes@).subrange(i as int, sizes@.len() as int);
            assert(rest.drop_first() =~= sizes_view(sizes@).subrange(i + 1, sizes@.len() as int));
        }
        if sizes[i].0 == binding {
            return Some(sizes[i].1);
        }
        i = i + 1;
    }
    None
}

/// The uniform buffer of group `group` and the entries of the group, as its bind
/// group is made: the bytes of the group's uniforms one after another, and for
/// each of its uniforms in order either a range of that buffer (found by its
/// binding) or its own resource. Offsets are 64-bit, so the last must fit.
pub fn pack_uniform_group(uniforms: &Vec<UniformData>, group: u32) -> (r: (Vec<u8>, Vec<GroupEntry>))
    requires
        group_entries(uniforms_view(uniforms@), group, group_sizes(uniforms_view(uniforms@), group)).1
            <= u64::MAX,
    ensures
        r.0@ == group_buffer(uniforms_view(uniforms@), group),
        r.1@ == group_entries(uniforms_view(uniforms@), group, group_sizes(uniforms_view(uniforms@), group)).0,
{
    let ghost us = uniforms_view(uniforms@);
    let mut sizes: Vec<(u32, usize)> = Vec::new();
    let mut buffer: Vec<u8> = Vec::new();
    let mut i: usize = 0;
    while i < uniforms.len()
        invariant
            i <= uniforms@.len(),
            us == uniforms_view(uniforms@),
            sizes_view(sizes@) == group_sizes(us.subrange(0, i as int), group),
            buffer@ == group_buffer(us.subrange(0, i as int), group),
        decreases uniforms@.len() - i,
    {
        proof {
            assert(us.subrange(0, i + 1).drop_last() =~= us.subrange(0, i as int));
        }
        let u = &uniforms[i];
        if u.group == group {
            if let Some(bytes) = &u.bytes {
                sizes.push((u.binding, bytes.len()));
                let mut copy = bytes.clone();
                proof {
                    assert(copy@ =~= bytes@);
                }
                buffer.append(&mut copy);
                proof {
                    assert(sizes_view(sizes@) =~= group_sizes(us.subrange(0, i + 1), group));
                }
            }
        }
        i = i + 1;
    }
    proof {
        assert(us.subrange(0, uniforms@.len() as int) =~= us);
    }
    let ghost all_sizes = sizes_view(sizes@);
    let mut entries: Vec<GroupEntry> = Vec::new();
    let mut offset: u64 = 0;
    let mut j: usize = 0;
    while j < uniforms.len()
        invariant
            j <= uniforms@.len(),
            us == uniforms_view(uniforms@),
            all_sizes == sizes_view(sizes@),
            group_entries(us, group, all_sizes).1 <= u64::MAX,
            (entries@, offset as nat) == group_entries(us.subrange(0, j as int), group, all_sizes),
        decreases uniforms@.len() - j,
    {
        proof {
            assert(us.subrange(0, j + 1).drop_last() =~= us.subrange(0, j as int));
            lemma_offset_grows(us, group, all_sizes, j + 1);
        }
        let u = &uniforms[j];
        if u.group == group {
            match size_for_binding(&sizes, u.binding) {
                Some(size) => {
                    let size = size as u64;
                    entries.push(GroupEntry { binding: u.binding, resource: EntryResource::Buffer { offset, size } });
                    offset = offset + size;
                },
                None => {
                    entries.push(GroupEntry { binding: u.binding, resource: EntryResource::Resource });
                },
            }
        }
        j = j + 1;
    }
    proof {
        assert(us.subrange(0, uniforms@.len() as int) =~= us);
    }
    (buffer, entries)
}

/// A sequence that holds every one of `0..m` has at least `m` items.
proof fn lemma_prefix_of_indices_fits(s: Seq<u32>, m: int)
    requires
        0 <= m <= u32::MAX + 1,
        forall|k: u32| k < m ==> #[trigger] s.contains(k),
    ensures
        m <= s.len(),
{
    let ints = s.map_values(|x: u32| x as int);
    let range = vstd::set_lib::set_int_range(0, m);
    assert forall|k: int| range.contains(k) implies ints.to_set().contains(k) by {
        assert(s.contains(k as u32));
        let i = choose|i: int| 0 <= i < s.len() && s[i] == k as u32;
        assert(ints[i] == k);
    }
    vstd::set_lib::lemma_int_range(0, m);
    ints.lemma_cardinality_of_set();
    vstd::seq_lib::seq_to_set_is_finite(ints);
    vstd::set_lib::lemma_len_subset(range, ints.to_set());
}

/// How many bind groups a pipeline's layouts make: groups are made for the
/// indices 0, 1, 2, ... up to the first index that no layout has.
pub fn bind_group_count(layout_indices: &Vec<u32>) -> (r: u32)
    requires
        layout_indices@.len() <= u32::MAX,
    ensures
        forall|k: u32| k < r ==> #[trigger] layout_indices@.contains(k),
        !layout_indices@.contains(r),
{
    let mut n: u32 = 0;
    loop
        invariant
            layout_indices@.len() <= u32::MAX,
            n <= layout_indices@.len(),
            forall|k: u32| k < n ==> #[trigger] layout_indices@.contains(k),
        decreases layout_indices@.len() - n,
    {
        let mut found = false;
        let mut i: usize = 0;
        while i < layout_indices.len()
            invariant
                i <= layout_indices@.len(),
                found <==> exists|j: int| 0 <= j < i && layout_indices@[j] == n,
            decreases layout_indices@.len() - i,
        {
            if layout_indices[i] == n {
                found = true;
            }
            i = i + 1;
        }
        if !found {
            return n;
        }
        proof {
            lemma_prefix_of_indices_fits(layout_indices@, n + 1);
        }
        n = n + 1;
    }
}

} // verus!
