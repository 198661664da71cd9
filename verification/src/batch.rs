//! The batch builder: partition the current frame's shape descriptors by
//! geometry kind, and ovals further by tessellation level, then emit one
//! contiguous instance buffer per partition. The partition keys are exactly
//! the distinct detail levels present, in order of first appearance; no
//! batch is empty, no batch mixes detail levels, and the instances across
//! all batches are exactly the declared descriptors, none dropped and none
//! duplicated.

use vstd::prelude::*;

use vstd::multiset::Multiset;
use vstd::seq_lib::lemma_multiset_commutative;

use crate::instance::instance_of;
use crate::instance::make_instance;
use crate::instance::InstanceRecord;
use crate::instance::TextureInstanceRecord;
use crate::shapes::texture_instance_of;
use crate::shapes::Image;
use crate::shapes::Oval;
use crate::shapes::Rect;

verus! {

/// One oval instance group: all ovals of one tessellation level, in
/// declaration order.
pub struct OvalBatch {
    pub detail: u32,
    pub instances: Vec<InstanceRecord>,
}

/// The instance records of a list of rectangles, in order.
pub open spec fn instances_of_rects(s: Seq<Rect>) -> Seq<InstanceRecord> {
    s.map_values(|r: Rect| instance_of(r.data))
}

/// The instance records of a list of ovals, in order.
pub open spec fn instances_of_ovals(s: Seq<Oval>) -> Seq<InstanceRecord> {
    s.map_values(|o: Oval| instance_of(o.data))
}

/// The instance records of a list of sprites, in order.
pub open spec fn instances_of_images(s: Seq<Image>) -> Seq<TextureInstanceRecord> {
    s.map_values(|img: Image| texture_instance_of(img))
}

/// The ovals of `s` whose tessellation level is `d`, in order.
pub open spec fn ovals_with_detail(s: Seq<Oval>, d: u32) -> Seq<Oval> {
    s.filter(|o: Oval| o.detail == d)
}

/// The detail keys of a batch list, in order.
pub open spec fn batch_details(gs: Seq<OvalBatch>) -> Seq<u32> {
    gs.map_values(|g: OvalBatch| g.detail)
}

/// The distinct tessellation levels of `s`, in order of first appearance.
pub open spec fn distinct_details(s: Seq<Oval>) -> Seq<u32>
    decreases s.len(),
{
    if s.len() == 0 {
        Seq::empty()
    } else {
        let prefix = distinct_details(s.drop_last());
        if prefix.contains(s.last().detail) {
            prefix
        } else {
            prefix.push(s.last().detail)
        }
    }
}

/// All instances across a batch list, concatenated in batch order.
pub open spec fn batched_instances(gs: Seq<OvalBatch>) -> Seq<InstanceRecord>
    decreases gs.len(),
{
    if gs.len() == 0 {
        Seq::empty()
    } else {
        batched_instances(gs.drop_last()) + gs.last().instances@
    }
}

/// Appending an oval extends its detail's partition and no other.
proof fn lemma_with_detail_push(s: Seq<Oval>, o: Oval, d: u32)
    ensures
        ovals_with_detail(s.push(o), d) == (if o.detail == d {
            ovals_with_detail(s, d).push(o)
        } else {
            ovals_with_detail(s, d)
        }),
{
    s.lemma_filter_push(o, |ov: Oval| ov.detail == d);
}

/// A detail level appears among the distinct details of `s` exactly when
/// some oval of `s` has it.
proof fn lemma_detail_membership(s: Seq<Oval>, d: u32)
    ensures
        distinct_details(s).contains(d) <==> ovals_with_detail(s, d).len() != 0,
    decreases s.len(),
{
    broadcast use vstd::seq_lib::group_filter_ensures;

    if s.len() == 0 {
        assert(ovals_with_detail(s, d).len() == 0);
        assert(!distinct_details(s).contains(d));
    } else {
        let s0 = s.drop_last();
        let o = s.last();
        lemma_detail_membership(s0, d);
        assert(s =~= s0.push(o));
        assert(ovals_with_detail(s, d) == ovals_with_detail(s0.push(o), d));
        lemma_with_detail_push(s0, o, d);
        let pre = distinct_details(s0);
        if o.detail == d {
            assert(ovals_with_detail(s, d).len() != 0);
            assert(distinct_details(s).contains(d)) by {
                if pre.contains(d) {
                    let i = choose|i: int| 0 <= i < pre.len() && pre[i] == d;
                    assert(distinct_details(s)[i] == d);
                } else {
                    assert(distinct_details(s) == pre.push(d));
                    assert(distinct_details(s)[pre.len() as int] == d);
                }
            }
        } else {
            assert(ovals_with_detail(s, d) == ovals_with_detail(s0, d));
            if distinct_details(s).contains(d) {
                assert(pre.contains(d)) by {
                    let i = choose|i: int|
                        0 <= i < distinct_details(s).len() && distinct_details(s)[i] == d;
                    if !pre.contains(o.detail) {
                        assert(distinct_details(s) == pre.push(o.detail));
                        assert(i < pre.len());
                        assert(pre[i] == d);
                    }
                }
            }
            if pre.contains(d) {
                assert(distinct_details(s).contains(d)) by {
                    let i = choose|i: int| 0 <= i < pre.len() && pre[i] == d;
                    assert(distinct_details(s)[i] == d);
                }
            }
        }
    }
}

/// Every distinct detail level is the detail of some oval of the list.
pub proof fn lemma_distinct_from_ovals(s: Seq<Oval>, i: int)
    requires
        0 <= i < distinct_details(s).len(),
    ensures
        exists|j: int| 0 <= j < s.len() && (#[trigger] s[j]).detail == distinct_details(s)[i],
    decreases s.len(),
{
    if s.len() > 0 {
        let s0 = s.drop_last();
        let pre = distinct_details(s0);
        if i < pre.len() {
            lemma_distinct_from_ovals(s0, i);
            let j = choose|j: int| 0 <= j < s0.len() && (#[trigger] s0[j]).detail == pre[i];
            assert(s[j].detail == distinct_details(s)[i]);
        } else {
            assert(distinct_details(s) == pre.push(s.last().detail));
            assert(s[s.len() - 1].detail == distinct_details(s)[i]);
        }
    }
}

/// Mapping a list of ovals to instance records commutes with appending one.
proof fn lemma_instances_push(s: Seq<Oval>, o: Oval)
    ensures
        instances_of_ovals(s.push(o)) == instances_of_ovals(s).push(instance_of(o.data)),
{
    assert(instances_of_ovals(s.push(o)) =~= instances_of_ovals(s).push(instance_of(o.data)));
}

/// Appending a batch appends its instances to the concatenation.
proof fn lemma_batched_push(gs: Seq<OvalBatch>, g: OvalBatch)
    ensures
        batched_instances(gs.push(g)) == batched_instances(gs) + g.instances@,
{
    assert(gs.push(g).drop_last() =~= gs);
    assert(batched_instances(gs.push(g)) == batched_instances(gs.push(g).drop_last())
        + g.instances@);
}

/// Pushing one instance record into one batch of the list inserts exactly
/// that record into the multiset of all batched instances.
proof fn lemma_batched_update(gs: Seq<OvalBatch>, j: int, g2: OvalBatch, x: InstanceRecord)
    requires
        0 <= j < gs.len(),
        g2.instances@ == gs[j].instances@.push(x),
    ensures
        batched_instances(gs.update(j, g2)).to_multiset() == batched_instances(
            gs,
        ).to_multiset().insert(x),
    decreases gs.len(),
{
    broadcast use vstd::seq_lib::group_to_multiset_ensures;
    broadcast use vstd::multiset::group_multiset_axioms;

    let gs2 = gs.update(j, g2);
    if j == gs.len() - 1 {
        assert(gs2.drop_last() =~= gs.drop_last());
        assert(gs2.last() == g2);
        lemma_multiset_commutative(batched_instances(gs.drop_last()), g2.instances@);
        lemma_multiset_commutative(batched_instances(gs.drop_last()), gs[j].instances@);
        assert(g2.instances@.to_multiset() =~= gs[j].instances@.to_multiset().insert(x));
        assert(batched_instances(gs2).to_multiset() =~= batched_instances(
            gs,
        ).to_multiset().insert(x));
    } else {
        assert(gs2.drop_last() =~= gs.drop_last().update(j, g2));
        assert(gs2.last() == gs.last());
        lemma_batched_update(gs.drop_last(), j, g2, x);
        lemma_multiset_commutative(
            batched_instances(gs.drop_last().update(j, g2)),
            gs.last().instances@,
        );
        lemma_multiset_commutative(batched_instances(gs.drop_last()), gs.last().instances@);
        assert(batched_instances(gs2).to_multiset() =~= batched_instances(
            gs,
        ).to_multiset().insert(x));
    }
}

/// The index of the batch keyed by detail level `d`, if one exists.
fn find_group(gs: &Vec<OvalBatch>, d: u32) -> (r: Option<usize>)
    ensures
        r matches Some(j) ==> j < gs@.len() && gs@[j as int].detail == d,
        r is None ==> forall|i: int| 0 <= i < gs@.len() ==> (#[trigger] gs@[i]).detail != d,
{
    let mut i: usize = 0;
    while i < gs.len()
        invariant
            i <= gs@.len(),
            forall|k: int| 0 <= k < i ==> (#[trigger] gs@[k]).detail != d,
        decreases gs@.len() - i,
    {
        if gs[i].detail == d {
            return Some(i);
        }
        i = i + 1;
    }
    None
}

/// Group the frame's ovals by tessellation level. The batch keys are
/// exactly the distinct detail levels declared, in order of first
/// appearance; each batch holds, in declaration order, the instances of
/// precisely the ovals with its key; no batch is empty; and the instances
/// across all batches are exactly the declared ovals' instances, none
/// dropped and none duplicated.
pub fn group_ovals(ovals: &Vec<Oval>) -> (gs: Vec<OvalBatch>)
    ensures
        batch_details(gs@) == distinct_details(ovals@),
        forall|i: int, j: int|
            0 <= i < j < gs@.len() ==> (#[trigger] gs@[i]).detail != (#[trigger] gs@[j]).detail,
        forall|i: int|
            0 <= i < gs@.len() ==> (#[trigger] gs@[i]).instances@ == instances_of_ovals(
                ovals_with_detail(ovals@, gs@[i].detail),
            ),
        forall|i: int| 0 <= i < gs@.len() ==> (#[trigger] gs@[i]).instances@.len() >= 1,
        batched_instances(gs@).to_multiset() == instances_of_ovals(ovals@).to_multiset(),
{
    broadcast use vstd::seq_lib::group_to_multiset_ensures;
    broadcast use vstd::multiset::group_multiset_axioms;

    let mut gs: Vec<OvalBatch> = Vec::new();
    let mut k: usize = 0;
    while k < ovals.len()
        invariant
            k <= ovals@.len(),
            batch_details(gs@) == distinct_details(ovals@.take(k as int)),
            forall|i: int, j: int|
                0 <= i < j < gs@.len() ==> (#[trigger] gs@[i]).detail != (#[trigger] gs@[j]).detail,
            forall|i: int|
                0 <= i < gs@.len() ==> (#[trigger] gs@[i]).instances@ == instances_of_ovals(
                    ovals_with_detail(ovals@.take(k as int), gs@[i].detail),
                ),
            forall|i: int| 0 <= i < gs@.len() ==> (#[trigger] gs@[i]).instances@.len() >= 1,
            batched_instances(gs@).to_multiset() == instances_of_ovals(
                ovals@.take(k as int),
            ).to_multiset(),
        decreases ovals@.len() - k,
    {
        let o = ovals[k];
        let inst = make_instance(&o.data);
        let ghost prefix = ovals@.take(k as int);
        let ghost prefix2 = ovals@.take(k as int + 1);
        proof {
            assert(prefix2 =~= prefix.push(o));
            lemma_instances_push(prefix, o);
            vstd::seq_lib::to_multiset_build::<InstanceRecord>(instances_of_ovals(prefix), inst);
            assert(instances_of_ovals(prefix2).to_multiset() == instances_of_ovals(
                prefix,
            ).to_multiset().insert(inst));
        }
        match find_group(&gs, o.detail) {
            Some(j) => {
                let ghost gs_old = gs@;
                let g = &mut gs[j];
                g.instances.push(inst);
                proof {
                    let d = o.detail;
                    assert(gs@ =~= gs_old.update(j as int, gs@[j as int]));
                    lemma_batched_update(gs_old, j as int, gs@[j as int], inst);
                    assert forall|i: int| 0 <= i < gs@.len() && i != j implies gs@[i] == gs_old[i]
                        && (#[trigger] gs@[i]).instances@.len() >= 1 by {
                        assert(gs_old[i].instances@.len() >= 1);
                    }
                    // the key d was already present, so the key list is unchanged
                    assert(batch_details(gs@) =~= batch_details(gs_old));
                    assert(batch_details(gs_old)[j as int] == d);
                    assert(distinct_details(prefix).contains(d));
                    assert(distinct_details(prefix2) =~= distinct_details(prefix)) by {
                        assert(prefix2.drop_last() =~= prefix);
                    }
                    // each partition changes only at key d
                    assert forall|i: int| 0 <= i < gs@.len() implies (#[trigger] gs@[i]).instances@
                        == instances_of_ovals(ovals_with_detail(prefix2, gs@[i].detail)) by {
                        lemma_with_detail_push(prefix, o, gs@[i].detail);
                        if i != j {
                            assert(gs@[i].detail != d);
                        } else {
                            lemma_instances_push(ovals_with_detail(prefix, d), o);
                        }
                    }
                }
            },
            None => {
                let mut insts: Vec<InstanceRecord> = Vec::new();
                insts.push(inst);
                let ghost gs_old = gs@;
                gs.push(OvalBatch { detail: o.detail, instances: insts });
                proof {
                    let d = o.detail;
                    let g = gs@.last();
                    assert(gs@ =~= gs_old.push(g));
                    lemma_batched_push(gs_old, g);
                    lemma_multiset_commutative(batched_instances(gs_old), g.instances@);
                    assert(g.instances@ =~= Seq::<InstanceRecord>::empty().push(inst));
                    vstd::seq_lib::to_multiset_len::<InstanceRecord>(Seq::empty());
                    vstd::multiset::lemma_multiset_empty_len::<InstanceRecord>(
                        Seq::<InstanceRecord>::empty().to_multiset(),
                    );
                    vstd::seq_lib::to_multiset_build::<InstanceRecord>(Seq::empty(), inst);
                    assert(g.instances@.to_multiset() =~= Multiset::empty().insert(inst));
                    assert(batched_instances(gs@).to_multiset() =~= batched_instances(
                        gs_old,
                    ).to_multiset().insert(inst));
                    assert forall|i: int| 0 <= i < gs@.len() implies (#[trigger] gs@[i]).instances@.len()
                        >= 1 by {
                        if i < gs@.len() - 1 {
                            assert(gs@[i] == gs_old[i]);
                            assert(gs_old[i].instances@.len() >= 1);
                        }
                    }
                    // d is a new key: it joins the key list last
                    assert(!distinct_details(prefix).contains(d)) by {
                        if distinct_details(prefix).contains(d) {
                            let ghost w = choose|w: int|
                                0 <= w < batch_details(gs_old).len() && batch_details(gs_old)[w]
                                    == d;
                            assert(gs_old[w].detail == d);
                        }
                    }
                    assert(distinct_details(prefix2) =~= distinct_details(prefix).push(d)) by {
                        assert(prefix2.drop_last() =~= prefix);
                    }
                    assert(batch_details(gs@) =~= batch_details(gs_old).push(d));
                    // the new partition holds exactly the one new oval
                    lemma_detail_membership(prefix, d);
                    assert(ovals_with_detail(prefix, d) =~= Seq::empty());
                    assert forall|i: int| 0 <= i < gs@.len() implies (#[trigger] gs@[i]).instances@
                        == instances_of_ovals(ovals_with_detail(prefix2, gs@[i].detail)) by {
                        lemma_with_detail_push(prefix, o, gs@[i].detail);
                        if i < gs@.len() - 1 {
                            assert(gs@[i] == gs_old[i]);
                            assert(gs@[i].detail != d);
                        } else {
                            lemma_instances_push(ovals_with_detail(prefix, d), o);
                            assert(instances_of_ovals(ovals_with_detail(prefix2, d))
                                =~= g.instances@);
                        }
                    }
                }
            },
        }
        k = k + 1;
    }
    proof {
        assert(ovals@.take(ovals@.len() as int) =~= ovals@);
    }
    gs
}

/// The instance buffer of the frame's rectangles, in declaration order.
pub fn build_rect_instances(recs: &Vec<Rect>) -> (out: Vec<InstanceRecord>)
    ensures
        out@ == instances_of_rects(recs@),
{
    let mut out: Vec<InstanceRecord> = Vec::new();
    let mut i: usize = 0;
    while i < recs.len()
        invariant
            i <= recs@.len(),
            out@.len() == i,
            forall|j: int| 0 <= j < i ==> out@[j] == instance_of(recs@[j].data),
        decreases recs@.len() - i,
    {
        out.push(make_instance(&recs[i].data));
        i = i + 1;
    }
    proof {
        assert(out@ =~= instances_of_rects(recs@));
    }
    out
}

/// The instance buffer of the frame's sprites, in declaration order.
pub fn build_image_instances(images: &Vec<Image>) -> (out: Vec<TextureInstanceRecord>)
    ensures
        out@ == instances_of_images(images@),
{
    let mut out: Vec<TextureInstanceRecord> = Vec::new();
    let mut i: usize = 0;
    while i < images.len()
        invariant
            i <= images@.len(),
            out@.len() == i,
            forall|j: int| 0 <= j < i ==> out@[j] == texture_instance_of(images@[j]),
        decreases images@.len() - i,
    {
        let img = images[i];
        out.push(img.to_instance());
        i = i + 1;
    }
    proof {
        assert(out@ =~= instances_of_images(images@));
    }
    out
}

} // verus!
