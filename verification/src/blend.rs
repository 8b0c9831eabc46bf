//! The blend tree: a recursive structure of weighted animation sources
//! combined into one output pose by linear, additive or override blending.
//!
//! Each node tracks its own playback cursor, advanced every tick under its
//! clip's loop mode. Evaluation is pure: it samples each node's clip at the
//! node's cursor and combines child poses in child order.

use vstd::prelude::*;

verus! {

use vstd::arithmetic::div_mod::lemma_div_multiples_vanish;
use vstd::seq::axiom_seq_index_decreases;
use vstd::std_specs::vec::axiom_vec_decreases_to_view;
use crate::clip::{
    clip_of,
    clip_wf,
    track_wf,
    AnimationClip,
    AnimationTrack,
    ClipHandle,
    ClipLibrary,
    KeyframeValue,
    LoopMode,
};
use crate::math::{
    lerp_transform_spec,
    interpolate_transform,
    quat_in_range,
    quat_mul,
    quat_mul_spec,
    quat_scale,
    quat_scale_spec,
    scale_fixed,
    scaled_spec,
    spec_transform_identity,
    tdiv,
    transform_in_range,
    vec3_in_range,
    Quat,
    Transform,
    Vec3,
    SCALE,
    VAL_MAX,
};
use crate::player::{
    apply_clip_to_pose,
    apply_track_to_pose,
    apply_tracks_prefix,
    apply_value_to_pose,
    corrected_time,
    correct_time,
    TIME_MAX,
};
use crate::sampler::sample;
use crate::skeleton::{find_joint_by_path, joint_names, joint_transforms, name_index_of, Skeleton};

/// How a node combines its children's poses.
#[derive(Clone, Copy, PartialEq, Eq, Structural, Debug)]
pub enum BlendType {
    /// Interpolate toward each child in order by its normalized weight.
    Linear,
    /// Add each child's weighted contribution on top.
    Additive,
    /// Take the highest-weighted child's pose whole; first wins a tie.
    Override,
}

/// A named scalar that drives blend-weight selection from outside; blending
/// itself does not clamp the value to the range.
pub struct BlendParameter {
    pub name: String,
    pub value: i64,
    pub range: (i64, i64),
}

/// One node of a blend tree: a clip source with a weight (used by the
/// parent when combining this node), a blend type for its own children, and
/// a locally tracked playback cursor.
pub struct BlendNode {
    pub animation: ClipHandle,
    pub weight: i64,
    pub blend_type: BlendType,
    pub children: Vec<BlendNode>,
    pub parameters: Vec<BlendParameter>,
    pub time: i64,
}

/// A complete blend tree.
pub struct BlendTree {
    pub root: BlendNode,
    pub parameters: Vec<BlendParameter>,
}

/// A full array of per-joint local transforms: one entry per skeleton
/// joint, in joint-index order.
pub struct BlendPose {
    pub joint_transforms: Vec<Transform>,
}

/// Weights are non-negative and bounded; cursors are bounded; and the same
/// holds throughout the subtree.
pub open spec fn node_wf(n: BlendNode) -> bool
    decreases n, 0int,
{
    &&& 0 <= n.weight <= VAL_MAX
    &&& -TIME_MAX <= n.time <= TIME_MAX
    &&& children_wf(n.children@, n.children@.len() as int)
}

pub open spec fn children_wf(s: Seq<BlendNode>, k: int) -> bool
    decreases s, k,
{
    if 0 < k <= s.len() {
        children_wf(s, k - 1) && node_wf(s[k - 1])
    } else {
        true
    }
}

/// `children_wf` of a prefix gives `node_wf` of each member.
pub proof fn lemma_children_wf_at(s: Seq<BlendNode>, k: int, j: int)
    requires
        children_wf(s, k),
        0 <= j < k,
        k <= s.len(),
    ensures
        node_wf(s[j]),
    decreases k,
{
    if j < k - 1 {
        lemma_children_wf_at(s, k - 1, j);
    }
}

/// The node's cursor after one tick: advanced by `delta` and corrected by
/// its clip's loop mode; a node whose clip does not resolve keeps its
/// cursor unchanged.
pub open spec fn advanced_node_time(n: BlendNode, clips: ClipLibrary, delta: int) -> int {
    match clip_of(clips, n.animation) {
        None => n.time as int,
        Some(c) => corrected_time(c.loop_mode, n.time + delta, c.duration as int),
    }
}

/// The whole tree after one advance pass: every node's cursor ticked, all
/// other data untouched.
pub open spec fn advanced_rel(a: BlendNode, b: BlendNode, clips: ClipLibrary, delta: int) -> bool
    decreases a, 0int,
{
    &&& b.animation == a.animation
    &&& b.weight == a.weight
    &&& b.blend_type == a.blend_type
    &&& b.parameters@ == a.parameters@
    &&& b.time == advanced_node_time(a, clips, delta)
    &&& b.children@.len() == a.children@.len()
    &&& advanced_children(a.children@, b.children@, clips, delta, a.children@.len() as int)
}

pub open spec fn advanced_children(
    a: Seq<BlendNode>,
    b: Seq<BlendNode>,
    clips: ClipLibrary,
    delta: int,
    k: int,
) -> bool
    decreases a, k,
{
    if 0 < k <= a.len() && a.len() == b.len() {
        advanced_children(a, b, clips, delta, k - 1) && advanced_rel(a[k - 1], b[k - 1], clips, delta)
    } else {
        true
    }
}

/// Advances every cursor in the subtree by `delta`, each under its own
/// clip's loop mode.
pub fn advance_blend_node(node: &mut BlendNode, clips: &ClipLibrary, delta: i64)
    requires
        node_wf(*old(node)),
        clips.wf(),
        0 <= delta <= VAL_MAX,
    ensures
        node_wf(*final(node)),
        advanced_rel(*old(node), *final(node), *clips, delta as int),
    decreases *old(node),
{
    match clips.get(&node.animation) {
        None => {},
        Some(c) => {
            let t1: i64 = node.time + delta;
            node.time = correct_time(c.loop_mode, t1, c.duration);
        },
    }
    let n: usize = node.children.len();
    let mut i: usize = 0;
    while i < n
        invariant
            n == node.children@.len(),
            node.children@.len() == old(node).children@.len(),
            0 <= i <= n,
            node.animation == old(node).animation,
            node.weight == old(node).weight,
            node.blend_type == old(node).blend_type,
            node.parameters@ == old(node).parameters@,
            node.time == advanced_node_time(*old(node), *clips, delta as int),
            -TIME_MAX <= node.time <= TIME_MAX,
            0 <= node.weight <= VAL_MAX,
            node_wf(*old(node)),
            clips.wf(),
            0 <= delta <= VAL_MAX,
            advanced_children(
                old(node).children@,
                node.children@,
                *clips,
                delta as int,
                i as int,
            ),
            forall|j: int| 0 <= j < i ==> node_wf(#[trigger] node.children@[j]),
            forall|j: int| i <= j < n ==> node.children@[j] == old(node).children@[j],
        decreases n - i,
    {
        proof {
            broadcast use axiom_seq_index_decreases, axiom_vec_decreases_to_view;

            assert(node.children@[i as int] == old(node).children@[i as int]);
            assert(decreases_to!(*old(node) => old(node).children));
            assert(decreases_to!(old(node).children => old(node).children@));
            assert(decreases_to!(old(node).children@ => old(node).children@[i as int]));
            lemma_children_wf_at(old(node).children@, n as int, i as int);
        }
        let ghost prev = node.children@;
        advance_blend_node(&mut node.children[i], clips, delta);
        proof {
            lemma_advanced_children_stable(
                old(node).children@,
                prev,
                node.children@,
                *clips,
                delta as int,
                i as int,
            );
        }
        i = i + 1;
    }
    proof {
        assert(children_wf(node.children@, n as int)) by {
            lemma_children_wf_build(node.children@, n as int);
        }
    }
}

/// `advanced_children` of a prefix only reads that prefix of the advanced
/// sequence.
pub proof fn lemma_advanced_children_stable(
    a: Seq<BlendNode>,
    b1: Seq<BlendNode>,
    b2: Seq<BlendNode>,
    clips: ClipLibrary,
    delta: int,
    k: int,
)
    requires
        advanced_children(a, b1, clips, delta, k),
        b1.len() == a.len(),
        b2.len() == a.len(),
        0 <= k <= a.len(),
        forall|j: int| 0 <= j < k ==> b2[j] == b1[j],
    ensures
        advanced_children(a, b2, clips, delta, k),
    decreases k,
{
    if k > 0 {
        lemma_advanced_children_stable(a, b1, b2, clips, delta, k - 1);
    }
}

/// Builds `children_wf` from member-wise `node_wf`.
pub proof fn lemma_children_wf_build(s: Seq<BlendNode>, k: int)
    requires
        0 <= k <= s.len(),
        forall|j: int| 0 <= j < k ==> node_wf(#[trigger] s[j]),
    ensures
        children_wf(s, k),
    decreases k,
{
    if k > 0 {
        lemma_children_wf_build(s, k - 1);
    }
}

/// The identity transform for every joint: the pose a node starts from
/// before its clip's tracks are applied.
pub open spec fn default_pose(n: int) -> Seq<Transform> {
    Seq::new(n as nat, |i: int| spec_transform_identity())
}

/// The pose one clip produces at time `t`: its tracks applied, in order,
/// onto the identity pose.
pub open spec fn clip_pose(names: Seq<Seq<char>>, clip: AnimationClip, t: int) -> Seq<Transform> {
    apply_clip_to_pose(names, default_pose(names.len() as int), clip.tracks@, t)
}

/// Every transform of the pose is within component bounds.
pub open spec fn pose_in_range(p: Seq<Transform>) -> bool {
    forall|i: int| 0 <= i < p.len() ==> transform_in_range(#[trigger] p[i])
}

/// Component-wise interpolation of whole poses.
pub open spec fn lerp_pose_spec(a: Seq<Transform>, b: Seq<Transform>, f: int) -> Seq<Transform> {
    Seq::new(a.len(), |i: int| lerp_transform_spec(a[i], b[i], f))
}

/// One additive contribution on one joint: the weighted translation is
/// added, the weighted rotation is composed by quaternion product, and the
/// weighted scale delta from unit scale is added.
pub open spec fn add_transform_spec(a: Transform, b: Transform, w: int) -> Transform {
    Transform {
        translation: Vec3 {
            x: (a.translation.x + scaled_spec(b.translation.x as int, w)) as i64,
            y: (a.translation.y + scaled_spec(b.translation.y as int, w)) as i64,
            z: (a.translation.z + scaled_spec(b.translation.z as int, w)) as i64,
        },
        rotation: quat_mul_spec(a.rotation, quat_scale_spec(b.rotation, w)),
        scale: Vec3 {
            x: (a.scale.x + scaled_spec(b.scale.x - SCALE, w)) as i64,
            y: (a.scale.y + scaled_spec(b.scale.y - SCALE, w)) as i64,
            z: (a.scale.z + scaled_spec(b.scale.z - SCALE, w)) as i64,
        },
    }
}

pub open spec fn add_pose_spec(a: Seq<Transform>, b: Seq<Transform>, w: int) -> Seq<Transform> {
    Seq::new(a.len(), |i: int| add_transform_spec(a[i], b[i], w))
}

impl BlendPose {
    /// A pose of `joint_count` identity transforms.
    pub fn new(joint_count: usize) -> (r: BlendPose)
        ensures
            r.joint_transforms@ =~= default_pose(joint_count as int),
            r.joint_transforms@.len() == joint_count,
            pose_in_range(r.joint_transforms@),
    {
        let mut v: Vec<Transform> = Vec::new();
        let mut i: usize = 0;
        while i < joint_count
            invariant
                0 <= i <= joint_count,
                v@.len() == i,
                forall|j: int| 0 <= j < i ==> v@[j] == spec_transform_identity(),
            decreases joint_count - i,
        {
            v.push(Transform::identity());
            i = i + 1;
        }
        proof {
            assert(v@ =~= default_pose(joint_count as int));
        }
        BlendPose { joint_transforms: v }
    }

    /// An exact copy of the pose.
    pub fn duplicate(&self) -> (r: BlendPose)
        ensures
            r.joint_transforms@ == self.joint_transforms@,
    {
        let n: usize = self.joint_transforms.len();
        let mut v: Vec<Transform> = Vec::new();
        let mut i: usize = 0;
        while i < n
            invariant
                n == self.joint_transforms@.len(),
                0 <= i <= n,
                v@.len() == i,
                forall|j: int| 0 <= j < i ==> v@[j] == self.joint_transforms@[j],
            decreases n - i,
        {
            v.push(self.joint_transforms[i]);
            i = i + 1;
        }
        proof {
            assert(v@ =~= self.joint_transforms@);
        }
        BlendPose { joint_transforms: v }
    }

    /// Interpolates every joint of this pose toward `other` by `factor`.
    pub fn lerp(&self, other: &BlendPose, factor: i64) -> (r: BlendPose)
        requires
            self.joint_transforms@.len() == other.joint_transforms@.len(),
            pose_in_range(self.joint_transforms@),
            pose_in_range(other.joint_transforms@),
            0 <= factor <= SCALE,
        ensures
            r.joint_transforms@ =~= lerp_pose_spec(
                self.joint_transforms@,
                other.joint_transforms@,
                factor as int,
            ),
            r.joint_transforms@.len() == self.joint_transforms@.len(),
            pose_in_range(r.joint_transforms@),
    {
        let n: usize = self.joint_transforms.len();
        let mut v: Vec<Transform> = Vec::new();
        let mut i: usize = 0;
        while i < n
            invariant
                n == self.joint_transforms@.len(),
                n == other.joint_transforms@.len(),
                pose_in_range(self.joint_transforms@),
                pose_in_range(other.joint_transforms@),
                0 <= factor <= SCALE,
                0 <= i <= n,
                v@.len() == i,
                forall|j: int|
                    0 <= j < i ==> (#[trigger] v@[j]) == lerp_transform_spec(
                        self.joint_transforms@[j],
                        other.joint_transforms@[j],
                        factor as int,
                    ) && transform_in_range(v@[j]),
            decreases n - i,
        {
            let t = interpolate_transform(
                &self.joint_transforms[i],
                &other.joint_transforms[i],
                factor,
            );
            v.push(t);
            i = i + 1;
        }
        proof {
            assert(v@ =~= lerp_pose_spec(
                self.joint_transforms@,
                other.joint_transforms@,
                factor as int,
            ));
        }
        BlendPose { joint_transforms: v }
    }

    /// Adds `other`'s weighted contribution on top of this pose, joint by
    /// joint; `None` exactly when some resulting component would leave the
    /// representable range.
    pub fn add_weighted(&self, other: &BlendPose, weight: i64) -> (r: Option<BlendPose>)
        requires
            self.joint_transforms@.len() == other.joint_transforms@.len(),
            pose_in_range(self.joint_transforms@),
            pose_in_range(other.joint_transforms@),
            0 <= weight <= SCALE,
        ensures
            pose_in_range(
                add_pose_spec(self.joint_transforms@, other.joint_transforms@, weight as int),
            ) ==> (r matches Some(q) && q.joint_transforms@ =~= add_pose_spec(
                self.joint_transforms@,
                other.joint_transforms@,
                weight as int,
            ) && q.joint_transforms@.len() == self.joint_transforms@.len()),
            !pose_in_range(
                add_pose_spec(self.joint_transforms@, other.joint_transforms@, weight as int),
            ) ==> r is None,
    {
        let n: usize = self.joint_transforms.len();
        let ghost goal = add_pose_spec(
            self.joint_transforms@,
            other.joint_transforms@,
            weight as int,
        );
        let mut v: Vec<Transform> = Vec::new();
        let mut i: usize = 0;
        while i < n
            invariant
                n == self.joint_transforms@.len(),
                n == other.joint_transforms@.len(),
                pose_in_range(self.joint_transforms@),
                pose_in_range(other.joint_transforms@),
                0 <= weight <= SCALE,
                goal == add_pose_spec(
                    self.joint_transforms@,
                    other.joint_transforms@,
                    weight as int,
                ),
                0 <= i <= n,
                v@.len() == i,
                forall|j: int|
                    0 <= j < i ==> (#[trigger] v@[j]) == goal[j] && transform_in_range(v@[j]),
            decreases n - i,
        {
            let a = &self.joint_transforms[i];
            let b = &other.joint_transforms[i];
            let tx: i64 = a.translation.x + scale_fixed(b.translation.x, weight);
            let ty: i64 = a.translation.y + scale_fixed(b.translation.y, weight);
            let tz: i64 = a.translation.z + scale_fixed(b.translation.z, weight);
            let rot: Quat = quat_mul(a.rotation, quat_scale(b.rotation, weight));
            let sx: i64 = a.scale.x + scale_fixed(b.scale.x - SCALE, weight);
            let sy: i64 = a.scale.y + scale_fixed(b.scale.y - SCALE, weight);
            let sz: i64 = a.scale.z + scale_fixed(b.scale.z - SCALE, weight);
            let ok = -VAL_MAX <= tx && tx <= VAL_MAX && -VAL_MAX <= ty && ty <= VAL_MAX && -VAL_MAX
                <= tz && tz <= VAL_MAX && -VAL_MAX <= rot.x && rot.x <= VAL_MAX && -VAL_MAX <= rot.y
                && rot.y <= VAL_MAX && -VAL_MAX <= rot.z && rot.z <= VAL_MAX && -VAL_MAX <= rot.w
                && rot.w <= VAL_MAX && -VAL_MAX <= sx && sx <= VAL_MAX && -VAL_MAX <= sy && sy
                <= VAL_MAX && -VAL_MAX <= sz && sz <= VAL_MAX;
            if !ok {
                proof {
                    assert(!transform_in_range(goal[i as int]));
                }
                return None;
            }
            let t = Transform {
                translation: Vec3 { x: tx, y: ty, z: tz },
                rotation: rot,
                scale: Vec3 { x: sx, y: sy, z: sz },
            };
            proof {
                assert(t == goal[i as int]);
            }
            v.push(t);
            i = i + 1;
        }
        proof {
            assert(v@ =~= goal);
        }
        Some(BlendPose { joint_transforms: v })
    }
}

fn apply_track_to_blend(track: &AnimationTrack, time: i64, skeleton: &Skeleton, pose: &mut BlendPose)
    requires
        track_wf(*track),
        old(pose).joint_transforms@.len() == skeleton.joints@.len(),
        pose_in_range(old(pose).joint_transforms@),
    ensures
        final(pose).joint_transforms@ =~= apply_track_to_pose(
            joint_names(*skeleton),
            old(pose).joint_transforms@,
            *track,
            time as int,
        ),
        final(pose).joint_transforms@.len() == old(pose).joint_transforms@.len(),
        pose_in_range(final(pose).joint_transforms@),
{
    let sampled = sample(track, time);
    match sampled {
        None => {},
        Some(v) => {
            match find_joint_by_path(track.target_path.as_str(), skeleton) {
                None => {},
                Some(j) => {
                    match v {
                        KeyframeValue::Transform(t) => {
                            pose.joint_transforms[j] = t;
                        },
                        KeyframeValue::Translation(p) => {
                            pose.joint_transforms[j].translation = p;
                        },
                        KeyframeValue::Rotation(q) => {
                            pose.joint_transforms[j].rotation = q;
                        },
                        KeyframeValue::Scale(s) => {
                            pose.joint_transforms[j].scale = s;
                        },
                        KeyframeValue::Float(x) => {},
                    }
                },
            }
        },
    }
    proof {
        assert(final(pose).joint_transforms@ =~= apply_track_to_pose(
            joint_names(*skeleton),
            old(pose).joint_transforms@,
            *track,
            time as int,
        ));
        assert forall|i: int|
            0 <= i < pose.joint_transforms@.len() implies transform_in_range(
            #[trigger] pose.joint_transforms@[i],
        ) by {
            assert(transform_in_range(old(pose).joint_transforms@[i]));
        }
    }
}

/// Samples every track of a clip at `time` into a fresh identity pose, one
/// entry per skeleton joint.
pub fn sample_clip_pose(clip: &AnimationClip, time: i64, skeleton: &Skeleton) -> (r: BlendPose)
    requires
        clip_wf(*clip),
    ensures
        r.joint_transforms@ =~= clip_pose(joint_names(*skeleton), *clip, time as int),
        r.joint_transforms@.len() == skeleton.joints@.len(),
        pose_in_range(r.joint_transforms@),
{
    let n: usize = skeleton.joints.len();
    let mut pose = BlendPose::new(n);
    let nt: usize = clip.tracks.len();
    let mut i: usize = 0;
    while i < nt
        invariant
            nt == clip.tracks@.len(),
            clip_wf(*clip),
            0 <= i <= nt,
            n == skeleton.joints@.len(),
            pose.joint_transforms@.len() == n,
            pose_in_range(pose.joint_transforms@),
            pose.joint_transforms@ =~= apply_tracks_prefix(
                joint_names(*skeleton),
                default_pose(n as int),
                clip.tracks@,
                time as int,
                i as int,
            ),
        decreases nt - i,
    {
        apply_track_to_blend(&clip.tracks[i], time, skeleton, &mut pose);
        i = i + 1;
    }
    pose
}

/// The contributions of the first `k` children, in child order: the pose
/// and weight of each child that evaluates to a pose; children that do not
/// are left out.
pub open spec fn contrib_prefix(
    children: Seq<BlendNode>,
    clips: ClipLibrary,
    names: Seq<Seq<char>>,
    k: int,
) -> Seq<(Seq<Transform>, int)>
    decreases children, k,
{
    if k <= 0 || k > children.len() {
        Seq::empty()
    } else {
        let rest = contrib_prefix(children, clips, names, k - 1);
        match eval_node(children[k - 1], clips, names) {
            None => rest,
            Some(p) => rest.push((p, children[k - 1].weight as int)),
        }
    }
}

pub open spec fn sum_weights(c: Seq<(Seq<Transform>, int)>, k: int) -> int
    decreases k,
{
    if k <= 0 {
        0
    } else {
        sum_weights(c, k - 1) + c[k - 1].1
    }
}

/// A weight renormalized against the total, as an interpolation factor.
pub open spec fn wnorm(w: int, total: int) -> int {
    tdiv(w * (SCALE as int), total)
}

/// Linear combination: the accumulated pose is interpolated toward each
/// contribution in order by its normalized weight.
pub open spec fn fold_lerp(
    current: Seq<Transform>,
    c: Seq<(Seq<Transform>, int)>,
    total: int,
    k: int,
) -> Seq<Transform>
    decreases k,
{
    if k <= 0 {
        current
    } else {
        lerp_pose_spec(fold_lerp(current, c, total, k - 1), c[k - 1].0, wnorm(c[k - 1].1, total))
    }
}

/// Additive combination: each contribution is added in order; `None` when
/// some component leaves the representable range along the way.
pub open spec fn fold_add(
    current: Seq<Transform>,
    c: Seq<(Seq<Transform>, int)>,
    total: int,
    k: int,
) -> Option<Seq<Transform>>
    decreases k,
{
    if k <= 0 {
        Some(current)
    } else {
        match fold_add(current, c, total, k - 1) {
            None => None,
            Some(p) => {
                let q = add_pose_spec(p, c[k - 1].0, wnorm(c[k - 1].1, total));
                if pose_in_range(q) {
                    Some(q)
                } else {
                    None
                }
            },
        }
    }
}

/// The position of the first contribution with the greatest weight among
/// the first `k`.
pub open spec fn max_weight_index(c: Seq<(Seq<Transform>, int)>, k: int) -> int
    decreases k,
{
    if k <= 1 {
        0
    } else {
        let m = max_weight_index(c, k - 1);
        if c[k - 1].1 > c[m].1 {
            k - 1
        } else {
            m
        }
    }
}

/// The pose a blend node evaluates to, or `None` when its clip does not
/// resolve (or an additive combination leaves the representable range).
/// A leaf returns its own clip's pose; children that evaluate to a pose
/// are combined over the node's own pose by the node's blend type, with
/// weights renormalized against their total; a zero total skips blending.
pub open spec fn eval_node(node: BlendNode, clips: ClipLibrary, names: Seq<Seq<char>>) -> Option<
    Seq<Transform>,
>
    decreases node, 0int,
{
    match clip_of(clips, node.animation) {
        None => None,
        Some(clip) => {
            let current = clip_pose(names, clip, node.time as int);
            if node.children@.len() == 0 {
                Some(current)
            } else {
                let c = contrib_prefix(node.children@, clips, names, node.children@.len() as int);
                let total = sum_weights(c, c.len() as int);
                if total <= 0 {
                    Some(current)
                } else {
                    match node.blend_type {
                        BlendType::Linear => Some(fold_lerp(current, c, total, c.len() as int)),
                        BlendType::Additive => fold_add(current, c, total, c.len() as int),
                        BlendType::Override => Some(c[max_weight_index(c, c.len() as int)].0),
                    }
                }
            }
        },
    }
}

pub proof fn lemma_sum_nonneg(c: Seq<(Seq<Transform>, int)>, k: int)
    requires
        0 <= k <= c.len(),
        forall|x: int| 0 <= x < c.len() ==> 0 <= (#[trigger] c[x]).1,
    ensures
        0 <= sum_weights(c, k),
    decreases k,
{
    if k > 0 {
        lemma_sum_nonneg(c, k - 1);
    }
}

/// With non-negative weights, every weight is at most the total.
pub proof fn lemma_sum_ge_elem(c: Seq<(Seq<Transform>, int)>, k: int, j: int)
    requires
        0 <= j < k <= c.len(),
        forall|x: int| 0 <= x < c.len() ==> 0 <= (#[trigger] c[x]).1,
    ensures
        c[j].1 <= sum_weights(c, k),
    decreases k,
{
    if j < k - 1 {
        lemma_sum_ge_elem(c, k - 1, j);
    } else {
        lemma_sum_nonneg(c, k - 1);
    }
}

/// Once the additive fold has failed it stays failed.
pub proof fn lemma_fold_add_none(
    current: Seq<Transform>,
    c: Seq<(Seq<Transform>, int)>,
    total: int,
    k1: int,
    k2: int,
)
    requires
        fold_add(current, c, total, k1) is None,
        0 <= k1 <= k2,
    ensures
        fold_add(current, c, total, k2) is None,
    decreases k2 - k1,
{
    if k1 < k2 {
        lemma_fold_add_none(current, c, total, k1 + 1, k2);
    }
}

/// Evaluates a blend node against a skeleton's joint names: the node's own
/// clip sampled at its cursor, combined with the poses its children
/// evaluate to.
#[verifier::loop_isolation(false)]
pub fn evaluate_blend_node(node: &BlendNode, clips: &ClipLibrary, skeleton: &Skeleton) -> (r:
    Option<BlendPose>)
    requires
        node_wf(*node),
        clips.wf(),
    ensures
        match r {
            Some(p) => eval_node(*node, *clips, joint_names(*skeleton)) == Some(
                p.joint_transforms@,
            ) && p.joint_transforms@.len() == skeleton.joints@.len() && pose_in_range(
                p.joint_transforms@,
            ),
            None => eval_node(*node, *clips, joint_names(*skeleton)) is None,
        },
    decreases *node,
{
    let ghost names = joint_names(*skeleton);
    let clip = match clips.get(&node.animation) {
        None => {
            return None;
        },
        Some(c) => c,
    };
    let current = sample_clip_pose(clip, node.time, skeleton);
    let nch: usize = node.children.len();
    if nch == 0 {
        return Some(current);
    }
    let mut poses: Vec<BlendPose> = Vec::new();
    let mut weights: Vec<i64> = Vec::new();
    let mut i: usize = 0;
    while i < nch
        invariant
            nch == node.children@.len(),
            0 <= i <= nch,
            node_wf(*node),
            clips.wf(),
            names == joint_names(*skeleton),
            poses@.len() == weights@.len(),
            poses@.len() == contrib_prefix(node.children@, *clips, names, i as int).len(),
            forall|j: int|
                0 <= j < poses@.len() ==> (#[trigger] contrib_prefix(
                    node.children@,
                    *clips,
                    names,
                    i as int,
                )[j]).0 == poses@[j].joint_transforms@ && contrib_prefix(
                    node.children@,
                    *clips,
                    names,
                    i as int,
                )[j].1 == weights@[j],
            forall|j: int|
                0 <= j < poses@.len() ==> pose_in_range(
                    (#[trigger] poses@[j]).joint_transforms@,
                ) && poses@[j].joint_transforms@.len() == skeleton.joints@.len(),
            forall|j: int| 0 <= j < weights@.len() ==> 0 <= (#[trigger] weights@[j]) <= VAL_MAX,
        decreases nch - i,
    {
        proof {
            broadcast use axiom_seq_index_decreases, axiom_vec_decreases_to_view;

            assert(decreases_to!(*node => node.children));
            assert(decreases_to!(node.children => node.children@));
            assert(decreases_to!(node.children@ => node.children@[i as int]));
            lemma_children_wf_at(node.children@, nch as int, i as int);
        }
        let child_result = evaluate_blend_node(&node.children[i], clips, skeleton);
        let ghost before_c = contrib_prefix(node.children@, *clips, names, i as int);
        match child_result {
            None => {},
            Some(p) => {
                let w: i64 = node.children[i].weight;
                poses.push(p);
                weights.push(w);
            },
        }
        proof {
            let after_c = contrib_prefix(node.children@, *clips, names, i as int + 1);
            assert(after_c == (match eval_node(node.children@[i as int], *clips, names) {
                None => before_c,
                Some(p) => before_c.push((p, node.children@[i as int].weight as int)),
            }));
        }
        i = i + 1;
    }
    let ghost c = contrib_prefix(node.children@, *clips, names, nch as int);
    let m: usize = poses.len();
    let mut total: i128 = 0;
    let mut j: usize = 0;
    while j < m
        invariant
            m == poses@.len(),
            m == weights@.len(),
            m == c.len(),
            0 <= j <= m,
            forall|x: int| 0 <= x < m ==> 0 <= (#[trigger] weights@[x]) <= VAL_MAX,
            forall|x: int| 0 <= x < m ==> (#[trigger] c[x]).1 == weights@[x],
            total == sum_weights(c, j as int),
            0 <= total <= (j as int) * (VAL_MAX as int),
        decreases m - j,
    {
        proof {
            assert((j as int + 1) * (VAL_MAX as int) == (j as int) * (VAL_MAX as int) + (
            VAL_MAX as int)) by (nonlinear_arith);
        }
        total = total + (weights[j] as i128);
        j = j + 1;
    }
    proof {
        assert(c.len() == m);
        assert(total == sum_weights(c, c.len() as int));
    }
    if total <= 0 {
        return Some(current);
    }
    let ghost total_g = total as int;
    match node.blend_type {
        BlendType::Linear => {
            let mut acc = current;
            let mut j: usize = 0;
            while j < m
                invariant
                    m == poses@.len(),
                    m == weights@.len(),
                    m == c.len(),
                    0 <= j <= m,
                    total_g == total as int,
                    total == sum_weights(c, c.len() as int),
                    0 < total,
                    forall|x: int| 0 <= x < m ==> 0 <= (#[trigger] weights@[x]) <= VAL_MAX,
                    forall|x: int|
                        0 <= x < m ==> (#[trigger] c[x]).0 == poses@[x].joint_transforms@ && c[x].1
                            == weights@[x] && pose_in_range(poses@[x].joint_transforms@)
                            && poses@[x].joint_transforms@.len() == skeleton.joints@.len(),
                    acc.joint_transforms@ == fold_lerp(
                        clip_pose(names, *clip, node.time as int),
                        c,
                        total_g,
                        j as int,
                    ),
                    acc.joint_transforms@.len() == skeleton.joints@.len(),
                    pose_in_range(acc.joint_transforms@),
                decreases m - j,
            {
                let w: i64 = weights[j];
                proof {
                    assert forall|x: int| 0 <= x < c.len() implies 0 <= (#[trigger] c[x]).1 by {
                        assert(c[x].1 == weights@[x]);
                    }
                    lemma_sum_ge_elem(c, c.len() as int, j as int);
                    assert((w as int) * (SCALE as int) <= total_g * (SCALE as int))
                        by (nonlinear_arith)
                        requires
                            w as int <= total_g,
                            0 < SCALE as int,
                    ;
                    assert(total_g * (SCALE as int) == (SCALE as int) * total_g)
                        by (nonlinear_arith);
                    assert(0 * total_g <= (w as int) * (SCALE as int)) by (nonlinear_arith)
                        requires
                            0 <= w,
                            0 <= total_g,
                    ;
                    crate::math::lemma_tdiv_between(
                        (w as int) * (SCALE as int),
                        total_g,
                        0,
                        SCALE as int,
                    );
                }
                let f: i64 = ((w as i128) * (SCALE as i128) / total) as i64;
                acc = acc.lerp(&poses[j], f);
                j = j + 1;
            }
            Some(acc)
        },
        BlendType::Additive => {
            let mut acc = current;
            let mut j: usize = 0;
            while j < m
                invariant
                    m == poses@.len(),
                    m == weights@.len(),
                    m == c.len(),
                    0 <= j <= m,
                    total_g == total as int,
                    total == sum_weights(c, c.len() as int),
                    0 < total,
                    forall|x: int| 0 <= x < m ==> 0 <= (#[trigger] weights@[x]) <= VAL_MAX,
                    forall|x: int|
                        0 <= x < m ==> (#[trigger] c[x]).0 == poses@[x].joint_transforms@ && c[x].1
                            == weights@[x] && pose_in_range(poses@[x].joint_transforms@)
                            && poses@[x].joint_transforms@.len() == skeleton.joints@.len(),
                    fold_add(clip_pose(names, *clip, node.time as int), c, total_g, j as int)
                        == Some(acc.joint_transforms@),
                    acc.joint_transforms@.len() == skeleton.joints@.len(),
                    pose_in_range(acc.joint_transforms@),
                decreases m - j,
            {
                let w: i64 = weights[j];
                proof {
                    assert forall|x: int| 0 <= x < c.len() implies 0 <= (#[trigger] c[x]).1 by {
                        assert(c[x].1 == weights@[x]);
                    }
                    lemma_sum_ge_elem(c, c.len() as int, j as int);
                    assert((w as int) * (SCALE as int) <= total_g * (SCALE as int))
                        by (nonlinear_arith)
                        requires
                            w as int <= total_g,
                            0 < SCALE as int,
                    ;
                    assert(total_g * (SCALE as int) == (SCALE as int) * total_g)
                        by (nonlinear_arith);
                    assert(0 * total_g <= (w as int) * (SCALE as int)) by (nonlinear_arith)
                        requires
                            0 <= w,
                            0 <= total_g,
                    ;
                    crate::math::lemma_tdiv_between(
                        (w as int) * (SCALE as int),
                        total_g,
                        0,
                        SCALE as int,
                    );
                }
                let f: i64 = ((w as i128) * (SCALE as i128) / total) as i64;
                match acc.add_weighted(&poses[j], f) {
                    Some(q) => {
                        acc = q;
                    },
                    None => {
                        proof {
                            assert(c[j as int].0 == poses@[j as int].joint_transforms@);
                            assert(c[j as int].1 == w as int);
                            assert(f as int == wnorm(c[j as int].1, total_g));
                            assert(!pose_in_range(
                                add_pose_spec(
                                    acc.joint_transforms@,
                                    poses@[j as int].joint_transforms@,
                                    f as int,
                                ),
                            ));
                            assert(fold_add(
                                clip_pose(names, *clip, node.time as int),
                                c,
                                total_g,
                                j as int + 1,
                            ) is None);
                            lemma_fold_add_none(
                                clip_pose(names, *clip, node.time as int),
                                c,
                                total_g,
                                j as int + 1,
                                c.len() as int,
                            );
                            assert(clip_of(*clips, node.animation) == Some(*clip));
                            assert(total_g == sum_weights(c, c.len() as int));
                            assert(eval_node(*node, *clips, names) == fold_add(
                                clip_pose(names, *clip, node.time as int),
                                c,
                                total_g,
                                c.len() as int,
                            ));
                        }
                        return None;
                    },
                }
                j = j + 1;
            }
            Some(acc)
        },
        BlendType::Override => {
            let mut best: usize = 0;
            let mut j: usize = 1;
            while j < m
                invariant
                    m == poses@.len(),
                    m == weights@.len(),
                    m == c.len(),
                    1 <= j <= m,
                    0 < m,
                    best < j,
                    forall|x: int| 0 <= x < m ==> (#[trigger] c[x]).1 == weights@[x],
                    best as int == max_weight_index(c, j as int),
                decreases m - j,
            {
                if weights[j] > weights[best] {
                    best = j;
                }
                j = j + 1;
            }
            proof {
                assert(m >= 1) by {
                    assert(sum_weights(c, 0) == 0);
                }
            }
            let out = poses[best].duplicate();
            Some(out)
        },
    }
}

/// A pose interpolated toward itself is itself, for every factor.
pub proof fn lemma_lerp_transform_same(t: Transform, f: int)
    ensures
        lerp_transform_spec(t, t, f) == t,
{
    crate::math::lemma_lerp_same(t.translation.x as int, f);
    crate::math::lemma_lerp_same(t.translation.y as int, f);
    crate::math::lemma_lerp_same(t.translation.z as int, f);
    crate::math::lemma_lerp_same(t.rotation.x as int, f);
    crate::math::lemma_lerp_same(t.rotation.y as int, f);
    crate::math::lemma_lerp_same(t.rotation.z as int, f);
    crate::math::lemma_lerp_same(t.rotation.w as int, f);
    crate::math::lemma_lerp_same(t.scale.x as int, f);
    crate::math::lemma_lerp_same(t.scale.y as int, f);
    crate::math::lemma_lerp_same(t.scale.z as int, f);
}

/// Linear blending over contributions whose poses all equal the node's own
/// pose returns that pose unchanged, whatever the weights: in particular,
/// two equally weighted children on identical clips at the same time leave
/// the pose exactly as either child produced it.
pub proof fn lemma_linear_blend_of_equal_poses(
    current: Seq<Transform>,
    c: Seq<(Seq<Transform>, int)>,
    total: int,
    k: int,
)
    requires
        0 <= k <= c.len(),
        forall|j: int| 0 <= j < k ==> (#[trigger] c[j]).0 == current,
    ensures
        fold_lerp(current, c, total, k) == current,
    decreases k,
{
    if k > 0 {
        lemma_linear_blend_of_equal_poses(current, c, total, k - 1);
        let f = wnorm(c[k - 1].1, total);
        assert forall|i: int| 0 <= i < current.len() implies lerp_pose_spec(current, current, f)[i]
            == current[i] by {
            lemma_lerp_transform_same(current[i], f);
        }
        assert(lerp_pose_spec(current, current, f) =~= current);
    }
}

/// Override blending selects the first contribution carrying the greatest
/// weight: no contribution weighs more, and every earlier one weighs
/// strictly less.
pub proof fn lemma_override_first_max(c: Seq<(Seq<Transform>, int)>, k: int)
    requires
        1 <= k <= c.len(),
    ensures
        0 <= max_weight_index(c, k) < k,
        forall|j: int| 0 <= j < k ==> (#[trigger] c[j]).1 <= c[max_weight_index(c, k)].1,
        forall|j: int| 0 <= j < max_weight_index(c, k) ==> (#[trigger] c[j]).1 < c[max_weight_index(c, k)].1,
    decreases k,
{
    if k > 1 {
        lemma_override_first_max(c, k - 1);
    }
}

/// The pose a state-machine crossfade shows mid-transition: the source
/// pose interpolated toward the target pose by the crossfade progress.
pub fn crossfade_pose(from: &BlendPose, to: &BlendPose, progress: i64) -> (r: BlendPose)
    requires
        from.joint_transforms@.len() == to.joint_transforms@.len(),
        pose_in_range(from.joint_transforms@),
        pose_in_range(to.joint_transforms@),
        0 <= progress <= SCALE,
    ensures
        r.joint_transforms@ =~= lerp_pose_spec(
            from.joint_transforms@,
            to.joint_transforms@,
            progress as int,
        ),
        r.joint_transforms@.len() == from.joint_transforms@.len(),
        pose_in_range(r.joint_transforms@),
{
    from.lerp(to, progress)
}

/// The crossfade is the Linear blend algorithm applied to two synthetic
/// children: a source pose weighted `SCALE - progress` and a target pose
/// weighted `progress`, seeded at the source pose, fold to exactly the
/// source interpolated toward the target by `progress`.
pub proof fn lemma_crossfade_is_linear_blend(fp: Seq<Transform>, tp: Seq<Transform>, progress: int)
    requires
        0 <= progress <= SCALE as int,
    ensures
        fold_lerp(
            fp,
            seq![(fp, SCALE as int - progress), (tp, progress)],
            SCALE as int,
            2,
        ) =~= lerp_pose_spec(fp, tp, progress),
{
    let c = seq![(fp, SCALE as int - progress), (tp, progress)];
    let s = SCALE as int;
    assert((s - progress) * s == s * (s - progress)) by (nonlinear_arith);
    lemma_div_multiples_vanish(s - progress, s);
    assert(wnorm(s - progress, s) == s - progress);
    assert(progress * s == s * progress) by (nonlinear_arith);
    lemma_div_multiples_vanish(progress, s);
    assert(wnorm(progress, s) == progress);
    assert(c[0] == (fp, s - progress));
    assert(c[1] == (tp, progress));
    assert(fold_lerp(fp, c, s, 0) == fp);
    assert(fold_lerp(fp, c, s, 1) == lerp_pose_spec(fp, fp, s - progress));
    assert forall|i: int| 0 <= i < fp.len() implies lerp_pose_spec(fp, fp, s - progress)[i]
        == fp[i] by {
        lemma_lerp_transform_same(fp[i], s - progress);
    }
    assert(lerp_pose_spec(fp, fp, s - progress) =~= fp);
    assert(fold_lerp(fp, c, s, 2) == lerp_pose_spec(fold_lerp(fp, c, s, 1), tp, progress));
}

/// One blend tick: every node's cursor advances under its clip's loop
/// mode, the advanced tree is evaluated against the skeleton's joint
/// names, and the root's pose, if any, is written into the skeleton's
/// joint transforms one-to-one by joint index.
pub fn blend_tree_system(
    tree: &mut BlendTree,
    skeleton: &mut Skeleton,
    clips: &ClipLibrary,
    delta: i64,
)
    requires
        node_wf(old(tree).root),
        clips.wf(),
        0 <= delta <= VAL_MAX,
    ensures
        node_wf(final(tree).root),
        advanced_rel(old(tree).root, final(tree).root, *clips, delta as int),
        final(tree).parameters@ == old(tree).parameters@,
        match eval_node(final(tree).root, *clips, joint_names(*old(skeleton))) {
            None => *final(skeleton) == *old(skeleton),
            Some(p) => crate::skeleton::same_structure(*old(skeleton), *final(skeleton))
                && joint_transforms(*final(skeleton)) =~= p,
        },
{
    advance_blend_node(&mut tree.root, clips, delta);
    let result = evaluate_blend_node(&tree.root, clips, skeleton);
    match result {
        None => {},
        Some(pose) => {
            let n: usize = skeleton.joints.len();
            let mut i: usize = 0;
            while i < n
                invariant
                    n == skeleton.joints@.len(),
                    n == old(skeleton).joints@.len(),
                    pose.joint_transforms@.len() == n,
                    0 <= i <= n,
                    crate::skeleton::same_structure(*old(skeleton), *skeleton),
                    forall|j: int|
                        0 <= j < i ==> (#[trigger] skeleton.joints@[j]).local_transform
                            == pose.joint_transforms@[j],
                    forall|j: int|
                        i <= j < n ==> (#[trigger] skeleton.joints@[j]).local_transform == old(
                            skeleton,
                        ).joints@[j].local_transform,
                decreases n - i,
            {
                skeleton.joints[i].local_transform = pose.joint_transforms[i];
                i = i + 1;
            }
            proof {
                assert(joint_transforms(*skeleton) =~= pose.joint_transforms@);
            }
        },
    }
}

} // verus!
