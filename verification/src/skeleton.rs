//! Skeleton data: joints with local transforms and bind-pose matrices, and
//! the name lookup that maps a track's target path onto a joint.

use vstd::prelude::*;

verus! {

use crate::math::{Mat4, Transform};

/// A joint in a skeletal hierarchy. `parent_index` refers into the same
/// skeleton's joint list; the root carries none.
#[derive(Clone, Debug)]
pub struct Joint {
    pub name: String,
    pub index: usize,
    pub parent_index: Option<usize>,
    pub local_transform: Transform,
    pub inverse_bind_pose: Mat4,
}

/// A complete skeleton: joints in index order with parallel bind-pose and
/// inverse-bind-pose matrix arrays.
#[derive(Clone, Debug)]
pub struct Skeleton {
    pub joints: Vec<Joint>,
    pub bind_pose: Vec<Mat4>,
    pub inverse_bind_pose: Vec<Mat4>,
}

/// The joint names, in joint-index order.
pub open spec fn joint_names(s: Skeleton) -> Seq<Seq<char>> {
    s.joints@.map_values(|j: Joint| j.name@)
}

/// The joint local transforms, in joint-index order: the skeleton's pose.
pub open spec fn joint_transforms(s: Skeleton) -> Seq<Transform> {
    s.joints@.map_values(|j: Joint| j.local_transform)
}

/// The first position at or after `i` whose name equals `path`, if any.
pub open spec fn name_index_from(names: Seq<Seq<char>>, path: Seq<char>, i: int) -> Option<int>
    decreases names.len() - i,
{
    if i < 0 || i >= names.len() {
        None
    } else if names[i] == path {
        Some(i)
    } else {
        name_index_from(names, path, i + 1)
    }
}

/// The first joint whose name equals `path`, if any.
pub open spec fn name_index_of(names: Seq<Seq<char>>, path: Seq<char>) -> Option<int> {
    name_index_from(names, path, 0)
}

/// Everything about a skeleton except the joint local transforms: lengths,
/// names, indices, parent links and all bind-pose data.
pub open spec fn same_structure(a: Skeleton, b: Skeleton) -> bool {
    &&& b.joints@.len() == a.joints@.len()
    &&& forall|j: int|
        0 <= j < a.joints@.len() ==> (#[trigger] b.joints@[j]).name == a.joints@[j].name
            && b.joints@[j].index == a.joints@[j].index && b.joints@[j].parent_index
            == a.joints@[j].parent_index && b.joints@[j].inverse_bind_pose
            == a.joints@[j].inverse_bind_pose
    &&& b.bind_pose@ == a.bind_pose@
    &&& b.inverse_bind_pose@ == a.inverse_bind_pose@
}

/// Exact string equality on character content.
pub fn str_eq(a: &str, b: &str) -> (r: bool)
    ensures
        r == (a@ == b@),
{
    let sa: String = a.to_owned();
    let sb: String = b.to_owned();
    sa == sb
}

/// Finds the joint a track's target path addresses: the first joint whose
/// name matches exactly.
pub fn find_joint_by_path(path: &str, skeleton: &Skeleton) -> (r: Option<usize>)
    ensures
        match r {
            Some(j) => name_index_of(joint_names(*skeleton), path@) == Some(j as int) && j
                < skeleton.joints@.len(),
            None => name_index_of(joint_names(*skeleton), path@) is None,
        },
{
    let n: usize = skeleton.joints.len();
    let ghost names = joint_names(*skeleton);
    let mut i: usize = 0;
    while i < n
        invariant
            n == skeleton.joints@.len(),
            names == joint_names(*skeleton),
            names.len() == n,
            0 <= i <= n,
            name_index_of(names, path@) == name_index_from(names, path@, i as int),
            forall|k: int| 0 <= k < n ==> names[k] == skeleton.joints@[k].name@,
        decreases n - i,
    {
        if str_eq(path, skeleton.joints[i].name.as_str()) {
            return Some(i);
        }
        i = i + 1;
    }
    None
}

impl Skeleton {
    /// An empty skeleton.
    pub fn new() -> (r: Skeleton)
        ensures
            r.joints@.len() == 0,
            r.bind_pose@.len() == 0,
            r.inverse_bind_pose@.len() == 0,
    {
        Skeleton { joints: Vec::new(), bind_pose: Vec::new(), inverse_bind_pose: Vec::new() }
    }
}

} // verus!
