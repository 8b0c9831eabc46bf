//! Diagnostic text for the host: the current state and transition progress
//! of a state machine, and an indented dump of a blend tree. Purely
//! informational; no pose computation depends on it.

use vstd::prelude::*;

verus! {

use vstd::string::StringExecFns;
use crate::blend::{BlendNode, BlendParameter, BlendTree, BlendType};
use crate::state_machine::AnimationStateMachine;

/// What the host's skeleton-visualization overlay should draw. The drawing
/// itself is the host renderer's work; the core only carries the choices.
#[derive(Clone, Copy, PartialEq, Eq, Structural, Debug)]
pub struct AnimationDebugVisualization {
    pub show_skeleton: bool,
    pub show_joints: bool,
    pub show_labels: bool,
    pub show_trails: bool,
    pub trail_length: usize,
}

impl Default for AnimationDebugVisualization {
    /// Skeleton, joints and labels on; trails off, thirty samples long.
    fn default() -> (r: Self)
        ensures
            r.show_skeleton,
            r.show_joints,
            r.show_labels,
            !r.show_trails,
            r.trail_length == 30,
    {
        AnimationDebugVisualization {
            show_skeleton: true,
            show_joints: true,
            show_labels: true,
            show_trails: false,
            trail_length: 30,
        }
    }
}

/// The decimal digit character for `d` in `0 ..= 9`.
pub open spec fn digit_char(d: int) -> char {
    if d == 0 {
        '0'
    } else if d == 1 {
        '1'
    } else if d == 2 {
        '2'
    } else if d == 3 {
        '3'
    } else if d == 4 {
        '4'
    } else if d == 5 {
        '5'
    } else if d == 6 {
        '6'
    } else if d == 7 {
        '7'
    } else if d == 8 {
        '8'
    } else {
        '9'
    }
}

/// The decimal digits of a non-negative number, most significant first.
pub open spec fn dec_str(n: int) -> Seq<char>
    decreases n,
{
    if n < 10 {
        seq![digit_char(n)]
    } else {
        dec_str(n / 10).push(digit_char(n % 10))
    }
}

fn digit_str(d: u64) -> (r: &'static str)
    requires
        d < 10,
    ensures
        r@ == seq![digit_char(d as int)],
{
    let r: &'static str = if d == 0 {
        "0"
    } else if d == 1 {
        "1"
    } else if d == 2 {
        "2"
    } else if d == 3 {
        "3"
    } else if d == 4 {
        "4"
    } else if d == 5 {
        "5"
    } else if d == 6 {
        "6"
    } else if d == 7 {
        "7"
    } else if d == 8 {
        "8"
    } else {
        "9"
    };
    proof {
        reveal_strlit("0");
        reveal_strlit("1");
        reveal_strlit("2");
        reveal_strlit("3");
        reveal_strlit("4");
        reveal_strlit("5");
        reveal_strlit("6");
        reveal_strlit("7");
        reveal_strlit("8");
        reveal_strlit("9");
        assert(r@ =~= seq![digit_char(d as int)]);
    }
    r
}

/// Renders a non-negative number in decimal.
pub fn u64_to_string(n: u64) -> (r: String)
    ensures
        r@ == dec_str(n as int),
    decreases n,
{
    if n < 10 {
        let r = digit_str(n).to_owned();
        proof {
            assert(r@ =~= dec_str(n as int));
        }
        r
    } else {
        let mut s = u64_to_string(n / 10);
        s.append(digit_str(n % 10));
        proof {
            assert(s@ =~= dec_str(n as int));
        }
        s
    }
}

/// A fixed-point value rendered with its three decimal places
/// (`1500` becomes `1.500`).
pub open spec fn milli_str(v: int) -> Seq<char>
    decreases (if v >= 0 { 0int } else { 1int }),
{
    if v >= 0 {
        dec_str(v / 1000) + seq![
            '.',
            digit_char(v % 1000 / 100),
            digit_char(v % 1000 / 10 % 10),
            digit_char(v % 1000 % 10),
        ]
    } else {
        seq!['-'] + milli_str(-v)
    }
}

/// Renders a fixed-point value with three decimal places.
pub fn fixed_to_string(v: i64) -> (r: String)
    ensures
        r@ == milli_str(v as int),
{
    if v < 0 {
        let m: i128 = -(v as i128);
        let whole: u64 = (m / 1000) as u64;
        let frac: i128 = m % 1000;
        let mut s = "-".to_owned();
        let ws = u64_to_string(whole);
        s.append(ws.as_str());
        s.append(".");
        s.append(digit_str((frac / 100) as u64));
        s.append(digit_str((frac / 10 % 10) as u64));
        s.append(digit_str((frac % 10) as u64));
        proof {
            reveal_with_fuel(milli_str, 2);
            reveal_strlit("-");
            reveal_strlit(".");
            assert(s@ =~= milli_str(v as int));
        }
        s
    } else {
        let whole: u64 = (v / 1000) as u64;
        let frac: i64 = v % 1000;
        let mut s = u64_to_string(whole);
        s.append(".");
        s.append(digit_str((frac / 100) as u64));
        s.append(digit_str((frac / 10 % 10) as u64));
        s.append(digit_str((frac % 10) as u64));
        proof {
            reveal_strlit(".");
            assert(s@ =~= milli_str(v as int));
        }
        s
    }
}

/// Crossfade progress as a percentage with one decimal place
/// (`333` of `SCALE` becomes `33.3`).
pub open spec fn percent_str(p: int) -> Seq<char> {
    dec_str(p / 10) + seq!['.', digit_char(p % 10)]
}

fn percent_to_string(p: i64) -> (r: String)
    requires
        0 <= p,
    ensures
        r@ == percent_str(p as int),
{
    let mut s = u64_to_string((p / 10) as u64);
    s.append(".");
    s.append(digit_str((p % 10) as u64));
    proof {
        reveal_strlit(".");
        assert(s@ =~= percent_str(p as int));
    }
    s
}

/// The current-state line of a state machine: the state's name, or a
/// placeholder before the machine has started.
pub fn state_status_text(sm: &AnimationStateMachine) -> (r: String)
    ensures
        match sm.view().current_state {
            Some(name) => r@ == "Current State: "@ + name,
            None => r@ == "Current State: <none>"@,
        },
{
    match sm.current_state() {
        Some(name) => {
            let mut s = "Current State: ".to_owned();
            s.append(name.as_str());
            s
        },
        None => "Current State: <none>".to_owned(),
    }
}

/// The transition line of a state machine: source, target and progress as
/// a percentage, or a placeholder when no transition is in flight.
pub fn transition_status_text(sm: &AnimationStateMachine) -> (r: String)
    requires
        sm.wf(),
    ensures
        match sm.view().current_transition {
            Some(ct) => r@ == "Transitioning: "@ + ct.0 + " -> "@ + ct.1 + " ("@ + percent_str(
                ct.2 as int,
            ) + "%)"@,
            None => r@ == "No active transition"@,
        },
{
    match sm.current_transition() {
        Some(t) => {
            let mut s = "Transitioning: ".to_owned();
            s.append(t.0.as_str());
            s.append(" -> ");
            s.append(t.1.as_str());
            s.append(" (");
            let pct = percent_to_string(t.2);
            s.append(pct.as_str());
            s.append("%)");
            s
        },
        None => "No active transition".to_owned(),
    }
}

/// Two spaces of indentation per tree level.
pub open spec fn indent_str(k: int) -> Seq<char>
    decreases k,
{
    if k <= 0 {
        Seq::empty()
    } else {
        indent_str(k - 1) + "  "@
    }
}

fn indent_string(k: usize) -> (r: String)
    ensures
        r@ == indent_str(k as int),
{
    let mut s = String::new();
    let mut i: usize = 0;
    while i < k
        invariant
            0 <= i <= k,
            s@ == indent_str(i as int),
        decreases k - i,
    {
        s.append("  ");
        i = i + 1;
    }
    s
}

pub open spec fn blend_type_name(t: BlendType) -> Seq<char> {
    match t {
        BlendType::Linear => "Linear"@,
        BlendType::Additive => "Additive"@,
        BlendType::Override => "Override"@,
    }
}

/// The dump line for one node: its weight and blend type, indented by its
/// depth.
pub open spec fn node_line(depth: int, n: BlendNode) -> Seq<char> {
    indent_str(depth) + "Node: Weight="@ + milli_str(n.weight as int) + ", Type="@
        + blend_type_name(n.blend_type)
}

/// The dump line for one blend parameter of a node.
pub open spec fn param_line(depth: int, p: BlendParameter) -> Seq<char> {
    indent_str(depth) + "  Parameter: "@ + p.name@ + " = "@ + milli_str(p.value as int) + " ("@
        + milli_str(p.range.0 as int) + ".."@ + milli_str(p.range.1 as int) + ")"@
}

pub open spec fn param_lines(ps: Seq<BlendParameter>, depth: int, k: int) -> Seq<Seq<char>>
    decreases k,
{
    if 0 < k <= ps.len() {
        param_lines(ps, depth, k - 1).push(param_line(depth, ps[k - 1]))
    } else {
        Seq::empty()
    }
}

/// The dump of a subtree: the node's own line, its parameter lines, then
/// every child's dump, one level deeper.
pub open spec fn dump_lines(n: BlendNode, depth: int) -> Seq<Seq<char>>
    decreases n, 0int,
{
    seq![node_line(depth, n)] + param_lines(n.parameters@, depth, n.parameters@.len() as int)
        + children_lines(n.children@, depth, n.children@.len() as int)
}

pub open spec fn children_lines(s: Seq<BlendNode>, depth: int, k: int) -> Seq<Seq<char>>
    decreases s, k,
{
    if 0 < k <= s.len() {
        children_lines(s, depth, k - 1) + dump_lines(s[k - 1], depth + 1)
    } else {
        Seq::empty()
    }
}

/// The height of a blend subtree, counting this node.
pub open spec fn tree_height(n: BlendNode) -> int
    decreases n, 0int,
{
    1 + children_height(n.children@, n.children@.len() as int)
}

pub open spec fn children_height(s: Seq<BlendNode>, k: int) -> int
    decreases s, k,
{
    if 0 < k <= s.len() {
        let rest = children_height(s, k - 1);
        let h = tree_height(s[k - 1]);
        if h > rest {
            h
        } else {
            rest
        }
    } else {
        0
    }
}

proof fn lemma_children_height_at(s: Seq<BlendNode>, k: int, j: int)
    requires
        0 <= j < k <= s.len(),
    ensures
        tree_height(s[j]) <= children_height(s, k),
        0 <= children_height(s, k),
    decreases k,
{
    if j < k - 1 {
        lemma_children_height_at(s, k - 1, j);
    } else {
        lemma_children_height_nonneg(s, k - 1);
    }
}

proof fn lemma_children_height_nonneg(s: Seq<BlendNode>, k: int)
    requires
        0 <= k <= s.len(),
    ensures
        0 <= children_height(s, k),
    decreases k,
{
    if k > 0 {
        lemma_children_height_nonneg(s, k - 1);
    }
}

#[verifier::loop_isolation(false)]
fn dump_node_lines(node: &BlendNode, depth: usize, out: &mut Vec<String>)
    requires
        depth + tree_height(*node) <= usize::MAX,
    ensures
        final(out)@.len() == old(out)@.len() + dump_lines(*node, depth as int).len(),
        forall|j: int| 0 <= j < old(out)@.len() ==> final(out)@[j] == old(out)@[j],
        forall|j: int|
            0 <= j < dump_lines(*node, depth as int).len() ==> (#[trigger] final(out)@[old(
                out,
            )@.len() + j])@ == dump_lines(*node, depth as int)[j],
    decreases *node,
{
    let ghost lines = dump_lines(*node, depth as int);
    let indent = indent_string(depth);
    let mut line = indent.as_str().to_owned();
    line.append("Node: Weight=");
    let w = fixed_to_string(node.weight);
    line.append(w.as_str());
    line.append(", Type=");
    match node.blend_type {
        BlendType::Linear => line.append("Linear"),
        BlendType::Additive => line.append("Additive"),
        BlendType::Override => line.append("Override"),
    }
    proof {
        assert(line@ == node_line(depth as int, *node));
    }
    out.push(line);
    let np: usize = node.parameters.len();
    let mut i: usize = 0;
    while i < np
        invariant
            np == node.parameters@.len(),
            0 <= i <= np,
            out@.len() == old(out)@.len() + 1 + i,
            forall|j: int| 0 <= j < old(out)@.len() ==> out@[j] == old(out)@[j],
            (#[trigger] out@[old(out)@.len() as int])@ == node_line(depth as int, *node),
            forall|j: int|
                0 <= j < i ==> (#[trigger] out@[old(out)@.len() + 1 + j])@ == param_line(
                    depth as int,
                    node.parameters@[j],
                ),
        decreases np - i,
    {
        let p = &node.parameters[i];
        let mut pl = indent.as_str().to_owned();
        pl.append("  Parameter: ");
        pl.append(p.name.as_str());
        pl.append(" = ");
        let vs = fixed_to_string(p.value);
        pl.append(vs.as_str());
        pl.append(" (");
        let lo = fixed_to_string(p.range.0);
        pl.append(lo.as_str());
        pl.append("..");
        let hi = fixed_to_string(p.range.1);
        pl.append(hi.as_str());
        pl.append(")");
        proof {
            assert(pl@ == param_line(depth as int, node.parameters@[i as int]));
        }
        out.push(pl);
        i = i + 1;
    }
    let nc: usize = node.children.len();
    let mut c: usize = 0;
    while c < nc
        invariant
            nc == node.children@.len(),
            np == node.parameters@.len(),
            0 <= c <= nc,
            depth + tree_height(*node) <= usize::MAX,
            out@.len() == old(out)@.len() + 1 + np + children_lines(
                node.children@,
                depth as int,
                c as int,
            ).len(),
            forall|j: int| 0 <= j < old(out)@.len() ==> out@[j] == old(out)@[j],
            (#[trigger] out@[old(out)@.len() as int])@ == node_line(depth as int, *node),
            forall|j: int|
                0 <= j < np ==> (#[trigger] out@[old(out)@.len() + 1 + j])@ == param_line(
                    depth as int,
                    node.parameters@[j],
                ),
            forall|j: int|
                0 <= j < children_lines(node.children@, depth as int, c as int).len() ==> (
                #[trigger] out@[old(out)@.len() + 1 + np + j])@ == children_lines(
                    node.children@,
                    depth as int,
                    c as int,
                )[j],
        decreases nc - c,
    {
        proof {
            broadcast use vstd::seq::axiom_seq_index_decreases, vstd::std_specs::vec::axiom_vec_decreases_to_view;

            assert(decreases_to!(*node => node.children));
            assert(decreases_to!(node.children => node.children@));
            assert(decreases_to!(node.children@ => node.children@[c as int]));
            lemma_children_height_at(node.children@, nc as int, c as int);
        }
        let ghost out_prev = out@;
        dump_node_lines(&node.children[c], depth + 1, out);
        proof {
            let prev_cl = children_lines(node.children@, depth as int, c as int);
            let new_cl = children_lines(node.children@, depth as int, c as int + 1);
            let dl = dump_lines(node.children@[c as int], depth as int + 1);
            assert(new_cl == prev_cl + dl);
            assert forall|j: int| 0 <= j < new_cl.len() implies (#[trigger] out@[old(out)@.len() + 1
                + np + j])@ == new_cl[j] by {
                if j < prev_cl.len() {
                    assert(out@[old(out)@.len() + 1 + np + j] == out_prev[old(out)@.len() + 1 + np
                        + j]);
                    assert(new_cl[j] == prev_cl[j]);
                } else {
                    assert(out@[out_prev.len() + (j - prev_cl.len())]@ == dl[j - prev_cl.len()]);
                    assert(new_cl[j] == dl[j - prev_cl.len()]);
                }
            }
        }
        c = c + 1;
    }
    proof {
        lemma_param_lines_len(node.parameters@, depth as int, np as int);
        assert(out@.len() == old(out)@.len() + lines.len());
        assert forall|j: int| 0 <= j < lines.len() implies (#[trigger] out@[old(out)@.len() + j])@
            == lines[j] by {
            if j == 0 {
                assert(lines[j] == node_line(depth as int, *node));
                assert((out@[old(out)@.len() as int])@ == node_line(depth as int, *node));
            } else if j < 1 + np {
                assert(param_lines(node.parameters@, depth as int, np as int)[j - 1] == param_line(
                    depth as int,
                    node.parameters@[j - 1],
                )) by {
                    lemma_param_lines_at(node.parameters@, depth as int, np as int, j - 1);
                }
                assert(lines[j] == param_line(depth as int, node.parameters@[j - 1]));
                assert((out@[old(out)@.len() + 1 + (j - 1)])@ == param_line(
                    depth as int,
                    node.parameters@[j - 1],
                ));
            } else {
                assert(lines[j] == children_lines(node.children@, depth as int, nc as int)[j - 1
                    - np]);
                assert((out@[old(out)@.len() + 1 + np + (j - 1 - np)])@ == children_lines(
                    node.children@,
                    depth as int,
                    nc as int,
                )[j - 1 - np]);
            }
        }
    }
}

proof fn lemma_param_lines_at(ps: Seq<BlendParameter>, depth: int, k: int, j: int)
    requires
        0 <= j < k <= ps.len(),
    ensures
        param_lines(ps, depth, k).len() == k,
        param_lines(ps, depth, k)[j] == param_line(depth, ps[j]),
    decreases k,
{
    lemma_param_lines_len(ps, depth, k);
    if j < k - 1 {
        lemma_param_lines_at(ps, depth, k - 1, j);
    }
}

proof fn lemma_param_lines_len(ps: Seq<BlendParameter>, depth: int, k: int)
    requires
        0 <= k <= ps.len(),
    ensures
        param_lines(ps, depth, k).len() == k,
    decreases k,
{
    if k > 0 {
        lemma_param_lines_len(ps, depth, k - 1);
    }
}

/// The indented dump of a whole blend tree: for every node its weight,
/// blend type and parameters, children two spaces deeper, in depth-first
/// order.
pub fn blend_tree_dump(tree: &BlendTree) -> (r: Vec<String>)
    requires
        tree_height(tree.root) <= usize::MAX,
    ensures
        r@.len() == dump_lines(tree.root, 0).len(),
        forall|j: int|
            0 <= j < r@.len() ==> (#[trigger] r@[j])@ == dump_lines(tree.root, 0)[j],
{
    let mut out: Vec<String> = Vec::new();
    dump_node_lines(&tree.root, 0, &mut out);
    proof {
        assert forall|j: int| 0 <= j < out@.len() implies (#[trigger] out@[j])@ == dump_lines(
            tree.root,
            0,
        )[j] by {
            assert((out@[0 + j])@ == dump_lines(tree.root, 0)[j]);
        }
    }
    out
}

} // verus!
