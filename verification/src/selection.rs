//! Directional focus navigation and redirect resolution over the widget
//! tree.
//!
//! Focus always rests on a selectable node. Selecting a node that
//! redirects follows the redirect chain; a chain longer than the node
//! count must revisit a node, so such a configuration is rejected as a
//! cycle. On a directional input the focused widget may consume the move
//! itself; otherwise the nearest node in that direction, by squared
//! distance between bounds centers, receives focus after its redirects
//! are resolved.

use vstd::prelude::*;
use crate::events::SelectionAction;
use crate::geometry::Rect;
use crate::widgets::{NodeId, SelectableType};

verus! {

/// What focus navigation knows of one tree node: where it is, and how it
/// takes part in selection.
#[derive(Clone, Copy, Debug, PartialEq, Eq, Structural)]
pub struct LayoutNode {
    pub bounds: Rect,
    pub selectable: SelectableType,
}

/// The outcome of resolving selectability on a node.
#[derive(Clone, Copy, Debug, PartialEq, Eq, Structural)]
pub enum Resolution {
    Target(NodeId),
    NotSelectable,
    OutOfTree,
    Cycle,
}

/// A directional focus movement.
#[derive(Clone, Copy, Debug, PartialEq, Eq, Structural)]
pub enum MovementDirection {
    Left,
    Right,
    Up,
    Down,
}

/// Resolution with bounded fuel: each redirect hop consumes one unit, and
/// exhausted fuel reports a cycle.
pub open spec fn resolve_spec(nodes: Seq<LayoutNode>, id: int, fuel: nat) -> Resolution
    decreases fuel,
{
    if !(0 <= id < nodes.len()) {
        Resolution::OutOfTree
    } else {
        match nodes[id].selectable {
            SelectableType::Selectable => Resolution::Target(NodeId { index: id as usize }),
            SelectableType::Unselectable => Resolution::NotSelectable,
            SelectableType::Redirect(t) => if fuel == 0 {
                Resolution::Cycle
            } else {
                resolve_spec(nodes, t.index as int, (fuel - 1) as nat)
            },
        }
    }
}

/// The node reached after one redirect hop, or an out-of-range marker.
pub open spec fn chain_step(nodes: Seq<LayoutNode>, id: int) -> int {
    if 0 <= id < nodes.len() {
        match nodes[id].selectable {
            SelectableType::Redirect(t) => t.index as int,
            _ => -1,
        }
    } else {
        -1
    }
}

/// The node reached after `k` redirect hops from `id`.
pub open spec fn chain_node(nodes: Seq<LayoutNode>, id: int, k: nat) -> int
    decreases k,
{
    if k == 0 {
        id
    } else {
        chain_step(nodes, chain_node(nodes, id, (k - 1) as nat))
    }
}

proof fn lemma_chain_shift(nodes: Seq<LayoutNode>, id: int, k: nat)
    ensures
        chain_node(nodes, id, k + 1) == chain_node(nodes, chain_step(nodes, id), k),
    decreases k,
{
    if k == 0 {
        assert(chain_node(nodes, id, 1) == chain_step(nodes, chain_node(nodes, id, 0)));
    } else {
        lemma_chain_shift(nodes, id, (k - 1) as nat);
        assert(chain_node(nodes, id, k + 1) == chain_step(nodes, chain_node(nodes, id, k)));
        assert(chain_node(nodes, chain_step(nodes, id), k) == chain_step(
            nodes,
            chain_node(nodes, chain_step(nodes, id), (k - 1) as nat),
        ));
    }
}

/// Whether the node is in the tree and redirects.
pub open spec fn is_redirect(nodes: Seq<LayoutNode>, id: int) -> bool {
    0 <= id < nodes.len() && (nodes[id].selectable matches SelectableType::Redirect(_))
}

/// When resolution runs out of fuel, every node the chain walked through
/// redirects in turn.
proof fn lemma_cycle_all_redirect(nodes: Seq<LayoutNode>, id: int, fuel: nat)
    requires
        resolve_spec(nodes, id, fuel) == Resolution::Cycle,
    ensures
        forall|k: nat| k <= fuel ==> is_redirect(nodes, #[trigger] chain_node(nodes, id, k)),
    decreases fuel,
{
    assert(is_redirect(nodes, id));
    assert(chain_node(nodes, id, 0) == id);
    if fuel > 0 {
        let t = chain_step(nodes, id);
        lemma_cycle_all_redirect(nodes, t, (fuel - 1) as nat);
        assert forall|k: nat| k <= fuel implies is_redirect(
            nodes,
            #[trigger] chain_node(nodes, id, k),
        ) by {
            if k > 0 {
                lemma_chain_shift(nodes, id, (k - 1) as nat);
                assert(chain_node(nodes, id, k) == chain_node(nodes, t, (k - 1) as nat));
            }
        }
    }
}

/// Redirect resolution is bounded: with fuel equal to the node count it
/// either finds its verdict, or reports a cycle only when the redirect
/// chain truly revisits a node — which a construction-time validation
/// rejects as a configuration error.
pub proof fn lemma_redirect_resolution_terminates(nodes: Seq<LayoutNode>, id: int)
    ensures
        resolve_spec(nodes, id, nodes.len()) == Resolution::Cycle ==> exists|i: int, j: int|
            0 <= i < j <= nodes.len() && #[trigger] chain_node(nodes, id, i as nat)
                == #[trigger] chain_node(nodes, id, j as nat),
{
    if resolve_spec(nodes, id, nodes.len()) == Resolution::Cycle {
        let n = nodes.len();
        lemma_cycle_all_redirect(nodes, id, n);
        let walked = Seq::new(n + 1, |k: int| chain_node(nodes, id, k as nat));
        assert forall|k: int| 0 <= k < walked.len() implies 0 <= #[trigger] walked[k] < n by {
            assert(is_redirect(nodes, chain_node(nodes, id, k as nat)));
        }
        if walked.no_duplicates() {
            walked.unique_seq_to_set();
            assert(walked.to_set().len() == n + 1);
            assert(walked.to_set().subset_of(vstd::set_lib::set_int_range(0, n as int))) by {
                assert forall|x: int|
                    walked.to_set().contains(x) implies vstd::set_lib::set_int_range(
                    0,
                    n as int,
                ).contains(x) by {
                    let k = choose|k: int| 0 <= k < walked.len() && walked[k] == x;
                    assert(0 <= walked[k] < n);
                }
            }
            vstd::set_lib::lemma_int_range(0, n as int);
            vstd::set_lib::lemma_len_subset(
                walked.to_set(),
                vstd::set_lib::set_int_range(0, n as int),
            );
            assert(false);
        } else {
            let (a, b) = choose|a: int, b: int|
                0 <= a < walked.len() && 0 <= b < walked.len() && a != b && #[trigger] walked[a]
                    == #[trigger] walked[b];
            let i = if a < b {
                a
            } else {
                b
            };
            let j = if a < b {
                b
            } else {
                a
            };
            assert(0 <= i < j <= n);
            assert(chain_node(nodes, id, i as nat) == chain_node(nodes, id, j as nat));
        }
    }
}

/// A resolution that found a target found a selectable node, and
/// resolving the target itself yields the target again, with any fuel.
pub proof fn lemma_target_selectable(nodes: Seq<LayoutNode>, id: int, fuel: nat, t: NodeId)
    requires
        nodes.len() <= usize::MAX as nat,
        resolve_spec(nodes, id, fuel) == Resolution::Target(t),
    ensures
        (t.index as int) < nodes.len(),
        nodes[t.index as int].selectable == SelectableType::Selectable,
        forall|f: nat| resolve_spec(nodes, t.index as int, f) == Resolution::Target(t),
    decreases fuel,
{
    if 0 <= id < nodes.len() {
        match nodes[id].selectable {
            SelectableType::Redirect(next) => {
                lemma_target_selectable(nodes, next.index as int, (fuel - 1) as nat, t);
            },
            SelectableType::Selectable => {
                assert(t == (NodeId { index: id as usize }));
                assert(t.index as int == id);
                assert forall|f: nat|
                    resolve_spec(nodes, t.index as int, f) == Resolution::Target(t) by {
                    assert((t.index as int) < nodes.len());
                }
            },
            SelectableType::Unselectable => {
                assert(false);
            },
        }
    } else {
        assert(false);
    }
}

fn resolve_from(nodes: &Vec<LayoutNode>, id: usize, fuel: usize) -> (r: Resolution)
    ensures
        r == resolve_spec(nodes@, id as int, fuel as nat),
    decreases fuel,
{
    if id >= nodes.len() {
        return Resolution::OutOfTree;
    }
    match nodes[id].selectable {
        SelectableType::Selectable => Resolution::Target(NodeId { index: id }),
        SelectableType::Unselectable => Resolution::NotSelectable,
        SelectableType::Redirect(t) => {
            if fuel == 0 {
                Resolution::Cycle
            } else {
                resolve_from(nodes, t.index, fuel - 1)
            }
        },
    }
}

/// Resolves selectability on a node: follows redirects to a selectable
/// node, and rejects chains that cannot terminate as cycles.
pub fn resolve_selectable(nodes: &Vec<LayoutNode>, start: NodeId) -> (r: Resolution)
    ensures
        r == resolve_spec(nodes@, start.index as int, nodes@.len()),
{
    resolve_from(nodes, start.index, nodes.len())
}

/// True when every redirecting node's chain ends at a selectable node:
/// the construction-time validation of the selection graph.
pub fn validate_selection_graph(nodes: &Vec<LayoutNode>) -> (r: bool)
    ensures
        r == forall|i: int|
            0 <= i < nodes@.len() && is_redirect(nodes@, i) ==> (#[trigger] resolve_spec(
                nodes@,
                i,
                nodes@.len(),
            )) matches Resolution::Target(_),
{
    let mut i: usize = 0;
    while i < nodes.len()
        invariant
            i <= nodes@.len(),
            forall|j: int|
                0 <= j < i && is_redirect(nodes@, j) ==> (#[trigger] resolve_spec(
                    nodes@,
                    j,
                    nodes@.len(),
                )) matches Resolution::Target(_),
        decreases nodes@.len() - i,
    {
        let redirects = match nodes[i].selectable {
            SelectableType::Redirect(_) => true,
            _ => false,
        };
        if redirects {
            match resolve_selectable(nodes, NodeId { index: i }) {
                Resolution::Target(_) => {},
                _ => {
                    return false;
                },
            }
        }
        i = i + 1;
    }
    true
}

/// The center of a rectangle, for distance comparisons.
pub open spec fn center_x(r: Rect) -> int {
    r.x + r.width / 2
}

pub open spec fn center_y(r: Rect) -> int {
    r.y + r.height / 2
}

/// Squared distance between the centers of two rectangles.
pub open spec fn center_dist2(a: Rect, b: Rect) -> int {
    (center_x(a) - center_x(b)) * (center_x(a) - center_x(b)) + (center_y(a) - center_y(b)) * (
    center_y(a) - center_y(b))
}

/// Whether `to` lies in the given direction of `from`, by centers.
pub open spec fn in_direction(dir: MovementDirection, from: Rect, to: Rect) -> bool {
    match dir {
        MovementDirection::Left => center_x(to) < center_x(from),
        MovementDirection::Right => center_x(to) > center_x(from),
        MovementDirection::Up => center_y(to) < center_y(from),
        MovementDirection::Down => center_y(to) > center_y(from),
    }
}

/// A node focus can move to from `from` in direction `dir`: another node,
/// positioned accordingly, that is selectable or redirects.
pub open spec fn is_focus_candidate(
    nodes: Seq<LayoutNode>,
    from: int,
    dir: MovementDirection,
    i: int,
) -> bool {
    &&& 0 <= i < nodes.len()
    &&& i != from
    &&& !(nodes[i].selectable matches SelectableType::Unselectable)
    &&& in_direction(dir, nodes[from].bounds, nodes[i].bounds)
}

/// The candidate focus moves to: in the right direction, at the smallest
/// squared center distance, and the earliest such node on a tie. There is
/// at most one such node.
pub open spec fn nearest_candidate(
    nodes: Seq<LayoutNode>,
    from: int,
    dir: MovementDirection,
    c: int,
) -> bool {
    &&& is_focus_candidate(nodes, from, dir, c)
    &&& forall|j: int|
        is_focus_candidate(nodes, from, dir, j) ==> center_dist2(nodes[from].bounds, nodes[c].bounds)
            <= center_dist2(nodes[from].bounds, #[trigger] nodes[j].bounds)
    &&& forall|j: int|
        is_focus_candidate(nodes, from, dir, j) && j < c ==> center_dist2(
            nodes[from].bounds,
            nodes[c].bounds,
        ) < center_dist2(nodes[from].bounds, #[trigger] nodes[j].bounds)
}

/// Two nearest candidates are the same node.
pub proof fn lemma_nearest_candidate_unique(
    nodes: Seq<LayoutNode>,
    from: int,
    dir: MovementDirection,
    c1: int,
    c2: int,
)
    requires
        nearest_candidate(nodes, from, dir, c1),
        nearest_candidate(nodes, from, dir, c2),
    ensures
        c1 == c2,
{
    if c1 < c2 {
        assert(center_dist2(nodes[from].bounds, nodes[c2].bounds) < center_dist2(
            nodes[from].bounds,
            nodes[c1].bounds,
        ));
        assert(center_dist2(nodes[from].bounds, nodes[c1].bounds) <= center_dist2(
            nodes[from].bounds,
            nodes[c2].bounds,
        ));
    } else if c2 < c1 {
        assert(center_dist2(nodes[from].bounds, nodes[c1].bounds) < center_dist2(
            nodes[from].bounds,
            nodes[c2].bounds,
        ));
        assert(center_dist2(nodes[from].bounds, nodes[c2].bounds) <= center_dist2(
            nodes[from].bounds,
            nodes[c1].bounds,
        ));
    }
}

fn center_of(r: &Rect) -> (c: (u32, u32))
    ensures
        c.0 == center_x(*r),
        c.1 == center_y(*r),
{
    ((r.x as u32) + (r.width as u32) / 2, (r.y as u32) + (r.height as u32) / 2)
}

fn dist2_exec(a: &Rect, b: &Rect) -> (d: u64)
    ensures
        d == center_dist2(*a, *b),
{
    let (ax, ay) = center_of(a);
    let (bx, by) = center_of(b);
    let dx: u64 = if ax >= bx {
        (ax - bx) as u64
    } else {
        (bx - ax) as u64
    };
    let dy: u64 = if ay >= by {
        (ay - by) as u64
    } else {
        (by - ay) as u64
    };
    proof {
        let sdx = center_x(*a) - center_x(*b);
        let sdy = center_y(*a) - center_y(*b);
        assert(dx * dx == sdx * sdx && dy * dy == sdy * sdy && dx * dx + dy * dy <= u64::MAX)
            by (nonlinear_arith)
            requires
                dx == if sdx >= 0 {
                    sdx
                } else {
                    -sdx
                },
                dy == if sdy >= 0 {
                    sdy
                } else {
                    -sdy
                },
                0 <= dx < 0x40000,
                0 <= dy < 0x40000,
        ;
    }
    dx * dx + dy * dy
}

/// The nearest focus candidate in the given direction: smallest squared
/// center distance, earliest node on a tie.
pub fn find_next_widget(nodes: &Vec<LayoutNode>, from: NodeId, dir: MovementDirection) -> (r:
    Option<NodeId>)
    requires
        (from.index as int) < nodes@.len(),
    ensures
        match r {
            Some(c) => nearest_candidate(nodes@, from.index as int, dir, c.index as int),
            None => forall|j: int| !is_focus_candidate(nodes@, from.index as int, dir, j),
        },
{
    let origin = nodes[from.index].bounds;
    let mut best: Option<NodeId> = None;
    let mut best_dist: u64 = 0;
    let mut i: usize = 0;
    while i < nodes.len()
        invariant
            i <= nodes@.len(),
            (from.index as int) < nodes@.len(),
            origin == nodes@[from.index as int].bounds,
            match best {
                Some(c) => {
                    &&& is_focus_candidate(nodes@, from.index as int, dir, c.index as int)
                    &&& (c.index as int) < i
                    &&& best_dist == center_dist2(origin, nodes@[c.index as int].bounds)
                    &&& forall|j: int|
                        is_focus_candidate(nodes@, from.index as int, dir, j) && j < i ==> best_dist
                            <= center_dist2(origin, #[trigger] nodes@[j].bounds)
                    &&& forall|j: int|
                        is_focus_candidate(nodes@, from.index as int, dir, j) && j < c.index
                            ==> best_dist < center_dist2(origin, #[trigger] nodes@[j].bounds)
                },
                None => forall|j: int|
                    j < i ==> !is_focus_candidate(nodes@, from.index as int, dir, j),
            },
        decreases nodes@.len() - i,
    {
        if i != from.index {
            let node = &nodes[i];
            let selectable = match node.selectable {
                SelectableType::Unselectable => false,
                _ => true,
            };
            let dirs = {
                let (ox, oy) = center_of(&origin);
                let (cx, cy) = center_of(&node.bounds);
                match dir {
                    MovementDirection::Left => cx < ox,
                    MovementDirection::Right => cx > ox,
                    MovementDirection::Up => cy < oy,
                    MovementDirection::Down => cy > oy,
                }
            };
            if selectable && dirs {
                let d = dist2_exec(&origin, &node.bounds);
                let better = match best {
                    Some(_) => d < best_dist,
                    None => true,
                };
                if better {
                    best = Some(NodeId { index: i });
                    best_dist = d;
                }
            }
        }
        i = i + 1;
    }
    best
}

/// One directional focus movement: the focused widget's own response is
/// honored first; otherwise focus moves to the nearest candidate in that
/// direction, with its redirects resolved, and stays put at the edge of
/// the dashboard or when the candidate's chain does not reach a
/// selectable node.
pub fn move_widget_selection(
    nodes: &Vec<LayoutNode>,
    focused: NodeId,
    dir: MovementDirection,
    widget_response: SelectionAction,
) -> (r: NodeId)
    requires
        (focused.index as int) < nodes@.len(),
    ensures
        widget_response == SelectionAction::Handled ==> r == focused,
        (forall|j: int| !is_focus_candidate(nodes@, focused.index as int, dir, j)) ==> r
            == focused,
        widget_response == SelectionAction::NotHandled ==> forall|c: int|
            nearest_candidate(nodes@, focused.index as int, dir, c) ==> (match #[trigger] resolve_spec(
                nodes@,
                c,
                nodes@.len(),
            ) {
                Resolution::Target(t) => r == t,
                _ => r == focused,
            }),
        r == focused || (resolve_spec(nodes@, r.index as int, nodes@.len()) matches
            Resolution::Target(t) && t == r),
{
    match widget_response {
        SelectionAction::Handled => focused,
        SelectionAction::NotHandled => {
            match find_next_widget(nodes, focused, dir) {
                Some(candidate) => {
                    proof {
                        assert forall|c: int|
                            nearest_candidate(nodes@, focused.index as int, dir, c) implies c
                            == candidate.index as int by {
                            lemma_nearest_candidate_unique(
                                nodes@,
                                focused.index as int,
                                dir,
                                c,
                                candidate.index as int,
                            );
                        }
                    }
                    match resolve_selectable(nodes, candidate) {
                        Resolution::Target(t) => {
                            proof {
                                vstd::std_specs::vec::axiom_spec_len(nodes);
                                lemma_target_selectable(
                                    nodes@,
                                    candidate.index as int,
                                    nodes@.len(),
                                    t,
                                );
                            }
                            t
                        },
                        _ => focused,
                    }
                },
                None => {
                    proof {
                        assert forall|c: int|
                            !nearest_candidate(nodes@, focused.index as int, dir, c) by {
                            if nearest_candidate(nodes@, focused.index as int, dir, c) {
                                assert(is_focus_candidate(nodes@, focused.index as int, dir, c));
                            }
                        }
                    }
                    focused
                },
            }
        },
    }
}

} // verus!
