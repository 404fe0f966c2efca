use vstd::prelude::*;
use crate::bsp::{lemma_height_positive, tree_has, BSPPolygon, DIFBSPNode, RayCase};
use crate::builder::{low16, low16_of, BuildError, DIFBuilder};
use crate::interior::{
    BSPIndex, BSPNode, BSPSolidLeaf, Interior, InteriorView, PlaneIndex,
    PossiblyNullSurfaceIndex, SolidLeafSurfaceIndex,
};
use crate::io::{count_of, list_count};

verus! {

/// The tables of an interior that hold its BSP tree.
pub struct BspTables {
    pub nodes: Seq<BSPNode>,
    pub leaves: Seq<BSPSolidLeaf>,
    pub leaf_surfaces: Seq<PossiblyNullSurfaceIndex>,
}

/// The BSP tables of an interior.
pub open spec fn tables_of(x: InteriorView) -> BspTables {
    BspTables {
        nodes: x.bsp_nodes,
        leaves: x.bsp_solid_leaves,
        leaf_surfaces: x.solid_leaf_surfaces,
    }
}

/// The child that stands for empty space.
pub open spec fn empty_leaf() -> BSPIndex {
    BSPIndex { index: 0, leaf: true, solid: false }
}

/// `s` with `x` added at the end, unless it is there.
pub open spec fn add_surface_once(s: Seq<PossiblyNullSurfaceIndex>, x: PossiblyNullSurfaceIndex) -> Seq<
    PossiblyNullSurfaceIndex,
> {
    if s.contains(x) {
        s
    } else {
        s.push(x)
    }
}

/// The surfaces of the first `n` polygons of a leaf, each once, in the
/// order in which they are first met. A polygon of a triangle that has no
/// surface adds nothing.
pub open spec fn leaf_surfaces_of(
    brushes: Seq<BSPPolygon>,
    face_to_surface: Seq<Option<PossiblyNullSurfaceIndex>>,
    n: nat,
) -> Seq<PossiblyNullSurfaceIndex>
    decreases n,
{
    if n == 0 {
        Seq::empty()
    } else {
        let rest = leaf_surfaces_of(brushes, face_to_surface, (n - 1) as nat);
        let id = brushes[n - 1].id;
        if id < face_to_surface.len() {
            match face_to_surface[id as int] {
                Some(surface) => add_surface_once(rest, surface),
                None => rest,
            }
        } else {
            rest
        }
    }
}

/// Whether triangle `id` has a surface.
pub open spec fn has_surface(face_to_surface: Seq<Option<PossiblyNullSurfaceIndex>>, id: usize) -> bool {
    id < face_to_surface.len() && face_to_surface[id as int] is Some
}

/// Whether a tree can be put into the tables: each of its planes is one
/// of the `planes` planes that have an entry, and each polygon in a leaf
/// belongs to a triangle that has a surface.
pub open spec fn tree_known(
    node: DIFBSPNode,
    face_to_surface: Seq<Option<PossiblyNullSurfaceIndex>>,
    planes: nat,
) -> bool
    decreases node,
{
    match node.plane_index {
        None => forall|i: int|
            0 <= i < node.brush_list@.len() ==> has_surface(
                face_to_surface,
                (#[trigger] node.brush_list@[i]).id,
            ),
        Some(p) => p < planes && (match node.front {
            Some(n) => tree_known(*n, face_to_surface, planes),
            None => true,
        }) && (match node.back {
            Some(n) => tree_known(*n, face_to_surface, planes),
            None => true,
        }),
    }
}

/// The plane of the interior that stands for plane `p` of the tree. A
/// tree that is known names no plane without an entry.
pub open spec fn stored_plane(plane_of: Seq<PlaneIndex>, p: usize) -> u16 {
    if p < plane_of.len() {
        plane_of[p as int].value()
    } else {
        0
    }
}

/// What the tables hold after the tree below `node` was put into them,
/// and the child that stands for the tree. A leaf with polygons becomes a
/// solid leaf with the surfaces of its polygons; a leaf without surfaces
/// is empty space. A node takes the next place in the table of nodes,
/// then come its front and its back. Where the plane of the interior is
/// the plane of the node turned round, front and back change places.
pub open spec fn export_tree(
    node: DIFBSPNode,
    face_to_surface: Seq<Option<PossiblyNullSurfaceIndex>>,
    plane_of: Seq<PlaneIndex>,
    t: BspTables,
) -> (BSPIndex, BspTables)
    decreases node,
{
    match node.plane_index {
        None => {
            let found = leaf_surfaces_of(node.brush_list@, face_to_surface, node.brush_list@.len());
            if found.len() == 0 {
                (empty_leaf(), t)
            } else {
                (
                    BSPIndex { index: list_count(t.leaves.len()), leaf: true, solid: true },
                    BspTables {
                        leaves: t.leaves.push(
                            BSPSolidLeaf {
                                surface_index: SolidLeafSurfaceIndex::of(
                                    list_count(t.leaf_surfaces.len()),
                                ),
                                surface_count: low16(found.len()),
                            },
                        ),
                        leaf_surfaces: t.leaf_surfaces + found,
                        ..t
                    },
                )
            }
        },
        Some(p) => {
            let place = t.nodes.len() as int;
            let t1 = BspTables {
                nodes: t.nodes.push(
                    BSPNode {
                        plane_index: PlaneIndex::of(0u16),
                        front_index: empty_leaf(),
                        back_index: empty_leaf(),
                    },
                ),
                ..t
            };
            let stored = stored_plane(plane_of, p);
            let flipped = stored & 0x8000 != 0;
            let (front, t2) = match node.front {
                Some(n) => export_tree(*n, face_to_surface, plane_of, t1),
                None => (empty_leaf(), t1),
            };
            let (back, t3) = match node.back {
                Some(n) => export_tree(*n, face_to_surface, plane_of, t2),
                None => (empty_leaf(), t2),
            };
            let record = BSPNode {
                plane_index: PlaneIndex::of(stored & 0x7FFF),
                front_index: if flipped {
                    back
                } else {
                    front
                },
                back_index: if flipped {
                    front
                } else {
                    back
                },
            };
            (
                BSPIndex { index: list_count(place as nat), leaf: false, solid: false },
                BspTables { nodes: t3.nodes.update(place, record), ..t3 },
            )
        },
    }
}

/// Putting a tree into the tables leaves what was there, and makes no
/// table shorter.
pub proof fn lemma_export_grows(
    node: DIFBSPNode,
    face_to_surface: Seq<Option<PossiblyNullSurfaceIndex>>,
    plane_of: Seq<PlaneIndex>,
    t: BspTables,
)
    ensures
        export_tree(node, face_to_surface, plane_of, t).1.nodes.len() >= t.nodes.len(),
        export_tree(node, face_to_surface, plane_of, t).1.leaves.len() >= t.leaves.len(),
        export_tree(node, face_to_surface, plane_of, t).1.leaf_surfaces.len()
            >= t.leaf_surfaces.len(),
        forall|i: int|
            0 <= i < t.nodes.len() ==> #[trigger] export_tree(
                node,
                face_to_surface,
                plane_of,
                t,
            ).1.nodes[i] == t.nodes[i],
        forall|i: int|
            0 <= i < t.leaves.len() ==> #[trigger] export_tree(
                node,
                face_to_surface,
                plane_of,
                t,
            ).1.leaves[i] == t.leaves[i],
        forall|i: int|
            0 <= i < t.leaf_surfaces.len() ==> #[trigger] export_tree(
                node,
                face_to_surface,
                plane_of,
                t,
            ).1.leaf_surfaces[i] == t.leaf_surfaces[i],
    decreases node,
{
    match node.plane_index {
        None => {},
        Some(p) => {
            let t1 = BspTables {
                nodes: t.nodes.push(
                    BSPNode {
                        plane_index: PlaneIndex::of(0u16),
                        front_index: empty_leaf(),
                        back_index: empty_leaf(),
                    },
                ),
                ..t
            };
            let t2 = match node.front {
                Some(n) => {
                    lemma_export_grows(*n, face_to_surface, plane_of, t1);
                    export_tree(*n, face_to_surface, plane_of, t1).1
                },
                None => t1,
            };
            match node.back {
                Some(n) => {
                    lemma_export_grows(*n, face_to_surface, plane_of, t2);
                },
                None => {},
            }
        },
    }
}

/// Whether a solid leaf lists the surface.
pub open spec fn leaf_lists(t: BspTables, leaf: int, surface: PossiblyNullSurfaceIndex) -> bool {
    &&& 0 <= leaf < t.leaves.len()
    &&& exists|k: int|
        t.leaves[leaf].surface_index.value() <= k < t.leaves[leaf].surface_index.value()
            + t.leaves[leaf].surface_count && k < t.leaf_surfaces.len()
            && #[trigger] t.leaf_surfaces[k] == surface
}

/// Whether a walk of at most `steps` steps from `from` down the tree in
/// the tables, through nodes that stand at `above` or behind it, comes
/// to a solid leaf that lists the surface.
pub open spec fn reaches(
    t: BspTables,
    from: BSPIndex,
    surface: PossiblyNullSurfaceIndex,
    steps: nat,
    above: int,
) -> bool
    decreases steps,
{
    if from.leaf {
        from.solid && leaf_lists(t, from.index as int, surface)
    } else if steps == 0 {
        false
    } else {
        &&& above <= from.index < t.nodes.len()
        &&& (reaches(t, t.nodes[from.index as int].front_index, surface, (steps - 1) as nat, above)
            || reaches(t, t.nodes[from.index as int].back_index, surface, (steps - 1) as nat, above))
    }
}

/// Whether a leaf of the tree holds a polygon of a triangle with this
/// surface.
pub open spec fn tree_holds(
    node: DIFBSPNode,
    face_to_surface: Seq<Option<PossiblyNullSurfaceIndex>>,
    surface: PossiblyNullSurfaceIndex,
) -> bool
    decreases node,
{
    match node.plane_index {
        None => leaf_surfaces_of(node.brush_list@, face_to_surface, node.brush_list@.len()).contains(
            surface,
        ),
        Some(_) => (match node.front {
            Some(n) => tree_holds(*n, face_to_surface, surface),
            None => false,
        }) || (match node.back {
            Some(n) => tree_holds(*n, face_to_surface, surface),
            None => false,
        }),
    }
}

/// Whether each leaf of the tree has fewer than 65536 surfaces.
pub open spec fn leaves_fit(node: DIFBSPNode, face_to_surface: Seq<Option<PossiblyNullSurfaceIndex>>) -> bool
    decreases node,
{
    match node.plane_index {
        None => leaf_surfaces_of(node.brush_list@, face_to_surface, node.brush_list@.len()).len()
            < 0x1_0000,
        Some(_) => (match node.front {
            Some(n) => leaves_fit(*n, face_to_surface),
            None => true,
        }) && (match node.back {
            Some(n) => leaves_fit(*n, face_to_surface),
            None => true,
        }),
    }
}

/// Whether the tables have no more entries than a count can say.
pub open spec fn tables_fit(t: BspTables) -> bool {
    t.nodes.len() <= 0xFFFF_FFFF && t.leaves.len() <= 0xFFFF_FFFF && t.leaf_surfaces.len()
        <= 0xFFFF_FFFF
}

/// Whether the tables `later` hold what the tables `t` hold, but for the
/// nodes before `above`.
pub open spec fn keeps(t: BspTables, later: BspTables, above: int) -> bool {
    &&& t.nodes.len() <= later.nodes.len()
    &&& t.leaves.len() <= later.leaves.len()
    &&& t.leaf_surfaces.len() <= later.leaf_surfaces.len()
    &&& forall|i: int| above <= i < t.nodes.len() ==> #[trigger] later.nodes[i] == t.nodes[i]
    &&& forall|i: int| 0 <= i < t.leaves.len() ==> #[trigger] later.leaves[i] == t.leaves[i]
    &&& forall|i: int|
        0 <= i < t.leaf_surfaces.len() ==> #[trigger] later.leaf_surfaces[i] == t.leaf_surfaces[i]
}

/// A walk that comes to a surface still does so in tables that keep what
/// it goes through, with more steps, and with more nodes to go through.
pub proof fn lemma_reaches_stays(
    t: BspTables,
    later: BspTables,
    from: BSPIndex,
    surface: PossiblyNullSurfaceIndex,
    steps: nat,
    more_steps: nat,
    above: int,
    lower: int,
)
    requires
        reaches(t, from, surface, steps, above),
        keeps(t, later, above),
        steps <= more_steps,
        lower <= above,
    ensures
        reaches(later, from, surface, more_steps, lower),
    decreases steps,
{
    if from.leaf {
        let leaf = from.index as int;
        let k = choose|k: int|
            t.leaves[leaf].surface_index.value() <= k < t.leaves[leaf].surface_index.value()
                + t.leaves[leaf].surface_count && k < t.leaf_surfaces.len()
                && #[trigger] t.leaf_surfaces[k] == surface;
        assert(later.leaves[leaf] == t.leaves[leaf]);
        assert(later.leaf_surfaces[k] == surface);
    } else {
        let at = from.index as int;
        assert(later.nodes[at] == t.nodes[at]);
        if reaches(t, t.nodes[at].front_index, surface, (steps - 1) as nat, above) {
            lemma_reaches_stays(
                t,
                later,
                t.nodes[at].front_index,
                surface,
                (steps - 1) as nat,
                (more_steps - 1) as nat,
                above,
                lower,
            );
        } else {
            lemma_reaches_stays(
                t,
                later,
                t.nodes[at].back_index,
                surface,
                (steps - 1) as nat,
                (more_steps - 1) as nat,
                above,
                lower,
            );
        }
    }
}

/// The tables with a place taken for a node that is yet to be filled in.
pub open spec fn with_place(t: BspTables) -> BspTables {
    BspTables {
        nodes: t.nodes.push(
            BSPNode {
                plane_index: PlaneIndex::of(0u16),
                front_index: empty_leaf(),
                back_index: empty_leaf(),
            },
        ),
        ..t
    }
}

/// What the front of a node gives, put into tables in which the node has
/// its place.
pub open spec fn front_exported(
    node: DIFBSPNode,
    face_to_surface: Seq<Option<PossiblyNullSurfaceIndex>>,
    plane_of: Seq<PlaneIndex>,
    t: BspTables,
) -> (BSPIndex, BspTables) {
    match node.front {
        Some(n) => export_tree(*n, face_to_surface, plane_of, with_place(t)),
        None => (empty_leaf(), with_place(t)),
    }
}

/// What the back of a node gives, put into the tables behind its front.
pub open spec fn back_exported(
    node: DIFBSPNode,
    face_to_surface: Seq<Option<PossiblyNullSurfaceIndex>>,
    plane_of: Seq<PlaneIndex>,
    t: BspTables,
) -> (BSPIndex, BspTables) {
    let mid = front_exported(node, face_to_surface, plane_of, t).1;
    match node.back {
        Some(n) => export_tree(*n, face_to_surface, plane_of, mid),
        None => (empty_leaf(), mid),
    }
}

/// A node that is put into the tables stands at the end of the nodes
/// that were there. Behind it stand its front and then its back, as they
/// were put there, and the node names both.
pub proof fn lemma_export_node(
    node: DIFBSPNode,
    face_to_surface: Seq<Option<PossiblyNullSurfaceIndex>>,
    plane_of: Seq<PlaneIndex>,
    t: BspTables,
)
    requires
        node.plane_index is Some,
    ensures
        ({
            let place = t.nodes.len() as int;
            let (front, mid) = front_exported(node, face_to_surface, plane_of, t);
            let (back, last) = back_exported(node, face_to_surface, plane_of, t);
            let (index, after) = export_tree(node, face_to_surface, plane_of, t);
            &&& index == (BSPIndex { index: list_count(place as nat), leaf: false, solid: false })
            &&& place < mid.nodes.len() <= last.nodes.len() == after.nodes.len()
            &&& after.leaves == last.leaves
            &&& after.leaf_surfaces == last.leaf_surfaces
            &&& after.nodes[place].front_index == front || after.nodes[place].back_index == front
            &&& after.nodes[place].front_index == back || after.nodes[place].back_index == back
            &&& keeps(mid, after, place + 1)
            &&& keeps(last, after, place + 1)
        }),
{
    let place = t.nodes.len() as int;
    let (front, mid) = front_exported(node, face_to_surface, plane_of, t);
    let (back, last) = back_exported(node, face_to_surface, plane_of, t);
    match node.front {
        Some(n) => {
            lemma_export_grows(*n, face_to_surface, plane_of, with_place(t));
        },
        None => {},
    }
    match node.back {
        Some(n) => {
            lemma_export_grows(*n, face_to_surface, plane_of, mid);
        },
        None => {},
    }
}

/// A walk from a node goes on from the front or the back of the node.
pub proof fn lemma_reaches_from_node(
    t: BspTables,
    from: BSPIndex,
    child: BSPIndex,
    surface: PossiblyNullSurfaceIndex,
    steps: nat,
    above: int,
)
    requires
        !from.leaf,
        above <= from.index < t.nodes.len(),
        t.nodes[from.index as int].front_index == child || t.nodes[from.index as int].back_index
            == child,
        reaches(t, child, surface, steps, above),
    ensures
        reaches(t, from, surface, steps + 1, above),
{
}

/// The surfaces of a leaf that is put into the tables are listed by the
/// solid leaf that stands for it.
pub proof fn lemma_leaf_listed(
    node: DIFBSPNode,
    face_to_surface: Seq<Option<PossiblyNullSurfaceIndex>>,
    plane_of: Seq<PlaneIndex>,
    t: BspTables,
    surface: PossiblyNullSurfaceIndex,
)
    requires
        node.plane_index is None,
        tree_holds(node, face_to_surface, surface),
        leaves_fit(node, face_to_surface),
        tables_fit(export_tree(node, face_to_surface, plane_of, t).1),
    ensures
        export_tree(node, face_to_surface, plane_of, t).0.leaf,
        export_tree(node, face_to_surface, plane_of, t).0.solid,
        leaf_lists(
            export_tree(node, face_to_surface, plane_of, t).1,
            export_tree(node, face_to_surface, plane_of, t).0.index as int,
            surface,
        ),
{
    let (index, after) = export_tree(node, face_to_surface, plane_of, t);
    let found = leaf_surfaces_of(node.brush_list@, face_to_surface, node.brush_list@.len());
    let w = choose|w: int| 0 <= w < found.len() && found[w] == surface;
    let leaf = t.leaves.len() as int;
    let start = t.leaf_surfaces.len() as int;
    assert(after.leaves[leaf].surface_index.value() == start);
    assert(after.leaves[leaf].surface_count == found.len());
    assert(after.leaf_surfaces[start + w] == surface);
}

/// The surface of every triangle that has a polygon in a leaf of a tree
/// is listed by a solid leaf to which a walk leads from the place where
/// the tree was put into the tables, through the nodes of the tree and in
/// no more steps than the tree is high. This holds where the tables stay
/// within their counts and no leaf has 65536 surfaces or more.
pub proof fn lemma_leaf_surfaces_reached(
    node: DIFBSPNode,
    face_to_surface: Seq<Option<PossiblyNullSurfaceIndex>>,
    plane_of: Seq<PlaneIndex>,
    t: BspTables,
    surface: PossiblyNullSurfaceIndex,
)
    requires
        tree_holds(node, face_to_surface, surface),
        leaves_fit(node, face_to_surface),
        tables_fit(export_tree(node, face_to_surface, plane_of, t).1),
    ensures
        reaches(
            export_tree(node, face_to_surface, plane_of, t).1,
            export_tree(node, face_to_surface, plane_of, t).0,
            surface,
            node.spec_height() as nat,
            t.nodes.len() as int,
        ),
        node.spec_height() >= 1,
    decreases node,
{
    let (index, after) = export_tree(node, face_to_surface, plane_of, t);
    lemma_height_positive(node);
    if node.plane_index is None {
        lemma_leaf_listed(node, face_to_surface, plane_of, t, surface);
    } else {
        lemma_export_node(node, face_to_surface, plane_of, t);
        let place = t.nodes.len() as int;
        let (front, mid) = front_exported(node, face_to_surface, plane_of, t);
        let (back, last) = back_exported(node, face_to_surface, plane_of, t);
        let steps = (node.spec_height() - 1) as nat;
        let in_front = match node.front {
            Some(n) => tree_holds(*n, face_to_surface, surface),
            None => false,
        };
        if in_front {
            let n = node.front->Some_0;
            lemma_leaf_surfaces_reached(*n, face_to_surface, plane_of, with_place(t), surface);
            lemma_reaches_stays(
                mid,
                after,
                front,
                surface,
                n.spec_height() as nat,
                steps,
                place + 1,
                place,
            );
            lemma_reaches_from_node(after, index, front, surface, steps, place);
        } else {
            let n = node.back->Some_0;
            lemma_leaf_surfaces_reached(*n, face_to_surface, plane_of, mid, surface);
            lemma_reaches_stays(
                last,
                after,
                back,
                surface,
                n.spec_height() as nat,
                steps,
                mid.nodes.len() as int,
                place,
            );
            lemma_reaches_from_node(after, index, back, surface, steps, place);
        }
    }
}

fn surfaces_have(v: &Vec<PossiblyNullSurfaceIndex>, x: PossiblyNullSurfaceIndex) -> (b: bool)
    ensures
        b == v@.contains(x),
{
    let mut i: usize = 0;
    while i < v.len()
        invariant
            i <= v.len(),
            forall|j: int| 0 <= j < i ==> v@[j] != x,
        decreases v.len() - i,
    {
        let same = match (v[i], x) {
            (PossiblyNullSurfaceIndex::Null(a), PossiblyNullSurfaceIndex::Null(b)) => a.0 == b.0,
            (PossiblyNullSurfaceIndex::NonNull(a), PossiblyNullSurfaceIndex::NonNull(b)) => a.0
                == b.0,
            _ => false,
        };
        if same {
            return true;
        }
        i = i + 1;
    }
    false
}

impl DIFBuilder {
    /// Whether the tree below `node` can be put into the interior.
    pub fn tree_is_known(&self, node: &DIFBSPNode, plane_of: &Vec<PlaneIndex>) -> (b: bool)
        ensures
            b == tree_known(*node, self.face_to_surface@, plane_of@.len()),
        decreases node,
    {
        match node.plane_index {
            None => {
                let mut i: usize = 0;
                while i < node.brush_list.len()
                    invariant
                        i <= node.brush_list.len(),
                        node.plane_index is None,
                        forall|k: int|
                            0 <= k < i ==> has_surface(
                                self.face_to_surface@,
                                (#[trigger] node.brush_list@[k]).id,
                            ),
                    decreases node.brush_list.len() - i,
                {
                    let id = node.brush_list[i].id;
                    if id >= self.face_to_surface.len() || self.face_to_surface[id].is_none() {
                        assert(!has_surface(self.face_to_surface@, node.brush_list@[i as int].id));
                        return false;
                    }
                    i = i + 1;
                }
                true
            },
            Some(p) => {
                if p >= plane_of.len() {
                    return false;
                }
                let front = match &node.front {
                    Some(n) => self.tree_is_known(n, plane_of),
                    None => true,
                };
                if !front {
                    return false;
                }
                match &node.back {
                    Some(n) => self.tree_is_known(n, plane_of),
                    None => true,
                }
            },
        }
    }

    /// Puts the BSP tree below `node` into the interior, and gives the
    /// child that stands for it. `plane_of` names for each plane of the
    /// tree its plane in the interior. A tree with a plane that has no
    /// entry there, or with a polygon in a leaf whose triangle has no
    /// surface, is refused, and nothing changes.
    pub fn export_bsp_node(&mut self, node: &DIFBSPNode, plane_of: &Vec<PlaneIndex>) -> (r: Result<
        BSPIndex,
        BuildError,
    >)
        ensures
            final(self).same_but_interior(old(self)),
            match r {
                Err(e) => e == BuildError::BrokenTable && !tree_known(
                    *node,
                    old(self).face_to_surface@,
                    plane_of@.len(),
                ) && *final(self) == *old(self),
                Ok(made) => {
                    let before = old(self).interior.deep_view();
                    let (index, tables) = export_tree(
                        *node,
                        old(self).face_to_surface@,
                        plane_of@,
                        tables_of(before),
                    );
                    &&& tree_known(*node, old(self).face_to_surface@, plane_of@.len())
                    &&& made == index
                    &&& final(self).interior.deep_view() == (InteriorView {
                        bsp_nodes: tables.nodes,
                        bsp_solid_leaves: tables.leaves,
                        solid_leaf_surfaces: tables.leaf_surfaces,
                        ..before
                    })
                },
            },
    {
        if !self.tree_is_known(node, plane_of) {
            return Err(BuildError::BrokenTable);
        }
        Ok(self.put_tree(node, plane_of))
    }

    /// Puts the BSP tree below `node` into the interior.
    fn put_tree(&mut self, node: &DIFBSPNode, plane_of: &Vec<PlaneIndex>) -> (r: BSPIndex)
        ensures
            final(self).same_but_interior(old(self)),
            ({
                let before = old(self).interior.deep_view();
                let (index, tables) = export_tree(
                    *node,
                    old(self).face_to_surface@,
                    plane_of@,
                    tables_of(before),
                );
                &&& r == index
                &&& final(self).interior.deep_view() == (InteriorView {
                    bsp_nodes: tables.nodes,
                    bsp_solid_leaves: tables.leaves,
                    solid_leaf_surfaces: tables.leaf_surfaces,
                    ..before
                })
            }),
        decreases node,
    {
        let ghost before = self.interior.deep_view();
        let ghost f2s = self.face_to_surface@;
        match node.plane_index {
            None => {
                let mut found: Vec<PossiblyNullSurfaceIndex> = Vec::new();
                let mut i: usize = 0;
                while i < node.brush_list.len()
                    invariant
                        i <= node.brush_list.len(),
                        *self == *old(self),
                        f2s == self.face_to_surface@,
                        found@ == leaf_surfaces_of(node.brush_list@, f2s, i as nat),
                    decreases node.brush_list.len() - i,
                {
                    let id = node.brush_list[i].id;
                    if id < self.face_to_surface.len() {
                        if let Some(surface) = self.face_to_surface[id] {
                            if !surfaces_have(&found, surface) {
                                found.push(surface);
                            }
                        }
                    }
                    i = i + 1;
                }
                if found.len() == 0 {
                    return BSPIndex { index: 0, leaf: true, solid: false };
                }
                let leaf = BSPSolidLeaf {
                    surface_index: SolidLeafSurfaceIndex::new(
                        count_of(self.interior.solid_leaf_surfaces.len()),
                    ),
                    surface_count: low16_of(found.len()),
                };
                let index = count_of(self.interior.bsp_solid_leaves.len());
                let ghost listed = self.interior.solid_leaf_surfaces.deep_view();
                let mut k: usize = 0;
                proof {
                    assert(listed + found@.take(0) =~= listed);
                }
                while k < found.len()
                    invariant
                        k <= found.len(),
                        self.same_but_interior(old(self)),
                        self.interior.deep_view() == (InteriorView {
                            solid_leaf_surfaces: listed + found@.take(k as int),
                            ..before
                        }),
                    decreases found.len() - k,
                {
                    let ghost now = self.interior.solid_leaf_surfaces.deep_view();
                    self.interior.solid_leaf_surfaces.push(found[k]);
                    proof {
                        assert(self.interior.solid_leaf_surfaces.deep_view() =~= now.push(
                            found@[k as int],
                        ));
                        assert(listed + found@.take(k + 1) =~= (listed + found@.take(k as int)).push(
                            found@[k as int],
                        ));
                    }
                    k = k + 1;
                }
                let ghost leaves = self.interior.bsp_solid_leaves.deep_view();
                self.interior.bsp_solid_leaves.push(leaf);
                proof {
                    assert(found@.take(k as int) =~= found@);
                    assert(self.interior.bsp_solid_leaves.deep_view() =~= leaves.push(leaf));
                }
                BSPIndex { index, leaf: true, solid: true }
            },
            Some(p) => {
                let place = self.interior.bsp_nodes.len();
                let unfilled = BSPNode {
                    plane_index: PlaneIndex::new(0u16),
                    front_index: BSPIndex { index: 0, leaf: true, solid: false },
                    back_index: BSPIndex { index: 0, leaf: true, solid: false },
                };
                let ghost nodes = self.interior.bsp_nodes.deep_view();
                self.interior.bsp_nodes.push(unfilled);
                proof {
                    assert(self.interior.bsp_nodes.deep_view() =~= nodes.push(unfilled));
                }
                let ghost t1 = tables_of(self.interior.deep_view());
                let stored = if p < plane_of.len() {
                    plane_of[p].0
                } else {
                    0
                };
                let flipped = stored & 0x8000 != 0;
                let front = match &node.front {
                    Some(n) => {
                        proof {
                            lemma_export_grows(**n, f2s, plane_of@, t1);
                        }
                        self.put_tree(n, plane_of)
                    },
                    None => BSPIndex { index: 0, leaf: true, solid: false },
                };
                let ghost t2 = tables_of(self.interior.deep_view());
                let back = match &node.back {
                    Some(n) => {
                        proof {
                            lemma_export_grows(**n, f2s, plane_of@, t2);
                        }
                        self.put_tree(n, plane_of)
                    },
                    None => BSPIndex { index: 0, leaf: true, solid: false },
                };
                let record = BSPNode {
                    plane_index: PlaneIndex::new(stored & 0x7FFF),
                    front_index: if flipped {
                        back
                    } else {
                        front
                    },
                    back_index: if flipped {
                        front
                    } else {
                        back
                    },
                };
                let ghost t3 = tables_of(self.interior.deep_view());
                assert(place < self.interior.bsp_nodes.len());
                let ghost listed = self.interior.bsp_nodes.deep_view();
                self.interior.bsp_nodes[place] = record;
                proof {
                    assert(self.interior.bsp_nodes.deep_view() =~= listed.update(
                        place as int,
                        record,
                    ));
                }
                BSPIndex { index: count_of(place), leaf: false, solid: false }
            },
        }
    }

    /// Whether a solid leaf holds a drawn surface that lies in the plane
    /// `plane_index`, the bit that says flipped left aside. A leaf that
    /// refers outside a table holds none.
    pub fn solid_leaf_has_plane(interior: &Interior, leaf_index: u32, plane_index: u16) -> (r: bool)
        ensures
            r == spec_leaf_has_plane(interior.deep_view(), leaf_index, plane_index),
    {
        if leaf_index as usize >= interior.bsp_solid_leaves.len() {
            return false;
        }
        let leaf = &interior.bsp_solid_leaves[leaf_index as usize];
        let start = leaf.surface_index.0 as u64;
        let end = start + leaf.surface_count as u64;
        if end > interior.solid_leaf_surfaces.len() as u64 {
            return false;
        }
        let ghost x = interior.deep_view();
        assert(x.bsp_solid_leaves[leaf_index as int] == *leaf);
        let mut i: u64 = start;
        while i < end
            invariant
                start <= i <= end,
                end <= interior.solid_leaf_surfaces.len(),
                x == interior.deep_view(),
                leaf_index < x.bsp_solid_leaves.len(),
                start == x.bsp_solid_leaves[leaf_index as int].surface_index.value(),
                end == start + x.bsp_solid_leaves[leaf_index as int].surface_count,
                forall|k: int| start <= k < i ==> !surface_in_plane(x, k, plane_index),
            decreases end - i,
        {
            assert(x.solid_leaf_surfaces[i as int] == interior.solid_leaf_surfaces@[i as int]);
            match interior.solid_leaf_surfaces[i as usize] {
                PossiblyNullSurfaceIndex::NonNull(index) => {
                    if (index.0 as usize) < interior.surfaces.len() {
                        assert(x.surfaces[index.0 as int] == interior.surfaces@[index.0 as int]);
                        let surface = &interior.surfaces[index.0 as usize];
                        if surface.plane_index.0 & 0x7FFF == plane_index & 0x7FFF {
                            assert(surface_in_plane(x, i as int, plane_index));
                            return true;
                        }
                    }
                },
                _ => {},
            }
            i = i + 1;
        }
        false
    }
}

/// Whether entry `k` of the table of solid-leaf surfaces is a drawn
/// surface of the interior that lies in the plane `plane_index`.
pub open spec fn surface_in_plane(x: InteriorView, k: int, plane_index: u16) -> bool {
    match x.solid_leaf_surfaces[k] {
        PossiblyNullSurfaceIndex::NonNull(index) => index.value() < x.surfaces.len()
            && x.surfaces[index.value() as int].plane_index.value() & 0x7FFF == plane_index
            & 0x7FFF,
        _ => false,
    }
}

/// Whether a solid leaf holds a drawn surface in the plane.
pub open spec fn spec_leaf_has_plane(x: InteriorView, leaf_index: u32, plane_index: u16) -> bool {
    &&& leaf_index < x.bsp_solid_leaves.len()
    &&& x.bsp_solid_leaves[leaf_index as int].surface_index.value()
        + x.bsp_solid_leaves[leaf_index as int].surface_count <= x.solid_leaf_surfaces.len()
    &&& exists|k: int|
        x.bsp_solid_leaves[leaf_index as int].surface_index.value() <= k
            < x.bsp_solid_leaves[leaf_index as int].surface_index.value()
            + x.bsp_solid_leaves[leaf_index as int].surface_count && #[trigger] surface_in_plane(
            x,
            k,
            plane_index,
        )
}

/// The surfaces of a leaf hold the surface of each of its polygons whose
/// triangle has one.
pub proof fn lemma_leaf_surfaces_has(
    brushes: Seq<BSPPolygon>,
    face_to_surface: Seq<Option<PossiblyNullSurfaceIndex>>,
    n: nat,
    i: int,
)
    requires
        0 <= i < n <= brushes.len(),
        has_surface(face_to_surface, brushes[i].id),
    ensures
        leaf_surfaces_of(brushes, face_to_surface, n).contains(
            face_to_surface[brushes[i].id as int]->Some_0,
        ),
    decreases n,
{
    let surface = face_to_surface[brushes[i].id as int]->Some_0;
    let now = leaf_surfaces_of(brushes, face_to_surface, n);
    let rest = leaf_surfaces_of(brushes, face_to_surface, (n - 1) as nat);
    if i == n - 1 {
        if !rest.contains(surface) {
            assert(now[now.len() - 1] == surface);
        }
    } else {
        lemma_leaf_surfaces_has(brushes, face_to_surface, (n - 1) as nat, i);
        let w = choose|w: int| 0 <= w < rest.len() && rest[w] == surface;
        assert(now[w] == surface);
    }
}

/// A triangle with a polygon in a leaf of a tree that is known has its
/// surface in a leaf of the tree.
pub proof fn lemma_tree_holds_triangle(
    node: DIFBSPNode,
    face_to_surface: Seq<Option<PossiblyNullSurfaceIndex>>,
    planes: nat,
    id: usize,
)
    requires
        tree_has(node, id),
        tree_known(node, face_to_surface, planes),
    ensures
        has_surface(face_to_surface, id),
        tree_holds(node, face_to_surface, face_to_surface[id as int]->Some_0),
    decreases node,
{
    match node.plane_index {
        None => {
            let i = choose|i: int| 0 <= i < node.brush_list@.len() && (#[trigger] node.brush_list@[i]).id == id;
            lemma_leaf_surfaces_has(node.brush_list@, face_to_surface, node.brush_list@.len(), i);
        },
        Some(_) => {
            let in_front = match node.front {
                Some(n) => tree_has(*n, id),
                None => false,
            };
            if in_front {
                lemma_tree_holds_triangle(*node.front->Some_0, face_to_surface, planes, id);
            } else {
                lemma_tree_holds_triangle(*node.back->Some_0, face_to_surface, planes, id);
            }
        },
    }
}

/// Every triangle that has a polygon in a leaf of a tree is referred to
/// by a solid leaf that is reached from the root of the tree as it was
/// put into the interior: where `export_bsp_node` gives back a child, a
/// walk from that child through the nodes of the tree comes to a solid
/// leaf that lists the surface of the triangle. This holds where the
/// tables stay within their counts and no leaf has 65536 surfaces or
/// more.
pub proof fn lemma_triangle_reached(
    node: DIFBSPNode,
    face_to_surface: Seq<Option<PossiblyNullSurfaceIndex>>,
    plane_of: Seq<PlaneIndex>,
    t: BspTables,
    id: usize,
)
    requires
        tree_has(node, id),
        tree_known(node, face_to_surface, plane_of.len()),
        leaves_fit(node, face_to_surface),
        tables_fit(export_tree(node, face_to_surface, plane_of, t).1),
    ensures
        has_surface(face_to_surface, id),
        reaches(
            export_tree(node, face_to_surface, plane_of, t).1,
            export_tree(node, face_to_surface, plane_of, t).0,
            face_to_surface[id as int]->Some_0,
            node.spec_height() as nat,
            t.nodes.len() as int,
        ),
{
    lemma_tree_holds_triangle(node, face_to_surface, plane_of.len(), id);
    lemma_leaf_surfaces_reached(
        node,
        face_to_surface,
        plane_of,
        t,
        face_to_surface[id as int]->Some_0,
    );
}

/// The part of a ray that goes on into a child.
#[derive(Clone, Copy, Debug, PartialEq, Eq, Structural)]
pub enum RayPart {
    /// The whole ray.
    Whole,
    /// From the start to the point where the ray goes through the plane.
    ToPlane,
    /// From the point where the ray goes through the plane to the end.
    FromPlane,
}

/// A step of a ray through the tree: the child to go on into, the plane
/// that the ray came through last, and the part of the ray that goes on.
#[derive(Clone, Copy, Debug, PartialEq, Eq)]
pub struct RayStep {
    pub child: BSPIndex,
    pub plane: u16,
    pub part: RayPart,
}

/// The steps that a ray takes from a node, in the order in which they
/// are tried; the ray finds what one of them finds. A ray on one side
/// goes on into the child of that side. A ray through the plane goes
/// into the child of its start as far as the plane, and from there into
/// the other child, with the plane of the node as the plane it came
/// through. A ray in the plane goes into both children. `carried` is the
/// plane that the ray came through before, `stored` the plane of the
/// node.
pub open spec fn spec_ray_steps(case: RayCase, node: BSPNode, carried: u16) -> Seq<RayStep> {
    let stored = node.plane_index.value();
    match case {
        RayCase::Front => seq![
            RayStep { child: node.front_index, plane: carried, part: RayPart::Whole },
        ],
        RayCase::Back => seq![
            RayStep { child: node.back_index, plane: carried, part: RayPart::Whole },
        ],
        RayCase::FrontToBack => seq![
            RayStep { child: node.front_index, plane: carried, part: RayPart::ToPlane },
            RayStep { child: node.back_index, plane: stored, part: RayPart::FromPlane },
        ],
        RayCase::BackToFront => seq![
            RayStep { child: node.back_index, plane: carried, part: RayPart::ToPlane },
            RayStep { child: node.front_index, plane: stored, part: RayPart::FromPlane },
        ],
        RayCase::Within => seq![
            RayStep { child: node.front_index, plane: carried, part: RayPart::Whole },
            RayStep { child: node.back_index, plane: carried, part: RayPart::Whole },
        ],
    }
}

/// The steps that a ray takes from a node.
pub fn ray_steps(case: RayCase, node: &BSPNode, carried: u16) -> (r: Vec<RayStep>)
    ensures
        r@ == spec_ray_steps(case, *node, carried),
{
    let stored = node.plane_index.0;
    let mut r: Vec<RayStep> = Vec::new();
    match case {
        RayCase::Front => {
            r.push(RayStep { child: node.front_index, plane: carried, part: RayPart::Whole });
        },
        RayCase::Back => {
            r.push(RayStep { child: node.back_index, plane: carried, part: RayPart::Whole });
        },
        RayCase::FrontToBack => {
            r.push(RayStep { child: node.front_index, plane: carried, part: RayPart::ToPlane });
            r.push(RayStep { child: node.back_index, plane: stored, part: RayPart::FromPlane });
        },
        RayCase::BackToFront => {
            r.push(RayStep { child: node.back_index, plane: carried, part: RayPart::ToPlane });
            r.push(RayStep { child: node.front_index, plane: stored, part: RayPart::FromPlane });
        },
        RayCase::Within => {
            r.push(RayStep { child: node.front_index, plane: carried, part: RayPart::Whole });
            r.push(RayStep { child: node.back_index, plane: carried, part: RayPart::Whole });
        },
    }
    assert(r@ =~= spec_ray_steps(case, *node, carried));
    r
}

} // verus!
