//! The chunk quadtree. One tree per XZ footprint; its root is one node at
//! the coarsest LOD. Each tick a subdivide pass splits the leaves that an
//! observer is close to, and a merge pass collapses the branches no
//! observer needs refined. A parent keeps its coarse mesh until all four
//! children have published theirs.

use vstd::prelude::*;

use crate::chunk_lod::{ChunkLod, lod_rank, lod_multiplier, MAX_LOD_LEVEL};
use crate::chunk_loading::chunk_loader::{ChunkLoader, spec_min_lod, min_lod_rank_from};
use crate::chunk_loading::chunk_pos::{ChunkTreePos, LodPosition};

verus! {

/// An observer: a doubled world XZ position and its loader configuration.
pub struct Observer {
    pub x2: i64,
    pub z2: i64,
    pub loader: ChunkLoader,
}

impl Observer {
    pub open spec fn wf(&self) -> bool {
        &&& self.loader.wf()
        &&& -0x1_0000_0000_0000 <= self.x2 <= 0x1_0000_0000_0000
        &&& -0x1_0000_0000_0000 <= self.z2 <= 0x1_0000_0000_0000
    }
}

/// Doubled world x of the centre of a node footprint.
pub open spec fn node_center_x2(tree_pos: ChunkTreePos, pos: LodPosition) -> int {
    2 * tree_pos.x * 8192 + 2 * pos.x * 64 * lod_multiplier(pos.lod) + 64 * lod_multiplier(pos.lod)
}

/// Doubled world z of the centre of a node footprint.
pub open spec fn node_center_z2(tree_pos: ChunkTreePos, pos: LodPosition) -> int {
    2 * tree_pos.y * 8192 + 2 * pos.z * 64 * lod_multiplier(pos.lod) + 64 * lod_multiplier(pos.lod)
}

/// The LOD rank observer `o` assigns to the node at `pos` of the tree at
/// `tree_pos`.
pub open spec fn observer_rank(o: Observer, tree_pos: ChunkTreePos, pos: LodPosition) -> int {
    let dx = o.x2 - node_center_x2(tree_pos, pos);
    let dz = o.z2 - node_center_z2(tree_pos, pos);
    spec_min_lod(o.loader.lod_range@, dx * dx + dz * dz)
}

/// The finest LOD rank any observer asks of the node; 100 when there is no
/// observer, so nothing subdivides or merges.
pub open spec fn observers_min_rank(
    obs: Seq<Observer>,
    tree_pos: ChunkTreePos,
    pos: LodPosition,
) -> int
    decreases obs.len(),
{
    if obs.len() == 0 {
        100
    } else {
        let r = observer_rank(obs.last(), tree_pos, pos);
        let rest = observers_min_rank(obs.drop_last(), tree_pos, pos);
        if r < rest {
            r
        } else {
            rest
        }
    }
}

/// The lifecycle of a leaf's generation task.
#[derive(Copy, Clone, Debug, PartialEq, Eq, Structural)]
pub enum TaskState {
    NotSpawned,
    Pending,
    Ready { generate_above: bool },
}

/// Handles of the four child quadrants of a branch.
#[derive(Copy, Clone, Debug, PartialEq, Eq, Structural)]
pub struct ChunkNodeChildren {
    pub top_right: usize,
    pub top_left: usize,
    pub bottom_right: usize,
    pub bottom_left: usize,
}

/// A node is a leaf generating content at its LOD, or a branch whose four
/// children have taken over; `ready_count` counts children that published a
/// mesh.
#[derive(Copy, Clone, Debug, PartialEq, Eq, Structural)]
pub enum NodeState {
    Leaf { task: TaskState },
    Branch { children: ChunkNodeChildren, ready_count: u8 },
}

/// One node of the quadtree arena.
#[derive(Copy, Clone, Debug, PartialEq, Eq, Structural)]
pub struct ChunkNode {
    pub position: LodPosition,
    pub parent: Option<usize>,
    pub state: NodeState,
    pub alive: bool,
    pub mesh_live: bool,
}

/// A chunk generation task to submit: which node of which tree, at which
/// vertical slab.
#[derive(Copy, Clone, Debug, PartialEq, Eq, Structural)]
pub struct TaskRequest {
    pub tree_pos: ChunkTreePos,
    pub position: LodPosition,
    pub stack_offset: i32,
    pub node: usize,
}

/// The live-flag discipline of node `n`: a live non-root node hangs under
/// a live branch.
pub open spec fn node_alive_wf(nodes: Seq<ChunkNode>, n: int) -> bool {
    let nd = nodes[n];
    nd.alive && n > 0 ==> nodes[nd.parent->0 as int].alive && nodes[nd.parent->0 as int].state
        is Branch
}

/// Structural well-formedness of node `n` of the arena.
pub open spec fn node_struct_wf(nodes: Seq<ChunkNode>, n: int) -> bool {
    let nd = nodes[n];
    &&& nd.position.wf()
    &&& (n == 0 ==> nd.parent is None && nd.position == (LodPosition {
        lod: ChunkLod::OneTwentyEight,
        x: 0,
        z: 0,
    }))
    &&& (n > 0 ==> nd.parent is Some && nd.parent->0 < n)
    &&& match nd.state {
        NodeState::Branch { children, ready_count } => {
            &&& n < children.top_right < nodes.len()
            &&& n < children.top_left < nodes.len()
            &&& n < children.bottom_right < nodes.len()
            &&& n < children.bottom_left < nodes.len()
            &&& nodes[children.top_right as int].parent == Some(n as usize)
            &&& nodes[children.top_left as int].parent == Some(n as usize)
            &&& nodes[children.bottom_right as int].parent == Some(n as usize)
            &&& nodes[children.bottom_left as int].parent == Some(n as usize)
            &&& nd.position.lod != ChunkLod::Full
            &&& child_pos_wf(nodes[children.top_right as int].position, nd.position, 1, 1)
            &&& child_pos_wf(nodes[children.top_left as int].position, nd.position, 0, 1)
            &&& child_pos_wf(nodes[children.bottom_right as int].position, nd.position, 1, 0)
            &&& child_pos_wf(nodes[children.bottom_left as int].position, nd.position, 0, 0)
            &&& ready_count <= 4
        },
        NodeState::Leaf { .. } => true,
    }
}

/// Full well-formedness of node `n`.
pub open spec fn node_wf(nodes: Seq<ChunkNode>, n: int) -> bool {
    node_struct_wf(nodes, n) && node_alive_wf(nodes, n)
}

/// The position of a child quadrant: one LOD finer, at the doubled index
/// plus the quadrant offset.
pub open spec fn child_pos_wf(child: LodPosition, parent: LodPosition, qx: int, qz: int) -> bool {
    &&& lod_rank(child.lod) == lod_rank(parent.lod) - 1
    &&& child.x == 2 * parent.x + qx
    &&& child.z == 2 * parent.z + qz
}

/// The quadtree of one tree footprint: an arena of nodes, the root at
/// index 0.
pub struct ChunkTree {
    pub tree_pos: ChunkTreePos,
    pub nodes: Vec<ChunkNode>,
}

/// A live leaf of the arena that at least one observer wants refined below
/// its own LOD.
pub open spec fn wants_split(
    nodes: Seq<ChunkNode>,
    obs: Seq<Observer>,
    tree_pos: ChunkTreePos,
    n: int,
) -> bool {
    let nd = nodes[n];
    nd.alive && nd.state is Leaf && observers_min_rank(obs, tree_pos, nd.position) < lod_rank(
        nd.position.lod,
    )
}

/// A live branch whose own LOD is exactly what every observer asks for, so
/// its children collapse back into it.
pub open spec fn wants_merge(
    nodes: Seq<ChunkNode>,
    obs: Seq<Observer>,
    tree_pos: ChunkTreePos,
    n: int,
) -> bool {
    let nd = nodes[n];
    nd.alive && nd.state is Branch && observers_min_rank(obs, tree_pos, nd.position) == lod_rank(
        nd.position.lod,
    )
}


/// Structural well-formedness only reads positions, parents and states: it
/// transfers between arenas that agree on those, even where states have
/// been reset to leaves.
pub proof fn lemma_struct_wf_transfer(a: Seq<ChunkNode>, b: Seq<ChunkNode>, k: int)
    requires
        a.len() == b.len(),
        forall|j: int|
            0 <= j < a.len() ==> (#[trigger] b[j]).position == a[j].position && b[j].parent
                == a[j].parent && (b[j].state == a[j].state || b[j].state is Leaf),
        0 <= k < a.len(),
        node_struct_wf(a, k),
    ensures
        node_struct_wf(b, k),
{
}

impl ChunkTree {
    /// The nodes of the arena.
    pub open spec fn nodes(&self) -> Seq<ChunkNode> {
        self.nodes@
    }

    /// A well-formed tree: a root at the coarsest LOD and structurally
    /// sound parent and child links.
    pub open spec fn wf(&self) -> bool {
        &&& 1 <= self.nodes().len()
        &&& forall|n: int| 0 <= n < self.nodes().len() ==> node_wf(self.nodes(), n)
        &&& -0x10_0000 <= self.tree_pos.x <= 0x10_0000
        &&& -0x10_0000 <= self.tree_pos.y <= 0x10_0000
    }

    /// A fresh tree: one live root leaf with no task yet.
    pub fn new(tree_pos: ChunkTreePos) -> (r: ChunkTree)
        requires
            -0x10_0000 <= tree_pos.x <= 0x10_0000,
            -0x10_0000 <= tree_pos.y <= 0x10_0000,
        ensures
            r.wf(),
            r.tree_pos == tree_pos,
            r.nodes().len() == 1,
            r.nodes()[0].state == (NodeState::Leaf { task: TaskState::NotSpawned }),
            r.nodes()[0].alive,
    {
        let root = ChunkNode {
            position: LodPosition { lod: ChunkLod::OneTwentyEight, x: 0, z: 0 },
            parent: None,
            state: NodeState::Leaf { task: TaskState::NotSpawned },
            alive: true,
            mesh_live: false,
        };
        let mut nodes: Vec<ChunkNode> = Vec::new();
        nodes.push(root);
        ChunkTree { tree_pos, nodes }
    }

    /// The node at `n`.
    pub fn node(&self, n: usize) -> (r: ChunkNode)
        requires
            n < self.nodes().len(),
        ensures
            r == self.nodes()[n as int],
    {
        self.nodes[n]
    }

    /// Number of nodes in the arena.
    pub fn len(&self) -> (r: usize)
        ensures
            r == self.nodes().len(),
    {
        self.nodes.len()
    }
}

/// The finest rank any observer asks of the node at `pos`.
#[verifier::loop_isolation(false)]
pub fn observers_min_rank_exec(
    observers: &Vec<Observer>,
    tree_pos: ChunkTreePos,
    pos: LodPosition,
) -> (r: u8)
    requires
        forall|n: int| 0 <= n < observers@.len() ==> (#[trigger] observers@[n]).wf(),
        pos.wf(),
        -0x10_0000 <= tree_pos.x <= 0x10_0000,
        -0x10_0000 <= tree_pos.y <= 0x10_0000,
    ensures
        r as int == observers_min_rank(observers@, tree_pos, pos),
{
    let mut best: u8 = 100;
    let mut n: usize = 0;
    proof {
        assert(observers@.take(0) =~= Seq::<Observer>::empty());
    }
    while n < observers.len()
        invariant
            n <= observers@.len(),
            best as int == observers_min_rank(observers@.take(n as int), tree_pos, pos),
        decreases observers@.len() - n,
    {
        let o = &observers[n];
        proof {
            assert(observers@[n as int].wf());
        }
        let (cx2, cz2) = pos.footprint_center(tree_pos);
        let lod = o.loader.get_min_lod_for_chunk(o.x2, o.z2, cx2, cz2);
        let rank = lod.u8();
        proof {
            let pre = observers@.take(n + 1 as int);
            assert(pre.last() == observers@[n as int]);
            assert(pre.drop_last() =~= observers@.take(n as int));
            assert(rank as int == observer_rank(observers@[n as int], tree_pos, pos));
        }
        if rank < best {
            best = rank;
        }
        n = n + 1;
    }
    proof {
        assert(observers@.take(observers@.len() as int) =~= observers@);
    }
    best
}

} // verus!

verus! {

/// The policy never asks for a rank below 1.
pub proof fn lemma_min_lod_rank_at_least(ranges: Seq<i64>, d2: int, rank: int)
    requires
        1 <= rank <= 8,
    ensures
        min_lod_rank_from(ranges, d2, rank) >= rank,
    decreases 8 - rank,
{
    if rank < 8 && !(d2 <= crate::chunk_loading::chunk_loader::rank_threshold2(ranges, rank)) {
        lemma_min_lod_rank_at_least(ranges, d2, rank + 1);
    }
}

/// The finest rank observers ask for is at least 1.
pub proof fn lemma_observers_min_rank_at_least_one(
    obs: Seq<Observer>,
    tree_pos: ChunkTreePos,
    pos: LodPosition,
)
    ensures
        observers_min_rank(obs, tree_pos, pos) >= 1,
    decreases obs.len(),
{
    if obs.len() > 0 {
        let o = obs.last();
        lemma_min_lod_rank_at_least(
            o.loader.lod_range@,
            (o.x2 - node_center_x2(tree_pos, pos)) * (o.x2 - node_center_x2(tree_pos, pos)) + (o.z2
                - node_center_z2(tree_pos, pos)) * (o.z2 - node_center_z2(tree_pos, pos)),
            1,
        );
        lemma_observers_min_rank_at_least_one(obs.drop_last(), tree_pos, pos);
    }
}

/// How one subdivide pass relates the node arena after it to the arena
/// before it: every live leaf some observer wants refined became a branch
/// over four fresh live leaves, and nothing else changed.
pub open spec fn subdivide_rel(
    old_nodes: Seq<ChunkNode>,
    new_nodes: Seq<ChunkNode>,
    obs: Seq<Observer>,
    tree_pos: ChunkTreePos,
) -> bool {
    &&& old_nodes.len() <= new_nodes.len()
    &&& forall|n: int|
        0 <= n < old_nodes.len() ==> if wants_split(old_nodes, obs, tree_pos, n) {
            let was = old_nodes[n];
            let now = #[trigger] new_nodes[n];
            &&& now.position == was.position
            &&& now.parent == was.parent
            &&& now.alive == was.alive
            &&& now.mesh_live == was.mesh_live
            &&& now.state is Branch
            &&& now.state matches NodeState::Branch { ready_count, .. } && ready_count == 0
        } else {
            new_nodes[n] == old_nodes[n]
        }
    &&& forall|n: int|
        old_nodes.len() <= n < new_nodes.len() ==> {
            let now = #[trigger] new_nodes[n];
            &&& now.state == (NodeState::Leaf { task: TaskState::NotSpawned })
            &&& now.alive
            &&& !now.mesh_live
            &&& now.parent is Some && now.parent->0 < old_nodes.len()
            &&& wants_split(old_nodes, obs, tree_pos, now.parent->0 as int)
        }
}

/// How one merge pass relates the arena after it to the arena before it:
/// every live branch whose LOD is exactly what the observers ask for turned
/// back into a fresh leaf; positions, parents and meshes are untouched; and
/// a node stays alive exactly when it was alive and still hangs under a
/// live branch.
pub open spec fn merge_rel(
    old_nodes: Seq<ChunkNode>,
    new_nodes: Seq<ChunkNode>,
    obs: Seq<Observer>,
    tree_pos: ChunkTreePos,
) -> bool {
    &&& old_nodes.len() == new_nodes.len()
    &&& forall|n: int|
        0 <= n < old_nodes.len() ==> {
            let was = old_nodes[n];
            let now = #[trigger] new_nodes[n];
            &&& now.position == was.position
            &&& now.parent == was.parent
            &&& now.mesh_live == was.mesh_live
            &&& now.state == if wants_merge(old_nodes, obs, tree_pos, n) {
                NodeState::Leaf { task: TaskState::NotSpawned }
            } else {
                was.state
            }
        }
    &&& new_nodes.len() > 0 ==> new_nodes[0].alive == old_nodes[0].alive
    &&& forall|n: int|
        0 < n < old_nodes.len() ==> (#[trigger] new_nodes[n]).alive == (old_nodes[n].alive
            && new_nodes[old_nodes[n].parent->0 as int].alive
            && new_nodes[old_nodes[n].parent->0 as int].state is Branch)
}

impl ChunkTree {
    /// One subdivide pass: replace every live leaf that an observer is
    /// close enough to by a branch over four fresh leaves one LOD finer.
    /// The leaf's own mesh stays live until the children publish theirs.
    #[verifier::loop_isolation(false)]
    #[verifier::rlimit(100)]
    pub fn subdivide_pass(&mut self, observers: &Vec<Observer>)
        requires
            old(self).wf(),
            old(self).nodes().len() <= 0x100_0000,
            forall|n: int| 0 <= n < observers@.len() ==> (#[trigger] observers@[n]).wf(),
        ensures
            final(self).wf(),
            final(self).tree_pos == old(self).tree_pos,
            subdivide_rel(old(self).nodes(), final(self).nodes(), observers@, old(self).tree_pos),
    {
        let ghost old_nodes = self.nodes@;
        let ghost tp = self.tree_pos;
        let old_len = self.nodes.len();
        let mut n: usize = 0;
        while n < old_len
            invariant
                n <= old_len,
                old_len == old_nodes.len(),
                old_len <= 0x100_0000,
                old_len <= self.nodes@.len(),
                self.nodes@.len() <= old_len + 4 * n,
                self.tree_pos == tp,
                -0x10_0000 <= tp.x <= 0x10_0000,
                -0x10_0000 <= tp.y <= 0x10_0000,
                forall|m: int| 0 <= m < self.nodes@.len() ==> node_wf(self.nodes@, m),
                forall|m: int| n <= m < old_len ==> self.nodes@[m] == old_nodes[m],
                forall|m: int|
                    0 <= m < n ==> if wants_split(old_nodes, observers@, tp, m) {
                        let was = old_nodes[m];
                        let now = #[trigger] self.nodes@[m];
                        &&& now.position == was.position
                        &&& now.parent == was.parent
                        &&& now.alive == was.alive
                        &&& now.mesh_live == was.mesh_live
                        &&& now.state is Branch
                        &&& now.state matches NodeState::Branch { ready_count, .. } && ready_count
                            == 0
                    } else {
                        self.nodes@[m] == old_nodes[m]
                    },
                forall|m: int|
                    old_len <= m < self.nodes@.len() ==> {
                        let now = #[trigger] self.nodes@[m];
                        &&& now.state == (NodeState::Leaf { task: TaskState::NotSpawned })
                        &&& now.alive
                        &&& !now.mesh_live
                        &&& now.parent is Some && now.parent->0 < old_len
                        &&& wants_split(old_nodes, observers@, tp, now.parent->0 as int)
                    },
            decreases old_len - n,
        {
            let nd = self.nodes[n];
            proof {
                assert(node_wf(self.nodes@, n as int));
                assert(self.nodes@[n as int] == old_nodes[n as int]);
            }
            let is_leaf = match nd.state {
                NodeState::Leaf { .. } => true,
                NodeState::Branch { .. } => false,
            };
            if nd.alive && is_leaf {
                let min_rank = observers_min_rank_exec(observers, self.tree_pos, nd.position);
                let own_rank = nd.position.lod.u8();
                if min_rank < own_rank {
                    proof {
                        lemma_observers_min_rank_at_least_one(observers@, tp, nd.position);
                        assert(min_rank >= 1);
                        assert(lod_rank(nd.position.lod) >= 2);
                        assert(nd.position.lod != ChunkLod::Full);
                        assert(wants_split(old_nodes, observers@, tp, n as int));
                    }
                    let base = self.nodes.len();
                    let p_tr = nd.position.to_top_right();
                    let p_tl = nd.position.to_top_left();
                    let p_br = nd.position.to_bottom_right();
                    let p_bl = nd.position.to_bottom_left();
                    let ghost before_push = self.nodes@;
                    self.nodes.push(
                        ChunkNode {
                            position: p_tr,
                            parent: Some(n),
                            state: NodeState::Leaf { task: TaskState::NotSpawned },
                            alive: true,
                            mesh_live: false,
                        },
                    );
                    self.nodes.push(
                        ChunkNode {
                            position: p_tl,
                            parent: Some(n),
                            state: NodeState::Leaf { task: TaskState::NotSpawned },
                            alive: true,
                            mesh_live: false,
                        },
                    );
                    self.nodes.push(
                        ChunkNode {
                            position: p_br,
                            parent: Some(n),
                            state: NodeState::Leaf { task: TaskState::NotSpawned },
                            alive: true,
                            mesh_live: false,
                        },
                    );
                    self.nodes.push(
                        ChunkNode {
                            position: p_bl,
                            parent: Some(n),
                            state: NodeState::Leaf { task: TaskState::NotSpawned },
                            alive: true,
                            mesh_live: false,
                        },
                    );
                    let children = ChunkNodeChildren {
                        top_right: base,
                        top_left: base + 1,
                        bottom_right: base + 2,
                        bottom_left: base + 3,
                    };
                    let updated = ChunkNode {
                        position: nd.position,
                        parent: nd.parent,
                        state: NodeState::Branch { children, ready_count: 0 },
                        alive: nd.alive,
                        mesh_live: nd.mesh_live,
                    };
                    self.nodes.set(n, updated);
                    proof {
                        assert forall|m: int| 0 <= m < self.nodes@.len() implies node_wf(
                            self.nodes@,
                            m,
                        ) by {
                            if m < before_push.len() && m != n {
                                assert(node_wf(before_push, m));
                                assert(self.nodes@[m] == before_push[m]);
                            } else if m == n {
                                assert(self.nodes@[m].state matches NodeState::Branch { .. });
                            } else {
                                assert(self.nodes@[m].parent == Some(n as usize));
                            }
                        }
                    }
                }
            }
            n = n + 1;
        }
    }

    /// First merge phase: turn every live branch whose LOD is exactly what
    /// the observers ask for back into a fresh leaf; everything else,
    /// including live flags, stays as it was.
    #[verifier::loop_isolation(false)]
    #[verifier::rlimit(100)]
    pub fn merge_collapse(&mut self, observers: &Vec<Observer>)
        requires
            forall|m: int|
                0 <= m < old(self).nodes().len() ==> node_struct_wf(old(self).nodes(), m),
            forall|n: int| 0 <= n < observers@.len() ==> (#[trigger] observers@[n]).wf(),
            -0x10_0000 <= old(self).tree_pos.x <= 0x10_0000,
            -0x10_0000 <= old(self).tree_pos.y <= 0x10_0000,
        ensures
            final(self).tree_pos == old(self).tree_pos,
            final(self).nodes().len() == old(self).nodes().len(),
            forall|m: int|
                0 <= m < final(self).nodes().len() ==> node_struct_wf(final(self).nodes(), m),
            forall|m: int|
                0 <= m < old(self).nodes().len() ==> {
                    let was = old(self).nodes()[m];
                    let now = #[trigger] final(self).nodes()[m];
                    &&& now.position == was.position
                    &&& now.parent == was.parent
                    &&& now.mesh_live == was.mesh_live
                    &&& now.alive == was.alive
                    &&& now.state == if wants_merge(
                        old(self).nodes(),
                        observers@,
                        old(self).tree_pos,
                        m,
                    ) {
                        NodeState::Leaf { task: TaskState::NotSpawned }
                    } else {
                        was.state
                    }
                },
    {
        let ghost old_nodes = self.nodes@;
        let ghost tp = self.tree_pos;
        let len = self.nodes.len();
        let mut n: usize = 0;
        while n < len
            invariant
                n <= len,
                len == old_nodes.len(),
                len == self.nodes@.len(),
                self.tree_pos == tp,
                forall|m: int| n <= m < len ==> self.nodes@[m] == old_nodes[m],
                forall|m: int|
                    0 <= m < n ==> {
                        let was = old_nodes[m];
                        let now = #[trigger] self.nodes@[m];
                        &&& now.position == was.position
                        &&& now.parent == was.parent
                        &&& now.mesh_live == was.mesh_live
                        &&& now.alive == was.alive
                        &&& now.state == if wants_merge(old_nodes, observers@, tp, m) {
                            NodeState::Leaf { task: TaskState::NotSpawned }
                        } else {
                            was.state
                        }
                    },
            decreases len - n,
        {
            let nd = self.nodes[n];
            proof {
                assert(node_struct_wf(old_nodes, n as int));
                assert(self.nodes@[n as int] == old_nodes[n as int]);
            }
            let is_branch = match nd.state {
                NodeState::Branch { .. } => true,
                NodeState::Leaf { .. } => false,
            };
            if nd.alive && is_branch {
                let min_rank = observers_min_rank_exec(observers, self.tree_pos, nd.position);
                let own_rank = nd.position.lod.u8();
                if min_rank == own_rank {
                    let updated = ChunkNode {
                        position: nd.position,
                        parent: nd.parent,
                        state: NodeState::Leaf { task: TaskState::NotSpawned },
                        alive: nd.alive,
                        mesh_live: nd.mesh_live,
                    };
                    let ghost before = self.nodes@;
                    self.nodes.set(n, updated);
                    proof {
                        assert(wants_merge(old_nodes, observers@, tp, n as int));
                    }
                } else {
                    proof {
                        assert(!wants_merge(old_nodes, observers@, tp, n as int));
                    }
                }
            }
            n = n + 1;
        }
        proof {
            assert forall|m: int| 0 <= m < self.nodes@.len() implies node_struct_wf(
                self.nodes@,
                m,
            ) by {
                lemma_struct_wf_transfer(old_nodes, self.nodes@, m);
            }
        }
    }

    /// Second merge phase: walking the arena from the root outward, a node
    /// stays alive exactly when it was alive and still hangs under a live
    /// branch.
    #[verifier::loop_isolation(false)]
    #[verifier::rlimit(100)]
    pub fn merge_sweep(&mut self)
        requires
            forall|m: int|
                0 <= m < old(self).nodes().len() ==> node_struct_wf(old(self).nodes(), m),
            old(self).nodes().len() >= 1,
        ensures
            final(self).tree_pos == old(self).tree_pos,
            final(self).nodes().len() == old(self).nodes().len(),
            forall|m: int|
                0 <= m < final(self).nodes().len() ==> node_struct_wf(final(self).nodes(), m),
            forall|k: int|
                0 <= k < old(self).nodes().len() ==> {
                    let was = old(self).nodes()[k];
                    let now = #[trigger] final(self).nodes()[k];
                    &&& now.position == was.position
                    &&& now.parent == was.parent
                    &&& now.mesh_live == was.mesh_live
                    &&& now.state == was.state
                },
            final(self).nodes()[0].alive == old(self).nodes()[0].alive,
            forall|k: int|
                0 < k < old(self).nodes().len() ==> (#[trigger] final(self).nodes()[k]).alive == (
                old(self).nodes()[k].alive && final(self).nodes()[old(
                    self,
                ).nodes()[k].parent->0 as int].alive && final(self).nodes()[old(
                    self,
                ).nodes()[k].parent->0 as int].state is Branch),
    {
        let ghost mid_nodes = self.nodes@;
        let ghost tp = self.tree_pos;
        let len = self.nodes.len();
        proof {
            assert forall|k: int| 0 < k < len implies (#[trigger] mid_nodes[k]).parent is Some
                && mid_nodes[k].parent->0 < k by {
                assert(node_struct_wf(mid_nodes, k));
            }
        }
        let mut m: usize = 1;
        while m < len
            invariant
                1 <= m <= len,
                len == self.nodes@.len(),
                len == mid_nodes.len(),
                self.tree_pos == tp,
                forall|k: int|
                    0 < k < len ==> (#[trigger] mid_nodes[k]).parent is Some
                        && mid_nodes[k].parent->0 < k,
                forall|k: int|
                    0 <= k < len ==> {
                        let was = mid_nodes[k];
                        let now = #[trigger] self.nodes@[k];
                        &&& now.position == was.position
                        &&& now.parent == was.parent
                        &&& now.mesh_live == was.mesh_live
                        &&& now.state == was.state
                    },
                forall|k: int| m <= k < len || k == 0 ==> (#[trigger] self.nodes@[k]).alive
                    == mid_nodes[k].alive,
                forall|k: int|
                    0 < k < m ==> (#[trigger] self.nodes@[k]).alive == (mid_nodes[k].alive
                        && self.nodes@[mid_nodes[k].parent->0 as int].alive
                        && self.nodes@[mid_nodes[k].parent->0 as int].state is Branch),
            decreases len - m,
        {
            let nd = self.nodes[m];
            proof {
                assert(node_struct_wf(mid_nodes, m as int));
            }
            match nd.parent {
                Some(p) => {
                    let pn = self.nodes[p];
                    let parent_is_branch = match pn.state {
                        NodeState::Branch { .. } => true,
                        NodeState::Leaf { .. } => false,
                    };
                    let keep = nd.alive && pn.alive && parent_is_branch;
                    let ghost before = self.nodes@;
                    let updated = ChunkNode {
                        position: nd.position,
                        parent: nd.parent,
                        state: nd.state,
                        alive: keep,
                        mesh_live: nd.mesh_live,
                    };
                    self.nodes.set(m, updated);
                    proof {
                        assert(p < m);
                        assert(self.nodes@[p as int] == before[p as int]);
                    }
                },
                None => {
                    proof {
                        assert(false);
                    }
                },
            }
            m = m + 1;
        }
        proof {
            assert forall|k: int| 0 <= k < self.nodes@.len() implies node_struct_wf(
                self.nodes@,
                k,
            ) by {
                lemma_struct_wf_transfer(mid_nodes, self.nodes@, k);
            }
        }
    }

    /// Submit a generation task for every live leaf that has none yet, at
    /// the leaf's own position and the base vertical slab.
    #[verifier::loop_isolation(false)]
    #[verifier::rlimit(100)]
    pub fn collect_tasks(&mut self) -> (r: Vec<TaskRequest>)
        requires
            old(self).wf(),
        ensures
            final(self).wf(),
            final(self).tree_pos == old(self).tree_pos,
            final(self).nodes().len() == old(self).nodes().len(),
            forall|n: int|
                0 <= n < old(self).nodes().len() ==> {
                    let was = old(self).nodes()[n];
                    let now = #[trigger] final(self).nodes()[n];
                    if was.alive && was.state == (NodeState::Leaf { task: TaskState::NotSpawned }) {
                        &&& now.position == was.position
                        &&& now.parent == was.parent
                        &&& now.alive == was.alive
                        &&& now.mesh_live == was.mesh_live
                        &&& now.state == (NodeState::Leaf { task: TaskState::Pending })
                    } else {
                        now == was
                    }
                },
            forall|i: int|
                0 <= i < r@.len() ==> {
                    let rq = #[trigger] r@[i];
                    &&& rq.node < old(self).nodes().len()
                    &&& rq.tree_pos == old(self).tree_pos
                    &&& rq.stack_offset == 0
                    &&& old(self).nodes()[rq.node as int].alive
                    &&& old(self).nodes()[rq.node as int].state == (NodeState::Leaf {
                        task: TaskState::NotSpawned,
                    })
                    &&& rq.position == old(self).nodes()[rq.node as int].position
                },
            forall|n: int|
                0 <= n < old(self).nodes().len() && old(self).nodes()[n].alive && old(
                    self,
                ).nodes()[n].state == (NodeState::Leaf { task: TaskState::NotSpawned })
                    ==> exists|i: int|
                    0 <= i < r@.len() && (#[trigger] r@[i]).node == n,
    {
        let ghost old_nodes = self.nodes@;
        let len = self.nodes.len();
        let mut requests: Vec<TaskRequest> = Vec::new();
        let mut n: usize = 0;
        while n < len
            invariant
                n <= len,
                len == old_nodes.len(),
                len == self.nodes@.len(),
                self.tree_pos == old(self).tree_pos,
                forall|m: int| n <= m < len ==> self.nodes@[m] == old_nodes[m],
                forall|m: int|
                    0 <= m < n ==> {
                        let was = old_nodes[m];
                        let now = #[trigger] self.nodes@[m];
                        if was.alive && was.state == (NodeState::Leaf {
                            task: TaskState::NotSpawned,
                        }) {
                            &&& now.position == was.position
                            &&& now.parent == was.parent
                            &&& now.alive == was.alive
                            &&& now.mesh_live == was.mesh_live
                            &&& now.state == (NodeState::Leaf { task: TaskState::Pending })
                        } else {
                            now == was
                        }
                    },
                forall|m: int| 0 <= m < len ==> node_wf(self.nodes@, m),
                forall|i: int|
                    0 <= i < requests@.len() ==> {
                        let rq = #[trigger] requests@[i];
                        &&& rq.node < len
                        &&& rq.tree_pos == old(self).tree_pos
                        &&& rq.stack_offset == 0
                        &&& old_nodes[rq.node as int].alive
                        &&& old_nodes[rq.node as int].state == (NodeState::Leaf {
                            task: TaskState::NotSpawned,
                        })
                        &&& rq.position == old_nodes[rq.node as int].position
                    },
                forall|m: int|
                    0 <= m < n && old_nodes[m].alive && old_nodes[m].state == (NodeState::Leaf {
                        task: TaskState::NotSpawned,
                    }) ==> exists|i: int| 0 <= i < requests@.len() && (#[trigger] requests@[i]).node
                        == m,
            decreases len - n,
        {
            let nd = self.nodes[n];
            proof {
                assert(node_wf(self.nodes@, n as int));
            }
            let is_fresh_leaf = match nd.state {
                NodeState::Leaf { task: TaskState::NotSpawned } => true,
                _ => false,
            };
            if nd.alive && is_fresh_leaf {
                let ghost before = self.nodes@;
                let updated = ChunkNode {
                    position: nd.position,
                    parent: nd.parent,
                    state: NodeState::Leaf { task: TaskState::Pending },
                    alive: nd.alive,
                    mesh_live: nd.mesh_live,
                };
                self.nodes.set(n, updated);
                let rq = TaskRequest {
                    tree_pos: self.tree_pos,
                    position: nd.position,
                    stack_offset: 0,
                    node: n,
                };
                let ghost old_requests = requests@;
                requests.push(rq);
                proof {
                    assert forall|m: int| 0 <= m < len implies node_wf(self.nodes@, m) by {
                        if m != n {
                            assert(node_wf(before, m));
                            assert(self.nodes@[m] == before[m]);
                        } else {
                            assert(node_wf(before, m));
                        }
                    }
                    assert(requests@[requests@.len() - 1].node == n);
                    assert forall|m: int|
                        0 <= m < n + 1 && old_nodes[m].alive && old_nodes[m].state
                            == (NodeState::Leaf { task: TaskState::NotSpawned }) implies exists|i: int|
                        0 <= i < requests@.len() && (#[trigger] requests@[i]).node == m by {
                        if m < n {
                            let i = choose|i: int|
                                0 <= i < old_requests.len() && (#[trigger] old_requests[i]).node
                                    == m;
                            assert(requests@[i] == old_requests[i]);
                            assert(requests@[i].node == m);
                        } else {
                            assert(requests@[requests@.len() - 1].node == m);
                        }
                    }
                }
            }
            n = n + 1;
        }
        requests
    }

    /// Deposit a finished generation result at a leaf: the task turns
    /// ready, the parent counts one more ready child and hides its own
    /// coarse mesh once all four are ready, and a follow-up task one slab
    /// higher is returned exactly when the chunk's terrain extends above
    /// its grid.
    pub fn apply_result(&mut self, node: usize, stack_offset: i32, generate_above: bool) -> (r:
        Option<TaskRequest>)
        requires
            old(self).wf(),
            node < old(self).nodes().len(),
            old(self).nodes()[node as int].state == (NodeState::Leaf { task: TaskState::Pending }),
            0 <= stack_offset < 0x1000_0000,
        ensures
            final(self).wf(),
            final(self).tree_pos == old(self).tree_pos,
            final(self).nodes().len() == old(self).nodes().len(),
            (r is Some) <==> generate_above,
            generate_above ==> r == Some(
                TaskRequest {
                    tree_pos: old(self).tree_pos,
                    position: old(self).nodes()[node as int].position,
                    stack_offset: (stack_offset + 1) as i32,
                    node,
                },
            ),
            final(self).nodes()[node as int].state == (NodeState::Leaf {
                task: TaskState::Ready { generate_above },
            }),
            final(self).nodes()[node as int].position == old(self).nodes()[node as int].position,
            final(self).nodes()[node as int].parent == old(self).nodes()[node as int].parent,
            final(self).nodes()[node as int].alive == old(self).nodes()[node as int].alive,
            final(self).nodes()[node as int].mesh_live == old(self).nodes()[node as int].mesh_live,
            forall|m: int|
                0 <= m < old(self).nodes().len() && m != node && (old(self).nodes()[node as int].parent
                    is Some ==> m != old(self).nodes()[node as int].parent->0)
                    ==> #[trigger] final(self).nodes()[m] == old(self).nodes()[m],
            match old(self).nodes()[node as int].parent {
                Some(p) => match old(self).nodes()[p as int].state {
                    NodeState::Branch { children, ready_count } => {
                        let newrc = if ready_count < 4 {
                            ready_count + 1
                        } else {
                            ready_count as int
                        };
                        &&& final(self).nodes()[p as int].state == (NodeState::Branch {
                            children,
                            ready_count: newrc as u8,
                        })
                        &&& final(self).nodes()[p as int].mesh_live == (if ready_count < 4 && newrc
                            == 4 {
                            false
                        } else {
                            old(self).nodes()[p as int].mesh_live
                        })
                        &&& final(self).nodes()[p as int].position == old(self).nodes()[p as int].position
                        &&& final(self).nodes()[p as int].parent == old(self).nodes()[p as int].parent
                        &&& final(self).nodes()[p as int].alive == old(self).nodes()[p as int].alive
                    },
                    NodeState::Leaf { .. } => node as int != p ==> final(self).nodes()[p as int]
                        == old(self).nodes()[p as int],
                },
                None => true,
            },
    {
        let ghost old_nodes = self.nodes@;
        proof {
            assert(node_wf(self.nodes@, node as int));
        }
        let nd = self.nodes[node];
        let updated = ChunkNode {
            position: nd.position,
            parent: nd.parent,
            state: NodeState::Leaf { task: TaskState::Ready { generate_above } },
            alive: nd.alive,
            mesh_live: nd.mesh_live,
        };
        self.nodes.set(node, updated);
        proof {
            assert forall|m: int| 0 <= m < self.nodes@.len() implies node_wf(self.nodes@, m) by {
                assert(node_wf(old_nodes, m));
                if m != node {
                    assert(self.nodes@[m] == old_nodes[m]);
                }
            }
        }
        match nd.parent {
            Some(p) => {
                proof {
                    assert(node_wf(old_nodes, node as int));
                    assert(p < self.nodes@.len());
                }
                let pn = self.nodes[p];
                match pn.state {
                    NodeState::Branch { children, ready_count } => {
                        if ready_count < 4 {
                            let newrc = ready_count + 1;
                            let ghost before = self.nodes@;
                            let updated_parent = ChunkNode {
                                position: pn.position,
                                parent: pn.parent,
                                state: NodeState::Branch { children, ready_count: newrc },
                                alive: pn.alive,
                                mesh_live: if newrc == 4 {
                                    false
                                } else {
                                    pn.mesh_live
                                },
                            };
                            self.nodes.set(p, updated_parent);
                            proof {
                                assert forall|m: int| 0 <= m < self.nodes@.len() implies node_wf(
                                    self.nodes@,
                                    m,
                                ) by {
                                    assert(node_wf(before, m));
                                    if m != p {
                                        assert(self.nodes@[m] == before[m]);
                                    }
                                }
                            }
                        }
                    },
                    NodeState::Leaf { .. } => {
                    },
                }
            },
            None => {
            },
        }
        if generate_above {
            Some(
                TaskRequest {
                    tree_pos: self.tree_pos,
                    position: nd.position,
                    stack_offset: stack_offset + 1,
                    node,
                },
            )
        } else {
            None
        }
    }
}

/// No observer asks to change the tree: no live leaf should split and no
/// live branch should collapse.
pub open spec fn tree_stable(
    nodes: Seq<ChunkNode>,
    obs: Seq<Observer>,
    tree_pos: ChunkTreePos,
) -> bool {
    forall|n: int|
        0 <= n < nodes.len() ==> !#[trigger] wants_split(nodes, obs, tree_pos, n)
            && !wants_merge(nodes, obs, tree_pos, n)
}

/// A stable tree is a fixed point of the tick: when the observers ask for
/// no change, a subdivide pass and a merge pass leave every node exactly as
/// it was.
pub proof fn lemma_stable_tree_is_fixed_point(
    old_nodes: Seq<ChunkNode>,
    new_nodes: Seq<ChunkNode>,
    obs: Seq<Observer>,
    tree_pos: ChunkTreePos,
)
    requires
        tree_stable(old_nodes, obs, tree_pos),
        forall|n: int| 0 <= n < old_nodes.len() ==> node_wf(old_nodes, n),
        subdivide_rel(old_nodes, new_nodes, obs, tree_pos) || merge_rel(
            old_nodes,
            new_nodes,
            obs,
            tree_pos,
        ),
    ensures
        new_nodes == old_nodes,
{
    if subdivide_rel(old_nodes, new_nodes, obs, tree_pos) {
        assert forall|n: int| 0 <= n < old_nodes.len() implies new_nodes[n] == old_nodes[n] by {
            assert(!wants_split(old_nodes, obs, tree_pos, n));
        }
        assert(new_nodes.len() == old_nodes.len()) by {
            if new_nodes.len() > old_nodes.len() {
                let extra = new_nodes[old_nodes.len() as int];
                let p = extra.parent->0 as int;
                assert(wants_split(old_nodes, obs, tree_pos, p));
                assert(false);
            }
        }
        assert(new_nodes =~= old_nodes);
    } else {
        assert forall|n: int| 0 <= n < old_nodes.len() implies new_nodes[n] == old_nodes[n] by {
            lemma_merge_stable_at(old_nodes, new_nodes, obs, tree_pos, n);
        }
        assert(new_nodes =~= old_nodes);
    }
}

/// In a stable tree a merge pass leaves node `n` untouched; by induction
/// over the parent chain its live flag is recomputed to its old value.
proof fn lemma_merge_stable_at(
    old_nodes: Seq<ChunkNode>,
    new_nodes: Seq<ChunkNode>,
    obs: Seq<Observer>,
    tree_pos: ChunkTreePos,
    n: int,
)
    requires
        tree_stable(old_nodes, obs, tree_pos),
        forall|m: int| 0 <= m < old_nodes.len() ==> node_wf(old_nodes, m),
        merge_rel(old_nodes, new_nodes, obs, tree_pos),
        0 <= n < old_nodes.len(),
    ensures
        new_nodes[n] == old_nodes[n],
    decreases n,
{
    assert(!wants_split(old_nodes, obs, tree_pos, n));
    assert(!wants_merge(old_nodes, obs, tree_pos, n));
    assert(node_wf(old_nodes, n));
    if n > 0 {
        if old_nodes[n].alive {
            let p = old_nodes[n].parent->0 as int;
            lemma_merge_stable_at(old_nodes, new_nodes, obs, tree_pos, p);
            assert(!wants_split(old_nodes, obs, tree_pos, p));
            assert(!wants_merge(old_nodes, obs, tree_pos, p));
            assert(new_nodes[p] == old_nodes[p]);
        }
    }
}

} // verus!
