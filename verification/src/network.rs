//! The road-network snapshot the synthesis pipeline queries: lanes with
//! straight centerline geometry, roads owning ordered lane lists, positions
//! along lanes, and the batch answer of the external spatial resolver.

use crate::geometry::pt_wf;
use crate::geometry::Pt;
use crate::geometry::MAX_COORD;
use vstd::prelude::*;

verus! {

/// Index of a lane in the network's lane table.
#[derive(Clone, Copy, PartialEq, Eq, Structural, Debug)]
pub struct LaneID(pub usize);

/// Index of a road in the network's road table.
#[derive(Clone, Copy, PartialEq, Eq, Structural, Debug)]
pub struct RoadID(pub usize);

#[derive(Clone, Copy, PartialEq, Eq, Structural, Debug)]
pub enum LaneType {
    Driving,
    Parking,
    Sidewalk,
    Biking,
}

/// One lane: a straight centerline from `src` to `dst`, its declared length
/// in centimeters, its owning road and its slot in that road's lane list.
pub struct Lane {
    pub parent: RoadID,
    pub parent_idx: usize,
    pub lane_type: LaneType,
    pub src: Pt,
    pub dst: Pt,
    pub length: i64,
}

/// One road segment: a display name and its lanes in cross-section order.
pub struct Road {
    pub name: String,
    pub lanes: Vec<(LaneID, LaneType)>,
}

/// The read-only network snapshot.
pub struct RoadNetwork {
    pub roads: Vec<Road>,
    pub lanes: Vec<Lane>,
}

/// A point expressed as a lane and a distance along it, in centimeters.
#[derive(Clone, Copy, PartialEq, Eq, Structural, Debug)]
pub struct Position {
    pub lane: LaneID,
    pub dist_along: i64,
}

pub open spec fn lane_entry_wf(net: &RoadNetwork, i: int) -> bool {
    let l = net.lanes@[i];
    &&& pt_wf(l.src)
    &&& pt_wf(l.dst)
    &&& 0 < l.length <= MAX_COORD
    &&& l.parent.0 < net.roads@.len()
    &&& l.parent_idx < net.roads@[l.parent.0 as int].lanes@.len()
    &&& net.roads@[l.parent.0 as int].lanes@[l.parent_idx as int] == (LaneID(i as usize), l.lane_type)
}

pub open spec fn road_entry_wf(net: &RoadNetwork, r: int, j: int) -> bool {
    let e = net.roads@[r].lanes@[j];
    &&& e.0.0 < net.lanes@.len()
    &&& net.lanes@[e.0.0 as int].parent.0 == r
    &&& net.lanes@[e.0.0 as int].lane_type == e.1
}

/// Coherence of the snapshot: every lane's geometry is on the grid, every
/// lane sits in its owning road's lane list at its recorded slot, and every
/// road's lane list points back at lanes it owns.
pub open spec fn network_wf(net: &RoadNetwork) -> bool {
    &&& forall|i: int| 0 <= i < net.lanes@.len() ==> #[trigger] lane_entry_wf(net, i)
    &&& forall|r: int, j: int|
        0 <= r < net.roads@.len() && 0 <= j < net.roads@[r].lanes@.len()
            ==> #[trigger] road_entry_wf(net, r, j)
}

/// A valid position: its lane exists and its distance lies on the lane.
pub open spec fn position_wf(p: Position, net: &RoadNetwork) -> bool {
    &&& p.lane.0 < net.lanes@.len()
    &&& 0 <= p.dist_along <= net.lanes@[p.lane.0 as int].length
}

// ----- interpolation along a straight lane -----
/// One axis of the point a given distance along a straight segment, rounded
/// down to the grid.
pub open spec fn interp(p: int, q: int, d: int, len: int) -> int {
    if q >= p {
        p + ((q - p) * d) / len
    } else {
        p - ((p - q) * d) / len
    }
}

proof fn lemma_interp_step(p: int, q: int, d: int, len: int)
    requires
        0 <= d <= len,
        0 < len <= MAX_COORD,
        0 <= p <= MAX_COORD,
        0 <= q <= MAX_COORD,
    ensures
        q >= p ==> 0 <= (q - p) * d <= (q - p) * len <= MAX_COORD * MAX_COORD && 0 <= ((q - p) * d)
            / len <= q - p,
        q < p ==> 0 <= (p - q) * d <= (p - q) * len <= MAX_COORD * MAX_COORD && 0 <= ((p - q) * d)
            / len <= p - q,
{
    if q >= p {
        assert(0 <= (q - p) * d <= (q - p) * len <= MAX_COORD * MAX_COORD) by (nonlinear_arith)
            requires
                0 <= d <= len,
                q >= p,
                0 < len <= MAX_COORD,
                0 <= p <= MAX_COORD,
                0 <= q <= MAX_COORD,
        ;
        assert(0 <= ((q - p) * d) / len <= q - p) by (nonlinear_arith)
            requires
                0 < len,
                0 <= (q - p) * d <= (q - p) * len,
                q >= p,
        ;
    } else {
        assert(0 <= (p - q) * d <= (p - q) * len <= MAX_COORD * MAX_COORD) by (nonlinear_arith)
            requires
                0 <= d <= len,
                q < p,
                0 < len <= MAX_COORD,
                0 <= p <= MAX_COORD,
                0 <= q <= MAX_COORD,
        ;
        assert(0 <= ((p - q) * d) / len <= p - q) by (nonlinear_arith)
            requires
                0 < len,
                0 <= (p - q) * d <= (p - q) * len,
                q < p,
        ;
    }
}

fn interp_exec(p: i64, q: i64, d: i64, len: i64) -> (r: i64)
    requires
        0 <= p <= MAX_COORD,
        0 <= q <= MAX_COORD,
        0 <= d <= len,
        0 < len <= MAX_COORD,
    ensures
        r == interp(p as int, q as int, d as int, len as int),
        0 <= r <= MAX_COORD,
{
    proof {
        lemma_interp_step(p as int, q as int, d as int, len as int);
    }
    if q >= p {
        let prod = (q - p) * d;
        let off = ((prod as u64) / (len as u64)) as i64;
        p + off
    } else {
        let prod = (p - q) * d;
        let off = ((prod as u64) / (len as u64)) as i64;
        p - off
    }
}

/// The grid point of a position: its lane's centerline walked for
/// `dist_along` centimeters, axis-wise as `interp` describes.
pub open spec fn spec_pt_of(net: &RoadNetwork, pos: Position) -> Pt {
    let l = net.lanes@[pos.lane.0 as int];
    Pt {
        x: interp(l.src.x as int, l.dst.x as int, pos.dist_along as int, l.length as int) as i64,
        y: interp(l.src.y as int, l.dst.y as int, pos.dist_along as int, l.length as int) as i64,
    }
}

impl RoadNetwork {
    /// The lane with the given identifier.
    pub fn get_l(&self, id: LaneID) -> (l: &Lane)
        requires
            id.0 < self.lanes@.len(),
        ensures
            *l == self.lanes@[id.0 as int],
    {
        &self.lanes[id.0]
    }

    /// The road segment that owns the given lane.
    pub fn get_parent(&self, id: LaneID) -> (r: &Road)
        requires
            network_wf(self),
            id.0 < self.lanes@.len(),
        ensures
            *r == self.roads@[self.lanes@[id.0 as int].parent.0 as int],
    {
        proof {
            assert(lane_entry_wf(self, id.0 as int));
        }
        let l = &self.lanes[id.0];
        &self.roads[l.parent.0]
    }

    /// The grid point of a position, exactly as `spec_pt_of` describes.
    pub fn pt_of(&self, pos: Position) -> (p: Pt)
        requires
            network_wf(self),
            position_wf(pos, self),
        ensures
            p == spec_pt_of(self, pos),
            pt_wf(p),
    {
        proof {
            assert(lane_entry_wf(self, pos.lane.0 as int));
        }
        let l = &self.lanes[pos.lane.0];
        let x = interp_exec(l.src.x, l.dst.x, pos.dist_along, l.length);
        let y = interp_exec(l.src.y, l.dst.y, pos.dist_along, l.length);
        Pt { x, y }
    }
}

impl Road {
    /// The road's display name.
    pub fn get_name(&self) -> (n: String)
        ensures
            n@ == self.name@,
    {
        self.name.clone()
    }
}

// ----- nearest lane of a type on the same road -----
/// Index distance between two slots of a road's lane list.
pub open spec fn slot_dist(j: int, fi: int) -> int {
    if j >= fi {
        j - fi
    } else {
        fi - j
    }
}

/// The best candidate among the first `upto` slots: a lane whose type is in
/// `types`, minimizing the index distance to `fi`, earliest slot on ties.
pub open spec fn spec_closest_upto(
    lanes: Seq<(LaneID, LaneType)>,
    fi: int,
    types: Seq<LaneType>,
    upto: int,
) -> Option<int>
    decreases upto,
{
    if upto <= 0 {
        None
    } else {
        let prev = spec_closest_upto(lanes, fi, types, upto - 1);
        let j = upto - 1;
        let ok = types.contains(lanes[j].1);
        match prev {
            None => if ok {
                Some(j)
            } else {
                None
            },
            Some(p) => if ok && slot_dist(j, fi) < slot_dist(p, fi) {
                Some(j)
            } else {
                Some(p)
            },
        }
    }
}

/// The nearest lane of one of the given types on this road, counted from the
/// slot `fi`.
pub open spec fn spec_find_closest(road: &Road, fi: int, types: Seq<LaneType>) -> Option<LaneID> {
    match spec_closest_upto(road.lanes@, fi, types, road.lanes@.len() as int) {
        None => None,
        Some(j) => Some(road.lanes@[j].0),
    }
}

proof fn lemma_closest_upto_props(
    lanes: Seq<(LaneID, LaneType)>,
    fi: int,
    types: Seq<LaneType>,
    upto: int,
)
    requires
        0 <= upto <= lanes.len(),
    ensures
        spec_closest_upto(lanes, fi, types, upto) matches Some(j) ==> 0 <= j < upto
            && types.contains(lanes[j].1),
    decreases upto,
{
    if upto > 0 {
        lemma_closest_upto_props(lanes, fi, types, upto - 1);
    }
}

/// A found nearest lane is one of the road's own entries, of a wanted type.
pub proof fn lemma_find_closest_props(road: &Road, fi: int, types: Seq<LaneType>)
    ensures
        spec_find_closest(road, fi, types) matches Some(l) ==> exists|j: int|
            0 <= j < road.lanes@.len() && (#[trigger] road.lanes@[j]).0 == l && types.contains(
                road.lanes@[j].1,
            ),
{
    lemma_closest_upto_props(road.lanes@, fi, types, road.lanes@.len() as int);
}

fn types_contain(types: &Vec<LaneType>, lt: LaneType) -> (r: bool)
    ensures
        r == types@.contains(lt),
{
    let n = types.len();
    for i in 0..n
        invariant
            n == types@.len(),
            forall|k: int| 0 <= k < i ==> types@[k] != lt,
    {
        if types[i] == lt {
            return true;
        }
    }
    false
}

impl Road {
    /// Searches this road's cross section for the lane of one of the given
    /// types whose slot is closest to slot `fi`, exactly as
    /// `spec_find_closest` describes. `None` when the road carries no lane of
    /// those types.
    pub fn find_closest_lane(&self, fi: usize, types: &Vec<LaneType>) -> (r: Option<LaneID>)
        ensures
            r == spec_find_closest(self, fi as int, types@),
    {
        let n = self.lanes.len();
        let mut best: Option<usize> = None;
        for j in 0..n
            invariant
                n == self.lanes@.len(),
                match best {
                    None => spec_closest_upto(self.lanes@, fi as int, types@, j as int) is None,
                    Some(b) => b < n && spec_closest_upto(self.lanes@, fi as int, types@, j as int)
                        == Some(b as int),
                },
        {
            let ok = types_contain(types, self.lanes[j].1);
            let better = match best {
                None => ok,
                Some(b) => {
                    let dj = if j >= fi {
                        j - fi
                    } else {
                        fi - j
                    };
                    let db = if b >= fi {
                        b - fi
                    } else {
                        fi - b
                    };
                    ok && dj < db
                },
            };
            if better {
                best = Some(j);
            }
        }
        match best {
            None => None,
            Some(b) => Some(self.lanes[b].0),
        }
    }
}

// ----- position projection between lanes of one road -----
/// The equivalent position on another lane: the same distance along, shifted
/// by `offset` and clamped to the target lane's length.
pub open spec fn spec_equiv_pos(p: Position, other: LaneID, offset: int, net: &RoadNetwork) -> Position {
    let len2 = net.lanes@[other.0 as int].length as int;
    let d = p.dist_along + offset;
    Position {
        lane: other,
        dist_along: (if d > len2 {
            len2
        } else {
            d
        }) as i64,
    }
}

impl Position {
    /// Projects this position onto another lane of the same road, exactly as
    /// `spec_equiv_pos` describes.
    pub fn equiv_pos(&self, other: LaneID, offset: i64, net: &RoadNetwork) -> (r: Position)
        requires
            network_wf(net),
            position_wf(*self, net),
            other.0 < net.lanes@.len(),
            0 <= offset <= MAX_COORD,
        ensures
            r == spec_equiv_pos(*self, other, offset as int, net),
            position_wf(r, net),
    {
        proof {
            assert(lane_entry_wf(net, self.lane.0 as int));
            assert(lane_entry_wf(net, other.0 as int));
        }
        let len2 = net.lanes[other.0].length;
        let d = self.dist_along + offset;
        let dist = if d > len2 {
            len2
        } else {
            d
        };
        Position { lane: other, dist_along: dist }
    }
}

// ----- the spatial resolver's batch answer -----
/// The mapping the external spatial resolver returns for one batch: each
/// query point that has a reachable network position within the search
/// radius, paired with that position. Query points with no reachable
/// position are simply absent.
pub struct SidewalkPoints {
    pub entries: Vec<(Pt, Position)>,
}

/// First-match lookup in the resolver's answer.
pub open spec fn spec_lookup(s: Seq<(Pt, Position)>, q: Pt) -> Option<Position>
    decreases s.len(),
{
    if s.len() == 0 {
        None
    } else if s[0].0 == q {
        Some(s[0].1)
    } else {
        spec_lookup(s.drop_first(), q)
    }
}

/// Every recorded position is valid on the network.
pub open spec fn sidewalk_points_wf(s: &SidewalkPoints, net: &RoadNetwork) -> bool {
    forall|i: int| 0 <= i < s.entries@.len() ==> position_wf(#[trigger] s.entries@[i].1, net)
}

/// A position looked up in a well-formed resolver answer is itself valid.
pub proof fn lemma_lookup_position_wf(s: Seq<(Pt, Position)>, q: Pt, net: &RoadNetwork)
    requires
        forall|i: int| 0 <= i < s.len() ==> position_wf((#[trigger] s[i]).1, net),
    ensures
        spec_lookup(s, q) matches Some(p) ==> position_wf(p, net),
    decreases s.len(),
{
    if s.len() > 0 && s[0].0 != q {
        lemma_lookup_position_wf(s.drop_first(), q, net);
    }
}

impl SidewalkPoints {
    /// The resolved position for a query point, if it had one.
    pub fn get(&self, q: Pt) -> (r: Option<Position>)
        ensures
            r == spec_lookup(self.entries@, q),
    {
        let n = self.entries.len();
        proof {
            assert(self.entries@.skip(0) =~= self.entries@);
        }
        for i in 0..n
            invariant
                n == self.entries@.len(),
                spec_lookup(self.entries@, q) == spec_lookup(self.entries@.skip(i as int), q),
        {
            if self.entries[i].0 == q {
                return Some(self.entries[i].1);
            }
            proof {
                assert(self.entries@.skip(i as int).drop_first() =~= self.entries@.skip(i + 1));
            }
        }
        None
    }
}

} // verus!
