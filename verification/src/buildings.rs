//! Building synthesis: per-footprint connection to the pedestrian network,
//! address resolution from tag data, and the vehicle-access probe shared with
//! parking-lot synthesis.

use crate::geometry::polygon_wf;
use crate::geometry::spec_center;
use crate::geometry::spec_trim_path;
use crate::geometry::trim_path;
use crate::geometry::Line;
use crate::geometry::Polygon;
use crate::geometry::Pt;
use crate::network::lane_entry_wf;
use crate::network::lemma_find_closest_props;
use crate::network::lemma_lookup_position_wf;
use crate::network::network_wf;
use crate::network::position_wf;
use crate::network::road_entry_wf;
use crate::network::sidewalk_points_wf;
use crate::network::spec_equiv_pos;
use crate::network::spec_find_closest;
use crate::network::spec_lookup;
use crate::network::spec_pt_of;
use crate::network::LaneID;
use crate::network::LaneType;
use crate::network::Position;
use crate::network::RoadNetwork;
use crate::network::SidewalkPoints;
use crate::strfmt::dec_str;
use crate::strfmt::u64_to_string;
use crate::strfmt::usize_to_string;
use crate::warn::str_views;
use crate::warn::Timer;
use vstd::prelude::*;
use vstd::string::StringExecFns;

verus! {

/// Minimum distance, in centimeters, between a projected driving position
/// and either end of its lane (7 meters).
pub const DRIVEWAY_BUFFER_CM: i64 = 700;

/// Search radius for the spatial resolver when connecting buildings (100
/// meters): a sidewalk must lie within this radius to be reachable.
pub const BUILDING_SEARCH_RADIUS_CM: i64 = 10000;

/// Whether a point already occurs among the collected query points.
pub fn pt_vec_contains(v: &Vec<Pt>, p: Pt) -> (r: bool)
    ensures
        r == v@.contains(p),
{
    let n = v.len();
    for i in 0..n
        invariant
            n == v@.len(),
            forall|k: int| 0 <= k < i ==> v@[k] != p,
    {
        if v[i] == p {
            return true;
        }
    }
    false
}

/// The given points with duplicates removed, first appearances kept in
/// order: same membership, no repeated value.
pub fn dedup_points(pts: &Vec<Pt>) -> (q: Vec<Pt>)
    ensures
        forall|k: int| 0 <= k < q@.len() ==> pts@.contains(#[trigger] q@[k]),
        forall|i: int| 0 <= i < pts@.len() ==> q@.contains(#[trigger] pts@[i]),
        forall|k1: int, k2: int|
            #![trigger q@[k1], q@[k2]]
            0 <= k1 < k2 < q@.len() ==> q@[k1] != q@[k2],
{
    let n = pts.len();
    let mut q: Vec<Pt> = Vec::new();
    for i in 0..n
        invariant
            n == pts@.len(),
            forall|k: int| 0 <= k < q@.len() ==> pts@.contains(#[trigger] q@[k]),
            forall|j: int| 0 <= j < i ==> q@.contains(#[trigger] pts@[j]),
            forall|k1: int, k2: int|
                #![trigger q@[k1], q@[k2]]
                0 <= k1 < k2 < q@.len() ==> q@[k1] != q@[k2],
    {
        let c = pts[i];
        if !pt_vec_contains(&q, c) {
            let ghost oldq = q@;
            q.push(c);
            proof {
                let m = oldq.len() as int;
                assert(q@[m] == c);
                assert forall|k: int| 0 <= k < q@.len() implies pts@.contains(
                    #[trigger] q@[k],
                ) by {
                    if k < m {
                        assert(q@[k] == oldq[k]);
                    } else {
                        assert(q@[k] == pts@[i as int]);
                    }
                }
                assert forall|j: int| 0 <= j < i + 1 implies q@.contains(#[trigger] pts@[j]) by {
                    if j < i {
                        let w = choose|w: int| 0 <= w < oldq.len() && oldq[w] == pts@[j];
                        assert(q@[w] == pts@[j]);
                    } else {
                        assert(q@[m] == pts@[j]);
                    }
                }
                assert forall|k1: int, k2: int|
                    #![trigger q@[k1], q@[k2]]
                    0 <= k1 < k2 < q@.len() implies q@[k1] != q@[k2] by {
                    if k2 == m {
                        assert(q@[k1] == oldq[k1]);
                        assert(!oldq.contains(c));
                    }
                }
            }
        } else {
            proof {
                let w = choose|w: int| 0 <= w < q@.len() && q@[w] == c;
                assert(q@.contains(pts@[i as int]));
            }
        }
    }
    q
}

/// The centroids of a batch of raw buildings, in input order.
pub open spec fn bldg_centers(input: Seq<RawBuilding>) -> Seq<Pt> {
    Seq::new(input.len(), |j: int| spec_center(&input[j].polygon))
}

/// The batch query for the spatial resolver: every building centroid, each
/// distinct value once, in first-appearance order.
pub fn building_centroid_queries(input: &Vec<RawBuilding>) -> (q: Vec<Pt>)
    requires
        forall|i: int|
            #![trigger input@[i]]
            0 <= i < input@.len() ==> polygon_wf(&input@[i].polygon),
    ensures
        forall|k: int| 0 <= k < q@.len() ==> bldg_centers(input@).contains(#[trigger] q@[k]),
        forall|i: int|
            0 <= i < input@.len() ==> q@.contains(#[trigger] bldg_centers(input@)[i]),
        forall|k1: int, k2: int|
            #![trigger q@[k1], q@[k2]]
            0 <= k1 < k2 < q@.len() ==> q@[k1] != q@[k2],
{
    let n = input.len();
    let mut centers: Vec<Pt> = Vec::new();
    for i in 0..n
        invariant
            n == input@.len(),
            forall|j: int|
                #![trigger input@[j]]
                0 <= j < input@.len() ==> polygon_wf(&input@[j].polygon),
            centers@.len() == i,
            forall|j: int| 0 <= j < i ==> #[trigger] centers@[j] == spec_center(&input@[j].polygon),
    {
        let c = input[i].polygon.center();
        centers.push(c);
    }
    proof {
        assert(centers@ =~= bldg_centers(input@));
    }
    dedup_points(&centers)
}

/// Identifier of a synthesized building: dense, zero-based, in synthesis
/// success order.
#[derive(Clone, Copy, PartialEq, Eq, Structural, Debug)]
pub struct BuildingID(pub usize);

/// The tag data of a raw footprint: key/value pairs in source order.
pub struct Tags(pub Vec<(String, String)>);

/// First-match lookup among the tag pairs.
pub open spec fn spec_tag_get(s: Seq<(String, String)>, k: Seq<char>) -> Option<Seq<char>>
    decreases s.len(),
{
    if s.len() == 0 {
        None
    } else if s[0].0@ == k {
        Some(s[0].1@)
    } else {
        spec_tag_get(s.drop_first(), k)
    }
}

impl Tags {
    /// The value of the first pair carrying the given key, if any.
    pub fn get(&self, key: &String) -> (r: Option<&String>)
        ensures
            (r is Some) == (spec_tag_get(self.0@, key@) is Some),
            r matches Some(v) ==> spec_tag_get(self.0@, key@) == Some(v@),
    {
        let n = self.0.len();
        proof {
            assert(self.0@.skip(0) =~= self.0@);
        }
        for i in 0..n
            invariant
                n == self.0@.len(),
                spec_tag_get(self.0@, key@) == spec_tag_get(self.0@.skip(i as int), key@),
        {
            if self.0[i].0 == *key {
                return Some(&self.0[i].1);
            }
            proof {
                assert(self.0@.skip(i as int).drop_first() =~= self.0@.skip(i + 1));
            }
        }
        None
    }
}

fn clone_opt_string(o: &Option<String>) -> (r: Option<String>)
    ensures
        r == *o,
{
    match o {
        None => None,
        Some(s) => Some(s.clone()),
    }
}

fn clone_string_pairs(v: &Vec<(String, String)>) -> (r: Vec<(String, String)>)
    ensures
        r@ == v@,
{
    let n = v.len();
    let mut out: Vec<(String, String)> = Vec::new();
    for i in 0..n
        invariant
            n == v@.len(),
            out@ == v@.take(i as int),
    {
        let k = v[i].0.clone();
        let val = v[i].1.clone();
        proof {
            assert((k, val) == v@[i as int]);
            assert(v@.take(i + 1) =~= v@.take(i as int).push(v@[i as int]));
        }
        out.push((k, val));
    }
    proof {
        assert(v@.take(n as int) =~= v@);
    }
    out
}

// ----- address resolution -----
/// The address a footprint resolves to: house number and street when both
/// tags are present; an unknown-value placeholder before the street when the
/// house number is missing; the placeholder before the display name of the
/// road owning the sidewalk lane when both are missing.
pub open spec fn spec_address(tags: Seq<(String, String)>, road_name: Seq<char>) -> Seq<char> {
    let num = spec_tag_get(tags, "addr:housenumber"@);
    let st = spec_tag_get(tags, "addr:street"@);
    match (num, st) {
        (Some(n), Some(s)) => n + " "@ + s,
        (None, Some(s)) => "??? "@ + s,
        _ => "??? "@ + road_name,
    }
}

/// Resolves the address of a footprint whose connector reaches the given
/// sidewalk lane. Total: every tag set yields a non-empty string, exactly as
/// `spec_address` describes.
pub fn get_address(tags: &Tags, sidewalk: LaneID, net: &RoadNetwork) -> (r: String)
    requires
        network_wf(net),
        sidewalk.0 < net.lanes@.len(),
    ensures
        r@ == spec_address(
            tags.0@,
            net.roads@[net.lanes@[sidewalk.0 as int].parent.0 as int].name@,
        ),
        r@.len() > 0,
{
    proof {
        reveal_strlit("??? ");
        reveal_strlit(" ");
    }
    let knum = String::from_str("addr:housenumber");
    let kst = String::from_str("addr:street");
    let num = tags.get(&knum);
    let st = tags.get(&kst);
    match (num, st) {
        (Some(n), Some(s)) => n.clone().concat(" ").concat(s.as_str()),
        (None, Some(s)) => String::from_str("??? ").concat(s.as_str()),
        _ => {
            let name = net.get_parent(sidewalk).get_name();
            String::from_str("??? ").concat(name.as_str())
        },
    }
}

// ----- vehicle access -----
/// A connector polyline: footprint edge, centroid-adjacent point, driving
/// lane.
pub struct PolyLine {
    pub points: Vec<Pt>,
}

/// Where vehicle access lands, if anywhere: the nearest driving lane on the
/// sidewalk's road, the sidewalk position projected onto it, kept only when
/// the projection sits more than the buffer distance from both lane ends.
pub open spec fn spec_driveway_pos(sidewalk_pos: Position, net: &RoadNetwork) -> Option<Position> {
    let l = net.lanes@[sidewalk_pos.lane.0 as int];
    let road = net.roads@[l.parent.0 as int];
    match spec_find_closest(&road, l.parent_idx as int, seq![LaneType::Driving]) {
        None => None,
        Some(dl) => {
            let dpos = spec_equiv_pos(sidewalk_pos, dl, 0, net);
            if dpos.dist_along > DRIVEWAY_BUFFER_CM && net.lanes@[dl.0 as int].length
                - dpos.dist_along > DRIVEWAY_BUFFER_CM {
                Some(dpos)
            } else {
                None
            }
        },
    }
}

/// Attempts vehicle access for a connected footprint: `None` when the
/// sidewalk's road has no driving lane or the projected position violates
/// the buffer, otherwise the three-point connector polyline and the driving
/// position, as `spec_driveway_pos` describes.
pub fn find_driveway(sidewalk_pos: Position, sidewalk_line: Line, net: &RoadNetwork) -> (r: Option<
    (PolyLine, Position),
>)
    requires
        network_wf(net),
        position_wf(sidewalk_pos, net),
    ensures
        (r is Some) == (spec_driveway_pos(sidewalk_pos, net) is Some),
        r matches Some(pair) ==> {
            &&& spec_driveway_pos(sidewalk_pos, net) == Some(pair.1)
            &&& pair.0.points@ == seq![
                sidewalk_line.pt1,
                sidewalk_line.pt2,
                spec_pt_of(net, pair.1),
            ]
            &&& position_wf(pair.1, net)
            &&& pair.1.dist_along > DRIVEWAY_BUFFER_CM
            &&& net.lanes@[pair.1.lane.0 as int].length - pair.1.dist_along > DRIVEWAY_BUFFER_CM
        },
{
    proof {
        assert(lane_entry_wf(net, sidewalk_pos.lane.0 as int));
    }
    let l = net.get_l(sidewalk_pos.lane);
    let parent_idx = l.parent_idx;
    let road = net.get_parent(sidewalk_pos.lane);
    let mut types: Vec<LaneType> = Vec::new();
    types.push(LaneType::Driving);
    proof {
        assert(types@ =~= seq![LaneType::Driving]);
    }
    match road.find_closest_lane(parent_idx, &types) {
        None => None,
        Some(dl) => {
            proof {
                lemma_find_closest_props(road, parent_idx as int, types@);
                let j = choose|j: int|
                    0 <= j < road.lanes@.len() && (#[trigger] road.lanes@[j]).0 == dl
                        && types@.contains(road.lanes@[j].1);
                assert(road_entry_wf(net, net.lanes@[sidewalk_pos.lane.0 as int].parent.0 as int, j));
            }
            let dpos = sidewalk_pos.equiv_pos(dl, 0, net);
            let dlane_len = net.get_l(dl).length;
            if dpos.dist_along > DRIVEWAY_BUFFER_CM && dlane_len - dpos.dist_along
                > DRIVEWAY_BUFFER_CM {
                let dpt = net.pt_of(dpos);
                let mut pts: Vec<Pt> = Vec::new();
                pts.push(sidewalk_line.pt1);
                pts.push(sidewalk_line.pt2);
                pts.push(dpt);
                proof {
                    assert(pts@ =~= seq![sidewalk_line.pt1, sidewalk_line.pt2, dpt]);
                }
                Some((PolyLine { points: pts }, dpos))
            } else {
                None
            }
        },
    }
}


// ----- data model -----
/// A raw building footprint, owned by the caller and read-only here.
pub struct RawBuilding {
    pub osm_way_id: u64,
    pub polygon: Polygon,
    pub osm_tags: Tags,
    pub public_garage_name: Option<String>,
    pub num_parking_spots: usize,
    pub amenities: Vec<(String, String)>,
}

/// The access path of a synthesized entity: the sidewalk position it reaches
/// and the trimmed connector line.
pub struct FrontPath {
    pub sidewalk: Position,
    pub line: Line,
}

/// Vehicle-access data of a synthesized building.
pub struct OffstreetParking {
    pub public_garage_name: Option<String>,
    pub num_spots: usize,
    pub driveway_line: PolyLine,
    pub driving_pos: Position,
}

/// A synthesized, connected building.
pub struct Building {
    pub id: BuildingID,
    pub polygon: Polygon,
    pub address: String,
    pub name: Option<String>,
    pub osm_way_id: u64,
    pub front_path: FrontPath,
    pub amenities: Vec<(String, String)>,
    pub parking: Option<OffstreetParking>,
    pub label_center: Pt,
}

// ----- diagnostic message text -----
pub open spec fn msg_skip_building(osm_way_id: u64) -> Seq<char> {
    "Skipping building "@ + dec_str(osm_way_id as nat) + " because front path has 0 length"@
}

pub open spec fn msg_no_driveway_building(id: int, spots: int) -> Seq<char> {
    "Building #"@ + dec_str(id as nat) + " can't have a driveway. Forfeiting "@ + dec_str(
        spots as nat,
    ) + " parking spots"@
}

pub open spec fn msg_discarded_buildings(n: int) -> Seq<char> {
    "Discarded "@ + dec_str(n as nat) + " buildings that weren't close enough to a sidewalk"@
}

// ----- the per-item decision, as specification -----
/// The sidewalk position resolved for a building's centroid, if any.
pub open spec fn spec_bldg_sidewalk(b: RawBuilding, pts: Seq<(Pt, Position)>) -> Option<Position> {
    spec_lookup(pts, spec_center(&b.polygon))
}

/// Whether a building is synthesized: a sidewalk position was resolved and
/// the connector is not degenerate.
pub open spec fn spec_bldg_accepted(
    b: RawBuilding,
    pts: Seq<(Pt, Position)>,
    net: &RoadNetwork,
) -> bool {
    match spec_bldg_sidewalk(b, pts) {
        None => false,
        Some(pos) => spec_pt_of(net, pos) != spec_center(&b.polygon),
    }
}

/// How many of the first `upto` raw buildings are synthesized.
pub open spec fn spec_bldg_count(
    input: Seq<RawBuilding>,
    pts: Seq<(Pt, Position)>,
    net: &RoadNetwork,
    upto: int,
) -> int
    decreases upto,
{
    if upto <= 0 {
        0
    } else {
        spec_bldg_count(input, pts, net, upto - 1) + if spec_bldg_accepted(
            input[upto - 1],
            pts,
            net,
        ) {
            1int
        } else {
            0int
        }
    }
}

/// The warnings one building contributes, given the identifier `k` it would
/// be assigned: one for a degenerate connector, one for missing vehicle
/// access, none otherwise.
pub open spec fn spec_bldg_item_warns(
    b: RawBuilding,
    pts: Seq<(Pt, Position)>,
    net: &RoadNetwork,
    k: int,
) -> Seq<Seq<char>> {
    match spec_bldg_sidewalk(b, pts) {
        None => Seq::empty(),
        Some(pos) => if spec_pt_of(net, pos) == spec_center(&b.polygon) {
            seq![msg_skip_building(b.osm_way_id)]
        } else if spec_driveway_pos(pos, net) is None {
            seq![msg_no_driveway_building(k, b.num_parking_spots as int)]
        } else {
            Seq::empty()
        },
    }
}

/// All warnings the first `upto` raw buildings contribute, in input order.
pub open spec fn spec_bldg_warns(
    input: Seq<RawBuilding>,
    pts: Seq<(Pt, Position)>,
    net: &RoadNetwork,
    upto: int,
) -> Seq<Seq<char>>
    decreases upto,
{
    if upto <= 0 {
        Seq::empty()
    } else {
        spec_bldg_warns(input, pts, net, upto - 1) + spec_bldg_item_warns(
            input[upto - 1],
            pts,
            net,
            spec_bldg_count(input, pts, net, upto - 1),
        )
    }
}

/// How a synthesized building relates to the raw footprint it came from,
/// when it was assigned identifier `k`.
pub open spec fn built_from(
    bld: Building,
    raw: RawBuilding,
    pts: Seq<(Pt, Position)>,
    net: &RoadNetwork,
    k: int,
) -> bool {
    let center = spec_center(&raw.polygon);
    match spec_lookup(pts, center) {
        None => false,
        Some(pos) => {
            let spt = spec_pt_of(net, pos);
            let line = spec_trim_path(raw.polygon.points@, Line { pt1: center, pt2: spt });
            &&& spt != center
            &&& bld.id.0 == k
            &&& bld.polygon.points@ == raw.polygon.points@
            &&& bld.polygon.label == raw.polygon.label
            &&& bld.label_center == raw.polygon.label
            &&& bld.osm_way_id == raw.osm_way_id
            &&& bld.front_path.sidewalk == pos
            &&& bld.front_path.line == line
            &&& bld.front_path.line.pt1 != bld.front_path.line.pt2
            &&& bld.address@ == spec_address(
                raw.osm_tags.0@,
                net.roads@[net.lanes@[pos.lane.0 as int].parent.0 as int].name@,
            )
            &&& match (bld.name, spec_tag_get(raw.osm_tags.0@, "name"@)) {
                (Some(s), Some(v)) => s@ == v,
                (None, None) => true,
                _ => false,
            }
            &&& bld.amenities@ == raw.amenities@
            &&& match (bld.parking, spec_driveway_pos(pos, net)) {
                (Some(p), Some(dpos)) => {
                    &&& p.driving_pos == dpos
                    &&& position_wf(dpos, net)
                    &&& dpos.dist_along > DRIVEWAY_BUFFER_CM
                    &&& net.lanes@[dpos.lane.0 as int].length - dpos.dist_along
                        > DRIVEWAY_BUFFER_CM
                    &&& p.num_spots == raw.num_parking_spots
                    &&& p.public_garage_name == raw.public_garage_name
                    &&& p.driveway_line.points@ == seq![line.pt1, line.pt2, spec_pt_of(net, dpos)]
                },
                (None, None) => true,
                _ => false,
            }
        },
    }
}

/// The outputs correspond, in order, to a strictly increasing selection of
/// the inputs, each built as `built_from` describes.
pub open spec fn buildings_selection_ok(
    sel: Seq<int>,
    results: Seq<Building>,
    input: Seq<RawBuilding>,
    pts: Seq<(Pt, Position)>,
    net: &RoadNetwork,
) -> bool {
    &&& sel.len() == results.len()
    &&& forall|k: int| 0 <= k < sel.len() ==> 0 <= #[trigger] sel[k] < input.len()
    &&& forall|k1: int, k2: int|
        #![trigger sel[k1], sel[k2]]
        0 <= k1 < k2 < sel.len() ==> sel[k1] < sel[k2]
    &&& forall|k: int|
        0 <= k < sel.len() ==> built_from(results[k], input[#[trigger] sel[k]], pts, net, k)
}


/// Synthesizes every connectable building, in input order.
///
/// `sidewalk_pts` is the external spatial resolver's answer for the batch of
/// centroid queries. Produced identifiers are dense, zero-based and in
/// success order; every produced connector has strictly positive length;
/// every attached vehicle access respects the buffer distance; each skipped
/// or degraded footprint contributes exactly the warnings `spec_bldg_warns`
/// describes; and the closing note reports exactly the number of inputs that
/// produced no output.
pub fn make_all_buildings(
    input: &Vec<RawBuilding>,
    sidewalk_pts: &SidewalkPoints,
    net: &RoadNetwork,
    timer: &mut Timer,
) -> (results: Vec<Building>)
    requires
        network_wf(net),
        sidewalk_points_wf(sidewalk_pts, net),
        forall|i: int|
            #![trigger input@[i]]
            0 <= i < input@.len() ==> polygon_wf(&input@[i].polygon),
    ensures
        results@.len() == spec_bldg_count(
            input@,
            sidewalk_pts.entries@,
            net,
            input@.len() as int,
        ),
        results@.len() <= input@.len(),
        forall|k: int| 0 <= k < results@.len() ==> (#[trigger] results@[k]).id.0 == k,
        forall|k: int|
            0 <= k < results@.len() ==> (#[trigger] results@[k]).front_path.line.pt1
                != results@[k].front_path.line.pt2,
        forall|k: int|
            0 <= k < results@.len() ==> match (#[trigger] results@[k]).parking {
                Some(p) => position_wf(p.driving_pos, net) && p.driving_pos.dist_along
                    > DRIVEWAY_BUFFER_CM && net.lanes@[p.driving_pos.lane.0 as int].length
                    - p.driving_pos.dist_along > DRIVEWAY_BUFFER_CM,
                None => true,
            },
        exists|sel: Seq<int>|
            buildings_selection_ok(sel, results@, input@, sidewalk_pts.entries@, net),
        str_views(final(timer).warnings@) == str_views(old(timer).warnings@) + spec_bldg_warns(
            input@,
            sidewalk_pts.entries@,
            net,
            input@.len() as int,
        ),
        str_views(final(timer).notes@) == str_views(old(timer).notes@).push(
            msg_discarded_buildings(input@.len() - results@.len()),
        ),
{
    let ghost pts = sidewalk_pts.entries@;
    let n = input.len();
    let mut results: Vec<Building> = Vec::new();
    let ghost mut sel: Seq<int> = Seq::empty();
    proof {
        assert(str_views(timer.warnings@) + spec_bldg_warns(input@, pts, net, 0) =~= str_views(
            timer.warnings@,
        ));
    }
    for i in 0..n
        invariant
            network_wf(net),
            sidewalk_points_wf(sidewalk_pts, net),
            forall|j: int|
                #![trigger input@[j]]
                0 <= j < input@.len() ==> polygon_wf(&input@[j].polygon),
            pts == sidewalk_pts.entries@,
            n == input@.len(),
            results@.len() == spec_bldg_count(input@, pts, net, i as int),
            results@.len() <= i,
            forall|k: int| 0 <= k < results@.len() ==> (#[trigger] results@[k]).id.0 == k,
            forall|k: int|
                0 <= k < results@.len() ==> (#[trigger] results@[k]).front_path.line.pt1
                    != results@[k].front_path.line.pt2,
            forall|k: int|
                0 <= k < results@.len() ==> match (#[trigger] results@[k]).parking {
                    Some(p) => position_wf(p.driving_pos, net) && p.driving_pos.dist_along
                        > DRIVEWAY_BUFFER_CM && net.lanes@[p.driving_pos.lane.0 as int].length
                        - p.driving_pos.dist_along > DRIVEWAY_BUFFER_CM,
                    None => true,
                },
            buildings_selection_ok(sel, results@, input@, pts, net),
            forall|k: int| 0 <= k < sel.len() ==> #[trigger] sel[k] < i,
            str_views(timer.warnings@) == str_views(old(timer).warnings@) + spec_bldg_warns(
                input@,
                pts,
                net,
                i as int,
            ),
            timer.notes@ == old(timer).notes@,
    {
        let b = &input[i];
        let center = b.polygon.center();
        let looked = sidewalk_pts.get(center);
        proof {
            lemma_lookup_position_wf(pts, center, net);
            assert(spec_bldg_count(input@, pts, net, i + 1) == spec_bldg_count(
                input@,
                pts,
                net,
                i as int,
            ) + if spec_bldg_accepted(input@[i as int], pts, net) {
                1int
            } else {
                0int
            });
            assert(spec_bldg_warns(input@, pts, net, i + 1) == spec_bldg_warns(
                input@,
                pts,
                net,
                i as int,
            ) + spec_bldg_item_warns(
                input@[i as int],
                pts,
                net,
                spec_bldg_count(input@, pts, net, i as int),
            ));
        }
        match looked {
            None => {
                proof {
                    assert(!spec_bldg_accepted(input@[i as int], pts, net));
                    assert(spec_bldg_item_warns(
                        input@[i as int],
                        pts,
                        net,
                        spec_bldg_count(input@, pts, net, i as int),
                    ) =~= Seq::<Seq<char>>::empty());
                    assert(str_views(timer.warnings@) == str_views(old(timer).warnings@)
                        + spec_bldg_warns(input@, pts, net, i + 1));
                }
            },
            Some(pos) => {
                let spt = net.pt_of(pos);
                if spt == center {
                    let msg = String::from_str("Skipping building ").concat(
                        u64_to_string(b.osm_way_id).as_str(),
                    ).concat(" because front path has 0 length");
                    proof {
                        assert(!spec_bldg_accepted(input@[i as int], pts, net));
                        assert(msg@ == msg_skip_building(input@[i as int].osm_way_id));
                        assert(str_views(timer.warnings@.push(msg)) =~= str_views(
                            timer.warnings@,
                        ).push(msg@));
                        assert(str_views(timer.warnings@).push(msg@) =~= str_views(timer.warnings@)
                            + seq![msg@]);
                    }
                    timer.warn(msg);
                } else {
                    let line = trim_path(&b.polygon, Line { pt1: center, pt2: spt });
                    let address = get_address(&b.osm_tags, pos.lane, net);
                    let kname = String::from_str("name");
                    let name = match b.osm_tags.get(&kname) {
                        Some(v) => Some(v.clone()),
                        None => None,
                    };
                    let amenities = clone_string_pairs(&b.amenities);
                    let polygon = b.polygon.copied();
                    let dw = find_driveway(pos, line, net);
                    let id = BuildingID(results.len());
                    let parking = match dw {
                        Some((pl, dpos)) => Some(
                            OffstreetParking {
                                public_garage_name: clone_opt_string(&b.public_garage_name),
                                num_spots: b.num_parking_spots,
                                driveway_line: pl,
                                driving_pos: dpos,
                            },
                        ),
                        None => {
                            let msg = String::from_str("Building #").concat(
                                usize_to_string(id.0).as_str(),
                            ).concat(" can't have a driveway. Forfeiting ").concat(
                                usize_to_string(b.num_parking_spots).as_str(),
                            ).concat(" parking spots");
                            proof {
                                assert(msg@ == msg_no_driveway_building(
                                    id.0 as int,
                                    input@[i as int].num_parking_spots as int,
                                ));
                                assert(str_views(timer.warnings@.push(msg)) =~= str_views(
                                    timer.warnings@,
                                ).push(msg@));
                                assert(str_views(timer.warnings@).push(msg@) =~= str_views(
                                    timer.warnings@,
                                ) + seq![msg@]);
                            }
                            timer.warn(msg);
                            None
                        },
                    };
                    let bld = Building {
                        id,
                        polygon,
                        address,
                        name,
                        osm_way_id: b.osm_way_id,
                        front_path: FrontPath { sidewalk: pos, line },
                        amenities,
                        parking,
                        label_center: b.polygon.label,
                    };
                    proof {
                        assert(spec_bldg_accepted(input@[i as int], pts, net));
                        assert(built_from(bld, input@[i as int], pts, net, results@.len() as int));
                        if spec_driveway_pos(pos, net) is Some {
                            assert(str_views(timer.warnings@) == str_views(old(timer).warnings@)
                                + spec_bldg_warns(input@, pts, net, i + 1));
                        }
                        sel = sel.push(i as int);
                    }
                    results.push(bld);
                }
            },
        }
    }
    let discarded = n - results.len();
    let note = String::from_str("Discarded ").concat(usize_to_string(discarded).as_str()).concat(
        " buildings that weren't close enough to a sidewalk",
    );
    proof {
        assert(note@ == msg_discarded_buildings(input@.len() - results@.len()));
        assert(str_views(timer.notes@.push(note)) =~= str_views(timer.notes@).push(note@));
    }
    timer.note(note);
    results
}

} // verus!
