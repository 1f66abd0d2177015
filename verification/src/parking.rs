//! Parking-lot synthesis: the same connection pipeline as buildings, except
//! that capacity is declared or estimated from area, there is no address
//! step, and a lot without vehicle access is discarded entirely rather than
//! retained.

use crate::buildings::dedup_points;
use crate::buildings::find_driveway;
use crate::buildings::spec_driveway_pos;
use crate::buildings::PolyLine;
use crate::buildings::DRIVEWAY_BUFFER_CM;
use crate::geometry::polygon_wf;
use crate::geometry::spec_area_cm2;
use crate::geometry::spec_center;
use crate::geometry::spec_trim_path;
use crate::geometry::trim_path;
use crate::geometry::Line;
use crate::geometry::Polygon;
use crate::geometry::Pt;
use crate::network::lemma_lookup_position_wf;
use crate::network::network_wf;
use crate::network::position_wf;
use crate::network::sidewalk_points_wf;
use crate::network::spec_lookup;
use crate::network::spec_pt_of;
use crate::network::Position;
use crate::network::RoadNetwork;
use crate::network::SidewalkPoints;
use crate::strfmt::dec_str;
use crate::strfmt::u64_to_string;
use crate::strfmt::usize_to_string;
use crate::warn::str_views;
use crate::warn::Timer;
use vstd::prelude::*;
use vstd::string::StringExecFns;

verus! {

/// Square centimeters of lot area assumed per parking space (23 square
/// meters) when no capacity is declared.
pub const AREA_PER_SPACE_CM2: i64 = 230000;

/// Search radius for the spatial resolver when connecting parking lots (500
/// meters): lots are expected farther from the network than buildings.
pub const PARKING_SEARCH_RADIUS_CM: i64 = 50000;

/// Identifier of a synthesized parking lot: dense, zero-based, in synthesis
/// success order.
#[derive(Clone, Copy, PartialEq, Eq, Structural, Debug)]
pub struct ParkingLotID(pub usize);

/// A raw parking-lot footprint, owned by the caller and read-only here.
pub struct RawParkingLot {
    pub osm_id: u64,
    pub capacity: Option<usize>,
    pub polygon: Polygon,
}

/// A synthesized, connected parking lot.
pub struct ParkingLot {
    pub id: ParkingLotID,
    pub polygon: Polygon,
    pub capacity: usize,
    pub osm_id: u64,
    pub driveway_line: PolyLine,
    pub driving_pos: Position,
    pub sidewalk_line: Line,
    pub sidewalk_pos: Position,
}

/// The capacity a lot ends up with: the declared value when present,
/// otherwise the polygon area divided by the per-space constant, rounded
/// down.
pub open spec fn spec_lot_capacity(lot: RawParkingLot) -> int {
    match lot.capacity {
        Some(c) => c as int,
        None => spec_area_cm2(&lot.polygon) / (AREA_PER_SPACE_CM2 as int),
    }
}

/// The declared or estimated capacity, exactly as `spec_lot_capacity`
/// describes.
pub fn lot_capacity(lot: &RawParkingLot) -> (c: usize)
    requires
        polygon_wf(&lot.polygon),
        spec_lot_capacity(*lot) <= usize::MAX,
    ensures
        c as int == spec_lot_capacity(*lot),
{
    match lot.capacity {
        Some(c) => c,
        None => {
            let a = lot.polygon.area_cm2();
            ((a as u64) / 230000u64) as usize
        },
    }
}

/// The centroids of a batch of raw lots, in input order.
pub open spec fn lot_centers(input: Seq<RawParkingLot>) -> Seq<Pt> {
    Seq::new(input.len(), |j: int| spec_center(&input[j].polygon))
}

/// The batch query for the spatial resolver: every lot centroid, each
/// distinct value once, in first-appearance order.
pub fn lot_centroid_queries(input: &Vec<RawParkingLot>) -> (q: Vec<Pt>)
    requires
        forall|i: int|
            #![trigger input@[i]]
            0 <= i < input@.len() ==> polygon_wf(&input@[i].polygon),
    ensures
        forall|k: int| 0 <= k < q@.len() ==> lot_centers(input@).contains(#[trigger] q@[k]),
        forall|i: int| 0 <= i < input@.len() ==> q@.contains(#[trigger] lot_centers(input@)[i]),
        forall|k1: int, k2: int|
            #![trigger q@[k1], q@[k2]]
            0 <= k1 < k2 < q@.len() ==> q@[k1] != q@[k2],
{
    let n = input.len();
    let mut centers: Vec<Pt> = Vec::new();
    for i in 0..n
        invariant
            n == input@.len(),
            forall|j: int|
                #![trigger input@[j]]
                0 <= j < input@.len() ==> polygon_wf(&input@[j].polygon),
            centers@.len() == i,
            forall|j: int| 0 <= j < i ==> #[trigger] centers@[j] == spec_center(&input@[j].polygon),
    {
        let c = input[i].polygon.center();
        centers.push(c);
    }
    proof {
        assert(centers@ =~= lot_centers(input@));
    }
    dedup_points(&centers)
}

// ----- diagnostic message text -----
pub open spec fn msg_skip_lot(osm_id: u64) -> Seq<char> {
    "Skipping parking lot "@ + dec_str(osm_id as nat) + " because driveway has 0 length"@
}

/// The debug rendering of an optional declared capacity.
pub open spec fn dbg_opt_usize(c: Option<usize>) -> Seq<char> {
    match c {
        None => "None"@,
        Some(v) => "Some("@ + dec_str(v as nat) + ")"@,
    }
}

pub open spec fn msg_no_driveway_lot(osm_id: u64, cap: Option<usize>) -> Seq<char> {
    "Parking lot from OSM way "@ + dec_str(osm_id as nat)
        + " can't have a driveway. Forfeiting "@ + dbg_opt_usize(cap) + " parking spots"@
}

pub open spec fn msg_discarded_lots(n: int) -> Seq<char> {
    "Discarded "@ + dec_str(n as nat) + " parking lots that weren't close enough to a sidewalk"@
}

// ----- the per-item decision, as specification -----
/// The sidewalk position resolved for a lot's centroid, if any.
pub open spec fn spec_lot_sidewalk(lot: RawParkingLot, pts: Seq<(Pt, Position)>) -> Option<
    Position,
> {
    spec_lookup(pts, spec_center(&lot.polygon))
}

/// Whether a lot is synthesized: a sidewalk position was resolved, the
/// connector is not degenerate, and vehicle access exists.
pub open spec fn spec_lot_accepted(
    lot: RawParkingLot,
    pts: Seq<(Pt, Position)>,
    net: &RoadNetwork,
) -> bool {
    match spec_lot_sidewalk(lot, pts) {
        None => false,
        Some(pos) => spec_pt_of(net, pos) != spec_center(&lot.polygon) && spec_driveway_pos(
            pos,
            net,
        ) is Some,
    }
}

/// How many of the first `upto` raw lots are synthesized.
pub open spec fn spec_lot_count(
    input: Seq<RawParkingLot>,
    pts: Seq<(Pt, Position)>,
    net: &RoadNetwork,
    upto: int,
) -> int
    decreases upto,
{
    if upto <= 0 {
        0
    } else {
        spec_lot_count(input, pts, net, upto - 1) + if spec_lot_accepted(
            input[upto - 1],
            pts,
            net,
        ) {
            1int
        } else {
            0int
        }
    }
}

/// The warnings one lot contributes: one for a degenerate connector, one for
/// missing vehicle access (the lot is then discarded), none otherwise.
pub open spec fn spec_lot_item_warns(
    lot: RawParkingLot,
    pts: Seq<(Pt, Position)>,
    net: &RoadNetwork,
) -> Seq<Seq<char>> {
    match spec_lot_sidewalk(lot, pts) {
        None => Seq::empty(),
        Some(pos) => if spec_pt_of(net, pos) == spec_center(&lot.polygon) {
            seq![msg_skip_lot(lot.osm_id)]
        } else if spec_driveway_pos(pos, net) is None {
            seq![msg_no_driveway_lot(lot.osm_id, lot.capacity)]
        } else {
            Seq::empty()
        },
    }
}

/// All warnings the first `upto` raw lots contribute, in input order.
pub open spec fn spec_lot_warns(
    input: Seq<RawParkingLot>,
    pts: Seq<(Pt, Position)>,
    net: &RoadNetwork,
    upto: int,
) -> Seq<Seq<char>>
    decreases upto,
{
    if upto <= 0 {
        Seq::empty()
    } else {
        spec_lot_warns(input, pts, net, upto - 1) + spec_lot_item_warns(input[upto - 1], pts, net)
    }
}

/// How a synthesized lot relates to the raw footprint it came from, when it
/// was assigned identifier `k`.
pub open spec fn lot_built_from(
    out: ParkingLot,
    raw: RawParkingLot,
    pts: Seq<(Pt, Position)>,
    net: &RoadNetwork,
    k: int,
) -> bool {
    let center = spec_center(&raw.polygon);
    match spec_lookup(pts, center) {
        None => false,
        Some(pos) => {
            let spt = spec_pt_of(net, pos);
            let line = spec_trim_path(raw.polygon.points@, Line { pt1: center, pt2: spt });
            match spec_driveway_pos(pos, net) {
                None => false,
                Some(dpos) => {
                    &&& spt != center
                    &&& out.id.0 == k
                    &&& out.polygon.points@ == raw.polygon.points@
                    &&& out.polygon.label == raw.polygon.label
                    &&& out.osm_id == raw.osm_id
                    &&& out.capacity as int == spec_lot_capacity(raw)
                    &&& out.sidewalk_pos == pos
                    &&& out.sidewalk_line == line
                    &&& out.sidewalk_line.pt1 != out.sidewalk_line.pt2
                    &&& out.driving_pos == dpos
                    &&& position_wf(dpos, net)
                    &&& dpos.dist_along > DRIVEWAY_BUFFER_CM
                    &&& net.lanes@[dpos.lane.0 as int].length - dpos.dist_along
                        > DRIVEWAY_BUFFER_CM
                    &&& out.driveway_line.points@ == seq![line.pt1, line.pt2, spec_pt_of(net, dpos)]
                },
            }
        },
    }
}

/// The outputs correspond, in order, to a strictly increasing selection of
/// the inputs, each built as `lot_built_from` describes.
pub open spec fn lots_selection_ok(
    sel: Seq<int>,
    results: Seq<ParkingLot>,
    input: Seq<RawParkingLot>,
    pts: Seq<(Pt, Position)>,
    net: &RoadNetwork,
) -> bool {
    &&& sel.len() == results.len()
    &&& forall|k: int| 0 <= k < sel.len() ==> 0 <= #[trigger] sel[k] < input.len()
    &&& forall|k1: int, k2: int|
        #![trigger sel[k1], sel[k2]]
        0 <= k1 < k2 < sel.len() ==> sel[k1] < sel[k2]
    &&& forall|k: int|
        0 <= k < sel.len() ==> lot_built_from(results[k], input[#[trigger] sel[k]], pts, net, k)
}

/// Synthesizes every connectable parking lot, in input order.
///
/// `sidewalk_pts` is the external spatial resolver's answer for the batch of
/// centroid queries. Produced identifiers are dense, zero-based and in
/// success order; every produced connector has strictly positive length;
/// every driving position respects the buffer distance; each skipped or
/// discarded footprint contributes exactly the warnings `spec_lot_warns`
/// describes; and the closing note reports exactly the number of inputs that
/// produced no output.
pub fn make_all_parking_lots(
    input: &Vec<RawParkingLot>,
    sidewalk_pts: &SidewalkPoints,
    net: &RoadNetwork,
    timer: &mut Timer,
) -> (results: Vec<ParkingLot>)
    requires
        network_wf(net),
        sidewalk_points_wf(sidewalk_pts, net),
        forall|i: int|
            #![trigger input@[i]]
            0 <= i < input@.len() ==> polygon_wf(&input@[i].polygon) && spec_lot_capacity(
                input@[i],
            ) <= usize::MAX,
    ensures
        results@.len() == spec_lot_count(input@, sidewalk_pts.entries@, net, input@.len() as int),
        results@.len() <= input@.len(),
        forall|k: int| 0 <= k < results@.len() ==> (#[trigger] results@[k]).id.0 == k,
        forall|k: int|
            0 <= k < results@.len() ==> (#[trigger] results@[k]).sidewalk_line.pt1
                != results@[k].sidewalk_line.pt2,
        forall|k: int|
            0 <= k < results@.len() ==> position_wf((#[trigger] results@[k]).driving_pos, net)
                && results@[k].driving_pos.dist_along > DRIVEWAY_BUFFER_CM
                && net.lanes@[results@[k].driving_pos.lane.0 as int].length
                - results@[k].driving_pos.dist_along > DRIVEWAY_BUFFER_CM,
        exists|sel: Seq<int>|
            lots_selection_ok(sel, results@, input@, sidewalk_pts.entries@, net),
        str_views(final(timer).warnings@) == str_views(old(timer).warnings@) + spec_lot_warns(
            input@,
            sidewalk_pts.entries@,
            net,
            input@.len() as int,
        ),
        str_views(final(timer).notes@) == str_views(old(timer).notes@).push(
            msg_discarded_lots(input@.len() - results@.len()),
        ),
{
    let ghost pts = sidewalk_pts.entries@;
    let n = input.len();
    let mut results: Vec<ParkingLot> = Vec::new();
    let ghost mut sel: Seq<int> = Seq::empty();
    proof {
        assert(str_views(timer.warnings@) + spec_lot_warns(input@, pts, net, 0) =~= str_views(
            timer.warnings@,
        ));
    }
    for i in 0..n
        invariant
            network_wf(net),
            sidewalk_points_wf(sidewalk_pts, net),
            forall|j: int|
                #![trigger input@[j]]
                0 <= j < input@.len() ==> polygon_wf(&input@[j].polygon) && spec_lot_capacity(
                    input@[j],
                ) <= usize::MAX,
            pts == sidewalk_pts.entries@,
            n == input@.len(),
            results@.len() == spec_lot_count(input@, pts, net, i as int),
            results@.len() <= i,
            forall|k: int| 0 <= k < results@.len() ==> (#[trigger] results@[k]).id.0 == k,
            forall|k: int|
                0 <= k < results@.len() ==> (#[trigger] results@[k]).sidewalk_line.pt1
                    != results@[k].sidewalk_line.pt2,
            forall|k: int|
                0 <= k < results@.len() ==> position_wf((#[trigger] results@[k]).driving_pos, net)
                    && results@[k].driving_pos.dist_along > DRIVEWAY_BUFFER_CM
                    && net.lanes@[results@[k].driving_pos.lane.0 as int].length
                    - results@[k].driving_pos.dist_along > DRIVEWAY_BUFFER_CM,
            lots_selection_ok(sel, results@, input@, pts, net),
            forall|k: int| 0 <= k < sel.len() ==> #[trigger] sel[k] < i,
            str_views(timer.warnings@) == str_views(old(timer).warnings@) + spec_lot_warns(
                input@,
                pts,
                net,
                i as int,
            ),
            timer.notes@ == old(timer).notes@,
    {
        let lot = &input[i];
        let center = lot.polygon.center();
        let looked = sidewalk_pts.get(center);
        proof {
            lemma_lookup_position_wf(pts, center, net);
            assert(spec_lot_count(input@, pts, net, i + 1) == spec_lot_count(
                input@,
                pts,
                net,
                i as int,
            ) + if spec_lot_accepted(input@[i as int], pts, net) {
                1int
            } else {
                0int
            });
            assert(spec_lot_warns(input@, pts, net, i + 1) == spec_lot_warns(
                input@,
                pts,
                net,
                i as int,
            ) + spec_lot_item_warns(input@[i as int], pts, net));
        }
        match looked {
            None => {
                proof {
                    assert(!spec_lot_accepted(input@[i as int], pts, net));
                    assert(spec_lot_item_warns(input@[i as int], pts, net)
                        =~= Seq::<Seq<char>>::empty());
                    assert(str_views(timer.warnings@) == str_views(old(timer).warnings@)
                        + spec_lot_warns(input@, pts, net, i + 1));
                }
            },
            Some(pos) => {
                let spt = net.pt_of(pos);
                if spt == center {
                    let msg = String::from_str("Skipping parking lot ").concat(
                        u64_to_string(lot.osm_id).as_str(),
                    ).concat(" because driveway has 0 length");
                    proof {
                        assert(!spec_lot_accepted(input@[i as int], pts, net));
                        assert(msg@ == msg_skip_lot(input@[i as int].osm_id));
                        assert(str_views(timer.warnings@.push(msg)) =~= str_views(
                            timer.warnings@,
                        ).push(msg@));
                        assert(str_views(timer.warnings@).push(msg@) =~= str_views(timer.warnings@)
                            + seq![msg@]);
                    }
                    timer.warn(msg);
                } else {
                    let line = trim_path(&lot.polygon, Line { pt1: center, pt2: spt });
                    match find_driveway(pos, line, net) {
                        Some((pl, dpos)) => {
                            let id = ParkingLotID(results.len());
                            let capacity = lot_capacity(lot);
                            let polygon = lot.polygon.copied();
                            let out = ParkingLot {
                                id,
                                polygon,
                                capacity,
                                osm_id: lot.osm_id,
                                driveway_line: pl,
                                driving_pos: dpos,
                                sidewalk_line: line,
                                sidewalk_pos: pos,
                            };
                            proof {
                                assert(spec_lot_accepted(input@[i as int], pts, net));
                                assert(lot_built_from(
                                    out,
                                    input@[i as int],
                                    pts,
                                    net,
                                    results@.len() as int,
                                ));
                                assert(spec_lot_item_warns(input@[i as int], pts, net)
                                    =~= Seq::<Seq<char>>::empty());
                                assert(str_views(timer.warnings@) == str_views(old(timer).warnings@)
                                    + spec_lot_warns(input@, pts, net, i + 1));
                                sel = sel.push(i as int);
                            }
                            results.push(out);
                        },
                        None => {
                            let dbg = match lot.capacity {
                                None => String::from_str("None"),
                                Some(v) => String::from_str("Some(").concat(
                                    usize_to_string(v).as_str(),
                                ).concat(")"),
                            };
                            let msg = String::from_str("Parking lot from OSM way ").concat(
                                u64_to_string(lot.osm_id).as_str(),
                            ).concat(" can't have a driveway. Forfeiting ").concat(
                                dbg.as_str(),
                            ).concat(" parking spots");
                            proof {
                                assert(!spec_lot_accepted(input@[i as int], pts, net));
                                assert(dbg@ == dbg_opt_usize(input@[i as int].capacity));
                                assert(msg@ == msg_no_driveway_lot(
                                    input@[i as int].osm_id,
                                    input@[i as int].capacity,
                                ));
                                assert(str_views(timer.warnings@.push(msg)) =~= str_views(
                                    timer.warnings@,
                                ).push(msg@));
                                assert(str_views(timer.warnings@).push(msg@) =~= str_views(
                                    timer.warnings@,
                                ) + seq![msg@]);
                            }
                            timer.warn(msg);
                        },
                    }
                }
            },
        }
    }
    let discarded = n - results.len();
    let note = String::from_str("Discarded ").concat(usize_to_string(discarded).as_str()).concat(
        " parking lots that weren't close enough to a sidewalk",
    );
    proof {
        assert(note@ == msg_discarded_lots(input@.len() - results@.len()));
        assert(str_views(timer.notes@.push(note)) =~= str_views(timer.notes@).push(note@));
    }
    timer.note(note);
    results
}

} // verus!
