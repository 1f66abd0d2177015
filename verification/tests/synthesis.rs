use footprints::buildings::building_centroid_queries;
use footprints::buildings::get_address;
use footprints::buildings::make_all_buildings;
use footprints::buildings::BuildingID;
use footprints::buildings::RawBuilding;
use footprints::buildings::Tags;
use footprints::geometry::line_intersection;
use footprints::geometry::trim_path;
use footprints::geometry::Line;
use footprints::geometry::Polygon;
use footprints::geometry::Pt;
use footprints::network::Lane;
use footprints::network::LaneID;
use footprints::network::LaneType;
use footprints::network::Position;
use footprints::network::Road;
use footprints::network::RoadID;
use footprints::network::RoadNetwork;
use footprints::network::SidewalkPoints;
use footprints::parking::lot_capacity;
use footprints::parking::make_all_parking_lots;
use footprints::parking::ParkingLotID;
use footprints::parking::RawParkingLot;
use footprints::warn::Timer;

fn two_lane_net() -> RoadNetwork {
    RoadNetwork {
        roads: vec![Road {
            name: "Main St".to_string(),
            lanes: vec![
                (LaneID(0), LaneType::Sidewalk),
                (LaneID(1), LaneType::Driving),
            ],
        }],
        lanes: vec![
            Lane {
                parent: RoadID(0),
                parent_idx: 0,
                lane_type: LaneType::Sidewalk,
                src: Pt { x: 0, y: 200 },
                dst: Pt { x: 10000, y: 200 },
                length: 10000,
            },
            Lane {
                parent: RoadID(0),
                parent_idx: 1,
                lane_type: LaneType::Driving,
                src: Pt { x: 0, y: 400 },
                dst: Pt { x: 10000, y: 400 },
                length: 10000,
            },
        ],
    }
}

fn sidewalk_only_net(name: &str) -> RoadNetwork {
    RoadNetwork {
        roads: vec![Road {
            name: name.to_string(),
            lanes: vec![(LaneID(0), LaneType::Sidewalk)],
        }],
        lanes: vec![Lane {
            parent: RoadID(0),
            parent_idx: 0,
            lane_type: LaneType::Sidewalk,
            src: Pt { x: 0, y: 200 },
            dst: Pt { x: 10000, y: 200 },
            length: 10000,
        }],
    }
}

fn square_poly(cx: i64, cy: i64, half: i64) -> Polygon {
    Polygon {
        points: vec![
            Pt {
                x: cx - half,
                y: cy - half,
            },
            Pt {
                x: cx + half,
                y: cy - half,
            },
            Pt {
                x: cx + half,
                y: cy + half,
            },
            Pt {
                x: cx - half,
                y: cy + half,
            },
            Pt {
                x: cx - half,
                y: cy - half,
            },
        ],
        label: Pt { x: cx, y: cy },
    }
}

fn square_building(
    id: u64,
    cx: i64,
    cy: i64,
    half: i64,
    tags: Vec<(String, String)>,
    spots: usize,
) -> RawBuilding {
    RawBuilding {
        osm_way_id: id,
        polygon: square_poly(cx, cy, half),
        osm_tags: Tags(tags),
        public_garage_name: None,
        num_parking_spots: spots,
        amenities: vec![],
    }
}

fn rect_lot(osm: u64, x0: i64, y0: i64, x1: i64, y1: i64, cap: Option<usize>) -> RawParkingLot {
    RawParkingLot {
        osm_id: osm,
        capacity: cap,
        polygon: Polygon {
            points: vec![
                Pt { x: x0, y: y0 },
                Pt { x: x1, y: y0 },
                Pt { x: x1, y: y1 },
                Pt { x: x0, y: y1 },
                Pt { x: x0, y: y0 },
            ],
            label: Pt {
                x: (x0 + x1) / 2,
                y: (y0 + y1) / 2,
            },
        },
    }
}

fn resolved(entries: Vec<(Pt, Position)>) -> SidewalkPoints {
    SidewalkPoints { entries }
}

#[test]
fn intersection_of_crossing_segments() {
    let r = line_intersection(
        Pt { x: 0, y: 0 },
        Pt { x: 100, y: 100 },
        Pt { x: 0, y: 100 },
        Pt { x: 100, y: 0 },
    );
    assert_eq!(r, Some(Pt { x: 50, y: 50 }));
}

#[test]
fn intersection_of_parallel_segments_is_none() {
    let r = line_intersection(
        Pt { x: 0, y: 0 },
        Pt { x: 100, y: 0 },
        Pt { x: 0, y: 10 },
        Pt { x: 100, y: 10 },
    );
    assert_eq!(r, None);
}

#[test]
fn intersection_outside_segments_is_none() {
    let r = line_intersection(
        Pt { x: 0, y: 0 },
        Pt { x: 10, y: 10 },
        Pt { x: 0, y: 100 },
        Pt { x: 100, y: 0 },
    );
    assert_eq!(r, None);
}

#[test]
fn polygon_center_of_square() {
    let p = square_poly(5000, 1000, 300);
    assert_eq!(p.center(), Pt { x: 5000, y: 1000 });
}

#[test]
fn polygon_area_of_rectangle() {
    let lot = rect_lot(1, 4000, 500, 5000, 960, None);
    assert_eq!(lot.polygon.area_cm2(), 460000);
}

#[test]
fn trim_path_starts_on_boundary() {
    let p = square_poly(5000, 1000, 300);
    let path = Line {
        pt1: Pt { x: 5000, y: 1000 },
        pt2: Pt { x: 5000, y: 200 },
    };
    let trimmed = trim_path(&p, path);
    assert_eq!(trimmed.pt1, Pt { x: 5000, y: 700 });
    assert_eq!(trimmed.pt2, Pt { x: 5000, y: 200 });
}

#[test]
fn trim_path_falls_back_when_nothing_intersects() {
    let p = square_poly(5000, 1000, 300);
    let path = Line {
        pt1: Pt { x: 5000, y: 1000 },
        pt2: Pt { x: 5010, y: 1010 },
    };
    let trimmed = trim_path(&p, path);
    assert_eq!(trimmed, path);
}

#[test]
fn find_closest_lane_prefers_nearest_slot() {
    let road = Road {
        name: "X".to_string(),
        lanes: vec![
            (LaneID(0), LaneType::Sidewalk),
            (LaneID(1), LaneType::Parking),
            (LaneID(2), LaneType::Driving),
        ],
    };
    assert_eq!(
        road.find_closest_lane(0, &vec![LaneType::Driving]),
        Some(LaneID(2))
    );
    assert_eq!(road.find_closest_lane(0, &vec![LaneType::Biking]), None);
}

#[test]
fn find_closest_lane_tie_takes_earliest() {
    let road = Road {
        name: "X".to_string(),
        lanes: vec![
            (LaneID(3), LaneType::Driving),
            (LaneID(4), LaneType::Sidewalk),
            (LaneID(5), LaneType::Driving),
        ],
    };
    assert_eq!(
        road.find_closest_lane(1, &vec![LaneType::Driving]),
        Some(LaneID(3))
    );
}

#[test]
fn equiv_pos_clamps_to_lane_length() {
    let mut net = two_lane_net();
    net.lanes[1].length = 4000;
    net.roads[0].lanes[1] = (LaneID(1), LaneType::Driving);
    let pos = Position {
        lane: LaneID(0),
        dist_along: 9000,
    };
    let r = pos.equiv_pos(LaneID(1), 0, &net);
    assert_eq!(
        r,
        Position {
            lane: LaneID(1),
            dist_along: 4000
        }
    );
}

#[test]
fn pt_of_interpolates_midpoint() {
    let net = two_lane_net();
    let p = net.pt_of(Position {
        lane: LaneID(0),
        dist_along: 5000,
    });
    assert_eq!(p, Pt { x: 5000, y: 200 });
}

#[test]
fn sidewalk_points_lookup() {
    let pts = resolved(vec![(
        Pt { x: 1, y: 2 },
        Position {
            lane: LaneID(0),
            dist_along: 7,
        },
    )]);
    assert_eq!(
        pts.get(Pt { x: 1, y: 2 }),
        Some(Position {
            lane: LaneID(0),
            dist_along: 7
        })
    );
    assert_eq!(pts.get(Pt { x: 1, y: 3 }), None);
}

#[test]
fn address_with_both_tags() {
    let net = two_lane_net();
    let tags = Tags(vec![
        ("addr:housenumber".to_string(), "10".to_string()),
        ("addr:street".to_string(), "Main St".to_string()),
    ]);
    assert_eq!(get_address(&tags, LaneID(0), &net), "10 Main St");
}

#[test]
fn address_with_street_only() {
    let net = two_lane_net();
    let tags = Tags(vec![("addr:street".to_string(), "Main St".to_string())]);
    assert_eq!(get_address(&tags, LaneID(0), &net), "??? Main St");
}

#[test]
fn address_with_no_tags_uses_road_name() {
    let net = sidewalk_only_net("Elm Way");
    let tags = Tags(vec![]);
    assert_eq!(get_address(&tags, LaneID(0), &net), "??? Elm Way");
}

#[test]
fn building_synthesis_full() {
    let net = two_lane_net();
    let b = square_building(
        17,
        5000,
        1000,
        300,
        vec![
            ("addr:housenumber".to_string(), "10".to_string()),
            ("addr:street".to_string(), "Main St".to_string()),
        ],
        3,
    );
    let pts = resolved(vec![(
        Pt { x: 5000, y: 1000 },
        Position {
            lane: LaneID(0),
            dist_along: 5000,
        },
    )]);
    let mut timer = Timer::new();
    let results = make_all_buildings(&vec![b], &pts, &net, &mut timer);
    assert_eq!(results.len(), 1);
    let bld = &results[0];
    assert_eq!(bld.id, BuildingID(0));
    assert_eq!(bld.osm_way_id, 17);
    assert_eq!(bld.address, "10 Main St");
    assert_eq!(bld.name, None);
    assert_eq!(bld.label_center, Pt { x: 5000, y: 1000 });
    assert_eq!(
        bld.front_path.sidewalk,
        Position {
            lane: LaneID(0),
            dist_along: 5000
        }
    );
    assert_eq!(
        bld.front_path.line,
        Line {
            pt1: Pt { x: 5000, y: 700 },
            pt2: Pt { x: 5000, y: 200 }
        }
    );
    let parking = bld.parking.as_ref().expect("driveway expected");
    assert_eq!(
        parking.driving_pos,
        Position {
            lane: LaneID(1),
            dist_along: 5000
        }
    );
    assert_eq!(
        parking.driveway_line.points,
        vec![
            Pt { x: 5000, y: 700 },
            Pt { x: 5000, y: 200 },
            Pt { x: 5000, y: 400 }
        ]
    );
    assert_eq!(parking.num_spots, 3);
    assert!(timer.warnings.is_empty());
    assert_eq!(
        timer.notes,
        vec!["Discarded 0 buildings that weren't close enough to a sidewalk".to_string()]
    );
}

#[test]
fn building_zero_length_connector_is_skipped() {
    let net = two_lane_net();
    let b = square_building(42, 5000, 200, 150, vec![], 0);
    let pts = resolved(vec![(
        Pt { x: 5000, y: 200 },
        Position {
            lane: LaneID(0),
            dist_along: 5000,
        },
    )]);
    let mut timer = Timer::new();
    let results = make_all_buildings(&vec![b], &pts, &net, &mut timer);
    assert!(results.is_empty());
    assert_eq!(
        timer.warnings,
        vec!["Skipping building 42 because front path has 0 length".to_string()]
    );
    assert_eq!(
        timer.notes,
        vec!["Discarded 1 buildings that weren't close enough to a sidewalk".to_string()]
    );
}

#[test]
fn building_without_driveway_is_kept() {
    let net = sidewalk_only_net("Lonely Rd");
    let b = square_building(8, 5000, 1000, 300, vec![], 3);
    let pts = resolved(vec![(
        Pt { x: 5000, y: 1000 },
        Position {
            lane: LaneID(0),
            dist_along: 5000,
        },
    )]);
    let mut timer = Timer::new();
    let results = make_all_buildings(&vec![b], &pts, &net, &mut timer);
    assert_eq!(results.len(), 1);
    assert!(results[0].parking.is_none());
    assert_eq!(results[0].address, "??? Lonely Rd");
    assert_eq!(
        timer.warnings,
        vec!["Building #0 can't have a driveway. Forfeiting 3 parking spots".to_string()]
    );
}

#[test]
fn building_ids_are_dense_in_input_order() {
    let net = two_lane_net();
    let b0 = square_building(100, 2000, 1000, 300, vec![], 0);
    let b1 = square_building(101, 4000, 1000, 300, vec![], 0);
    let b2 = square_building(102, 8000, 1000, 300, vec![], 0);
    let pts = resolved(vec![
        (
            Pt { x: 2000, y: 1000 },
            Position {
                lane: LaneID(0),
                dist_along: 2000,
            },
        ),
        (
            Pt { x: 8000, y: 1000 },
            Position {
                lane: LaneID(0),
                dist_along: 8000,
            },
        ),
    ]);
    let mut timer = Timer::new();
    let results = make_all_buildings(&vec![b0, b1, b2], &pts, &net, &mut timer);
    assert_eq!(results.len(), 2);
    assert_eq!(results[0].id, BuildingID(0));
    assert_eq!(results[0].osm_way_id, 100);
    assert_eq!(results[1].id, BuildingID(1));
    assert_eq!(results[1].osm_way_id, 102);
    assert_eq!(
        timer.notes,
        vec!["Discarded 1 buildings that weren't close enough to a sidewalk".to_string()]
    );
}

#[test]
fn centroid_queries_are_distinct() {
    let b0 = square_building(1, 2000, 1000, 300, vec![], 0);
    let b1 = square_building(2, 2000, 1000, 200, vec![], 0);
    let b2 = square_building(3, 4000, 1000, 300, vec![], 0);
    let q = building_centroid_queries(&vec![b0, b1, b2]);
    assert_eq!(q, vec![Pt { x: 2000, y: 1000 }, Pt { x: 4000, y: 1000 }]);
}

#[test]
fn lot_capacity_estimated_from_area() {
    let lot = rect_lot(1, 4000, 500, 5000, 960, None);
    assert_eq!(lot_capacity(&lot), 2);
}

#[test]
fn lot_capacity_declared_wins() {
    let lot = rect_lot(1, 4000, 500, 5000, 960, Some(5));
    assert_eq!(lot_capacity(&lot), 5);
}

#[test]
fn parking_lot_synthesis_full() {
    let net = two_lane_net();
    let lot = rect_lot(23, 4000, 500, 5000, 960, None);
    let pts = resolved(vec![(
        Pt { x: 4500, y: 730 },
        Position {
            lane: LaneID(0),
            dist_along: 4500,
        },
    )]);
    let mut timer = Timer::new();
    let results = make_all_parking_lots(&vec![lot], &pts, &net, &mut timer);
    assert_eq!(results.len(), 1);
    let out = &results[0];
    assert_eq!(out.id, ParkingLotID(0));
    assert_eq!(out.osm_id, 23);
    assert_eq!(out.capacity, 2);
    assert_eq!(
        out.sidewalk_line,
        Line {
            pt1: Pt { x: 4500, y: 500 },
            pt2: Pt { x: 4500, y: 200 }
        }
    );
    assert_eq!(
        out.driving_pos,
        Position {
            lane: LaneID(1),
            dist_along: 4500
        }
    );
    assert_eq!(
        out.driveway_line.points,
        vec![
            Pt { x: 4500, y: 500 },
            Pt { x: 4500, y: 200 },
            Pt { x: 4500, y: 400 }
        ]
    );
    assert!(timer.warnings.is_empty());
    assert_eq!(
        timer.notes,
        vec!["Discarded 0 parking lots that weren't close enough to a sidewalk".to_string()]
    );
}

#[test]
fn parking_lot_without_driveway_is_discarded() {
    let net = sidewalk_only_net("Lonely Rd");
    let lot = rect_lot(7, 4000, 500, 5000, 960, None);
    let pts = resolved(vec![(
        Pt { x: 4500, y: 730 },
        Position {
            lane: LaneID(0),
            dist_along: 4500,
        },
    )]);
    let mut timer = Timer::new();
    let results = make_all_parking_lots(&vec![lot], &pts, &net, &mut timer);
    assert!(results.is_empty());
    assert_eq!(
        timer.warnings,
        vec![
            "Parking lot from OSM way 7 can't have a driveway. Forfeiting None parking spots"
                .to_string()
        ]
    );
    assert_eq!(
        timer.notes,
        vec!["Discarded 1 parking lots that weren't close enough to a sidewalk".to_string()]
    );
}

#[test]
fn parking_lot_without_driveway_reports_declared_capacity() {
    let net = sidewalk_only_net("Lonely Rd");
    let lot = rect_lot(7, 4000, 500, 5000, 960, Some(4));
    let pts = resolved(vec![(
        Pt { x: 4500, y: 730 },
        Position {
            lane: LaneID(0),
            dist_along: 4500,
        },
    )]);
    let mut timer = Timer::new();
    let results = make_all_parking_lots(&vec![lot], &pts, &net, &mut timer);
    assert!(results.is_empty());
    assert_eq!(
        timer.warnings,
        vec![
            "Parking lot from OSM way 7 can't have a driveway. Forfeiting Some(4) parking spots"
                .to_string()
        ]
    );
}

#[test]
fn parking_lot_zero_length_connector_is_skipped() {
    let net = two_lane_net();
    let lot = rect_lot(9, 4400, 100, 4600, 300, None);
    let pts = resolved(vec![(
        Pt { x: 4500, y: 200 },
        Position {
            lane: LaneID(0),
            dist_along: 4500,
        },
    )]);
    let mut timer = Timer::new();
    let results = make_all_parking_lots(&vec![lot], &pts, &net, &mut timer);
    assert!(results.is_empty());
    assert_eq!(
        timer.warnings,
        vec!["Skipping parking lot 9 because driveway has 0 length".to_string()]
    );
}

#[test]
fn unreachable_building_counts_in_summary() {
    let net = two_lane_net();
    let b = square_building(5, 5000, 1000, 300, vec![], 0);
    let pts = resolved(vec![]);
    let mut timer = Timer::new();
    let results = make_all_buildings(&vec![b], &pts, &net, &mut timer);
    assert!(results.is_empty());
    assert!(timer.warnings.is_empty());
    assert_eq!(
        timer.notes,
        vec!["Discarded 1 buildings that weren't close enough to a sidewalk".to_string()]
    );
}

#[test]
fn building_near_lane_end_fails_buffer() {
    let net = two_lane_net();
    let b = square_building(77, 300, 1000, 200, vec![], 2);
    let pts = resolved(vec![(
        Pt { x: 300, y: 1000 },
        Position {
            lane: LaneID(0),
            dist_along: 300,
        },
    )]);
    let mut timer = Timer::new();
    let results = make_all_buildings(&vec![b], &pts, &net, &mut timer);
    assert_eq!(results.len(), 1);
    assert!(results[0].parking.is_none());
    assert_eq!(
        timer.warnings,
        vec!["Building #0 can't have a driveway. Forfeiting 2 parking spots".to_string()]
    );
}

#[test]
fn parking_lot_near_lane_end_is_discarded() {
    let net = two_lane_net();
    let lot = rect_lot(11, 50, 500, 550, 960, None);
    let pts = resolved(vec![(
        Pt { x: 300, y: 730 },
        Position {
            lane: LaneID(0),
            dist_along: 300,
        },
    )]);
    let mut timer = Timer::new();
    let results = make_all_parking_lots(&vec![lot], &pts, &net, &mut timer);
    assert!(results.is_empty());
    assert_eq!(
        timer.warnings,
        vec![
            "Parking lot from OSM way 11 can't have a driveway. Forfeiting None parking spots"
                .to_string()
        ]
    );
}

#[test]
fn buildings_sharing_a_centroid_share_one_query() {
    let net = two_lane_net();
    let b0 = square_building(60, 5000, 1000, 300, vec![], 0);
    let b1 = square_building(61, 5000, 1000, 200, vec![], 0);
    let pts = resolved(vec![(
        Pt { x: 5000, y: 1000 },
        Position {
            lane: LaneID(0),
            dist_along: 5000,
        },
    )]);
    let mut timer = Timer::new();
    let results = make_all_buildings(&vec![b0, b1], &pts, &net, &mut timer);
    assert_eq!(results.len(), 2);
    assert_eq!(results[0].osm_way_id, 60);
    assert_eq!(results[1].osm_way_id, 61);
    assert_eq!(results[0].id, BuildingID(0));
    assert_eq!(results[1].id, BuildingID(1));
}
