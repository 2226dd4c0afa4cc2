use thin_las::pipeline::Pipeline;
use thin_las::record::CoordinateState;
use thin_las::run::{offer_for, progress_report, PointOffer, PointRun, ProgressMark};
use thin_las::voxel::{hash_voxel, VoxelFilter};

fn thin(offers: &[PointOffer]) -> Vec<PointOffer> {
    let mut run = PointRun::new(Pipeline::LasToLas, offers.len());
    let mut kept = Vec::new();
    for offer in offers {
        if run.offer(*offer) {
            run.wrote();
            kept.push(*offer);
        }
    }
    assert_eq!(run.processed(), offers.len());
    assert_eq!(run.written(), kept.len());
    kept
}

#[test]
fn hashes_of_cubes() {
    assert_eq!(hash_voxel(&(0, 0, 0)), 3795619387649823197);
    assert_eq!(hash_voxel(&(1, 0, 0)), 1346520094423501328);
    assert_eq!(hash_voxel(&(1, 2, 3)), 11026370485058819017);
    assert_eq!(hash_voxel(&(-1, 0, 0)), 5267392741973649122);
}

#[test]
fn filter_lets_each_cube_through_once() {
    let mut filter = VoxelFilter::new();
    assert!(filter.pass(&(1, 2, 3)));
    assert!(!filter.pass(&(1, 2, 3)));
    assert!(filter.pass(&(7, 2, 3)));
    assert!(!filter.pass(&(7, 2, 3)));
}

#[test]
fn cubes_that_share_a_hash_are_told_apart() {
    assert_eq!(hash_voxel(&(1, 0, 0)), hash_voxel(&(0, 1, 0)));
    assert_eq!(hash_voxel(&(3, 3, 7)), hash_voxel(&(5, 5, 7)));
    let offers = [PointOffer::Voxel((1, 0, 0)), PointOffer::Voxel((0, 1, 0))];
    assert_eq!(thin(&offers), offers.to_vec());

    let mut diagonal = Vec::new();
    for n in 0..50 {
        diagonal.push(PointOffer::Voxel((n, n, 2)));
    }
    let mut twice = diagonal.clone();
    twice.extend(diagonal.iter().rev().copied());
    assert_eq!(thin(&twice), diagonal);
}

#[test]
fn as_many_points_as_cubes() {
    let mut offers = Vec::new();
    for x in -6..6 {
        for y in -6..6 {
            for z in 0..3 {
                for _ in 0..2 {
                    offers.push(PointOffer::Voxel((x, y, z)));
                }
            }
        }
    }
    assert_eq!(thin(&offers).len(), 12 * 12 * 3);
}

#[test]
fn order_of_indices_does_not_matter_to_the_hash() {
    let hash = hash_voxel(&(4, -9, 100));
    for key in [(4, 100, -9), (-9, 4, 100), (-9, 100, 4), (100, 4, -9), (100, -9, 4)] {
        assert_eq!(hash_voxel(&key), hash);
    }
}

#[test]
fn offers_of_points() {
    let cube = Some((1, 2, 3));
    assert_eq!(offer_for(CoordinateState::Valid, cube), PointOffer::Voxel((1, 2, 3)));
    assert_eq!(offer_for(CoordinateState::Valid, None), PointOffer::Plain);
    for state in [CoordinateState::Direction, CoordinateState::Invalid] {
        assert_eq!(offer_for(state, cube), PointOffer::Invalid);
        assert_eq!(offer_for(state, None), PointOffer::Invalid);
    }
}

#[test]
fn one_point_of_each_cube_stays() {
    let offers = [
        PointOffer::Voxel((1, 2, 3)),
        PointOffer::Voxel((1, 2, 3)),
        PointOffer::Voxel((9, 2, 3)),
        PointOffer::Voxel((1, 2, 3)),
        PointOffer::Voxel((9, 2, 3)),
    ];
    assert_eq!(
        thin(&offers),
        vec![PointOffer::Voxel((1, 2, 3)), PointOffer::Voxel((9, 2, 3))]
    );
}

#[test]
fn thinning_again_changes_nothing() {
    let offers = [
        PointOffer::Voxel((4, 4, 4)),
        PointOffer::Invalid,
        PointOffer::Voxel((4, 4, 4)),
        PointOffer::Voxel((-4, 4, 4)),
    ];
    let once = thin(&offers);
    assert_eq!(once.len(), 2);
    assert_eq!(thin(&once), once);
}

#[test]
fn invalid_points_are_dropped_and_plain_ones_stay() {
    let offers = [PointOffer::Plain, PointOffer::Invalid, PointOffer::Plain];
    assert_eq!(thin(&offers), vec![PointOffer::Plain, PointOffer::Plain]);
}

#[test]
fn progress_comes_at_a_twentieth_or_at_the_least_gap() {
    let share = |processed: usize, total: usize, span: u32| {
        Some(ProgressMark::Share {
            processed,
            total,
            span,
        })
    };
    assert_eq!(progress_report(Pipeline::LasToLas, 0, 0), None);
    assert_eq!(progress_report(Pipeline::LasToLas, 100, 10_000), share(10_000, 100, 100));
    assert_eq!(progress_report(Pipeline::LasToLas, 100, 9_999), None);
    assert_eq!(
        progress_report(Pipeline::LasToE57, 1_000_000, 50_000),
        share(50_000, 1_000_000, 100)
    );
    assert_eq!(progress_report(Pipeline::LasToE57, 1_000_000, 10_000), None);
    assert_eq!(
        progress_report(Pipeline::UnstructuredE57, 200_000, 10_000),
        share(10_000, 200_000, 90)
    );
    assert_eq!(progress_report(Pipeline::StructuredE57, 200_000, 10_000), None);
    assert_eq!(
        progress_report(Pipeline::StructuredE57, 200_000, 20_000),
        share(20_000, 200_000, 85)
    );
    assert_eq!(
        progress_report(Pipeline::E57ToLas, 400_019, 400_000),
        share(400_000, 400_019, 100)
    );
}

#[test]
fn a_run_reports_at_most_twenty_times() {
    for total in [1usize, 10_000, 199_999, 200_000, 399_999] {
        let mut run = PointRun::new(Pipeline::LasToLas, total);
        let mut reports = 0;
        for _ in 0..total {
            if run.offer(PointOffer::Plain) && run.wrote().is_some() {
                reports += 1;
            }
        }
        assert!(reports <= 20);
        assert_eq!(reports, total / (total / 20).max(10_000));
    }
}

#[test]
fn progress_grows_within_its_span() {
    let total: usize = 400_000;
    let mut last = 0.0;
    for processed in (0..=total).step_by(20_000) {
        match progress_report(Pipeline::StructuredE57, total, processed) {
            Some(ProgressMark::Share {
                processed,
                total,
                span,
            }) => {
                let percent = processed as f64 * span as f64 / total as f64;
                assert!(last <= percent && percent <= 85.0);
                last = percent;
            }
            other => panic!("{:?}", other),
        }
    }
    assert_eq!(last, 85.0);
}
