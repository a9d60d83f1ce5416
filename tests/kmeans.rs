use palette_kmeans::{Cluster, DistanceMetric, Kmeans, KmeansError, Point};
use rand::rngs::StdRng;
use rand::SeedableRng;

fn engine(k: usize, max_iter: usize, tolerance: u128, seed: u64) -> Kmeans {
    Kmeans::new(k, max_iter, tolerance, StdRng::seed_from_u64(seed), DistanceMetric::Euclidean)
        .unwrap()
}

fn pts(cs: &[[u32; 2]]) -> Vec<Point<2>> {
    cs.iter().map(|c| Point::new(*c)).collect()
}

fn sorted_groups(clusters: &[Cluster<2>]) -> Vec<Vec<usize>> {
    let mut groups: Vec<Vec<usize>> = clusters.iter().map(|c| c.indices()).collect();
    groups.sort();
    groups
}

#[test]
fn test_new_kmeans() {
    let kmeans = Kmeans::new(3, 10, 1, StdRng::seed_from_u64(7), DistanceMetric::Euclidean).unwrap();

    assert_eq!(kmeans.k(), 3);
    assert_eq!(kmeans.max_iter(), 10);
    assert_eq!(kmeans.tolerance(), 1);
    assert_eq!(kmeans.metric(), DistanceMetric::Euclidean);
}

#[test]
fn new_rejects_zero_clusters() {
    let r = Kmeans::new(0, 10, 1, StdRng::seed_from_u64(0), DistanceMetric::Euclidean);
    assert_eq!(r.unwrap_err(), KmeansError::InvalidClusterCount);
}

#[test]
fn new_rejects_zero_iterations() {
    let r = Kmeans::new(2, 0, 1, StdRng::seed_from_u64(0), DistanceMetric::Euclidean);
    assert_eq!(r.unwrap_err(), KmeansError::InvalidMaxIterations);
}

#[test]
fn new_rejects_zero_tolerance() {
    let r = Kmeans::new(2, 10, 0, StdRng::seed_from_u64(0), DistanceMetric::SquaredEuclidean);
    assert_eq!(r.unwrap_err(), KmeansError::InvalidTolerance);
}

#[test]
fn fit_empty_input_is_empty() {
    let clusters = engine(3, 10, 1, 1).fit::<2>(&[]).unwrap();
    assert!(clusters.is_empty());
}

#[test]
fn fit_with_k_at_least_points_gives_singletons() {
    let points = pts(&[[5, 5], [1, 2], [5, 5]]);
    for k in [3usize, 4, 10] {
        let clusters = engine(k, 10, 1, 3).fit(&points).unwrap();
        assert_eq!(clusters.len(), 3);
        for (i, c) in clusters.iter().enumerate() {
            assert_eq!(c.indices(), vec![i]);
            assert_eq!(c.centroid(), points[i]);
        }
    }
}

#[test]
fn fit_separates_two_groups() {
    let points = pts(&[[0, 0], [0, 100], [1000, 1000], [1000, 1100]]);
    for seed in 0..20u64 {
        let clusters = engine(2, 100, 1, seed).fit(&points).unwrap();
        assert_eq!(sorted_groups(&clusters), vec![vec![0, 1], vec![2, 3]]);
        for c in &clusters {
            let centroid = c.centroid();
            if c.indices() == vec![0, 1] {
                assert_eq!(centroid.coords, [0, 50]);
            } else {
                assert_eq!(centroid.coords, [1000, 1050]);
            }
        }
    }
}

#[test]
fn fit_single_cluster_holds_all_points() {
    let points = pts(&[[0, 0], [10, 4], [20, 8], [2, 1]]);
    let clusters = engine(1, 10, 1, 9).fit(&points).unwrap();
    assert_eq!(clusters.len(), 1);
    assert_eq!(clusters[0].indices(), vec![0, 1, 2, 3]);
    assert_eq!(clusters[0].centroid().coords, [8, 3]);
}

#[test]
fn fit_is_reproducible_for_a_seed() {
    let points = pts(&[[0, 0], [3, 4], [50, 50], [52, 49], [100, 0], [97, 3], [48, 51], [1, 1]]);
    let a = engine(3, 20, 1, 42).fit(&points).unwrap();
    let b = engine(3, 20, 1, 42).fit(&points).unwrap();
    let ia: Vec<Vec<usize>> = a.iter().map(|c| c.indices()).collect();
    let ib: Vec<Vec<usize>> = b.iter().map(|c| c.indices()).collect();
    assert_eq!(ia, ib);
    let kmeans = engine(3, 20, 1, 42);
    let c = kmeans.fit(&points).unwrap();
    let d = kmeans.fit(&points).unwrap();
    let ic: Vec<Vec<usize>> = c.iter().map(|c| c.indices()).collect();
    let id: Vec<Vec<usize>> = d.iter().map(|c| c.indices()).collect();
    assert_eq!(ic, id);
}

#[test]
fn fit_partitions_the_points() {
    let points = pts(&[
        [0, 0], [3, 4], [50, 50], [52, 49], [100, 0], [97, 3], [48, 51], [1, 1], [7, 90], [9, 88],
    ]);
    for seed in 0..10u64 {
        let clusters = engine(4, 20, 1, seed).fit(&points).unwrap();
        assert_eq!(clusters.len(), 4);
        let mut all: Vec<usize> = clusters.iter().flat_map(|c| c.indices()).collect();
        assert_eq!(all.len(), points.len());
        all.sort();
        assert_eq!(all, (0..points.len()).collect::<Vec<usize>>());
    }
}

#[test]
fn seeding_never_picks_a_coincident_point() {
    let points = pts(&[[0, 0], [0, 0], [0, 0], [0, 0], [0, 0], [100, 100]]);
    for seed in 0..20u64 {
        let clusters = engine(2, 10, 1, seed).fit(&points).unwrap();
        assert_eq!(sorted_groups(&clusters), vec![vec![0, 1, 2, 3, 4], vec![5]]);
    }
}

#[test]
fn seeding_fails_when_all_weights_are_zero() {
    let points = pts(&[[4, 4], [4, 4], [4, 4]]);
    let r = engine(2, 10, 1, 5).fit(&points);
    assert_eq!(r.unwrap_err(), KmeansError::SamplingError);
}

#[test]
fn refine_breaks_ties_towards_lower_index() {
    let kmeans = engine(2, 1, 1, 0);
    let points = pts(&[[5, 0]]);
    let centroids = pts(&[[0, 0], [10, 0]]);
    let clusters = kmeans.refine(&points, centroids);
    assert_eq!(clusters[0].indices(), vec![0]);
    assert!(clusters[1].is_empty());
}

#[test]
fn refine_moves_centroids_until_settled() {
    let kmeans = engine(2, 10, 1, 0);
    let points = pts(&[[0, 0], [14, 0], [20, 0]]);
    // First round: {0, 1} and {2}; the first centroid moves to (7, 0),
    // after which (14, 0) is nearer the second one.
    let clusters = kmeans.refine(&points, pts(&[[10, 0], [20, 0]]));
    assert_eq!(clusters[0].indices(), vec![0]);
    assert_eq!(clusters[1].indices(), vec![1, 2]);
    assert_eq!(clusters[1].centroid().coords, [17, 0]);
}

#[test]
fn refine_stops_after_the_budget() {
    let kmeans = engine(2, 1, 1, 0);
    let points = pts(&[[0, 0], [14, 0], [20, 0]]);
    let clusters = kmeans.refine(&points, pts(&[[10, 0], [20, 0]]));
    assert_eq!(clusters[0].indices(), vec![0, 1]);
    assert_eq!(clusters[1].indices(), vec![2]);
}

#[test]
fn refine_keeps_an_empty_cluster() {
    let kmeans = engine(3, 10, 1, 0);
    let points = pts(&[[0, 0], [1, 0], [9, 0]]);
    let clusters = kmeans.refine(&points, pts(&[[0, 0], [9, 0], [1000, 1000]]));
    assert_eq!(clusters[0].indices(), vec![0, 1]);
    assert_eq!(clusters[1].indices(), vec![2]);
    assert!(clusters[2].is_empty());
}
