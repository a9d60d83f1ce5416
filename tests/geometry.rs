use palette_kmeans::{isqrt, normalize, Cluster, DistanceMetric, Point};

#[test]
fn isqrt_rounds_down() {
    assert_eq!(isqrt(0), 0);
    assert_eq!(isqrt(1), 1);
    assert_eq!(isqrt(24), 4);
    assert_eq!(isqrt(25), 5);
    assert_eq!(isqrt(u128::MAX), u64::MAX as u128);
}

#[test]
fn normalize_is_a_fixed_point_ratio() {
    assert_eq!(normalize(50, 0, 100), 5000);
    assert_eq!(normalize(10454, 0, 18000), 5807);
}

#[test]
fn euclidean_and_squared_distances() {
    let a = Point::new([0u32, 0]);
    let b = Point::new([3u32, 4]);
    assert_eq!(DistanceMetric::Euclidean.measure(&a, &b), 5);
    assert_eq!(DistanceMetric::SquaredEuclidean.measure(&a, &b), 25);
    let c = Point::new([1u32, 1]);
    assert_eq!(DistanceMetric::Euclidean.measure(&a, &c), 1);
    assert_eq!(DistanceMetric::SquaredEuclidean.measure(&c, &a), 2);
}

#[test]
fn measure_is_symmetric_and_zero_on_itself() {
    let a = Point::new([7u32, 100, 3]);
    let b = Point::new([u32::MAX, 0, 9]);
    for m in [DistanceMetric::Euclidean, DistanceMetric::SquaredEuclidean] {
        assert_eq!(m.measure(&a, &b), m.measure(&b, &a));
        assert_eq!(m.measure(&a, &a), 0);
    }
    assert_eq!(
        DistanceMetric::SquaredEuclidean.measure(&a, &b),
        (u32::MAX as u128 - 7) * (u32::MAX as u128 - 7) + 100 * 100 + 36
    );
}

#[test]
fn cluster_centroid_is_the_mean_rounded_down() {
    let mut c: Cluster<2> = Cluster::new();
    assert!(c.is_empty());
    assert_eq!(c.centroid().coords, [0, 0]);
    c.add_point(4, &Point::new([1, 2]));
    c.add_point(9, &Point::new([2, 3]));
    assert_eq!(c.len(), 2);
    assert_eq!(c.indices(), vec![4, 9]);
    assert_eq!(c.centroid().coords, [1, 2]);
    c.add_point(1, &Point::new([u32::MAX, u32::MAX]));
    assert_eq!(c.centroid().coords, [1431655766, 1431655766]);
    c.clear();
    assert_eq!(c.len(), 0);
}
