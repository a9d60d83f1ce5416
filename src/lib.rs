//! K-means clustering of fixed-dimension integer points, with k-means++
//! seeding, and the colour-theme scores used to rank the resulting palette.
mod cluster;
mod color;
mod kmeans;
mod laws;
mod lloyd;
mod math;
mod metric;
mod point;
mod random;
mod theme;

pub use math::{floor_sqrt, isqrt, normalize, UNIT};
pub use color::{Color, MAX_CHROMA, MAX_LIGHTNESS, MID_LIGHTNESS, MIN_CHROMA, MIN_LIGHTNESS};
pub use theme::{
    score_basic, score_dark, score_light, score_muted, score_vivid, theme_score, Theme,
    MUTED_MAX_CHROMA, VIVID_MIN_CHROMA,
};
pub use metric::{lemma_measure_bound, lemma_measure_symmetric, MAX_SQUARE, sq_dist, sq_dist_upto, DistanceMetric};
pub use point::Point;
pub use cluster::{coord_sum, mean_of, member_indices, member_points, Cluster};
pub use lloyd::{
    gather, labels_of, lemma_lloyd_terminates, lloyd, members_of, moved, moved_all, nearest_upto,
    settled,
};
pub use kmeans::{
    clusters_match, lemma_min_dist_le, lemma_min_dist_positive, min_dist_upto, nats, seedable,
    singletons, spread_seeds, views, Kmeans, KmeansError,
};
pub use laws::{
    count_upto, lemma_clusters_determined, lemma_clusters_partition, lemma_count_all,
    lemma_lloyd_labels_in_range, lemma_members_of_labelled, lemma_refined_partition,
    lemma_single_cluster, total_upto,
};
