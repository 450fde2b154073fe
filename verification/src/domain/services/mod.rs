mod category_detector;
mod deduplication;
mod rotation;

pub(crate) use deduplication::default_hash_bytes;
pub use category_detector::CategoryDetector;
pub use deduplication::{std_hash_of_bytes, std_hash_of_str, DeduplicationService};
pub use rotation::{
    is_unpinned_id, last_used_keys, lemma_rotation_oldest_first, lemma_rotation_spares_pinned, max_non_pinned,
    pinned_count, pinned_pred, rotation_victims, unpinned_items, unpinned_pred, RotationService,
};
