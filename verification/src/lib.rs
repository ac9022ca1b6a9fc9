//! Total up real on-disk usage of a directory tree, with every decision the
//! walk makes stated and proved.
//!
//! - `human`: byte counts formatted the way `du -h` prints them.
//! - `usage`: totals, options, reports, and strict or lenient error handling.
//! - `meta`: what an entry's metadata decides, and the hard-link ledger.
//! - `walk`: the depth-first walk as a machine its driver feeds outcomes to.
//! - `laws`: what holds of every walk.

mod external;
mod human;
mod laws;
mod meta;
mod usage;
mod walk;

pub use human::{
    decimal, digit_char, div_round_half_even, f64_spacing, human_bytes, human_bytes_text,
    digit_value, law_decimal_reads_back, read_decimal, law_larger_count_never_smaller_unit, law_nearest_f64_monotone, law_shown_as_figure_and_unit,
    law_times_1024_moves_one_unit_up, law_unit_table_suffices, shown_figure, shown_unit, spacing_exp, nearest_f64, pow2, unit_divisor, unit_index, unit_name,
};
pub use laws::{
    all_skipped, answers, law_end_of_dir_returns_outward, law_entry_metadata_requested,
    law_file_accepted_when_it_fits, law_opened_directory_listed, law_root_directory_opened, law_accepts_only_answers, law_boundary_is_device_inequality,
    law_file_adds_its_charge, law_first_name_charged_in_full, law_ledger_gains_only_own_inode,
    law_length_charged_as_is, law_lenient_accepts_every_error, law_openings_always_accepted,
    law_other_device_directory_skipped, law_plus_adds_exactly, law_same_device_directory_walked,
    law_strict_accepts_every_error, law_walk_ledger_gains_only_charged_inode, law_with_dir_adds_exactly,
    law_with_file_adds_exactly, entries_usage, law_breakdown_total_is_sum_of_entries, law_breakdown_total_starts_as_sum,
    law_leniency_matters_only_for_errors, law_total_skips_only_root, total_is_sum, total_skips_only_root,
    with_leniency, child_skipped, child_usage, counted_usage, entries_skipped, error_of,
    failing_path, law_breakdown_mirrors_scan, law_breakdown_starts_mirrored,
    law_breakdown_total_is_scan_total, law_child_errors_stay_with_child,
    law_crossing_child_listed_empty, law_file_root_measured_directly, law_file_root_single_entry,
    law_lenient_never_aborts, law_linked_file_counted_once, law_metadata_follows_option,
    law_no_boundary_without_option, law_other_filesystem_not_walked, law_seen_only_grows,
    law_single_link_always_counted, law_skips_follow_errors, law_start_well_formed,
    law_step_keeps_well_formed, law_strict_error_aborts, law_strict_never_skips, mirrors,
    walks_alike, well_formed,
};
pub use meta::{
    boundary_for, charge_fits, counted_bytes, crosses, crosses_boundary, disk_bytes, inode_key, root_device,
    seen_after, EntryMeta, Seen,
};
pub use usage::{handle_error, DiskUsage, ReportView, ScanOptions, ScanReport, SkippedEntry};
pub use walk::{
    scan, scan_top_level, Breakdown, EntryReport, Outcome, Phase, Request, Walk, WalkView,
};
