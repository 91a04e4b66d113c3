//! Render a repository's per-language byte counts as percentages and
//! proportional terminal bars, together with a repository-info block.
pub mod render;
pub mod repo;
pub mod stats;
pub mod text;

pub use render::{drawable_width, get_bar, render_stats, sort_stats, stat_line, total_bytes,
    LangStat, FALLBACK_WIDTH, TEXT_WIDTH};
pub use repo::{accept_header_value, fetch_error_message, info_url, languages_url,
    user_agent_value, Repository, RepositoryInfo};
pub use stats::{bar_length, percentage};
pub use text::u64_to_string;
