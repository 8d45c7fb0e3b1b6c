//! Moving a markdown draft between a drafts directory and a published-posts
//! directory: default directories, choice of the source file, title lookup in
//! the frontmatter and the resolution of the destination file name.

pub mod destination;
pub mod dirs;
pub mod frontmatter;
pub mod select;
pub mod text;

pub use destination::{destination_name, destination_name_today, find_existing};
pub use dirs::{default_dirs, pick_dir};
pub use frontmatter::{candidate_name, get_title, TitleError};
pub use select::{latest_markdown, select_source, MarkdownFile};
pub use text::{contains, has_md_suffix, strip_quotes, trim_end};
