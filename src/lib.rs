//! Verification of the links found in a Markdown document: extraction and
//! classification of link targets, suggestions for missing local files, and
//! partition of local and remote links by what their checks found.

pub mod extract_links_command;
pub mod selection;
pub mod similarity;
pub mod verify_file_links_command;
pub mod verify_url_links_command;

pub use extract_links_command::{
    classify_links, extract_links, link_targets, ExtractLinksCommand, ExtractedLinks,
};
pub use similarity::{is_similar_path, within_threshold, SimilaritySearch, MAX_THRESHOLD};
pub use verify_file_links_command::{
    BrokenLink, FileLinksResult, PathCheck, VerifyFileLinksCommand,
};
pub use verify_url_links_command::{is_success_status, UrlLinksResult, VerifyUrlLinksCommand};
