//! A streaming line filter: a single forward pass over a sequence of text
//! lines emits every line that matches at least one pattern, together with a
//! configurable number of context lines before and after the match.

pub mod matcher;
pub mod ring;
pub mod scan;
pub mod laws;
