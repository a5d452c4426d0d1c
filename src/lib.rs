//! A static site compiler: front matter, template composition, output paths,
//! post lists and feeds, over plain values handed in by the caller.
//!
//! The build runs in two passes of one procedure (`stage`): the post
//! collection first, then the top-level pages, which may list the posts.
//! Reading and writing files and rendering markdown are left to the caller,
//! which hands the library texts and carries out the planned changes.

pub mod compile;
pub mod dates;
pub mod document;
pub mod feed;
pub mod paths;
pub mod post_list;
pub mod stage;
pub mod template;
pub mod text;
