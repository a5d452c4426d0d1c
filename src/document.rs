//! One compiled page: its HTML, its plain body, and the metadata and URL
//! that post lists and feeds read.

use crate::dates::Date;
use vstd::prelude::*;

verus! {

/// The metadata block at the head of a post.
#[derive(Clone, Debug)]
pub struct FrontMatter {
    pub title: Option<String>,
    pub date: Option<String>,
}

/// What compiling one source document yields.
#[derive(Clone, Debug)]
pub struct CompilationResult {
    pub html: String,
    pub plain: String,
    pub title: Option<String>,
    pub date: Option<Date>,
    pub url: Option<String>,
}

/// A compiled page as values.
pub struct ResultView {
    pub html: Seq<char>,
    pub plain: Seq<char>,
    pub title: Option<Seq<char>>,
    pub date: Option<Date>,
    pub url: Option<Seq<char>>,
}

impl View for CompilationResult {
    type V = ResultView;

    open spec fn view(&self) -> ResultView {
        ResultView {
            html: self.html@,
            plain: self.plain@,
            title: match self.title {
                Some(t) => Some(t@),
                None => None,
            },
            date: self.date,
            url: match self.url {
                Some(u) => Some(u@),
                None => None,
            },
        }
    }
}

/// The views of a sequence of compiled pages.
pub open spec fn views(v: Seq<CompilationResult>) -> Seq<ResultView> {
    v.map_values(|p: CompilationResult| p@)
}

/// Every date that the pages carry is a calendar date.
pub open spec fn dates_wf(ps: Seq<ResultView>) -> bool {
    forall|i: int| 0 <= i < ps.len() ==> (#[trigger] ps[i].date matches Some(d) ==> d.wf())
}

} // verus!
