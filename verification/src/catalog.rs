use vstd::prelude::*;
use vstd::string::StrSliceExecFns;
use crate::text::{keyword_matches, matches_keyword, str_eq};

verus! {

/// One entry of a repository's content listing, as the hosting API reports
/// it: a file or directory with its path and download location.
#[derive(Clone, Debug)]
pub struct RepoContent {
    pub name: String,
    pub path: String,
    pub item_type: String,
    pub size: u32,
    pub download_url: Option<String>,
    pub html_url: String,
}

/// A repository's license record.
#[derive(Clone, Debug)]
pub struct License {
    pub key: String,
    pub name: String,
    pub spdx_id: Option<String>,
    pub url: Option<String>,
}

/// Whether a file name ends in the Markdown extension `.md`.
pub open spec fn ends_with_md(name: Seq<char>) -> bool {
    name.len() >= 3 && name.subrange(name.len() - 3, name.len() as int) == ".md"@
}

/// Whether a file name starts with `readme`, in any ASCII case.
pub open spec fn starts_with_readme(name: Seq<char>) -> bool {
    name.len() >= 6 && matches_keyword(name.subrange(0, 6), "readme"@)
}

/// Whether a content entry counts as a Markdown article: a plain file with
/// the `.md` extension that is not the repository's readme.
pub open spec fn markdown_article(name: Seq<char>, item_type: Seq<char>) -> bool {
    &&& item_type == "file"@
    &&& ends_with_md(name)
    &&& !starts_with_readme(name)
}

impl RepoContent {
    /// Whether this entry is a Markdown article worth collecting: a plain
    /// `.md` file that is not the repository's readme.
    pub fn is_markdown_article(&self) -> (r: bool)
        ensures
            r == markdown_article(self.name@, self.item_type@),
    {
        if !str_eq(self.item_type.as_str(), "file") {
            return false;
        }
        let name = self.name.as_str();
        let n = name.unicode_len();
        if n < 3 {
            return false;
        }
        if !str_eq(name.substring_char(n - 3, n), ".md") {
            return false;
        }
        if n >= 6 && keyword_matches(name.substring_char(0, 6), "readme") {
            return false;
        }
        true
    }
}

} // verus!
