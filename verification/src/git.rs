//! A checkout of a repository, as it was found on disk.

use vstd::prelude::*;
use vstd::string::*;

verus! {

/// What a [`CandidateFile`] holds.
pub struct CandidateFileView {
    pub absolute_path: Seq<char>,
    pub content: Option<Seq<char>>,
}

/// A file of a checkout that may be a configuration file, with what was read
/// from it.
#[derive(Debug)]
pub struct CandidateFile {
    absolute_path: String,
    content: Option<String>,
}

impl View for CandidateFile {
    type V = CandidateFileView;

    closed spec fn view(&self) -> CandidateFileView {
        CandidateFileView {
            absolute_path: self.absolute_path@,
            content: match self.content {
                Some(text) => Some(text@),
                None => None,
            },
        }
    }
}

impl CandidateFile {
    /// A file found at `absolute_path`; `content` is its text, or `None` where
    /// the file could not be read as text.
    pub fn new(absolute_path: String, content: Option<String>) -> (file: CandidateFile)
        ensures
            file@ == (CandidateFileView {
                absolute_path: absolute_path@,
                content: match content {
                    Some(text) => Some(text@),
                    None => None,
                },
            }),
    {
        CandidateFile { absolute_path, content }
    }

    pub fn absolute_path(&self) -> (path: &str)
        ensures
            path@ == self@.absolute_path,
    {
        self.absolute_path.as_str()
    }

    pub fn content(&self) -> (content: Option<&str>)
        ensures
            match content {
                Some(text) => self@.content == Some(text@),
                None => self@.content.is_none(),
            },
    {
        match &self.content {
            Some(text) => Some(text.as_str()),
            None => None,
        }
    }
}

/// What a [`ClonedRepo`] holds.
pub struct ClonedRepoView {
    pub url: Seq<char>,
    pub directory: Seq<char>,
    pub head: Option<Seq<char>>,
    pub candidates: Seq<CandidateFileView>,
}

/// A repository that was cloned into a directory.
#[derive(Debug)]
pub struct ClonedRepo<'url> {
    url: &'url str,
    directory: String,
    head: Option<String>,
    candidates: Vec<CandidateFile>,
}

impl<'url> View for ClonedRepo<'url> {
    type V = ClonedRepoView;

    closed spec fn view(&self) -> ClonedRepoView {
        ClonedRepoView {
            url: self.url@,
            directory: self.directory@,
            head: match self.head {
                Some(commit) => Some(commit@),
                None => None,
            },
            candidates: self.candidates@.map_values(|file: CandidateFile| file@),
        }
    }
}

impl<'url> ClonedRepo<'url> {
    /// The checkout of `url` in `directory`. `head` is the commit that is
    /// checked out, or `None` where it cannot be told; `candidates` are the
    /// files that may be configuration files, in the order in which they were
    /// found.
    pub fn new(
        url: &'url str,
        directory: String,
        head: Option<String>,
        candidates: Vec<CandidateFile>,
    ) -> (cloned: ClonedRepo<'url>)
        ensures
            cloned@ == (ClonedRepoView {
                url: url@,
                directory: directory@,
                head: match head {
                    Some(commit) => Some(commit@),
                    None => None,
                },
                candidates: candidates@.map_values(|file: CandidateFile| file@),
            }),
    {
        ClonedRepo { url, directory, head, candidates }
    }

    /// The address that the repository was cloned from.
    pub fn url(&self) -> (url: &str)
        ensures
            url@ == self@.url,
    {
        self.url
    }

    /// The directory that holds the checkout.
    pub fn path(&self) -> (path: &str)
        ensures
            path@ == self@.directory,
    {
        self.directory.as_str()
    }

    /// The commit that is checked out, where it can be told.
    pub fn head(&self) -> (commit: Option<String>)
        ensures
            match commit {
                Some(c) => self@.head == Some(c@),
                None => self@.head.is_none(),
            },
    {
        match &self.head {
            Some(commit) => Some(commit.clone()),
            None => None,
        }
    }

    /// The files that may be configuration files.
    pub fn candidates(&self) -> (candidates: &Vec<CandidateFile>)
        ensures
            candidates@.map_values(|file: CandidateFile| file@) == self@.candidates,
    {
        &self.candidates
    }
}

} // verus!
