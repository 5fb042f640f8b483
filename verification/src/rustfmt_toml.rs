//! Configuration files found in a checkout.

use vstd::prelude::*;
use vstd::string::*;
use crate::git::{CandidateFile, CandidateFileView, ClonedRepo};
use crate::outside::{
    json_document, json_text_of_toml, parse_json, parse_toml, path_without_prefix,
    strip_path_prefix, toml_document, toml_to_json_text,
};

verus! {

/// What a [`RustfmtConfig`] holds.
pub struct RustfmtConfigView {
    pub file_path: Seq<char>,
    pub toml: toml::Value,
}

/// One configuration file of a checkout: where it lies, relative to the root
/// of the checkout, and what it says.
#[derive(Debug)]
pub struct RustfmtConfig {
    file_path: String,
    toml: toml::Value,
}

impl View for RustfmtConfig {
    type V = RustfmtConfigView;

    closed spec fn view(&self) -> RustfmtConfigView {
        RustfmtConfigView { file_path: self.file_path@, toml: self.toml }
    }
}

/// The path starts at the root of the file system.
pub open spec fn is_absolute(path: Seq<char>) -> bool {
    path.len() > 0 && path[0] == '/'
}

/// Tells whether the path starts at the root of the file system.
pub fn starts_at_root(path: &str) -> (absolute: bool)
    ensures
        absolute == is_absolute(path@),
{
    path.unicode_len() > 0 && path.get_char(0) == '/'
}

/// At which step a document failed to become JSON.
#[derive(Clone, Copy, Debug, PartialEq, Eq)]
pub enum JsonStep {
    /// The document could not be written as JSON text.
    Write,
    /// The JSON text could not be read back.
    Read,
}

/// A configuration file whose content could not be turned into JSON.
#[derive(Debug)]
pub struct JsonError {
    /// The file, relative to the root of its checkout.
    pub file_path: String,
    pub step: JsonStep,
}

impl JsonError {
    /// Says which file could not be converted.
    pub fn message(&self) -> (text: String)
        ensures
            text@ == "failed to convert "@ + self.file_path@ + " to json"@,
    {
        let mut text = String::from_str("failed to convert ");
        text.append(self.file_path.as_str());
        text.append(" to json");
        text
    }
}

/// A TOML document as a JSON document: written as JSON text, and that text
/// read back. `None` where either step fails.
pub open spec fn json_of(document: toml::Value) -> Option<serde_json::Value> {
    match json_text_of_toml(document) {
        Some(text) => json_document(text),
        None => None,
    }
}

/// The step at which a TOML document fails to become JSON, if it fails.
pub open spec fn json_failure(document: toml::Value) -> Option<JsonStep> {
    match json_text_of_toml(document) {
        Some(text) => if json_document(text).is_some() {
            None
        } else {
            Some(JsonStep::Read)
        },
        None => Some(JsonStep::Write),
    }
}

impl RustfmtConfig {
    #[verifier::type_invariant]
    spec fn lies_in_checkout(&self) -> bool {
        !is_absolute(self.file_path@)
    }

    /// The configuration file at `file_path`, which is relative to the root
    /// of its checkout. A path that is absolute gives none.
    pub fn new(file_path: String, toml: toml::Value) -> (config: Option<RustfmtConfig>)
        ensures
            match config {
                Some(c) => !is_absolute(file_path@) && c@ == (RustfmtConfigView {
                    file_path: file_path@,
                    toml,
                }),
                None => is_absolute(file_path@),
            },
    {
        if starts_at_root(file_path.as_str()) {
            None
        } else {
            Some(RustfmtConfig { file_path, toml })
        }
    }

    /// Where the file lies, relative to the root of its checkout. The path is
    /// never absolute.
    pub fn relative_path(&self) -> (path: &str)
        ensures
            path@ == self@.file_path,
            !is_absolute(path@),
    {
        proof {
            use_type_invariant(self);
        }
        self.file_path.as_str()
    }

    /// The content as a JSON document.
    pub fn to_json(&self) -> (json: Result<serde_json::Value, JsonError>)
        ensures
            match json {
                Ok(document) => json_of(self@.toml) == Some(document),
                Err(error) => json_of(self@.toml).is_none() && json_failure(self@.toml) == Some(
                    error.step,
                ) && error.file_path@ == self@.file_path,
            },
    {
        match toml_to_json_text(&self.toml) {
            Ok(text) => match parse_json(text.as_str()) {
                Ok(document) => Ok(document),
                Err(_) => Err(JsonError { file_path: self.file_path.clone(), step: JsonStep::Read }),
            },
            Err(_) => Err(JsonError { file_path: self.file_path.clone(), step: JsonStep::Write }),
        }
    }
}

/// The configuration file that a candidate is, seen from `directory`: its path
/// with the directory taken off, and its content parsed. A candidate that does
/// not lie under the directory, could not be read, or does not parse, is none;
/// so is one whose path is still absolute with the directory taken off.
pub open spec fn config_of(candidate: CandidateFileView, directory: Seq<char>) -> Option<
    RustfmtConfigView,
> {
    match path_without_prefix(candidate.absolute_path, directory) {
        None => None,
        Some(relative) => if is_absolute(relative) {
            None
        } else {
            match candidate.content {
                None => None,
                Some(text) => match toml_document(text) {
                    None => None,
                    Some(document) => Some(
                        RustfmtConfigView { file_path: relative, toml: document },
                    ),
                },
            }
        },
    }
}

/// Every configuration file among the candidates has a path that is relative.
pub proof fn lemma_configs_are_relative(candidates: Seq<CandidateFileView>, directory: Seq<char>)
    ensures
        configs_of(candidates, directory).len() <= candidates.len(),
        forall|k: int|
            0 <= k < configs_of(candidates, directory).len() ==> !is_absolute(
                (#[trigger] configs_of(candidates, directory)[k]).file_path,
            ),
    decreases candidates.len(),
{
    if candidates.len() > 0 {
        lemma_configs_are_relative(candidates.drop_last(), directory);
    }
}

/// The configuration files among the candidates, in the candidates' order.
pub open spec fn configs_of(candidates: Seq<CandidateFileView>, directory: Seq<char>) -> Seq<
    RustfmtConfigView,
>
    decreases candidates.len(),
{
    if candidates.len() == 0 {
        Seq::empty()
    } else {
        let before = configs_of(candidates.drop_last(), directory);
        match config_of(candidates.last(), directory) {
            Some(config) => before.push(config),
            None => before,
        }
    }
}

/// What the configuration files hold.
pub open spec fn configs_view(configs: Seq<RustfmtConfig>) -> Seq<RustfmtConfigView> {
    configs.map_values(|config: RustfmtConfig| config@)
}

impl RustfmtConfig {
    /// Reads one candidate of a checkout in `directory`.
    pub fn read(candidate: &CandidateFile, directory: &str) -> (config: Option<RustfmtConfig>)
        ensures
            match config {
                Some(c) => config_of(candidate@, directory@) == Some(c@),
                None => config_of(candidate@, directory@).is_none(),
            },
    {
        let relative_path = match strip_path_prefix(candidate.absolute_path(), directory) {
            Some(relative) => relative,
            None => {
                return None;
            },
        };
        if starts_at_root(relative_path.as_str()) {
            return None;
        }
        let buffer = match candidate.content() {
            Some(text) => text,
            None => {
                return None;
            },
        };
        match parse_toml(buffer) {
            Ok(toml) => Some(RustfmtConfig { file_path: relative_path, toml }),
            Err(_) => None,
        }
    }
}

impl<'u> ClonedRepo<'u> {
    /// The configuration files of this checkout, in the order in which the
    /// candidates were found. A candidate that is skipped does not keep the
    /// others from being read.
    pub fn find_rustfmt_configs(&self) -> (configs: Vec<RustfmtConfig>)
        ensures
            configs_view(configs@) == configs_of(self@.candidates, self@.directory),
    {
        let candidates = self.candidates();
        let ghost all = self@.candidates;
        let mut result: Vec<RustfmtConfig> = Vec::new();
        let mut i: usize = 0;
        assert(configs_view(result@) =~= configs_of(all.take(0), self@.directory));
        while i < candidates.len()
            invariant
                i <= candidates.len(),
                all == self@.candidates,
                all == candidates@.map_values(|file: CandidateFile| file@),
                configs_view(result@) == configs_of(all.take(i as int), self@.directory),
            decreases candidates.len() - i,
        {
            proof {
                assert(all.take(i + 1).drop_last() =~= all.take(i as int));
                assert(all.take(i + 1).last() == candidates@[i as int]@);
            }
            let ghost before = result@;
            match RustfmtConfig::read(&candidates[i], self.path()) {
                Some(config) => {
                    result.push(config);
                    assert(configs_view(result@) =~= configs_view(before).push(config@));
                },
                None => {},
            }
            i = i + 1;
        }
        proof {
            assert(all.take(i as int) =~= all);
        }
        result
    }
}

} // verus!
