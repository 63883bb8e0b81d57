//! The command-line options of a run, and the feature options that they ask
//! of `cargo metadata`.
use vstd::prelude::*;
use crate::output_format::OutputFormat;
use crate::text::texts;

verus! {

/// The options of `cargo check-external-types`.
#[derive(Clone, Debug, PartialEq, Eq)]
pub struct CheckExternalTypesArgs {
    /// Enables all crate features.
    pub all_features: bool,
    /// Disables default features.
    pub no_default_features: bool,
    /// The features to enable (from a comma-delimited list).
    pub features: Option<Vec<String>>,
    /// Path to the Cargo manifest.
    pub manifest_path: Option<String>,
    /// Target triple.
    pub target: Option<String>,
    /// Path to a TOML configuration file.
    pub config: Option<String>,
    /// Verbose output for debugging.
    pub verbose: bool,
    /// The format of the results.
    pub output_format: OutputFormat,
    /// Skip unsupported package kinds (binary-only, proc-macro) instead of
    /// failing on them.
    pub skip_unsupported: bool,
}

/// A feature option handed to `cargo metadata`.
#[derive(Clone, Debug, PartialEq, Eq)]
pub enum FeatureSelection {
    /// `--all-features`.
    AllFeatures,
    /// `--no-default-features`.
    NoDefaultFeatures,
    /// `--features` with these features.
    SomeFeatures(Vec<String>),
}

impl CheckExternalTypesArgs {
    /// The feature options for `cargo metadata`, in the order in which they
    /// are applied: all features, no default features, the listed features,
    /// each when it was asked for.
    pub fn metadata_features(&self) -> (r: Vec<FeatureSelection>)
        ensures
            r@.len() == (if self.all_features { 1int } else { 0 }) + (if self.no_default_features { 1int } else { 0 })
                + (if self.features is Some { 1int } else { 0 }),
            self.all_features ==> r@[0] is AllFeatures,
            self.no_default_features ==> r@[if self.all_features { 1int } else { 0 }] is NoDefaultFeatures,
            self.features matches Some(fs) ==> (r@.last() matches FeatureSelection::SomeFeatures(x) && texts(x@) == texts(fs@)),
    {
        let mut r: Vec<FeatureSelection> = Vec::new();
        if self.all_features {
            r.push(FeatureSelection::AllFeatures);
        }
        if self.no_default_features {
            r.push(FeatureSelection::NoDefaultFeatures);
        }
        match &self.features {
            Some(fs) => {
                let x = fs.clone();
                assert(texts(x@) =~= texts(fs@));
                r.push(FeatureSelection::SomeFeatures(x));
            },
            None => {},
        }
        r
    }
}

} // verus!
