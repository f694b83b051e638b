//! The configuration value: feature toggles and custom patterns that govern
//! line classification. Loading a configuration from a file is a caller
//! concern; the core only consumes an already-validated value.

use vstd::prelude::*;

verus! {

/// Mathematical form of a configuration.
pub struct ConfigView {
    pub remove_extra_spaces: bool,
    pub detect_headings: bool,
    pub detect_lists: bool,
    pub custom_patterns: Seq<Seq<char>>,
}

/// A set of user-definable rules for text formatting.
#[derive(Debug, Clone)]
pub struct Config {
    /// If true, collapse runs of consecutive whitespace inside a line.
    pub remove_extra_spaces: bool,
    /// If true, detect lines starting with `#` as headings.
    pub detect_headings: bool,
    /// If true, detect bullet lines starting with `-`, `*` or `+`.
    pub detect_lists: bool,
    /// Additional user-defined patterns; an extension point with no default
    /// behavior of its own.
    pub custom_patterns: Vec<String>,
}

impl View for Config {
    type V = ConfigView;

    open spec fn view(&self) -> ConfigView {
        ConfigView {
            remove_extra_spaces: self.remove_extra_spaces,
            detect_headings: self.detect_headings,
            detect_lists: self.detect_lists,
            custom_patterns: self.custom_patterns.deep_view(),
        }
    }
}

impl Default for Config {
    /// The default configuration: every toggle on, no custom patterns.
    fn default() -> (c: Config)
        ensures
            c@.remove_extra_spaces,
            c@.detect_headings,
            c@.detect_lists,
            c@.custom_patterns == Seq::<Seq<char>>::empty(),
    {
        let c = Config {
            remove_extra_spaces: true,
            detect_headings: true,
            detect_lists: true,
            custom_patterns: Vec::new(),
        };
        proof {
            assert(c@.custom_patterns =~= Seq::<Seq<char>>::empty());
        }
        c
    }
}

} // verus!
