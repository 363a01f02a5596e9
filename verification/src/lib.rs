//! Fingerprint-based recognition: match free-form text (service banners,
//! headers) against an ordered database of pattern rules and extract named
//! parameters from each match.

pub mod codec;
pub mod digits;
pub mod distance;
pub mod error;
pub mod fingerprint;
pub mod matcher;
pub mod params;
pub mod pattern;
pub mod plugin;
pub mod pmap;

pub use distance::{calculate_similarity, levenshtein_distance};
pub use error::{RecogError, RecogResult};
pub use fingerprint::{Example, Fingerprint, FingerprintDatabase};
pub use matcher::{MatchResult, Matcher};
pub use params::{Param, ParamInterpolator};
pub use plugin::{
    AnyMatcher, FuzzyPatternMatcher, PatternMatchResult, PatternMatcher, PatternMatcherRegistry,
    PluginFingerprint, RegexPatternMatcher, StringPatternMatcher,
};
pub use pmap::ParamMap;
