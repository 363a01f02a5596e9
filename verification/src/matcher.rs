//! The matching engine: runs an input against every fingerprint of a
//! database, post-processes the extracted parameters, and returns the ordered
//! match results.

use crate::codec::{base64_decoding, text_decoding};
use crate::error::RecogError;
use crate::fingerprint::{db_matching_indices, Fingerprint, FingerprintDatabase, FingerprintV};
use crate::params::{filter_temp, ParamInterpolator};
use crate::pmap::ParamMap;
use vstd::prelude::*;

verus! {

/// Result of a fingerprint match.
#[derive(Debug)]
pub struct MatchResult {
    /// The fingerprint that matched (an independent copy).
    pub fingerprint: Fingerprint,
    /// Captured parameters, after output processing.
    pub params: ParamMap,
    /// Match score in thousandths of full confidence.
    pub score: u32,
}

/// The mathematical content of a [`MatchResult`].
pub struct MatchResultV {
    pub fingerprint: FingerprintV,
    pub params: Map<Seq<char>, Seq<char>>,
    pub score: int,
}

impl View for MatchResult {
    type V = MatchResultV;

    open spec fn view(&self) -> MatchResultV {
        MatchResultV { fingerprint: self.fingerprint@, params: self.params@, score: self.score as int }
    }
}

/// Full confidence, in thousandths.
pub const FULL_SCORE: u32 = 1000;

impl MatchResult {
    /// Create a new match result with full confidence.
    pub fn new(fingerprint: Fingerprint, params: ParamMap) -> (r: Self)
        ensures
            r@.fingerprint == fingerprint@,
            r@.params == params@,
            r@.score == FULL_SCORE as int,
    {
        MatchResult { fingerprint, params, score: FULL_SCORE }
    }
}

/// The ordered results of matching `text` against `fps`: one entry per
/// matching fingerprint, in declaration order, holding that fingerprint, its
/// extracted parameters with the temporary ones (`temps` or `_tmp.`-prefixed)
/// removed, and full confidence.
pub open spec fn match_results_spec(
    fps: Seq<FingerprintV>,
    temps: Seq<Seq<char>>,
    text: Seq<char>,
) -> Seq<MatchResultV> {
    db_matching_indices(fps, text).map_values(
        |i: int|
            MatchResultV {
                fingerprint: fps[i],
                params: filter_temp(fps[i].eval(text)->Some_0, temps),
                score: FULL_SCORE as int,
            },
    )
}

/// For a fixed database, temporary-parameter set and input, the match results
/// are one fixed sequence: any two results both equal to the specification
/// are the same, so repeated calls return the same ordered sequence.
pub proof fn lemma_match_text_deterministic(
    fps: Seq<FingerprintV>,
    temps: Seq<Seq<char>>,
    text: Seq<char>,
    r1: Seq<MatchResultV>,
    r2: Seq<MatchResultV>,
)
    requires
        r1 == match_results_spec(fps, temps, text),
        r2 == match_results_spec(fps, temps, text),
    ensures
        r1 == r2,
{
}

/// When no fingerprint matches the input, the result sequence is empty:
/// "no match" is a valid, error-free outcome.
pub proof fn lemma_no_match_empty(fps: Seq<FingerprintV>, temps: Seq<Seq<char>>, text: Seq<char>)
    requires
        forall|i: int| 0 <= i < fps.len() ==> (#[trigger] fps[i]).eval(text) is None,
    ensures
        match_results_spec(fps, temps, text) == Seq::<MatchResultV>::empty(),
    decreases fps.len(),
{
    lemma_no_match_indices(fps, text);
    assert(match_results_spec(fps, temps, text) =~= Seq::<MatchResultV>::empty());
}

proof fn lemma_no_match_indices(fps: Seq<FingerprintV>, text: Seq<char>)
    requires
        forall|i: int| 0 <= i < fps.len() ==> (#[trigger] fps[i]).eval(text) is None,
    ensures
        db_matching_indices(fps, text) == Seq::<int>::empty(),
    decreases fps.len(),
{
    if fps.len() > 0 {
        assert(fps[fps.len() - 1].eval(text) is None);
        assert forall|i: int|
            0 <= i < fps.drop_last().len() implies (#[trigger] fps.drop_last()[i]).eval(text)
            is None by {
            assert(fps.drop_last()[i] == fps[i]);
        }
        lemma_no_match_indices(fps.drop_last(), text);
    } else {
        assert(db_matching_indices(fps, text) =~= Seq::<int>::empty());
    }
}

/// Matcher engine for processing text against fingerprints.
#[derive(Debug)]
pub struct Matcher {
    /// Database of fingerprints.
    db: FingerprintDatabase,
    /// Parameter interpolator applied to every raw parameter map.
    interpolator: ParamInterpolator,
}

/// The mathematical content of a [`Matcher`].
pub struct MatcherV {
    pub fingerprints: Seq<FingerprintV>,
    pub temp_params: Seq<Seq<char>>,
}

impl View for Matcher {
    type V = MatcherV;

    closed spec fn view(&self) -> MatcherV {
        MatcherV { fingerprints: self.db@, temp_params: self.interpolator@ }
    }
}

impl Matcher {
    /// Create a new matcher owning a fingerprint database.
    pub fn new(db: FingerprintDatabase) -> (m: Self)
        ensures
            m@.fingerprints == db@,
            m@.temp_params == Seq::<Seq<char>>::empty(),
    {
        Matcher { db, interpolator: ParamInterpolator::new() }
    }

    /// Create a matcher from a database (consuming it).
    pub fn from_db(db: FingerprintDatabase) -> (m: Self)
        ensures
            m@.fingerprints == db@,
            m@.temp_params == Seq::<Seq<char>>::empty(),
    {
        Self::new(db)
    }

    /// Match text against all fingerprints and return all matches, in
    /// declaration order, with temporary parameters removed.
    pub fn match_text(&self, text: &str) -> (r: Vec<MatchResult>)
        ensures
            r@.map_values(|mr: MatchResult| mr@) == match_results_spec(
                self@.fingerprints,
                self@.temp_params,
                text@,
            ),
    {
        let ghost fv = self@.fingerprints;
        let ghost temps = self@.temp_params;
        let ghost expected = match_results_spec(fv, temps, text@);
        let matched = self.db.find_matches(text);
        let n = matched.len();
        let mut results: Vec<MatchResult> = Vec::new();
        let mut i: usize = 0;
        while i < n
            invariant
                i <= n,
                n == matched@.len(),
                expected == match_results_spec(fv, temps, text@),
                expected.len() == n,
                temps == self@.temp_params,
                results@.len() == i,
                forall|k: int|
                    0 <= k < n ==> {
                        let idx = db_matching_indices(fv, text@)[k];
                        &&& (#[trigger] matched@[k]).0@ == fv[idx]
                        &&& fv[idx].eval(text@) == Some(matched@[k].1@)
                    },
                forall|k: int| 0 <= k < i ==> (#[trigger] results@[k])@ == expected[k],
            decreases n - i,
        {
            let fingerprint = matched[i].0.clone();
            let mut params = matched[i].1.clone();
            self.interpolator.process_cpe_params(&mut params);
            results.push(MatchResult::new(fingerprint, params));
            i += 1;
        }
        proof {
            assert(results@.map_values(|mr: MatchResult| mr@) =~= expected);
        }
        results
    }

    /// Match text and return the best match: the first one, or nothing.
    pub fn match_text_best(&self, text: &str) -> (r: Option<MatchResult>)
        ensures
            r is Some <==> match_results_spec(self@.fingerprints, self@.temp_params, text@).len()
                > 0,
            r matches Some(mr) ==> mr@ == match_results_spec(
                self@.fingerprints,
                self@.temp_params,
                text@,
            )[0],
    {
        let mut all = self.match_text(text);
        if all.len() == 0 {
            None
        } else {
            Some(all.remove(0))
        }
    }

    /// Match base64-encoded text: decode, convert to text, then match. Fails
    /// exactly when the input is not valid base64 (a base64 error) or decodes
    /// to bytes that are not valid text (a UTF-8 error).
    pub fn match_base64(&self, base64_text: &str) -> (r: Result<Vec<MatchResult>, RecogError>)
        ensures
            match text_decoding(base64_text@) {
                Some(cs) => r matches Ok(v) && v@.map_values(|mr: MatchResult| mr@)
                    == match_results_spec(self@.fingerprints, self@.temp_params, cs),
                None => r matches Err(e) && (e is Base64 <==> base64_decoding(base64_text@)
                    is None) && (e is Utf8 <==> base64_decoding(base64_text@) is Some),
            },
    {
        match crate::codec::base64_decode(base64_text) {
            Some(bytes) => match crate::codec::utf8_decode(bytes) {
                Some(text) => Ok(self.match_text(text.as_str())),
                None => Err(
                    RecogError::Utf8 { message: "decoded bytes are not valid UTF-8".to_owned() },
                ),
            },
            None => Err(
                RecogError::Base64 { message: "input is not valid base64".to_owned() },
            ),
        }
    }

    /// Match multiple texts independently, preserving input order.
    pub fn match_batch(&self, texts: &[String]) -> (r: Vec<Vec<MatchResult>>)
        ensures
            r@.len() == texts@.len(),
            forall|i: int|
                0 <= i < texts@.len() ==> (#[trigger] r@[i])@.map_values(|mr: MatchResult| mr@)
                    == match_results_spec(self@.fingerprints, self@.temp_params, texts@[i]@),
    {
        let n = texts.len();
        let mut r: Vec<Vec<MatchResult>> = Vec::new();
        let mut i: usize = 0;
        while i < n
            invariant
                i <= n,
                n == texts@.len(),
                r@.len() == i,
                forall|j: int|
                    0 <= j < i ==> (#[trigger] r@[j])@.map_values(|mr: MatchResult| mr@)
                        == match_results_spec(self@.fingerprints, self@.temp_params, texts@[j]@),
            decreases n - i,
        {
            let batch = self.match_text(texts[i].as_str());
            r.push(batch);
            i += 1;
        }
        r
    }

    /// Whether some result carries a fingerprint with the given description.
    pub fn any_matches_description(results: &Vec<MatchResult>, description: &str) -> (b: bool)
        ensures
            b == exists|i: int|
                0 <= i < results@.len() && (#[trigger] results@[i])@.fingerprint.description
                    == description@,
    {
        let owned = description.to_owned();
        let n = results.len();
        let mut i: usize = 0;
        while i < n
            invariant
                i <= n,
                n == results@.len(),
                owned@ == description@,
                forall|j: int|
                    0 <= j < i ==> (#[trigger] results@[j])@.fingerprint.description != description@,
            decreases n - i,
        {
            if results[i].fingerprint.description == owned {
                proof {
                    assert(results@[i as int]@.fingerprint.description == description@);
                }
                return true;
            }
            i += 1;
        }
        false
    }

    /// Read access to the underlying fingerprint database.
    pub fn database(&self) -> (db: &FingerprintDatabase)
        ensures
            db@ == self@.fingerprints,
    {
        &self.db
    }

    /// Read access to the parameter interpolator.
    pub fn interpolator(&self) -> (r: &ParamInterpolator)
        ensures
            r@ == self@.temp_params,
    {
        &self.interpolator
    }

    /// Mutable access to the interpolator, for configuration.
    pub fn interpolator_mut(&mut self) -> (r: &mut ParamInterpolator)
        ensures
            *r == old(self).interpolator_field(),
            r@ == old(self)@.temp_params,
            final(self)@.temp_params == final(r)@,
            final(self)@.fingerprints == old(self)@.fingerprints,
    {
        &mut self.interpolator
    }

    /// The interpolator value itself; supports the contract of
    /// [`Self::interpolator_mut`].
    pub closed spec fn interpolator_field(self) -> ParamInterpolator {
        self.interpolator
    }
}

impl Default for Matcher {
    /// The default matcher has an empty database.
    fn default() -> (m: Self)
        ensures
            m@.fingerprints == Seq::<FingerprintV>::empty(),
            m@.temp_params == Seq::<Seq<char>>::empty(),
    {
        Self::new(FingerprintDatabase::new())
    }
}

} // verus!
