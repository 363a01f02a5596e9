//! Core data structures: a fingerprint (one classification rule), its test
//! examples, and the ordered fingerprint database.

use crate::codec::{base64_decoding, text_decoding};
use crate::error::RecogError;
use crate::params::{Param, ParamV};
use crate::pattern::{captures_view, regex_captures, regex_compiles};
use crate::pmap::ParamMap;
use vstd::prelude::*;

verus! {

/// A fingerprint pattern for matching against network banners.
#[derive(Debug)]
pub struct Fingerprint {
    /// Pattern text; compiles whenever the fingerprint was built through
    /// [`Fingerprint::new`].
    pub pattern: String,
    /// Human-readable description of what this fingerprint identifies.
    pub description: String,
    /// Test examples for this fingerprint.
    pub examples: Vec<Example>,
    /// Parameters that can be extracted from matches.
    pub params: Vec<Param>,
}

/// The mathematical content of a [`Fingerprint`].
pub struct FingerprintV {
    pub pattern: Seq<char>,
    pub description: Seq<char>,
    pub examples: Seq<ExampleV>,
    pub params: Seq<ParamV>,
}

impl View for Fingerprint {
    type V = FingerprintV;

    open spec fn view(&self) -> FingerprintV {
        FingerprintV {
            pattern: self.pattern@,
            description: self.description@,
            examples: self.examples@.map_values(|e: Example| e@),
            params: self.params@.map_values(|p: Param| p@),
        }
    }
}

/// The parameters extracted from the capture groups of one match: rules are
/// applied in declaration order, a later rule with the same name replaces an
/// earlier one, and a rule whose position is out of range or names a group
/// that did not participate is skipped.
pub open spec fn extract_params(
    params: Seq<ParamV>,
    groups: Seq<Option<Seq<char>>>,
) -> Map<Seq<char>, Seq<char>>
    decreases params.len(),
{
    if params.len() == 0 {
        Map::empty()
    } else {
        let m = extract_params(params.drop_last(), groups);
        let p = params.last();
        if 0 <= p.pos < groups.len() && groups[p.pos] is Some {
            m.insert(p.name, groups[p.pos]->Some_0)
        } else {
            m
        }
    }
}

impl FingerprintV {
    /// What matching this fingerprint against `text` yields: `None` when the
    /// pattern does not match (or does not compile), otherwise the extracted
    /// parameter map.
    pub open spec fn eval(self, text: Seq<char>) -> Option<Map<Seq<char>, Seq<char>>> {
        if regex_compiles(self.pattern) {
            match regex_captures(self.pattern, text) {
                Some(groups) => Some(extract_params(self.params, groups)),
                None => None,
            }
        } else {
            None
        }
    }
}

/// A rule whose position is out of range, or whose group did not participate,
/// adds nothing to the extracted parameters and raises no error.
pub proof fn lemma_out_of_range_param_skipped(
    params: Seq<ParamV>,
    p: ParamV,
    groups: Seq<Option<Seq<char>>>,
)
    requires
        p.pos >= groups.len() || p.pos < 0 || groups[p.pos] is None,
    ensures
        extract_params(params.push(p), groups) == extract_params(params, groups),
{
    assert(params.push(p).drop_last() =~= params);
}

/// A name every rule of which points at a missing or non-participating group
/// is absent from the extracted parameters.
pub proof fn lemma_missing_capture_tolerated(
    params: Seq<ParamV>,
    name: Seq<char>,
    groups: Seq<Option<Seq<char>>>,
)
    requires
        forall|i: int|
            0 <= i < params.len() && (#[trigger] params[i]).name == name ==> params[i].pos
                >= groups.len() || params[i].pos < 0 || groups[params[i].pos] is None,
    ensures
        !extract_params(params, groups).dom().contains(name),
    decreases params.len(),
{
    if params.len() > 0 {
        lemma_missing_capture_tolerated(params.drop_last(), name, groups);
    }
}

impl Fingerprint {
    /// Create a new fingerprint with a pattern and description. Fails, with a
    /// pattern-compile error, exactly when the pattern is not a valid regular
    /// expression; no fingerprint exists in a half-built state.
    pub fn new(pattern: &str, description: &str) -> (r: Result<Self, RecogError>)
        ensures
            r is Ok <==> regex_compiles(pattern@),
            r matches Ok(fp) ==> {
                &&& fp@.pattern == pattern@
                &&& fp@.description == description@
                &&& fp@.examples == Seq::<ExampleV>::empty()
                &&& fp@.params == Seq::<ParamV>::empty()
            },
            r matches Err(e) ==> e is Regex,
    {
        match crate::pattern::compile_failure(pattern) {
            None => {
                let fp = Fingerprint {
                    pattern: pattern.to_owned(),
                    description: description.to_owned(),
                    examples: Vec::new(),
                    params: Vec::new(),
                };
                proof {
                    assert(fp@.examples =~= Seq::<ExampleV>::empty());
                    assert(fp@.params =~= Seq::<ParamV>::empty());
                }
                Ok(fp)
            },
            Some(message) => Err(RecogError::Regex { message }),
        }
    }

    /// Add a test example to this fingerprint.
    pub fn add_example(&mut self, example: Example)
        ensures
            final(self)@.examples == old(self)@.examples.push(example@),
            final(self)@.pattern == old(self)@.pattern,
            final(self)@.description == old(self)@.description,
            final(self)@.params == old(self)@.params,
    {
        self.examples.push(example);
        proof {
            assert(self@.examples =~= old(self)@.examples.push(self.examples@.last()@));
        }
    }

    /// Add a parameter definition.
    pub fn add_param(&mut self, param: Param)
        ensures
            final(self)@.params == old(self)@.params.push(param@),
            final(self)@.pattern == old(self)@.pattern,
            final(self)@.description == old(self)@.description,
            final(self)@.examples == old(self)@.examples,
    {
        self.params.push(param);
        proof {
            assert(self@.params =~= old(self)@.params.push(self.params@.last()@));
        }
    }

    /// Match against input text and return the captured parameters, or
    /// nothing when the pattern does not match.
    pub fn matches(&self, text: &str) -> (r: Option<ParamMap>)
        ensures
            match r {
                Some(pm) => self@.eval(text@) matches Some(m) && pm@ == m,
                None => self@.eval(text@) is None,
            },
    {
        match crate::pattern::run_captures(self.pattern.as_str(), text) {
            Some(caps) => {
                let ghost groups = captures_view(caps@);
                let ghost pv = self@.params;
                let mut results = ParamMap::new();
                let n = self.params.len();
                let mut i: usize = 0;
                proof {
                    assert(pv.take(0) =~= Seq::<ParamV>::empty());
                    assert(results@ =~= extract_params(pv.take(0), groups));
                }
                while i < n
                    invariant
                        i <= n,
                        n == self.params@.len(),
                        pv == self@.params,
                        pv.len() == n,
                        groups == captures_view(caps@),
                        results@ == extract_params(pv.take(i as int), groups),
                    decreases n - i,
                {
                    proof {
                        assert(pv.take(i + 1).drop_last() =~= pv.take(i as int));
                        assert(pv.take(i + 1).last() == pv[i as int]);
                        assert(pv[i as int] == self.params@[i as int]@);
                    }
                    let p = &self.params[i];
                    if p.pos < caps.len() {
                        match &caps[p.pos] {
                            Some(captured) => {
                                results.insert(p.name.clone(), captured.clone());
                            },
                            None => {},
                        }
                    }
                    i += 1;
                }
                proof {
                    assert(pv.take(n as int) =~= pv);
                }
                Some(results)
            },
            None => None,
        }
    }
}

impl Clone for Fingerprint {
    /// Cloning keeps the pattern, description, examples and parameter rules.
    fn clone(&self) -> (res: Self)
        ensures
            res@ == self@,
    {
        let mut examples: Vec<Example> = Vec::new();
        let ne = self.examples.len();
        let mut i: usize = 0;
        while i < ne
            invariant
                i <= ne,
                ne == self.examples@.len(),
                examples@.len() == i,
                forall|j: int| 0 <= j < i ==> (#[trigger] examples@[j])@ == self.examples@[j]@,
            decreases ne - i,
        {
            examples.push(self.examples[i].clone());
            i += 1;
        }
        let mut params: Vec<Param> = Vec::new();
        let np = self.params.len();
        let mut k: usize = 0;
        while k < np
            invariant
                k <= np,
                np == self.params@.len(),
                params@.len() == k,
                forall|j: int| 0 <= j < k ==> (#[trigger] params@[j])@ == self.params@[j]@,
            decreases np - k,
        {
            params.push(self.params[k].clone());
            k += 1;
        }
        let res = Fingerprint {
            pattern: self.pattern.clone(),
            description: self.description.clone(),
            examples,
            params,
        };
        proof {
            assert(res@.examples =~= self@.examples);
            assert(res@.params =~= self@.params);
        }
        res
    }
}

/// An example for testing a fingerprint.
#[derive(Debug)]
pub struct Example {
    /// The example value to match against.
    pub value: String,
    /// Expected parameter values for this example.
    pub expected_values: ParamMap,
    /// Whether this example is base64 encoded.
    pub is_base64: bool,
}

/// The mathematical content of an [`Example`].
pub struct ExampleV {
    pub value: Seq<char>,
    pub expected_values: Map<Seq<char>, Seq<char>>,
    pub is_base64: bool,
}

impl View for Example {
    type V = ExampleV;

    open spec fn view(&self) -> ExampleV {
        ExampleV {
            value: self.value@,
            expected_values: self.expected_values@,
            is_base64: self.is_base64,
        }
    }
}

impl Example {
    /// Create a new plain-text example.
    pub fn new(value: String) -> (e: Self)
        ensures
            e@.value == value@,
            e@.expected_values == Map::<Seq<char>, Seq<char>>::empty(),
            !e@.is_base64,
    {
        Example { value, expected_values: ParamMap::new(), is_base64: false }
    }

    /// Create a base64-encoded example.
    pub fn new_base64(value: String) -> (e: Self)
        ensures
            e@.value == value@,
            e@.expected_values == Map::<Seq<char>, Seq<char>>::empty(),
            e@.is_base64,
    {
        Example { value, expected_values: ParamMap::new(), is_base64: true }
    }

    /// Add an expected parameter value.
    pub fn add_expected(&mut self, name: String, value: String)
        ensures
            final(self)@.expected_values == old(self)@.expected_values.insert(name@, value@),
            final(self)@.value == old(self)@.value,
            final(self)@.is_base64 == old(self)@.is_base64,
    {
        self.expected_values.insert(name, value);
    }

    /// The text this example stands for: the value itself, or its decoding
    /// when the example is base64 encoded. Fails exactly when the value is
    /// flagged base64 and is not valid base64, or decodes to bytes that are
    /// not valid text.
    pub fn decoded_value(&self) -> (r: Result<String, RecogError>)
        ensures
            !self@.is_base64 ==> (r matches Ok(s) && s@ == self@.value),
            self@.is_base64 ==> match r {
                Ok(s) => text_decoding(self@.value) == Some(s@),
                Err(e) => {
                    &&& text_decoding(self@.value) is None
                    &&& (e is Base64 <==> base64_decoding(self@.value) is None)
                    &&& (e is Utf8 <==> base64_decoding(self@.value) is Some)
                },
            },
    {
        if !self.is_base64 {
            return Ok(self.value.clone());
        }
        match crate::codec::base64_decode(self.value.as_str()) {
            Some(bytes) => match crate::codec::utf8_decode(bytes) {
                Some(text) => Ok(text),
                None => Err(
                    RecogError::Utf8 { message: "example bytes are not valid UTF-8".to_owned() },
                ),
            },
            None => Err(
                RecogError::Base64 { message: "example value is not valid base64".to_owned() },
            ),
        }
    }
}

impl Clone for Example {
    /// Cloning keeps the value, the expected parameters and the flag.
    fn clone(&self) -> (res: Self)
        ensures
            res@ == self@,
    {
        Example {
            value: self.value.clone(),
            expected_values: self.expected_values.clone(),
            is_base64: self.is_base64,
        }
    }
}

/// Ordered collection of fingerprints; order defines match precedence.
#[derive(Debug)]
pub struct FingerprintDatabase {
    /// All loaded fingerprints, in declaration order.
    pub fingerprints: Vec<Fingerprint>,
}

impl View for FingerprintDatabase {
    type V = Seq<FingerprintV>;

    open spec fn view(&self) -> Seq<FingerprintV> {
        self.fingerprints@.map_values(|f: Fingerprint| f@)
    }
}

/// The positions, in ascending order, of the fingerprints that match `text`.
pub open spec fn db_matching_indices(fps: Seq<FingerprintV>, text: Seq<char>) -> Seq<int>
    decreases fps.len(),
{
    if fps.len() == 0 {
        Seq::empty()
    } else {
        let prev = db_matching_indices(fps.drop_last(), text);
        if fps.last().eval(text) is Some {
            prev.push(fps.len() - 1)
        } else {
            prev
        }
    }
}

/// The matching positions are exactly the positions whose fingerprint
/// matches, each in range, listed in ascending order: relative fingerprint
/// order is preserved and no match is dropped.
pub proof fn lemma_matching_indices(fps: Seq<FingerprintV>, text: Seq<char>)
    ensures
        forall|k: int|
            0 <= k < db_matching_indices(fps, text).len() ==> {
                let i = #[trigger] db_matching_indices(fps, text)[k];
                0 <= i < fps.len() && fps[i].eval(text) is Some
            },
        forall|k1: int, k2: int|
            0 <= k1 < k2 < db_matching_indices(fps, text).len() ==> #[trigger] db_matching_indices(
                fps,
                text,
            )[k1] < #[trigger] db_matching_indices(fps, text)[k2],
        forall|i: int|
            0 <= i < fps.len() && (#[trigger] fps[i]).eval(text) is Some ==> db_matching_indices(
                fps,
                text,
            ).contains(i),
    decreases fps.len(),
{
    if fps.len() > 0 {
        lemma_matching_indices(fps.drop_last(), text);
        let prev = db_matching_indices(fps.drop_last(), text);
        let cur = db_matching_indices(fps, text);
        assert forall|i: int|
            0 <= i < fps.len() && (#[trigger] fps[i]).eval(text) is Some implies cur.contains(
            i,
        ) by {
            if i < fps.len() - 1 {
                assert(fps.drop_last()[i] == fps[i]);
                assert(prev.contains(i));
                let k = choose|k: int| 0 <= k < prev.len() && prev[k] == i;
                assert(cur[k] == i);
            } else {
                assert(cur.last() == i);
            }
        }
    }
}

impl FingerprintDatabase {
    /// Create a new empty database.
    pub fn new() -> (db: Self)
        ensures
            db@ == Seq::<FingerprintV>::empty(),
    {
        let db = FingerprintDatabase { fingerprints: Vec::new() };
        proof {
            assert(db@ =~= Seq::<FingerprintV>::empty());
        }
        db
    }

    /// Add a fingerprint to the database, after all earlier ones.
    pub fn add_fingerprint(&mut self, fingerprint: Fingerprint)
        ensures
            final(self)@ == old(self)@.push(fingerprint@),
    {
        self.fingerprints.push(fingerprint);
        proof {
            assert(self@ =~= old(self)@.push(self.fingerprints@.last()@));
        }
    }

    /// Find all fingerprints that match the given text, in declaration order,
    /// each with its extracted parameters.
    pub fn find_matches<'a>(&'a self, text: &str) -> (r: Vec<(&'a Fingerprint, ParamMap)>)
        ensures
            r@.len() == db_matching_indices(self@, text@).len(),
            forall|k: int|
                0 <= k < r@.len() ==> {
                    let i = db_matching_indices(self@, text@)[k];
                    &&& (#[trigger] r@[k]).0@ == self@[i]
                    &&& self@[i].eval(text@) == Some(r@[k].1@)
                },
    {
        let ghost fv = self@;
        let mut results: Vec<(&'a Fingerprint, ParamMap)> = Vec::new();
        let n = self.fingerprints.len();
        let mut i: usize = 0;
        proof {
            assert(fv.take(0) =~= Seq::<FingerprintV>::empty());
        }
        while i < n
            invariant
                i <= n,
                n == self.fingerprints@.len(),
                fv == self@,
                fv.len() == n,
                results@.len() == db_matching_indices(fv.take(i as int), text@).len(),
                forall|k: int|
                    0 <= k < results@.len() ==> {
                        let idx = db_matching_indices(fv.take(i as int), text@)[k];
                        &&& (#[trigger] results@[k]).0@ == fv[idx]
                        &&& fv[idx].eval(text@) == Some(results@[k].1@)
                    },
            decreases n - i,
        {
            proof {
                assert(fv.take(i + 1).drop_last() =~= fv.take(i as int));
                assert(fv.take(i + 1).last() == fv[i as int]);
                assert(fv[i as int] == self.fingerprints@[i as int]@);
            }
            let fingerprint = &self.fingerprints[i];
            match fingerprint.matches(text) {
                Some(captures) => {
                    results.push((fingerprint, captures));
                    proof {
                        let pre = db_matching_indices(fv.take(i as int), text@);
                        let cur = db_matching_indices(fv.take(i + 1), text@);
                        assert(cur == pre.push(i as int));
                        assert forall|k: int| 0 <= k < results@.len() implies {
                            let idx = cur[k];
                            &&& (#[trigger] results@[k]).0@ == fv[idx]
                            &&& fv[idx].eval(text@) == Some(results@[k].1@)
                        } by {
                            if k < results@.len() - 1 {
                                assert(cur[k] == pre[k]);
                            }
                        }
                    }
                },
                None => {
                    proof {
                        assert(db_matching_indices(fv.take(i + 1), text@)
                            == db_matching_indices(fv.take(i as int), text@));
                    }
                },
            }
            i += 1;
        }
        proof {
            assert(fv.take(n as int) =~= fv);
        }
        results
    }

    /// Find the best matching fingerprint: the first match in declaration
    /// order, or nothing when no fingerprint matches.
    pub fn find_best_match<'a>(&'a self, text: &str) -> (r: Option<(&'a Fingerprint, ParamMap)>)
        ensures
            r is Some <==> db_matching_indices(self@, text@).len() > 0,
            r matches Some(p) ==> {
                let i = db_matching_indices(self@, text@)[0];
                &&& p.0@ == self@[i]
                &&& self@[i].eval(text@) == Some(p.1@)
            },
    {
        let mut all = self.find_matches(text);
        if all.len() == 0 {
            None
        } else {
            Some(all.remove(0))
        }
    }
}

impl Default for FingerprintDatabase {
    /// The default database is empty.
    fn default() -> (db: Self)
        ensures
            db@ == Seq::<FingerprintV>::empty(),
    {
        Self::new()
    }
}

impl Clone for FingerprintDatabase {
    /// Cloning keeps every fingerprint, in order.
    fn clone(&self) -> (res: Self)
        ensures
            res@ == self@,
    {
        let mut fingerprints: Vec<Fingerprint> = Vec::new();
        let n = self.fingerprints.len();
        let mut i: usize = 0;
        while i < n
            invariant
                i <= n,
                n == self.fingerprints@.len(),
                fingerprints@.len() == i,
                forall|j: int|
                    0 <= j < i ==> (#[trigger] fingerprints@[j])@ == self.fingerprints@[j]@,
            decreases n - i,
        {
            fingerprints.push(self.fingerprints[i].clone());
            i += 1;
        }
        let res = FingerprintDatabase { fingerprints };
        proof {
            assert(res@ =~= self@);
        }
        res
    }
}

} // verus!
