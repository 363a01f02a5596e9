//! Pluggable pattern matchers.
//!
//! The [`PatternMatcher`] capability decouples the matching strategy from the
//! fingerprint machinery: a matcher says whether a text matches, which
//! parameters the match yields, and with what confidence. Three strategies
//! are built in (regular expression, exact string, fuzzy similarity); since
//! trait objects cannot be verified, heterogeneous collections of matchers
//! hold them through the [`AnyMatcher`] tagged union, which is itself a
//! [`PatternMatcher`].

use crate::digits::{dec_chars, permille_chars, permille_to_string, usize_to_string};
use crate::distance::{calculate_similarity, similarity_permille};
use crate::error::RecogError;
use crate::fingerprint::ExampleV;
use crate::params::Param;
use crate::pattern::{captures_view, regex_captures, regex_compiles};
use crate::pmap::ParamMap;
use vstd::prelude::*;

use crate::codec::text_decoding;

pub use crate::fingerprint::Example;

verus! {

/// Result of a pattern match operation.
#[derive(Debug)]
pub struct PatternMatchResult {
    /// Whether the pattern matched.
    pub matched: bool,
    /// Captured parameter values (if matched).
    pub params: ParamMap,
    /// Match confidence in thousandths (0 to 1000).
    pub confidence: u32,
}

/// The mathematical content of a [`PatternMatchResult`].
pub struct PatternMatchResultV {
    pub matched: bool,
    pub params: Map<Seq<char>, Seq<char>>,
    pub confidence: int,
}

impl View for PatternMatchResult {
    type V = PatternMatchResultV;

    open spec fn view(&self) -> PatternMatchResultV {
        PatternMatchResultV {
            matched: self.matched,
            params: self.params@,
            confidence: self.confidence as int,
        }
    }
}

impl PatternMatchResult {
    /// Create a successful match result with full confidence.
    pub fn success(params: ParamMap) -> (r: Self)
        ensures
            r@.matched,
            r@.params == params@,
            r@.confidence == 1000,
    {
        PatternMatchResult { matched: true, params, confidence: 1000 }
    }

    /// Create a failed match result.
    pub fn failure() -> (r: Self)
        ensures
            !r@.matched,
            r@.params == Map::<Seq<char>, Seq<char>>::empty(),
            r@.confidence == 0,
    {
        PatternMatchResult { matched: false, params: ParamMap::new(), confidence: 0 }
    }

    /// Create a match result with custom confidence, clamped to the unit
    /// range; it counts as matched exactly when it carries parameters.
    pub fn with_confidence(params: ParamMap, confidence: u32) -> (r: Self)
        ensures
            r@.matched == (params@.dom().len() != 0),
            r@.params == params@,
            r@.confidence == if confidence > 1000 {
                1000int
            } else {
                confidence as int
            },
    {
        let matched = !params.is_empty();
        let clamped = if confidence > 1000 {
            1000
        } else {
            confidence
        };
        PatternMatchResult { matched, params, confidence: clamped }
    }
}

/// Capability contract for pattern matchers. The two spec functions say what
/// a matcher yields and when it may fail; each implementation pins them down.
pub trait PatternMatcher: Sized {
    /// The result this matcher yields for `text` whenever it succeeds.
    spec fn match_spec(&self, text: Seq<char>) -> PatternMatchResultV;

    /// Whether this matcher may fail on `text`. The built-in matchers never
    /// fail; a user-defined strategy says here when it may.
    spec fn can_fail(&self, text: Seq<char>) -> bool;

    /// The configured description.
    spec fn description_spec(&self) -> Seq<char>;

    /// Match the given text against this pattern.
    fn matches(&self, text: &str) -> (r: Result<PatternMatchResult, RecogError>)
        ensures
            r matches Ok(p) ==> p@ == self.match_spec(text@),
            !self.can_fail(text@) ==> r is Ok,
    ;

    /// Get a description of this pattern matcher.
    fn description(&self) -> (d: &str)
        ensures
            d@ == self.description_spec(),
    ;

    /// Clone this matcher with identical configuration.
    fn clone_box(&self) -> (r: Box<Self>)
        ensures
            *r == *self,
    ;
}

/// The output name for capture group `i`: `capture_` followed by `i` in
/// decimal.
pub open spec fn capture_key(i: nat) -> Seq<char> {
    "capture_"@ + dec_chars(i)
}

/// The parameters a regex matcher emits: one entry per participating capture
/// group below `upto`, except the whole match (group 0), each named by
/// [`capture_key`].
pub open spec fn regex_capture_params(groups: Seq<Option<Seq<char>>>, upto: int) -> Map<
    Seq<char>,
    Seq<char>,
>
    decreases upto,
{
    if upto <= 1 {
        Map::empty()
    } else {
        let m = regex_capture_params(groups, upto - 1);
        if groups[upto - 1] is Some {
            m.insert(capture_key((upto - 1) as nat), groups[upto - 1]->Some_0)
        } else {
            m
        }
    }
}

/// What a regex matcher with pattern `pattern` yields for `text`.
pub open spec fn regex_match_result(pattern: Seq<char>, text: Seq<char>) -> PatternMatchResultV {
    if regex_compiles(pattern) && regex_captures(pattern, text) is Some {
        let groups = regex_captures(pattern, text)->Some_0;
        PatternMatchResultV {
            matched: true,
            params: regex_capture_params(groups, groups.len() as int),
            confidence: 1000,
        }
    } else {
        PatternMatchResultV { matched: false, params: Map::empty(), confidence: 0 }
    }
}

/// What an exact-string matcher with literal `pattern` yields for `text`.
pub open spec fn string_match_result(pattern: Seq<char>, text: Seq<char>) -> PatternMatchResultV {
    if text == pattern {
        PatternMatchResultV {
            matched: true,
            params: Map::<Seq<char>, Seq<char>>::empty().insert("matched_string"@, text),
            confidence: 1000,
        }
    } else {
        PatternMatchResultV { matched: false, params: Map::empty(), confidence: 0 }
    }
}

/// What a fuzzy matcher with reference `pattern` and inclusive `threshold`
/// (in thousandths) yields for `text`: a match exactly when the similarity
/// reaches the threshold, reporting the similarity as its confidence.
pub open spec fn fuzzy_match_result(pattern: Seq<char>, threshold: int, text: Seq<char>) -> PatternMatchResultV {
    let sim = similarity_permille(pattern, text);
    if sim >= threshold {
        PatternMatchResultV {
            matched: true,
            params: Map::<Seq<char>, Seq<char>>::empty().insert("matched_string"@, text).insert(
                "similarity"@,
                permille_chars(sim),
            ),
            confidence: sim,
        }
    } else {
        PatternMatchResultV { matched: false, params: Map::empty(), confidence: 0 }
    }
}

/// The output name for capture group `i`, as a string.
fn capture_key_string(i: usize) -> (s: String)
    ensures
        s@ == capture_key(i as nat),
{
    let mut s = "capture_".to_owned();
    let digits = usize_to_string(i);
    s.append(digits.as_str());
    s
}

/// Default regex-based pattern matcher.
#[derive(Debug)]
pub struct RegexPatternMatcher {
    /// Pattern text; compiles whenever built through
    /// [`RegexPatternMatcher::new`].
    pub pattern: String,
    /// Description of this matcher.
    pub description: String,
}

impl RegexPatternMatcher {
    /// Create a new regex pattern matcher. Fails, with a pattern-compile
    /// error, exactly when the pattern is invalid.
    pub fn new(pattern: &str, description: &str) -> (r: Result<Self, RecogError>)
        ensures
            r is Ok <==> regex_compiles(pattern@),
            r matches Ok(m) ==> m.pattern@ == pattern@ && m.description@ == description@,
            r matches Err(e) ==> e is Regex,
    {
        match crate::pattern::compile_failure(pattern) {
            None => Ok(
                RegexPatternMatcher {
                    pattern: pattern.to_owned(),
                    description: description.to_owned(),
                },
            ),
            Some(message) => Err(RecogError::Regex { message }),
        }
    }
}

impl PatternMatcher for RegexPatternMatcher {
    open spec fn match_spec(&self, text: Seq<char>) -> PatternMatchResultV {
        regex_match_result(self.pattern@, text)
    }

    open spec fn can_fail(&self, text: Seq<char>) -> bool {
        false
    }

    open spec fn description_spec(&self) -> Seq<char> {
        self.description@
    }

    /// Matching emits one `capture_<i>` parameter per participating capture
    /// group, with full confidence; it never fails.
    fn matches(&self, text: &str) -> (r: Result<PatternMatchResult, RecogError>) {
        match crate::pattern::run_captures(self.pattern.as_str(), text) {
            Some(caps) => {
                let ghost groups = captures_view(caps@);
                let mut params = ParamMap::new();
                let n = caps.len();
                let mut i: usize = 1;
                proof {
                    assert(params@ =~= regex_capture_params(groups, 1));
                    if n == 0 {
                        assert(params@ =~= regex_capture_params(groups, 0));
                    }
                }
                while i < n
                    invariant
                        1 <= i,
                        i <= n || (n == 0 && i == 1),
                        n == caps@.len(),
                        groups == captures_view(caps@),
                        params@ == regex_capture_params(groups, i as int),
                    decreases n - i,
                {
                    match &caps[i] {
                        Some(captured) => {
                            let key = capture_key_string(i);
                            params.insert(key, captured.clone());
                        },
                        None => {},
                    }
                    i += 1;
                }
                Ok(PatternMatchResult::success(params))
            },
            None => Ok(PatternMatchResult::failure()),
        }
    }

    fn description(&self) -> (d: &str) {
        self.description.as_str()
    }

    fn clone_box(&self) -> (r: Box<Self>) {
        Box::new(
            RegexPatternMatcher {
                pattern: self.pattern.clone(),
                description: self.description.clone(),
            },
        )
    }
}

/// Simple string pattern matcher (for exact matches).
#[derive(Debug)]
pub struct StringPatternMatcher {
    /// The literal the text must equal.
    pub pattern: String,
    /// Description of this matcher.
    pub description: String,
}

impl StringPatternMatcher {
    /// Create a new string pattern matcher.
    pub fn new(pattern: String, description: &str) -> (r: Self)
        ensures
            r.pattern@ == pattern@,
            r.description@ == description@,
    {
        StringPatternMatcher { pattern, description: description.to_owned() }
    }
}

impl PatternMatcher for StringPatternMatcher {
    open spec fn match_spec(&self, text: Seq<char>) -> PatternMatchResultV {
        string_match_result(self.pattern@, text)
    }

    open spec fn can_fail(&self, text: Seq<char>) -> bool {
        false
    }

    open spec fn description_spec(&self) -> Seq<char> {
        self.description@
    }

    /// Matching succeeds exactly on the stored literal and emits it under
    /// `matched_string`, with full confidence; it never fails.
    fn matches(&self, text: &str) -> (r: Result<PatternMatchResult, RecogError>) {
        let owned = text.to_owned();
        if owned == self.pattern {
            let mut params = ParamMap::new();
            params.insert("matched_string".to_owned(), owned);
            Ok(PatternMatchResult::success(params))
        } else {
            Ok(PatternMatchResult::failure())
        }
    }

    fn description(&self) -> (d: &str) {
        self.description.as_str()
    }

    fn clone_box(&self) -> (r: Box<Self>) {
        Box::new(
            StringPatternMatcher {
                pattern: self.pattern.clone(),
                description: self.description.clone(),
            },
        )
    }
}

/// Fuzzy string matcher with a configurable similarity threshold.
#[derive(Debug)]
pub struct FuzzyPatternMatcher {
    /// The reference string the text is compared with.
    pub pattern: String,
    /// Description of this matcher.
    pub description: String,
    /// Inclusive similarity threshold, in thousandths.
    pub threshold: u32,
}

impl FuzzyPatternMatcher {
    /// Create a new fuzzy pattern matcher; the threshold is clamped to the
    /// unit range (at most one thousand thousandths).
    pub fn new(pattern: String, description: &str, threshold: u32) -> (r: Self)
        ensures
            r.pattern@ == pattern@,
            r.description@ == description@,
            r.threshold == if threshold > 1000 {
                1000u32
            } else {
                threshold
            },
    {
        let clamped = if threshold > 1000 {
            1000
        } else {
            threshold
        };
        FuzzyPatternMatcher { pattern, description: description.to_owned(), threshold: clamped }
    }
}

impl PatternMatcher for FuzzyPatternMatcher {
    open spec fn match_spec(&self, text: Seq<char>) -> PatternMatchResultV {
        fuzzy_match_result(self.pattern@, self.threshold as int, text)
    }

    open spec fn can_fail(&self, text: Seq<char>) -> bool {
        false
    }

    open spec fn description_spec(&self) -> Seq<char> {
        self.description@
    }

    /// Matching succeeds exactly when the similarity reaches the threshold;
    /// it emits the text and the rendered similarity, reports the similarity
    /// as confidence, and never fails.
    fn matches(&self, text: &str) -> (r: Result<PatternMatchResult, RecogError>) {
        let sim = calculate_similarity(self.pattern.as_str(), text);
        if sim >= self.threshold {
            let mut params = ParamMap::new();
            params.insert("matched_string".to_owned(), text.to_owned());
            params.insert("similarity".to_owned(), permille_to_string(sim));
            proof {
                assert(params@.dom() =~= Set::<Seq<char>>::empty().insert("matched_string"@).insert(
                    "similarity"@,
                ));
                assert(params@.dom().len() != 0);
            }
            Ok(PatternMatchResult::with_confidence(params, sim))
        } else {
            Ok(PatternMatchResult::failure())
        }
    }

    fn description(&self) -> (d: &str) {
        self.description.as_str()
    }

    fn clone_box(&self) -> (r: Box<Self>) {
        Box::new(
            FuzzyPatternMatcher {
                pattern: self.pattern.clone(),
                description: self.description.clone(),
                threshold: self.threshold,
            },
        )
    }
}

/// One of the built-in pattern matchers, as a single storable value. Trait
/// objects cannot be verified, so heterogeneous collections (the registry,
/// plugin fingerprints) hold this closed union instead.
#[derive(Debug)]
pub enum AnyMatcher {
    /// A regex matcher.
    Regex(RegexPatternMatcher),
    /// An exact-string matcher.
    Exact(StringPatternMatcher),
    /// A fuzzy-similarity matcher.
    Fuzzy(FuzzyPatternMatcher),
}

impl PatternMatcher for AnyMatcher {
    open spec fn match_spec(&self, text: Seq<char>) -> PatternMatchResultV {
        match self {
            AnyMatcher::Regex(m) => m.match_spec(text),
            AnyMatcher::Exact(m) => m.match_spec(text),
            AnyMatcher::Fuzzy(m) => m.match_spec(text),
        }
    }

    open spec fn can_fail(&self, text: Seq<char>) -> bool {
        match self {
            AnyMatcher::Regex(m) => m.can_fail(text),
            AnyMatcher::Exact(m) => m.can_fail(text),
            AnyMatcher::Fuzzy(m) => m.can_fail(text),
        }
    }

    open spec fn description_spec(&self) -> Seq<char> {
        match self {
            AnyMatcher::Regex(m) => m.description_spec(),
            AnyMatcher::Exact(m) => m.description_spec(),
            AnyMatcher::Fuzzy(m) => m.description_spec(),
        }
    }

    fn matches(&self, text: &str) -> (r: Result<PatternMatchResult, RecogError>) {
        match self {
            AnyMatcher::Regex(m) => m.matches(text),
            AnyMatcher::Exact(m) => m.matches(text),
            AnyMatcher::Fuzzy(m) => m.matches(text),
        }
    }

    fn description(&self) -> (d: &str) {
        match self {
            AnyMatcher::Regex(m) => m.description(),
            AnyMatcher::Exact(m) => m.description(),
            AnyMatcher::Fuzzy(m) => m.description(),
        }
    }

    fn clone_box(&self) -> (r: Box<Self>) {
        match self {
            AnyMatcher::Regex(m) => Box::new(AnyMatcher::Regex(*m.clone_box())),
            AnyMatcher::Exact(m) => Box::new(AnyMatcher::Exact(*m.clone_box())),
            AnyMatcher::Fuzzy(m) => Box::new(AnyMatcher::Fuzzy(*m.clone_box())),
        }
    }
}

impl Clone for AnyMatcher {
    /// Cloning keeps the strategy and its configuration.
    fn clone(&self) -> (res: Self)
        ensures
            res == *self,
    {
        *self.clone_box()
    }
}

/// No two registry entries share a name.
spec fn reg_distinct_keys(s: Seq<(String, AnyMatcher)>) -> bool {
    forall|i: int, j: int| 0 <= i < j < s.len() ==> s[i].0@ != s[j].0@
}

/// Some registry entry carries the name `k`.
spec fn reg_has_key(s: Seq<(String, AnyMatcher)>, k: Seq<char>) -> bool {
    exists|i: int| 0 <= i < s.len() && s[i].0@ == k
}

/// The mathematical map described by a registry entry sequence.
spec fn reg_entries_map(s: Seq<(String, AnyMatcher)>) -> Map<Seq<char>, AnyMatcher>
    decreases s.len(),
{
    if s.len() == 0 {
        Map::empty()
    } else {
        reg_entries_map(s.drop_last()).insert(s.last().0@, s.last().1)
    }
}

proof fn lemma_reg_entries_map_dom(s: Seq<(String, AnyMatcher)>)
    ensures
        forall|k: Seq<char>|
            #![trigger reg_entries_map(s).dom().contains(k)]
            #![trigger reg_has_key(s, k)]
            reg_entries_map(s).dom().contains(k) <==> reg_has_key(s, k),
        reg_entries_map(s).dom().finite(),
    decreases s.len(),
{
    if s.len() > 0 {
        lemma_reg_entries_map_dom(s.drop_last());
        assert forall|k: Seq<char>| reg_entries_map(s).dom().contains(k) implies reg_has_key(
            s,
            k,
        ) by {
            if k == s.last().0@ {
                assert(s[s.len() - 1].0@ == k);
            } else {
                let i = choose|i: int| 0 <= i < s.drop_last().len() && s.drop_last()[i].0@ == k;
                assert(s[i].0@ == k);
            }
        }
        assert forall|k: Seq<char>| reg_has_key(s, k) implies reg_entries_map(s).dom().contains(
            k,
        ) by {
            let i = choose|i: int| 0 <= i < s.len() && s[i].0@ == k;
            if i < s.len() - 1 {
                assert(s.drop_last()[i].0@ == k);
            }
        }
    }
}

proof fn lemma_reg_entries_map_get(s: Seq<(String, AnyMatcher)>, i: int)
    requires
        reg_distinct_keys(s),
        0 <= i < s.len(),
    ensures
        reg_entries_map(s).dom().contains(s[i].0@),
        reg_entries_map(s)[s[i].0@] == s[i].1,
    decreases s.len(),
{
    if i < s.len() - 1 {
        lemma_reg_entries_map_get(s.drop_last(), i);
    }
}

proof fn lemma_reg_entries_map_len(s: Seq<(String, AnyMatcher)>)
    requires
        reg_distinct_keys(s),
    ensures
        reg_entries_map(s).dom().finite(),
        reg_entries_map(s).dom().len() == s.len(),
    decreases s.len(),
{
    lemma_reg_entries_map_dom(s);
    if s.len() > 0 {
        lemma_reg_entries_map_len(s.drop_last());
        lemma_reg_entries_map_dom(s.drop_last());
        assert(!reg_has_key(s.drop_last(), s.last().0@));
    }
}

proof fn lemma_reg_entries_map_update(s: Seq<(String, AnyMatcher)>, i: int, e: (String, AnyMatcher))
    requires
        reg_distinct_keys(s),
        0 <= i < s.len(),
        s[i].0@ == e.0@,
    ensures
        reg_distinct_keys(s.update(i, e)),
        reg_entries_map(s.update(i, e)) == reg_entries_map(s).insert(e.0@, e.1),
    decreases s.len(),
{
    let t = s.update(i, e);
    assert forall|p: int, q: int| 0 <= p < q < t.len() implies t[p].0@ != t[q].0@ by {
        assert(s[p].0@ != s[q].0@);
    }
    if i == s.len() - 1 {
        assert(t.drop_last() =~= s.drop_last());
        assert(reg_entries_map(t) =~= reg_entries_map(s).insert(e.0@, e.1));
    } else {
        lemma_reg_entries_map_update(s.drop_last(), i, e);
        assert(t.drop_last() =~= s.drop_last().update(i, e));
        assert(t.last() == s.last());
        assert(reg_entries_map(t) == reg_entries_map(s.drop_last()).insert(e.0@, e.1).insert(
            s.last().0@,
            s.last().1,
        ));
        assert(reg_entries_map(t) =~= reg_entries_map(s).insert(e.0@, e.1));
    }
}

proof fn lemma_reg_entries_map_remove_idx(s: Seq<(String, AnyMatcher)>, i: int)
    requires
        reg_distinct_keys(s),
        0 <= i < s.len(),
    ensures
        reg_distinct_keys(s.remove(i)),
        reg_entries_map(s.remove(i)) == reg_entries_map(s).remove(s[i].0@),
    decreases s.len(),
{
    let t = s.remove(i);
    assert forall|p: int, q: int| 0 <= p < q < t.len() implies t[p].0@ != t[q].0@ by {
        let sp: int = if p < i {
            p
        } else {
            p + 1
        };
        let sq: int = if q < i {
            q
        } else {
            q + 1
        };
        assert(s[sp].0@ != s[sq].0@);
    }
    if i == s.len() - 1 {
        assert(t =~= s.drop_last());
        lemma_reg_entries_map_dom(s.drop_last());
        assert(!reg_has_key(s.drop_last(), s.last().0@));
        assert(reg_entries_map(t) =~= reg_entries_map(s).remove(s[i].0@));
    } else {
        lemma_reg_entries_map_remove_idx(s.drop_last(), i);
        assert(t.drop_last() =~= s.drop_last().remove(i));
        assert(t.last() == s.last());
        assert(s.drop_last()[i] == s[i]);
        assert(reg_entries_map(t) == reg_entries_map(s.drop_last()).remove(s[i].0@).insert(
            s.last().0@,
            s.last().1,
        ));
        assert(reg_entries_map(t) =~= reg_entries_map(s).remove(s[i].0@));
    }
}

/// Registry of pattern matchers, each reachable under a name. Its view is
/// the map from names to the registered matcher values.
#[derive(Debug)]
pub struct PatternMatcherRegistry {
    matchers: Vec<(String, AnyMatcher)>,
}

impl View for PatternMatcherRegistry {
    type V = Map<Seq<char>, AnyMatcher>;

    closed spec fn view(&self) -> Map<Seq<char>, AnyMatcher> {
        reg_entries_map(self.matchers@)
    }
}

/// Registering a second matcher under a name already in use leaves only the
/// second one reachable under that name; no other name is affected.
pub proof fn lemma_registry_overwrite(
    reg: Map<Seq<char>, AnyMatcher>,
    name: Seq<char>,
    m1: AnyMatcher,
    m2: AnyMatcher,
)
    ensures
        reg.insert(name, m1).insert(name, m2)[name] == m2,
        reg.insert(name, m1).insert(name, m2).dom() == reg.dom().insert(name),
        forall|k: Seq<char>|
            k != name && reg.dom().contains(k) ==> reg.insert(name, m1).insert(name, m2)[k]
                == reg[k],
{
    assert(reg.insert(name, m1).insert(name, m2).dom() =~= reg.dom().insert(name));
}

impl PatternMatcherRegistry {
    #[verifier::type_invariant]
    spec fn inv(self) -> bool {
        reg_distinct_keys(self.matchers@)
    }

    /// Create a new empty registry.
    pub fn new() -> (r: Self)
        ensures
            r@ == Map::<Seq<char>, AnyMatcher>::empty(),
    {
        PatternMatcherRegistry { matchers: Vec::new() }
    }

    /// Position of the entry registered under `name`, if any.
    fn find_name(&self, name: &String) -> (r: Option<usize>)
        ensures
            match r {
                Some(i) => i < self.matchers@.len() && self.matchers@[i as int].0@ == name@,
                None => !reg_has_key(self.matchers@, name@),
            },
    {
        let n = self.matchers.len();
        let mut i: usize = 0;
        while i < n
            invariant
                i <= n,
                n == self.matchers@.len(),
                forall|j: int| 0 <= j < i ==> self.matchers@[j].0@ != name@,
            decreases n - i,
        {
            if self.matchers[i].0 == *name {
                return Some(i);
            }
            i += 1;
        }
        None
    }

    /// Register a matcher under `name`, replacing any matcher already
    /// registered under that name.
    pub fn register(&mut self, name: String, matcher: AnyMatcher)
        ensures
            final(self)@ == old(self)@.insert(name@, matcher),
    {
        proof {
            use_type_invariant(&*self);
        }
        let idx = self.find_name(&name);
        let mut matchers: Vec<(String, AnyMatcher)> = Vec::new();
        core::mem::swap(&mut matchers, &mut self.matchers);
        match idx {
            Some(i) => {
                proof {
                    lemma_reg_entries_map_update(matchers@, i as int, (name, matcher));
                }
                matchers[i] = (name, matcher);
            },
            None => {
                proof {
                    let s = matchers@;
                    let t = s.push((name, matcher));
                    assert(t.drop_last() =~= s);
                    assert forall|p: int, q: int| 0 <= p < q < t.len() implies t[p].0@
                        != t[q].0@ by {
                        if q < t.len() - 1 {
                            assert(s[p].0@ != s[q].0@);
                        } else {
                            assert(s[p].0@ != name@);
                        }
                    }
                }
                matchers.push((name, matcher));
            },
        }
        self.matchers = matchers;
    }

    /// Look up the matcher registered under `name`.
    pub fn get(&self, name: &str) -> (r: Option<&AnyMatcher>)
        ensures
            match r {
                Some(m) => self@.dom().contains(name@) && *m == self@[name@],
                None => !self@.dom().contains(name@),
            },
    {
        proof {
            use_type_invariant(self);
            lemma_reg_entries_map_dom(self.matchers@);
        }
        let owned = name.to_owned();
        match self.find_name(&owned) {
            Some(i) => {
                proof {
                    lemma_reg_entries_map_get(self.matchers@, i as int);
                }
                Some(&self.matchers[i].1)
            },
            None => None,
        }
    }

    /// All registered names; no order is guaranteed beyond "one entry per
    /// registered name".
    pub fn list_matchers(&self) -> (r: Vec<String>)
        ensures
            r@.len() == self@.dom().len(),
            forall|i: int| 0 <= i < r@.len() ==> self@.dom().contains(#[trigger] r@[i]@),
            forall|k: Seq<char>|
                self@.dom().contains(k) ==> exists|i: int| 0 <= i < r@.len() && #[trigger] r@[i]@
                    == k,
    {
        proof {
            use_type_invariant(self);
            lemma_reg_entries_map_dom(self.matchers@);
            lemma_reg_entries_map_len(self.matchers@);
        }
        let n = self.matchers.len();
        let mut r: Vec<String> = Vec::new();
        let mut i: usize = 0;
        while i < n
            invariant
                i <= n,
                n == self.matchers@.len(),
                r@.len() == i,
                forall|j: int| 0 <= j < i ==> #[trigger] r@[j]@ == self.matchers@[j].0@,
            decreases n - i,
        {
            r.push(self.matchers[i].0.clone());
            i += 1;
        }
        proof {
            assert forall|k: Seq<char>| self@.dom().contains(k) implies exists|i: int|
                0 <= i < r@.len() && #[trigger] r@[i]@ == k by {
                let j = choose|j: int| 0 <= j < self.matchers@.len() && self.matchers@[j].0@ == k;
                assert(r@[j]@ == k);
            }
        }
        r
    }

    /// Remove the matcher registered under `name`; report whether one was
    /// registered.
    pub fn unregister(&mut self, name: &str) -> (existed: bool)
        ensures
            final(self)@ == old(self)@.remove(name@),
            existed == old(self)@.dom().contains(name@),
    {
        proof {
            use_type_invariant(&*self);
            lemma_reg_entries_map_dom(self.matchers@);
        }
        let owned = name.to_owned();
        let idx = self.find_name(&owned);
        match idx {
            Some(i) => {
                let mut matchers: Vec<(String, AnyMatcher)> = Vec::new();
                core::mem::swap(&mut matchers, &mut self.matchers);
                proof {
                    lemma_reg_entries_map_remove_idx(matchers@, i as int);
                }
                matchers.remove(i);
                self.matchers = matchers;
                true
            },
            None => {
                proof {
                    assert(self@ =~= self@.remove(name@));
                }
                false
            },
        }
    }
}

impl Default for PatternMatcherRegistry {
    /// The default registry is empty.
    fn default() -> (r: Self)
        ensures
            r@ == Map::<Seq<char>, AnyMatcher>::empty(),
    {
        Self::new()
    }
}

/// The text an example stands for: its value, or the decoding of its value
/// when it is flagged base64.
pub open spec fn example_text_spec(e: ExampleV) -> Option<Seq<char>> {
    if e.is_base64 {
        text_decoding(e.value)
    } else {
        Some(e.value)
    }
}

/// Position of the first example whose text cannot be decoded, or `-1` when
/// every example decodes.
pub open spec fn first_undecodable(evs: Seq<ExampleV>) -> int
    decreases evs.len(),
{
    if evs.len() == 0 {
        -1
    } else if example_text_spec(evs[0]) is None {
        0
    } else {
        let r = first_undecodable(evs.skip(1));
        if r < 0 {
            -1
        } else {
            r + 1
        }
    }
}

proof fn lemma_first_undecodable_at(evs: Seq<ExampleV>, i: int)
    requires
        0 <= i < evs.len(),
        example_text_spec(evs[i]) is None,
        forall|j: int| 0 <= j < i ==> example_text_spec(#[trigger] evs[j]) is Some,
    ensures
        first_undecodable(evs) == i,
    decreases i,
{
    if i > 0 {
        lemma_first_undecodable_at(evs.skip(1), i - 1);
    }
}

proof fn lemma_first_undecodable_none(evs: Seq<ExampleV>)
    requires
        forall|j: int| 0 <= j < evs.len() ==> example_text_spec(#[trigger] evs[j]) is Some,
    ensures
        first_undecodable(evs) == -1,
    decreases evs.len(),
{
    if evs.len() > 0 {
        lemma_first_undecodable_none(evs.skip(1));
    }
}

/// A fingerprint that matches through a pluggable pattern matcher.
#[derive(Debug)]
pub struct PluginFingerprint {
    /// Unique identifier for this fingerprint.
    pub id: String,
    /// Human-readable description.
    pub description: String,
    /// The pattern matcher applied to candidate texts.
    pub matcher: AnyMatcher,
    /// Test examples for validation.
    pub examples: Vec<Example>,
    /// Parameter definitions.
    pub params: Vec<Param>,
}

impl PluginFingerprint {
    /// The views of this fingerprint's examples.
    pub open spec fn examples_view(&self) -> Seq<ExampleV> {
        self.examples@.map_values(|e: Example| e@)
    }

    /// Create a new fingerprint with the given matcher.
    pub fn new(
        id: String,
        description: String,
        matcher: AnyMatcher,
        examples: Vec<Example>,
        params: Vec<Param>,
    ) -> (r: Self)
        ensures
            r.id@ == id@,
            r.description@ == description@,
            r.matcher == matcher,
            r.examples == examples,
            r.params == params,
    {
        PluginFingerprint { id, description, matcher, examples, params }
    }

    /// Create a fingerprint with a regex matcher. Fails, with a
    /// pattern-compile error, exactly when the pattern is invalid.
    pub fn with_regex(
        id: String,
        pattern: &str,
        description: &str,
        examples: Vec<Example>,
        params: Vec<Param>,
    ) -> (r: Result<Self, RecogError>)
        ensures
            r is Ok <==> regex_compiles(pattern@),
            r matches Ok(fp) ==> {
                &&& fp.id@ == id@
                &&& fp.description@ == description@
                &&& fp.matcher matches AnyMatcher::Regex(m) && m.pattern@ == pattern@
                    && m.description@ == description@
                &&& fp.examples == examples
                &&& fp.params == params
            },
            r matches Err(e) ==> e is Regex,
    {
        match RegexPatternMatcher::new(pattern, description) {
            Ok(regex_matcher) => Ok(
                Self::new(
                    id,
                    description.to_owned(),
                    AnyMatcher::Regex(regex_matcher),
                    examples,
                    params,
                ),
            ),
            Err(e) => Err(e),
        }
    }

    /// Test this fingerprint against input text.
    pub fn test_match(&self, text: &str) -> (r: Result<PatternMatchResult, RecogError>)
        ensures
            r matches Ok(p) ==> p@ == self.matcher.match_spec(text@),
            !self.matcher.can_fail(text@) ==> r is Ok,
    {
        self.matcher.matches(text)
    }

    /// Validate every example against this fingerprint: each example's text
    /// is decoded (from base64 where flagged) and matched, yielding one flag
    /// per example, in order. Fails exactly at the first example that cannot
    /// be decoded, with that example's decode error.
    pub fn validate_examples(&self) -> (r: Result<Vec<bool>, RecogError>)
        ensures
            r is Ok <==> first_undecodable(self.examples_view()) == -1,
            r matches Ok(v) ==> {
                &&& v@.len() == self.examples_view().len()
                &&& forall|i: int|
                    0 <= i < v@.len() ==> #[trigger] v@[i] == self.matcher.match_spec(
                        example_text_spec(self.examples_view()[i])->Some_0,
                    ).matched
            },
            r matches Err(e) ==> {
                let i = first_undecodable(self.examples_view());
                let value = self.examples_view()[i].value;
                &&& self.examples_view()[i].is_base64
                &&& (e is Base64 <==> crate::codec::base64_decoding(value) is None)
                &&& (e is Utf8 <==> crate::codec::base64_decoding(value) is Some)
            },
    {
        let ghost evs = self.examples_view();
        let mut results: Vec<bool> = Vec::new();
        let n = self.examples.len();
        let mut i: usize = 0;
        while i < n
            invariant
                i <= n,
                n == self.examples@.len(),
                evs == self.examples_view(),
                evs.len() == n,
                results@.len() == i,
                forall|j: int| 0 <= j < i ==> example_text_spec(#[trigger] evs[j]) is Some,
                forall|j: int|
                    0 <= j < i ==> #[trigger] results@[j] == self.matcher.match_spec(
                        example_text_spec(evs[j])->Some_0,
                    ).matched,
            decreases n - i,
        {
            proof {
                assert(evs[i as int] == self.examples@[i as int]@);
            }
            let text = match self.examples[i].decoded_value() {
                Ok(text) => text,
                Err(e) => {
                    proof {
                        lemma_first_undecodable_at(evs, i as int);
                    }
                    return Err(e);
                },
            };
            let outcome = match self.matcher.matches(text.as_str()) {
                Ok(outcome) => outcome,
                Err(e) => {
                    proof {
                        assert(!self.matcher.can_fail(text@));
                        assert(false);
                    }
                    return Err(e);
                },
            };
            results.push(outcome.matched);
            i += 1;
        }
        proof {
            lemma_first_undecodable_none(evs);
        }
        Ok(results)
    }
}

} // verus!
