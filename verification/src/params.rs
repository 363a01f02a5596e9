//! Parameter extraction rules and post-processing of extracted parameters.
//!
//! A [`Param`] maps a capture-group position to an output name. The
//! [`ParamInterpolator`] expands `{name}` placeholders against a parameter
//! map and removes parameters that are internal ("temporary"): those
//! registered by name and those carrying the `_tmp.` prefix.

use crate::pmap::ParamMap;
use vstd::prelude::*;

verus! {

/// Parameter definition for extraction from pattern captures.
#[derive(Debug)]
pub struct Param {
    /// Position of the capture group (1-indexed; 0 is the whole match).
    pub pos: usize,
    /// Name of the parameter.
    pub name: String,
    /// Optional default value.
    pub value: Option<String>,
}

/// The mathematical content of a [`Param`].
pub struct ParamV {
    pub pos: int,
    pub name: Seq<char>,
    pub value: Option<Seq<char>>,
}

impl View for Param {
    type V = ParamV;

    open spec fn view(&self) -> ParamV {
        ParamV {
            pos: self.pos as int,
            name: self.name@,
            value: match self.value {
                Some(ref v) => Some(v@),
                None => None,
            },
        }
    }
}

impl Param {
    /// Create a new parameter definition.
    pub fn new(pos: usize, name: String) -> (p: Self)
        ensures
            p@.pos == pos as int,
            p@.name == name@,
            p@.value is None,
    {
        Param { pos, name, value: None }
    }

    /// Create a parameter with a default value.
    pub fn with_value(pos: usize, name: String, value: String) -> (p: Self)
        ensures
            p@.pos == pos as int,
            p@.name == name@,
            p@.value matches Some(v) && v == value@,
    {
        Param { pos, name, value: Some(value) }
    }
}

impl Clone for Param {
    /// Cloning keeps position, name and default value.
    fn clone(&self) -> (res: Self)
        ensures
            res@ == self@,
    {
        Param {
            pos: self.pos,
            name: self.name.clone(),
            value: match &self.value {
                Some(v) => Some(v.clone()),
                None => None,
            },
        }
    }
}

/// Whether `name` carries the `_tmp.` prefix that marks internal parameters.
pub open spec fn is_tmp_prefixed(name: Seq<char>) -> bool {
    name.len() >= 5 && name.subrange(0, 5) == "_tmp."@
}

/// Whether `name` is internal: registered in `temps` or `_tmp.`-prefixed.
pub open spec fn is_temp_param(temps: Seq<Seq<char>>, name: Seq<char>) -> bool {
    temps.contains(name) || is_tmp_prefixed(name)
}

/// `params` without its internal entries.
pub open spec fn filter_temp(
    m: Map<Seq<char>, Seq<char>>,
    temps: Seq<Seq<char>>,
) -> Map<Seq<char>, Seq<char>> {
    Map::new(|k: Seq<char>| m.dom().contains(k) && !is_temp_param(temps, k), |k: Seq<char>| m[k])
}

/// Index of the first `'}'` in `s`, or `-1` when there is none.
pub open spec fn find_close(s: Seq<char>) -> int
    decreases s.len(),
{
    if s.len() == 0 {
        -1
    } else if s[0] == '}' {
        0
    } else {
        let r = find_close(s.skip(1));
        if r < 0 {
            -1
        } else {
            r + 1
        }
    }
}

proof fn lemma_find_close_at(s: Seq<char>, j: int)
    requires
        0 <= j < s.len(),
        s[j] == '}',
        forall|k: int| 0 <= k < j ==> s[k] != '}',
    ensures
        find_close(s) == j,
    decreases j,
{
    if j > 0 {
        lemma_find_close_at(s.skip(1), j - 1);
    }
}

proof fn lemma_find_close_none(s: Seq<char>)
    requires
        forall|k: int| 0 <= k < s.len() ==> s[k] != '}',
    ensures
        find_close(s) == -1,
    decreases s.len(),
{
    if s.len() > 0 {
        lemma_find_close_none(s.skip(1));
    }
}

/// The result of expanding every `{name}` placeholder in `t` against `m`:
/// a placeholder is a `'{'`, one or more non-`'}'` characters, then a `'}'`;
/// a placeholder whose name is bound in `m` becomes the bound value, any
/// other placeholder becomes empty, and everything else stays as it is.
pub open spec fn interp(t: Seq<char>, m: Map<Seq<char>, Seq<char>>) -> Seq<char>
    decreases t.len(),
{
    if t.len() == 0 {
        Seq::empty()
    } else if t[0] == '{' {
        let rest = t.skip(1);
        let j = find_close(rest);
        if 1 <= j < rest.len() {
            let name = rest.take(j);
            let tail = rest.skip(j + 1);
            let repl = if m.dom().contains(name) {
                m[name]
            } else {
                Seq::empty()
            };
            repl + interp(tail, m)
        } else {
            seq!['{'] + interp(rest, m)
        }
    } else {
        seq![t[0]] + interp(t.skip(1), m)
    }
}

/// Whether `name` starts with the five characters `_tmp.`.
fn has_tmp_prefix(name: &str) -> (b: bool)
    ensures
        b == is_tmp_prefixed(name@),
{
    let n = name.unicode_len();
    if n < 5 {
        return false;
    }
    proof {
        reveal_strlit("_tmp.");
    }
    let b = name.get_char(0) == '_' && name.get_char(1) == 't' && name.get_char(2) == 'm'
        && name.get_char(3) == 'p' && name.get_char(4) == '.';
    proof {
        if b {
            assert(name@.subrange(0, 5) =~= "_tmp."@);
        } else {
            let s5 = name@.subrange(0, 5);
            assert(s5[0] == name@[0] && s5[1] == name@[1] && s5[2] == name@[2] && s5[3]
                == name@[3] && s5[4] == name@[4]);
            assert(s5 != "_tmp."@);
        }
    }
    b
}

/// Expands placeholders and filters internal parameters.
#[derive(Debug)]
pub struct ParamInterpolator {
    /// Names of parameters that are internal and must not be emitted.
    temp_params: Vec<String>,
}

impl View for ParamInterpolator {
    type V = Seq<Seq<char>>;

    closed spec fn view(&self) -> Seq<Seq<char>> {
        self.temp_params@.map_values(|s: String| s@)
    }
}

impl ParamInterpolator {
    /// Create a new interpolator with no registered temporary parameters.
    pub fn new() -> (r: Self)
        ensures
            r@ == Seq::<Seq<char>>::empty(),
    {
        let r = ParamInterpolator { temp_params: Vec::new() };
        proof {
            assert(r@ =~= Seq::<Seq<char>>::empty());
        }
        r
    }

    /// Register a parameter name as temporary.
    pub fn add_temp_param(&mut self, name: &str)
        ensures
            final(self)@ == old(self)@.push(name@),
    {
        self.temp_params.push(name.to_owned());
        proof {
            assert(self@ =~= old(self)@.push(name@));
        }
    }

    /// Whether `name` is temporary: registered here or `_tmp.`-prefixed.
    pub fn is_temp(&self, name: &str) -> (b: bool)
        ensures
            b == is_temp_param(self@, name@),
    {
        let owned = name.to_owned();
        let n = self.temp_params.len();
        let mut i: usize = 0;
        while i < n
            invariant
                i <= n,
                n == self.temp_params@.len(),
                owned@ == name@,
                forall|j: int| 0 <= j < i ==> self.temp_params@[j]@ != name@,
            decreases n - i,
        {
            if self.temp_params[i] == owned {
                proof {
                    assert(self@[i as int] == name@);
                }
                return true;
            }
            i += 1;
        }
        proof {
            assert forall|j: int| 0 <= j < self@.len() implies self@[j] != name@ by {
                assert(self.temp_params@[j]@ != name@);
            }
        }
        has_tmp_prefix(name)
    }

    /// Interpolate parameters into a template string: each `{name}`
    /// placeholder becomes the value bound to `name`, or empty when `name`
    /// is unbound; everything else is copied through.
    pub fn interpolate(&self, template: &str, params: &ParamMap) -> (r: String)
        ensures
            r@ == interp(template@, params@),
    {
        let ghost t = template@;
        let ghost m = params@;
        let n = template.unicode_len();
        let mut result = String::new();
        let mut i: usize = 0;
        proof {
            assert(t.skip(0) =~= t);
            assert(result@ + interp(t.skip(0), m) =~= interp(t, m));
        }
        while i < n
            invariant
                i <= n,
                n == t.len(),
                t == template@,
                m == params@,
                result@ + interp(t.skip(i as int), m) == interp(t, m),
            decreases n - i,
        {
            let ghost suffix = t.skip(i as int);
            let c = template.get_char(i);
            proof {
                assert(suffix[0] == t[i as int]);
            }
            if c == '{' {
                let mut j: usize = i + 1;
                while j < n && template.get_char(j) != '}'
                    invariant
                        i + 1 <= j <= n,
                        n == t.len(),
                        t == template@,
                        forall|k: int| i + 1 <= k < j ==> t[k] != '}',
                    decreases n - j,
                {
                    j += 1;
                }
                let ghost rest = suffix.skip(1);
                proof {
                    assert(rest =~= t.skip(i + 1));
                }
                if j >= n {
                    // No closing brace: the '{' stays literal.
                    proof {
                        assert forall|k: int| 0 <= k < rest.len() implies rest[k] != '}' by {
                            assert(rest[k] == t[i + 1 + k]);
                        }
                        lemma_find_close_none(rest);
                        assert(interp(suffix, m) == seq!['{'] + interp(rest, m));
                    }
                    result.append("{");
                    proof {
                        reveal_strlit("{");
                        assert(result@ + interp(t.skip(i as int + 1), m) =~= interp(t, m));
                    }
                    i += 1;
                } else if j == i + 1 {
                    // "{}": no name between the braces, the '{' stays literal.
                    proof {
                        assert(rest[0] == t[i + 1]);
                        lemma_find_close_at(rest, 0);
                        assert(interp(suffix, m) == seq!['{'] + interp(rest, m));
                    }
                    result.append("{");
                    proof {
                        reveal_strlit("{");
                        assert(result@ + interp(t.skip(i as int + 1), m) =~= interp(t, m));
                    }
                    i += 1;
                } else {
                    // A placeholder {name}: substitute its value, or empty.
                    proof {
                        assert(t[j as int] == '}');
                        assert(rest[j - i - 1] == t[j as int]);
                        assert forall|k: int| 0 <= k < j - i - 1 implies rest[k] != '}' by {
                            assert(rest[k] == t[i + 1 + k]);
                        }
                        lemma_find_close_at(rest, j - i - 1);
                    }
                    let name = template.substring_char(i + 1, j);
                    let ghost nm = rest.take(j - i - 1);
                    proof {
                        assert(name@ =~= nm);
                        assert(rest.skip(j - i) =~= t.skip(j as int + 1));
                    }
                    match params.get(name) {
                        Some(v) => {
                            proof {
                                assert(interp(suffix, m) == m[nm] + interp(t.skip(j as int + 1), m));
                            }
                            result.append(v.as_str());
                        },
                        None => {
                            proof {
                                assert(interp(suffix, m) == Seq::<char>::empty() + interp(
                                    t.skip(j as int + 1),
                                    m,
                                ));
                            }
                        },
                    }
                    proof {
                        assert(result@ + interp(t.skip(j as int + 1), m) =~= interp(t, m));
                    }
                    i = j + 1;
                }
            } else {
                let piece = template.substring_char(i, i + 1);
                proof {
                    assert(piece@ =~= seq![t[i as int]]);
                    assert(suffix.skip(1) =~= t.skip(i as int + 1));
                    assert(interp(suffix, m) == seq![t[i as int]] + interp(t.skip(i as int + 1), m));
                    assert((result@ + piece@) + interp(t.skip(i as int + 1), m) =~= result@ + interp(
                        suffix,
                        m,
                    ));
                }
                result.append(piece);
                i += 1;
            }
        }
        proof {
            assert(t.skip(n as int) =~= Seq::<char>::empty());
            assert(result@ =~= interp(t, m));
        }
        result
    }

    /// Remove every temporary parameter from `params`: those registered with
    /// [`Self::add_temp_param`] and those whose name starts with `_tmp.`.
    pub fn filter_temp_params(&self, params: &mut ParamMap)
        ensures
            final(params)@ == filter_temp(old(params)@, self@),
    {
        let ghost m0 = params@;
        let ks = params.keys();
        let n = ks.len();
        let mut i: usize = 0;
        while i < n
            invariant
                i <= n,
                n == ks@.len(),
                forall|k: Seq<char>| #[trigger]
                    params@.dom().contains(k) ==> m0.dom().contains(k) && params@[k] == m0[k],
                forall|k: Seq<char>|
                    m0.dom().contains(k) && !is_temp_param(self@, k) ==> #[trigger] params@.dom().contains(
                        k,
                    ),
                forall|j: int|
                    0 <= j < i && is_temp_param(self@, #[trigger] ks@[j]@) ==> !params@.dom().contains(
                        ks@[j]@,
                    ),
                forall|k: Seq<char>|
                    m0.dom().contains(k) ==> exists|j: int| 0 <= j < ks@.len() && #[trigger] ks@[j]@
                        == k,
            decreases n - i,
        {
            if self.is_temp(ks[i].as_str()) {
                params.remove(ks[i].as_str());
            }
            i += 1;
        }
        proof {
            assert forall|k: Seq<char>| #[trigger]
                params@.dom().contains(k) implies filter_temp(m0, self@).dom().contains(k) by {
                if is_temp_param(self@, k) {
                    let j = choose|j: int| 0 <= j < ks@.len() && #[trigger] ks@[j]@ == k;
                    assert(!params@.dom().contains(ks@[j]@));
                }
            }
            assert(params@ =~= filter_temp(m0, self@));
        }
    }

    /// Shape the parameters of one match for output: removes temporary
    /// parameters. This is the single hook the matcher applies between raw
    /// extraction and returning results.
    pub fn process_cpe_params(&self, params: &mut ParamMap)
        ensures
            final(params)@ == filter_temp(old(params)@, self@),
    {
        self.filter_temp_params(params);
    }
}

impl Default for ParamInterpolator {
    /// The default interpolator has no registered temporary parameters.
    fn default() -> (r: Self)
        ensures
            r@ == Seq::<Seq<char>>::empty(),
    {
        Self::new()
    }
}

} // verus!
