//! Values written in a configuration with `${NAME}` references to
//! environment variables, which are replaced by the variables' values
//! before the value is read.

use vstd::prelude::*;
use crate::regexp::{Regexp, CaptureSpan, capture_view, captures_view, strings_view, split_around,
    weave, match_texts, gap_start};
use crate::compiled::{fresh_builder, regex_builds, regex_finds, regex_split, regex_captures};
use crate::text::{str_eq, push_text};

verus! {

/// A value read from a configuration string after the environment
/// references in it were replaced; the string as written is kept.
#[derive(Debug, Clone)]
pub struct WithEnv<T> {
    value: T,
    from_config: String,
}

impl<T> WithEnv<T> {
    /// Pairs a value with the configuration string it was read from.
    pub fn new(value: T, from_config: String) -> (r: Self)
        ensures
            r.value() == value,
            r.from_config_spec() == from_config@,
    {
        WithEnv { value, from_config }
    }

    /// The value.
    pub closed spec fn value(&self) -> T {
        self.value
    }

    /// The configuration string as written.
    pub closed spec fn from_config_spec(&self) -> Seq<char> {
        self.from_config@
    }

    /// Gives up the configuration string and returns the value.
    pub fn into_inner(self) -> (r: T)
        ensures
            r == self.value(),
    {
        self.value
    }

    /// The value, by reference.
    pub fn get(&self) -> (r: &T)
        ensures
            *r == self.value(),
    {
        &self.value
    }

    /// The configuration string as written.
    pub fn from_config(&self) -> (r: &str)
        ensures
            r@ == self.from_config_spec(),
    {
        self.from_config.as_str()
    }
}

/// The pattern of an environment reference: `${`, a name of letters,
/// digits and underscores that does not start with a digit, and `}`.
pub open spec fn var_pattern() -> Seq<char> {
    "\\$\\{([a-zA-Z_][a-zA-Z0-9_]*)\\}"@
}

/// The characters of a list of name and value pairs.
pub open spec fn env_view(env: Seq<(String, String)>) -> Seq<(Seq<char>, Seq<char>)> {
    Seq::new(env.len(), |i: int| (env[i].0@, env[i].1@))
}

/// The value paired with the first entry called `name`, if any.
pub open spec fn lookup(env: Seq<(Seq<char>, Seq<char>)>, name: Seq<char>) -> Option<Seq<char>>
    decreases env.len(),
{
    if env.len() == 0 {
        None
    } else if env[0].0 == name {
        Some(env[0].1)
    } else {
        lookup(env.drop_first(), name)
    }
}

/// The value paired with the last entry called `name`, if any: what a map
/// filled from the pairs in order holds for `name`.
pub open spec fn lookup_last(pairs: Seq<(Seq<char>, Seq<char>)>, name: Seq<char>) -> Option<Seq<char>>
    decreases pairs.len(),
{
    if pairs.len() == 0 {
        None
    } else if pairs.last().0 == name {
        Some(pairs.last().1)
    } else {
        lookup_last(pairs.drop_last(), name)
    }
}

/// No name occurs twice.
pub open spec fn names_unique(env: Seq<(Seq<char>, Seq<char>)>) -> bool {
    forall|i: int, j: int| 0 <= i < j < env.len() ==> env[i].0 != env[j].0
}

/// A name is missing exactly when no entry carries it; an entry found
/// stands in the list.
pub proof fn lemma_lookup_missing(env: Seq<(Seq<char>, Seq<char>)>, name: Seq<char>)
    ensures
        lookup(env, name) is None <==> (forall|i: int| 0 <= i < env.len() ==> env[i].0 != name),
        lookup(env, name) is Some ==> exists|i: int| 0 <= i < env.len() && env[i] == (name, lookup(env, name)->0),
    decreases env.len(),
{
    if env.len() > 0 {
        lemma_lookup_missing(env.drop_first(), name);
        if env[0].0 != name {
            assert forall|i: int| 0 <= i < env.len() && env[i].0 == name implies 1 <= i by {}
            if lookup(env, name) is Some {
                let k = choose|k: int| 0 <= k < env.drop_first().len() && env.drop_first()[k] == (name, lookup(env, name)->0);
                assert(env[k + 1] == env.drop_first()[k]);
            }
            assert(forall|i: int| 1 <= i < env.len() ==> env[i] == env.drop_first()[i - 1]);
        } else {
            assert(env[0] == (name, lookup(env, name)->0));
        }
    }
}

/// In a list where no name occurs twice, an entry's name finds its value.
pub proof fn lemma_lookup_entry(env: Seq<(Seq<char>, Seq<char>)>, i: int)
    requires
        names_unique(env),
        0 <= i < env.len(),
    ensures
        lookup(env, env[i].0) == Some(env[i].1),
    decreases env.len(),
{
    if i > 0 {
        assert(env.drop_first()[i - 1] == env[i]);
        assert(names_unique(env.drop_first())) by {
            assert forall|a: int, b: int| 0 <= a < b < env.drop_first().len() implies env.drop_first()[a].0
                != env.drop_first()[b].0 by {
                assert(env.drop_first()[a] == env[a + 1]);
                assert(env.drop_first()[b] == env[b + 1]);
            }
        }
        lemma_lookup_entry(env.drop_first(), i - 1);
        assert(env[0].0 != env[i].0);
    }
}

/// Where the entry called `name` stands, if any.
fn position_of(vars: &Vec<(String, String)>, name: &str) -> (r: Option<usize>)
    ensures
        match r {
            Some(i) => i < vars@.len() && env_view(vars@)[i as int].0 == name@,
            None => forall|t: int| 0 <= t < vars@.len() ==> env_view(vars@)[t].0 != name@,
        },
{
    let mut idx: usize = 0;
    while idx < vars.len()
        invariant
            idx <= vars@.len(),
            forall|t: int| 0 <= t < idx ==> env_view(vars@)[t].0 != name@,
        decreases vars.len() - idx,
    {
        if str_eq(vars[idx].0.as_str(), name) {
            return Some(idx);
        }
        idx = idx + 1;
    }
    None
}

/// The environment: variable names, none twice, with their values.
#[derive(Debug)]
pub struct Environment {
    vars: Vec<(String, String)>,
}

/// The variables a list of pairs defines, each with the value of its
/// first entry.
pub open spec fn env_map(env: Seq<(Seq<char>, Seq<char>)>) -> Map<Seq<char>, Seq<char>> {
    Map::new(|n: Seq<char>| lookup(env, n) is Some, |n: Seq<char>| lookup(env, n)->0)
}

/// The map that pairs filled in order give: a later pair of a name
/// replaces an earlier one.
pub open spec fn pairs_map(pairs: Seq<(Seq<char>, Seq<char>)>) -> Map<Seq<char>, Seq<char>> {
    Map::new(|n: Seq<char>| lookup_last(pairs, n) is Some, |n: Seq<char>| lookup_last(pairs, n)->0)
}

impl View for Environment {
    type V = Map<Seq<char>, Seq<char>>;

    closed spec fn view(&self) -> Map<Seq<char>, Seq<char>> {
        env_map(env_view(self.vars@))
    }
}

impl Environment {
    /// No name occurs twice.
    #[verifier::type_invariant]
    spec fn unique(self) -> bool {
        names_unique(env_view(self.vars@))
    }

    /// The environment filled from pairs in order: a later pair of a name
    /// replaces an earlier one.
    pub fn from_pairs(pairs: Vec<(String, String)>) -> (r: Self)
        ensures
            r@ == pairs_map(env_view(pairs@)),
    {
        let ghost ps = env_view(pairs@);
        let mut vars: Vec<(String, String)> = Vec::new();
        let mut k: usize = 0;
        while k < pairs.len()
            invariant
                ps == env_view(pairs@),
                k <= pairs@.len(),
                names_unique(env_view(vars@)),
                forall|n: Seq<char>| #[trigger] lookup(env_view(vars@), n) == lookup_last(ps.subrange(0, k as int), n),
            decreases pairs.len() - k,
        {
            let ghost before = env_view(vars@);
            let name = &pairs[k].0;
            let value = &pairs[k].1;
            let position = position_of(&vars, name.as_str());
            let found = position.is_some();
            let idx: usize = match position {
                Some(i) => i,
                None => vars.len(),
            };
            proof {
                assert(ps.subrange(0, k + 1).drop_last() =~= ps.subrange(0, k as int));
                assert(ps.subrange(0, k + 1).last() == (name@, value@));
            }
            if found {
                vars.set(idx, (name.clone(), value.clone()));
            } else {
                vars.push((name.clone(), value.clone()));
            }
            proof {
                let after = env_view(vars@);
                if found {
                    assert(after =~= before.update(idx as int, (name@, value@)));
                } else {
                    assert(after =~= before.push((name@, value@)));
                }
                assert(names_unique(after)) by {
                    assert forall|a: int, b: int| 0 <= a < b < after.len() implies after[a].0 != after[b].0 by {
                        if found {
                            assert(before[idx as int].0 == name@);
                        }
                    }
                }
                assert forall|n: Seq<char>| #[trigger] lookup(after, n) == lookup_last(ps.subrange(0, k + 1), n) by {
                    lemma_lookup_missing(after, n);
                    lemma_lookup_missing(before, n);
                    if n == name@ {
                        let i: int = if found { idx as int } else { before.len() as int };
                        assert(after[i] == (name@, value@));
                        lemma_lookup_entry(after, i);
                    } else if lookup(before, n) is Some {
                        let i = choose|i: int| 0 <= i < before.len() && before[i] == (n, lookup(before, n)->0);
                        assert(after[i] == before[i]);
                        lemma_lookup_entry(after, i);
                    } else {
                        assert forall|i: int| 0 <= i < after.len() implies after[i].0 != n by {
                            if i < before.len() && !(found && i == idx) {
                                assert(after[i] == before[i]);
                            }
                        }
                    }
                }
            }
            k = k + 1;
        }
        assert(ps.subrange(0, pairs@.len() as int) =~= ps);
        let r = Environment { vars };
        assert(r@ =~= pairs_map(ps));
        r
    }

    /// The value of a variable, if present.
    pub fn get(&self, name: &str) -> (r: Option<&String>)
        ensures
            r is Some == self@.contains_key(name@),
            r matches Some(s) ==> s@ == self@[name@],
    {
        lookup_var(&self.vars, name)
    }
}

impl Clone for Environment {
    /// A copy of the environment.
    fn clone(&self) -> (r: Self)
        ensures
            r@ == self@,
    {
        proof {
            use_type_invariant(self);
        }
        let mut vars: Vec<(String, String)> = Vec::new();
        let mut i: usize = 0;
        while i < self.vars.len()
            invariant
                i <= self.vars@.len(),
                env_view(vars@) == env_view(self.vars@).subrange(0, i as int),
            decreases self.vars.len() - i,
        {
            let ghost before = vars@;
            let pair = (self.vars[i].0.clone(), self.vars[i].1.clone());
            vars.push(pair);
            assert(env_view(vars@) =~= env_view(before).push(env_view(self.vars@)[i as int]));
            i = i + 1;
            assert(env_view(vars@) =~= env_view(self.vars@).subrange(0, i as int));
        }
        assert(env_view(vars@) =~= env_view(self.vars@));
        Environment { vars }
    }
}

/// What a reference is replaced by: the value of the variable its first
/// group names, or nothing when the group or the variable is missing.
pub open spec fn replacement(env: Map<Seq<char>, Seq<char>>, cap: (int, int, Seq<Option<Seq<char>>>)) -> Seq<char> {
    if cap.2.len() > 1 && cap.2[1] is Some && env.contains_key(cap.2[1]->0) {
        env[cap.2[1]->0]
    } else {
        Seq::empty()
    }
}

/// Where the `i`-th piece between references starts: at the start of the
/// text, or where the reference before it ends.
pub open spec fn piece_start(caps: Seq<(int, int, Seq<Option<Seq<char>>>)>, i: int) -> int {
    if i == 0 || i - 1 >= caps.len() {
        0
    } else {
        caps[i - 1].1
    }
}

/// The text rebuilt from position `i` of the pieces and `j` of the
/// references on: whichever starts first comes next, a reference before a
/// piece that starts at the same place; pieces are copied and references
/// replaced.
pub open spec fn rebuild(
    pieces: Seq<Seq<char>>,
    caps: Seq<(int, int, Seq<Option<Seq<char>>>)>,
    env: Map<Seq<char>, Seq<char>>,
    i: nat,
    j: nat,
) -> Seq<char>
    decreases (pieces.len() - i) + (caps.len() - j),
{
    if i > pieces.len() || j > caps.len() || (i == pieces.len() && j == caps.len()) {
        Seq::empty()
    } else if i < pieces.len() && (j >= caps.len() || piece_start(caps, i as int) < caps[j as int].0) {
        pieces[i as int] + rebuild(pieces, caps, env, i + 1, j)
    } else if j < caps.len() {
        replacement(env, caps[j as int]) + rebuild(pieces, caps, env, i, j + 1)
    } else {
        Seq::empty()
    }
}

/// The value of a variable in the environment, if present.
fn lookup_var<'a>(env: &'a Vec<(String, String)>, name: &str) -> (r: Option<&'a String>)
    ensures
        match lookup(env_view(env@), name@) {
            Some(v) => r matches Some(s) && s@ == v,
            None => r is None,
        },
{
    let ghost e = env_view(env@);
    let mut i: usize = 0;
    assert(e.skip(0) =~= e);
    while i < env.len()
        invariant
            e == env_view(env@),
            i <= env@.len(),
            lookup(e, name@) == lookup(e.skip(i as int), name@),
        decreases env.len() - i,
    {
        assert(e.skip(i as int).drop_first() =~= e.skip(i + 1));
        assert(e.skip(i as int)[0] == (env@[i as int].0@, env@[i as int].1@));
        if str_eq(env[i].0.as_str(), name) {
            return Some(&env[i].1);
        }
        i = i + 1;
    }
    assert(e.skip(i as int).len() == 0);
    None
}

/// What each match is replaced by.
pub open spec fn replacements(
    env: Map<Seq<char>, Seq<char>>,
    caps: Seq<(int, int, Seq<Option<Seq<char>>>)>,
) -> Seq<Seq<char>> {
    Seq::new(caps.len(), |i: int| replacement(env, caps[i]))
}

/// Between pieces that are all empty, the starts of the gaps before the
/// matches do not decrease.
proof fn lemma_gap_chain(
    pieces: Seq<Seq<char>>,
    caps: Seq<(int, int, Seq<Option<Seq<char>>>)>,
    haystack: Seq<char>,
    i: int,
    j: int,
)
    requires
        split_around(pieces, caps, haystack),
        0 <= i <= j <= caps.len(),
        forall|t: int| i <= t < j ==> (#[trigger] pieces[t]).len() == 0,
    ensures
        gap_start(caps, i) <= gap_start(caps, j),
    decreases j - i,
{
    if i < j {
        lemma_gap_chain(pieces, caps, haystack, i, j - 1);
        assert(pieces[j - 1].len() == 0);
        assert(gap_start(caps, j - 1) <= caps[j - 1].0 <= caps[j - 1].1);
    }
}

/// The text rebuilt from piece `i` and match `j` on, where the pieces from
/// `i` up to `j` are empty, is the weave of the pieces with the
/// replacements from `j` on.
proof fn lemma_rebuild_from(
    pieces: Seq<Seq<char>>,
    caps: Seq<(int, int, Seq<Option<Seq<char>>>)>,
    env: Map<Seq<char>, Seq<char>>,
    haystack: Seq<char>,
    i: nat,
    j: nat,
)
    requires
        split_around(pieces, caps, haystack),
        i <= j <= caps.len(),
        forall|t: int| i <= t < j ==> (#[trigger] pieces[t]).len() == 0,
    ensures
        rebuild(pieces, caps, env, i, j) == weave(pieces, replacements(env, caps), j),
    decreases (pieces.len() - i) + (caps.len() - j),
{
    let reps = replacements(env, caps);
    let k = caps.len();
    assert(piece_start(caps, i as int) == gap_start(caps, i as int));
    if j == k {
        if i == j {
            assert(rebuild(pieces, caps, env, i + 1, j) == Seq::<char>::empty());
            assert(weave(pieces, reps, j + 1) == Seq::<char>::empty());
            assert(pieces[i as int] + Seq::<char>::empty() =~= pieces[i as int]);
        } else {
            assert(pieces[i as int].len() == 0);
            lemma_rebuild_from(pieces, caps, env, haystack, i + 1, j);
            assert(pieces[i as int] + rebuild(pieces, caps, env, i + 1, j) =~= rebuild(
                pieces,
                caps,
                env,
                i + 1,
                j,
            ));
        }
    } else {
        assert(gap_start(caps, j as int) <= caps[j as int].0);
        lemma_gap_chain(pieces, caps, haystack, i as int, j as int);
        if piece_start(caps, i as int) < caps[j as int].0 {
            if i == j {
                // the piece, then the match
                assert(piece_start(caps, (i + 1) as int) == caps[i as int].1);
                lemma_rebuild_from(pieces, caps, env, haystack, i + 1, j + 1);
                assert(rebuild(pieces, caps, env, i + 1, j) == replacement(env, caps[j as int])
                    + rebuild(pieces, caps, env, i + 1, j + 1));
                assert(reps[j as int] == replacement(env, caps[j as int]));
                assert(pieces[i as int] + (reps[j as int] + weave(pieces, reps, j + 1)) =~= pieces[i as int]
                    + reps[j as int] + weave(pieces, reps, j + 1));
            } else {
                assert(pieces[i as int].len() == 0);
                lemma_rebuild_from(pieces, caps, env, haystack, i + 1, j);
                assert(pieces[i as int] + rebuild(pieces, caps, env, i + 1, j) =~= rebuild(
                    pieces,
                    caps,
                    env,
                    i + 1,
                    j,
                ));
            }
        } else {
            // the match first; the piece before it is empty
            assert(pieces[j as int].len() == 0);
            lemma_rebuild_from(pieces, caps, env, haystack, i, j + 1);
            assert(reps[j as int] == replacement(env, caps[j as int]));
            assert(pieces[j as int] + reps[j as int] + weave(pieces, reps, j + 1) =~= reps[j as int]
                + weave(pieces, reps, j + 1));
        }
    }
}

/// Rebuilding a text from the pieces around its matches, with each match
/// replaced, gives the pieces in order with the replacement of each match
/// between them, where the text itself is the pieces with the matched texts
/// between them: each match is replaced, and the rest is copied in order.
pub proof fn law_rebuild_replaces_matches(
    pieces: Seq<Seq<char>>,
    caps: Seq<(int, int, Seq<Option<Seq<char>>>)>,
    env: Map<Seq<char>, Seq<char>>,
    haystack: Seq<char>,
)
    requires
        split_around(pieces, caps, haystack),
    ensures
        haystack == weave(pieces, match_texts(caps), 0),
        rebuild(pieces, caps, env, 0, 0) == weave(pieces, replacements(env, caps), 0),
{
    lemma_rebuild_from(pieces, caps, env, haystack, 0, 0);
}

/// Puts the pieces between references and the replaced references back
/// together, in the order in which they stand in the text: pieces are
/// numbered from the start of the text, each starting where the reference
/// before it ends.
pub fn rebuild_text(pieces: &Vec<String>, caps: &Vec<CaptureSpan>, env: &Environment) -> (r: String)
    ensures
        r@ == rebuild(strings_view(pieces@), captures_view(caps@), env@, 0, 0),
{
    let ghost ps = strings_view(pieces@);
    let ghost cs = captures_view(caps@);
    let ghost e = env@;
    let mut out = String::new();
    let mut i: usize = 0;
    let mut j: usize = 0;
    while i < pieces.len() || j < caps.len()
        invariant
            ps == strings_view(pieces@),
            cs == captures_view(caps@),
            e == env@,
            i <= pieces@.len(),
            j <= caps@.len(),
            out@ + rebuild(ps, cs, e, i as nat, j as nat) == rebuild(ps, cs, e, 0, 0),
        decreases (pieces.len() - i) + (caps.len() - j),
    {
        let start: usize = if i == 0 || i - 1 >= caps.len() {
            0
        } else {
            caps[i - 1].end
        };
        assert(start == piece_start(cs, i as int));
        if i < pieces.len() && (j >= caps.len() || start < caps[j].start) {
            let ghost before = out@;
            push_text(&mut out, pieces[i].as_str());
            assert(before + rebuild(ps, cs, e, i as nat, j as nat) == before + (ps[i as int]
                + rebuild(ps, cs, e, (i + 1) as nat, j as nat)));
            assert(before + (ps[i as int] + rebuild(ps, cs, e, (i + 1) as nat, j as nat)) =~= (
            before + ps[i as int]) + rebuild(ps, cs, e, (i + 1) as nat, j as nat));
            i = i + 1;
        } else {
            let ghost before = out@;
            let ghost rep = replacement(e, cs[j as int]);
            let c = &caps[j];
            assert(cs[j as int] == capture_view(*c));
            if c.groups.len() > 1 {
                match &c.groups[1] {
                    Some(name) => {
                        match env.get(name.as_str()) {
                            Some(v) => push_text(&mut out, v.as_str()),
                            None => {},
                        }
                    },
                    None => {},
                }
            }
            assert(out@ =~= before + rep);
            assert(before + rebuild(ps, cs, e, i as nat, j as nat) == before + (rep + rebuild(
                ps,
                cs,
                e,
                i as nat,
                (j + 1) as nat,
            )));
            assert(before + (rep + rebuild(ps, cs, e, i as nat, (j + 1) as nat)) =~= (before
                + rep) + rebuild(ps, cs, e, i as nat, (j + 1) as nat));
            j = j + 1;
        }
    }
    assert(out@ + rebuild(ps, cs, e, i as nat, j as nat) =~= out@);
    out
}

/// Replaces every `${NAME}` reference in `string` by the value of the
/// variable `NAME` in `env`, or by nothing when `env` has no such
/// variable. A string without references is returned as it is.
pub fn template_string(string: &str, env: &Environment) -> (r: String)
    ensures
        !regex_builds(fresh_builder(var_pattern())) ==> r@ == string@,
        regex_builds(fresh_builder(var_pattern())) && !regex_finds(
            fresh_builder(var_pattern()),
            string@,
        ) ==> r@ == string@,
        regex_builds(fresh_builder(var_pattern())) && regex_finds(
            fresh_builder(var_pattern()),
            string@,
        ) ==> r@ == rebuild(
            regex_split(fresh_builder(var_pattern()), string@),
            regex_captures(fresh_builder(var_pattern()), string@),
            env@,
            0,
            0,
        ),
        regex_builds(fresh_builder(var_pattern())) && regex_finds(
            fresh_builder(var_pattern()),
            string@,
        ) ==> string@ == weave(
            regex_split(fresh_builder(var_pattern()), string@),
            match_texts(regex_captures(fresh_builder(var_pattern()), string@)),
            0,
        ) && r@ == weave(
            regex_split(fresh_builder(var_pattern()), string@),
            replacements(env@, regex_captures(fresh_builder(var_pattern()), string@)),
            0,
        ),
{
    let re = match Regexp::new("\\$\\{([a-zA-Z_][a-zA-Z0-9_]*)\\}") {
        Ok(re) => re,
        Err(_) => {
            return string.to_owned();
        },
    };
    if !re.is_match(string) {
        return string.to_owned();
    }
    let pieces = re.split_pieces(string);
    let caps = re.captures(string);
    proof {
        law_rebuild_replaces_matches(strings_view(pieces@), captures_view(caps@), env@, string@);
    }
    rebuild_text(&pieces, &caps, env)
}

} // verus!
