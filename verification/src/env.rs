//! Snapshots of environment variables, handed to the library by its caller.
use vstd::prelude::*;
use crate::text::append_str;

verus! {

/// Value of the first pair named `k`.
pub open spec fn first_value<V>(pairs: Seq<(Seq<char>, V)>, k: Seq<char>) -> Option<V>
    decreases pairs.len(),
{
    if pairs.len() == 0 {
        None
    } else if pairs[0].0 == k {
        Some(pairs[0].1)
    } else {
        first_value(pairs.drop_first(), k)
    }
}

/// Value of the last pair named `k` (what a map holds after inserting the pairs in order).
pub open spec fn last_value<V>(pairs: Seq<(Seq<char>, V)>, k: Seq<char>) -> Option<V>
    decreases pairs.len(),
{
    if pairs.len() == 0 {
        None
    } else if pairs.last().0 == k {
        Some(pairs.last().1)
    } else {
        last_value(pairs.drop_last(), k)
    }
}

/// Lookup in a list extended with an unused name.
pub proof fn lemma_first_value_push<V>(pairs: Seq<(Seq<char>, V)>, k: Seq<char>, v: V, q: Seq<char>)
    requires
        first_value(pairs, k) is None,
    ensures
        first_value(pairs.push((k, v)), q) == (if q == k {
            Some(v)
        } else {
            first_value(pairs, q)
        }),
    decreases pairs.len(),
{
    let pushed = pairs.push((k, v));
    if pairs.len() == 0 {
        assert(pushed.drop_first() =~= Seq::<(Seq<char>, V)>::empty());
        assert(pushed[0] == (k, v));
    } else {
        assert(pushed[0] == pairs[0]);
        assert(pairs[0].0 != k);
        assert(pushed.drop_first() =~= pairs.drop_first().push((k, v)));
        assert(first_value(pairs.drop_first(), k) is None);
        if pairs[0].0 != q {
            lemma_first_value_push(pairs.drop_first(), k, v, q);
        }
    }
}

/// Environment variables that hold valid Unicode values, by name.
#[derive(Debug)]
pub struct EnvVars {
    /// Name and value of each variable.
    pub vars: Vec<(String, String)>,
}

impl View for EnvVars {
    type V = Seq<(Seq<char>, Seq<char>)>;

    open spec fn view(&self) -> Seq<(Seq<char>, Seq<char>)> {
        self.vars@.map_values(|p: (String, String)| (p.0@, p.1@))
    }
}

/// Value of variable `k`, when set.
pub open spec fn env_lookup(env: Seq<(Seq<char>, Seq<char>)>, k: Seq<char>) -> Option<Seq<char>> {
    first_value(env, k)
}

impl EnvVars {
    /// An environment with no variables.
    pub fn new() -> (r: EnvVars)
        ensures
            r@ == Seq::<(Seq<char>, Seq<char>)>::empty(),
    {
        let r = EnvVars { vars: Vec::new() };
        assert(r@ =~= Seq::<(Seq<char>, Seq<char>)>::empty());
        r
    }

    /// A copy of the snapshot.
    pub fn duplicate(&self) -> (r: EnvVars)
        ensures
            r@ == self@,
    {
        let mut r = EnvVars { vars: Vec::new() };
        let mut i: usize = 0;
        while i < self.vars.len()
            invariant
                i <= self.vars@.len(),
                r@ == self@.take(i as int),
            decreases self.vars.len() - i,
        {
            let ghost prev = r@;
            let a = self.vars[i].0.clone();
            let b = self.vars[i].1.clone();
            r.vars.push((a, b));
            assert(r@ =~= prev.push((a@, b@)));
            assert(self@[i as int] == (a@, b@));
            assert(r@ =~= self@.take(i + 1));
            i += 1;
        }
        assert(self@.take(self.vars@.len() as int) =~= self@);
        r
    }

    /// Value of variable `k` (`std::env::var`), when set.
    pub fn get(&self, k: &String) -> (r: Option<String>)
        ensures
            r matches Some(v) ==> env_lookup(self@, k@) == Some(v@),
            r is None ==> env_lookup(self@, k@) is None,
    {
        let mut i: usize = 0;
        assert(self@.skip(0) =~= self@);
        while i < self.vars.len()
            invariant
                i <= self.vars@.len(),
                first_value(self@, k@) == first_value(self@.skip(i as int), k@),
            decreases self.vars.len() - i,
        {
            assert(self@.skip(i as int)[0] == (self.vars@[i as int].0@, self.vars@[i as int].1@));
            assert(self@.skip(i as int).drop_first() =~= self@.skip(i + 1));
            if self.vars[i].0 == *k {
                return Some(self.vars[i].1.clone());
            }
            i += 1;
        }
        None
    }

    /// Whether variable `k` is set.
    pub fn contains(&self, k: &String) -> (b: bool)
        ensures
            b == (env_lookup(self@, k@) is Some),
    {
        self.get(k).is_some()
    }

    /// Sets `k` to `v` when `k` is not set yet (`std::env::set_var` after `std::env::var` failed).
    pub fn set_if_absent(&mut self, k: String, v: String)
        ensures
            env_lookup(old(self)@, k@) is None ==> final(self)@ == old(self)@.push((k@, v@)),
            env_lookup(old(self)@, k@) is Some ==> final(self)@ == old(self)@,
    {
        if !self.contains(&k) {
            let ghost before = self.vars@;
            let ghost kv = k@;
            let ghost vv = v@;
            self.vars.push((k, v));
            assert(self@ =~= old(self)@.push((kv, vv)));
        }
    }
}

/// A variable that must be set is not.
#[derive(Debug, PartialEq, Eq)]
pub struct MissingEnvVar(pub String);

impl MissingEnvVar {
    /// The error's message.
    pub fn message(&self) -> (m: String)
        ensures
            m@ == "Missing required environment variable: "@ + self.0@,
    {
        let mut m = "Missing required environment variable: ".to_owned();
        append_str(&mut m, self.0.as_str());
        m
    }
}

/// Retrieves the value of a variable, failing when it is not set.
pub fn require_env_var(env: &EnvVars, key: &str) -> (r: Result<String, MissingEnvVar>)
    ensures
        match env_lookup(env@, key@) {
            Some(v) => r matches Ok(s) && s@ == v,
            None => r matches Err(MissingEnvVar(k)) && k@ == key@,
        },
{
    let k = key.to_owned();
    match env.get(&k) {
        Some(v) => Ok(v),
        None => Err(MissingEnvVar(k)),
    }
}

} // verus!
