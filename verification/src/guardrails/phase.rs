//! On which side of a call a guardrail runs, by the method of the call.

use crate::text;
use vstd::prelude::*;
use vstd::string::*;

verus! {

/// The side of a call.
#[derive(Debug, Clone, Copy, PartialEq, Eq, Structural)]
pub enum Phase {
    Request,
    Response,
    Full,
}

impl Phase {
    /// Whether the request side is meant.
    pub fn runs_request(self) -> (r: bool)
        ensures
            r == (self != Phase::Response),
    {
        self != Phase::Response
    }

    /// Whether the response side is meant.
    pub fn runs_response(self) -> (r: bool)
        ensures
            r == (self != Phase::Request),
    {
        self != Phase::Request
    }
}

/// A key holds no wildcard and is not empty: it stands for one method.
pub open spec fn is_exact(key: Seq<char>) -> bool {
    key.len() > 0 && !key.contains('*')
}

/// A key is `prefix/*`: it stands for the methods that start with `prefix/`.
pub open spec fn is_prefix_key(key: Seq<char>) -> bool {
    "/*"@.is_suffix_of(key) && !key.drop_last().contains('*')
}

/// A key is `*/suffix`: it stands for the methods that end with `/suffix`.
pub open spec fn is_suffix_key(key: Seq<char>) -> bool {
    "*/"@.is_prefix_of(key) && !key.drop_first().contains('*')
}

/// A key can match: it is an exact method, `prefix/*`, `*/suffix`, or `*`.
pub open spec fn is_matchable(key: Seq<char>) -> bool {
    is_exact(key) || is_prefix_key(key) || is_suffix_key(key) || key == "*"@
}

/// How closely a key fits a method; 0 where it does not. The method itself fits best, `*` least;
/// of other wildcards the longer fits better, and a prefix better than a suffix of its length.
pub open spec fn fit(key: Seq<char>, method: Seq<char>) -> int {
    if is_exact(key) && key == method {
        2 * (method.len() as int) + 4
    } else if is_prefix_key(key) && key.drop_last().is_prefix_of(method) {
        2 * (key.len() as int) + 1
    } else if is_suffix_key(key) && key.drop_first().is_suffix_of(method) {
        2 * (key.len() as int)
    } else if key == "*"@ {
        1
    } else {
        0
    }
}

/// The position among the first `n` keys of the one that fits best, the first of such.
pub open spec fn best_fit(methods: Seq<(String, Phase)>, method: Seq<char>, n: int) -> Option<int>
    decreases n,
{
    if n <= 0 {
        None
    } else {
        let f = fit(methods[n - 1].0@, method);
        match best_fit(methods, method, n - 1) {
            Some(k) => if f > fit(methods[k].0@, method) {
                Some(n - 1)
            } else {
                Some(k)
            },
            None => if f > 0 {
                Some(n - 1)
            } else {
                None
            },
        }
    }
}

/// The side of a call of `method` that the keys say; `None` where no key fits.
pub open spec fn resolved(methods: Seq<(String, Phase)>, method: Seq<char>) -> Option<Phase> {
    match best_fit(methods, method, methods.len() as int) {
        Some(k) => Some(methods[k].1),
        None => None,
    }
}

fn has_star(v: &Vec<char>, from: usize, to: usize) -> (r: bool)
    requires
        from <= to <= v@.len(),
    ensures
        r == v@.subrange(from as int, to as int).contains('*'),
{
    let ghost part = v@.subrange(from as int, to as int);
    let mut i: usize = from;
    while i < to
        invariant
            from <= i <= to <= v@.len(),
            part == v@.subrange(from as int, to as int),
            forall|k: int| from <= k < i ==> #[trigger] v@[k] != '*',
        decreases to - i,
    {
        if v[i] == '*' {
            assert(part[i - from] == '*');
            return true;
        }
        i += 1;
    }
    assert forall|k: int| 0 <= k < part.len() implies part[k] != '*' by {
        assert(part[k] == v@[k + from]);
    }
    false
}

/// Whether the key is `prefix/*`.
fn prefix_key(key: &str) -> (r: bool)
    ensures
        r == is_prefix_key(key@),
        r ==> key@.len() >= 2,
{
    proof {
        reveal_strlit("/*");
    }
    if !text::ends_with(key, "/*") {
        return false;
    }
    let v = text::to_chars(key);
    let n: usize = v.len();
    assert(v@.subrange(0, n - 1) =~= key@.drop_last());
    !has_star(&v, 0, n - 1)
}

/// Whether the key is `*/suffix`.
fn suffix_key(key: &str) -> (r: bool)
    ensures
        r == is_suffix_key(key@),
        r ==> key@.len() >= 2,
{
    proof {
        reveal_strlit("*/");
    }
    if !text::starts_with(key, "*/") {
        return false;
    }
    let v = text::to_chars(key);
    let n: usize = v.len();
    assert(v@.subrange(1, n as int) =~= key@.drop_first());
    !has_star(&v, 1, n)
}

fn exact_key(key: &str) -> (r: bool)
    ensures
        r == is_exact(key@),
{
    let v = text::to_chars(key);
    assert(v@.subrange(0, v@.len() as int) =~= v@);
    v.len() > 0 && !has_star(&v, 0, v.len())
}

/// Whether the key can match a method.
pub fn pattern_is_matchable(key: &str) -> (r: bool)
    ensures
        r == is_matchable(key@),
{
    exact_key(key) || prefix_key(key) || suffix_key(key) || text::same(key, "*")
}

/// How closely a key fits a method, in its class and by its length.
#[derive(Debug, Clone, Copy, PartialEq, Eq, Structural)]
struct Fit {
    class: u8,
    length: usize,
    prefix: bool,
}

impl Fit {
    spec fn value(self, method: Seq<char>) -> int {
        if self.class == 3 {
            2 * (method.len() as int) + 4
        } else if self.class == 2 {
            2 * self.length + if self.prefix { 1int } else { 0int }
        } else if self.class == 1 {
            1
        } else {
            0
        }
    }

    spec fn of(self, key: Seq<char>, method: Seq<char>) -> bool {
        &&& self.class <= 3
        &&& self.class == 2 ==> 2 <= self.length <= method.len() + 1
        &&& self.value(method) == fit(key, method)
    }

    fn better(self, other: Fit, Ghost(method): Ghost<Seq<char>>, Ghost(a): Ghost<Seq<char>>, Ghost(
        b,
    ): Ghost<Seq<char>>) -> (r: bool)
        requires
            self.of(a, method),
            other.of(b, method),
        ensures
            r == (fit(a, method) > fit(b, method)),
    {
        if self.class != other.class {
            return self.class > other.class;
        }
        if self.class != 2 {
            return false;
        }
        self.length > other.length || (self.length == other.length && self.prefix && !other.prefix)
    }
}

fn fit_of(key: &str, method: &str) -> (r: Fit)
    ensures
        r.of(key@, method@),
{
    proof {
        reveal_strlit("*");
    }
    if exact_key(key) && text::same(key, method) {
        return Fit { class: 3, length: 0, prefix: false };
    }
    if prefix_key(key) {
        let n: usize = key.unicode_len();
        let head = key.substring_char(0, n - 1);
        assert(head@ =~= key@.drop_last());
        if text::starts_with(method, head) {
            return Fit { class: 2, length: n, prefix: true };
        }
    }
    if suffix_key(key) {
        let n: usize = key.unicode_len();
        let tail = key.substring_char(1, n);
        assert(tail@ =~= key@.drop_first());
        if text::ends_with(method, tail) {
            return Fit { class: 2, length: n, prefix: false };
        }
    }
    if text::same(key, "*") {
        Fit { class: 1, length: 0, prefix: false }
    } else {
        Fit { class: 0, length: 0, prefix: false }
    }
}

/// The side of a call of `method` that the keys say; `None` where no key fits.
pub fn resolve(method: &str, methods: &Vec<(String, Phase)>) -> (r: Option<Phase>)
    ensures
        r == resolved(methods@, method@),
{
    let mut best: Option<(usize, Fit)> = None;
    let mut i: usize = 0;
    while i < methods.len()
        invariant
            i <= methods@.len(),
            match best {
                Some((k, f)) => k < i && best_fit(methods@, method@, i as int) == Some(k as int)
                    && f.of(methods@[k as int].0@, method@),
                None => best_fit(methods@, method@, i as int) is None,
            },
        decreases methods@.len() - i,
    {
        let f = fit_of(methods[i].0.as_str(), method);
        best = match best {
            Some((k, g)) => if f.better(
                g,
                Ghost(method@),
                Ghost(methods@[i as int].0@),
                Ghost(methods@[k as int].0@),
            ) {
                Some((i, f))
            } else {
                Some((k, g))
            },
            None => if f.class > 0 {
                Some((i, f))
            } else {
                None
            },
        };
        i += 1;
    }
    match best {
        Some((k, _)) => Some(methods[k].1),
        None => None,
    }
}

pub(crate) proof fn lemma_best_fit(methods: Seq<(String, Phase)>, method: Seq<char>, n: int)
    requires
        0 <= n <= methods.len(),
    ensures
        match best_fit(methods, method, n) {
            Some(k) => 0 <= k < n && fit(methods[k].0@, method) > 0 && forall|j: int|
                0 <= j < n ==> fit((#[trigger] methods[j]).0@, method) <= fit(
                    methods[k].0@,
                    method,
                ),
            None => forall|j: int| 0 <= j < n ==> fit((#[trigger] methods[j]).0@, method) <= 0,
        },
    decreases n,
{
    if n > 0 {
        lemma_best_fit(methods, method, n - 1);
    }
}

/// The method itself goes before any wildcard.
pub proof fn law_exact_key_wins(methods: Seq<(String, Phase)>, i: int)
    requires
        0 <= i < methods.len(),
        is_exact(methods[i].0@),
        forall|j: int|
            0 <= j < methods.len() && j != i ==> (#[trigger] methods[j]).0@ != methods[i].0@,
    ensures
        resolved(methods, methods[i].0@) == Some(methods[i].1),
{
    let method = methods[i].0@;
    lemma_best_fit(methods, method, methods.len() as int);
    assert(fit(method, method) == 2 * method.len() + 4);
    let k = best_fit(methods, method, methods.len() as int)->0;
    assert(fit(methods[i].0@, method) <= fit(methods[k].0@, method));
    let key = methods[k].0@;
    if k != i {
        assert(key != method);
        reveal_strlit("/*");
        reveal_strlit("*/");
        if is_prefix_key(key) && key.drop_last().is_prefix_of(method) {
            assert(key.drop_last().len() <= method.len());
        }
        if is_suffix_key(key) && key.drop_first().is_suffix_of(method) {
            assert(key.drop_first().len() <= method.len());
        }
        assert(false);
    }
}

/// A method that no key fits bypasses the guardrail; a key that cannot match fits none.
pub proof fn law_unmatched_bypasses(methods: Seq<(String, Phase)>, method: Seq<char>)
    requires
        forall|j: int|
            0 <= j < methods.len() ==> fit((#[trigger] methods[j]).0@, method) == 0
                || !is_matchable(methods[j].0@),
    ensures
        resolved(methods, method) is None,
{
    lemma_best_fit(methods, method, methods.len() as int);
    match best_fit(methods, method, methods.len() as int) {
        Some(k) => {
            assert(fit(methods[k].0@, method) == 0 || !is_matchable(methods[k].0@));
        },
        None => {},
    }
}

} // verus!
