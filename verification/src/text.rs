//! Verified helpers on strings, seen as sequences of characters.

use crate::model::strs;
use vstd::prelude::*;
use vstd::string::*;

verus! {

/// `pat` stands in `s` at position `i`.
pub open spec fn occurs_at(s: Seq<char>, pat: Seq<char>, i: int) -> bool {
    0 <= i && i + pat.len() <= s.len() && s.subrange(i, i + pat.len()) == pat
}

/// The first position at or after `i` where `pat` stands in `s`.
pub open spec fn find_from(s: Seq<char>, pat: Seq<char>, i: int) -> Option<int>
    decreases s.len() - i + 1,
{
    if i < 0 || i + pat.len() > s.len() {
        None
    } else if occurs_at(s, pat, i) {
        Some(i)
    } else {
        find_from(s, pat, i + 1)
    }
}

/// The first position where `pat` stands in `s`.
pub open spec fn first_index(s: Seq<char>, pat: Seq<char>) -> Option<int> {
    find_from(s, pat, 0)
}

/// `pat` stands somewhere in `s`.
pub open spec fn contains_seq(s: Seq<char>, pat: Seq<char>) -> bool {
    first_index(s, pat) is Some
}

/// The two parts of `s` around the first `pat`.
pub open spec fn split_first(s: Seq<char>, pat: Seq<char>) -> Option<(Seq<char>, Seq<char>)> {
    match first_index(s, pat) {
        Some(i) => Some((s.subrange(0, i), s.subrange(i + pat.len(), s.len() as int))),
        None => None,
    }
}

/// What `find_from` returns is the least position, and it returns `None` only where there is none.
pub proof fn lemma_find_from(s: Seq<char>, pat: Seq<char>, i: int)
    requires
        0 <= i,
    ensures
        match find_from(s, pat, i) {
            Some(k) => i <= k && occurs_at(s, pat, k) && forall|j: int|
                i <= j < k ==> !#[trigger] occurs_at(s, pat, j),
            None => forall|j: int| i <= j ==> !#[trigger] occurs_at(s, pat, j),
        },
    decreases s.len() - i + 1,
{
    if i + pat.len() > s.len() {
    } else if occurs_at(s, pat, i) {
    } else {
        lemma_find_from(s, pat, i + 1);
    }
}

/// A position that is the least one is what `find_from` returns.
pub proof fn lemma_find_from_is(s: Seq<char>, pat: Seq<char>, i: int, k: int)
    requires
        0 <= i <= k,
        occurs_at(s, pat, k),
        forall|j: int| i <= j < k ==> !#[trigger] occurs_at(s, pat, j),
    ensures
        find_from(s, pat, i) == Some(k),
{
    lemma_find_from(s, pat, i);
}

/// A one-character delimiter that is not in `a` parts `a + pat + b` into `a` and `b`.
pub proof fn lemma_split_at_delimiter(a: Seq<char>, pat: Seq<char>, b: Seq<char>)
    requires
        pat.len() == 1,
        !contains_seq(a, pat),
    ensures
        split_first(a + pat + b, pat) == Some((a, b)),
{
    let s = a + pat + b;
    lemma_find_from(a, pat, 0);
    assert(s.subrange(a.len() as int, a.len() as int + 1) =~= pat);
    assert forall|j: int| 0 <= j < a.len() implies !#[trigger] occurs_at(s, pat, j) by {
        assert(!occurs_at(a, pat, j));
        assert(s.subrange(j, j + 1) =~= a.subrange(j, j + 1));
    }
    lemma_find_from_is(s, pat, 0, a.len() as int);
    assert(s.subrange(0, a.len() as int) =~= a);
    assert(s.subrange(a.len() as int + 1, s.len() as int) =~= b);
}

/// The characters of a string.
pub fn to_chars(s: &str) -> (r: Vec<char>)
    ensures
        r@ == s@,
{
    let mut v: Vec<char> = Vec::new();
    for c in it: s.chars()
        invariant
            v@ == it.seq().take(it.index()),
            it.seq() == s@,
    {
        v.push(c);
    }
    v
}

/// Appends one character, as `String::push` documents.
pub assume_specification[ std::string::String::push ](s: &mut std::string::String, c: char)
    ensures
        final(s)@ == old(s)@.push(c),
;

fn matches_at(s: &Vec<char>, pat: &Vec<char>, i: usize) -> (r: bool)
    requires
        i + pat@.len() <= s@.len(),
    ensures
        r == occurs_at(s@, pat@, i as int),
{
    let n: usize = s.len();
    let mut k: usize = 0;
    while k < pat.len()
        invariant
            k <= pat@.len(),
            i + pat@.len() <= s@.len(),
            n == s@.len(),
            forall|j: int| 0 <= j < k ==> s@[i + j] == pat@[j],
        decreases pat@.len() - k,
    {
        if s[i + k] != pat[k] {
            proof {
                assert(s@.subrange(i as int, i + pat@.len())[k as int] != pat@[k as int]);
            }
            return false;
        }
        k += 1;
    }
    assert(s@.subrange(i as int, i + pat@.len()) =~= pat@);
    true
}

/// The position of the first `pat` in `s`, counted in characters.
pub fn find(s: &str, pat: &str) -> (r: Option<usize>)
    ensures
        match r {
            Some(i) => first_index(s@, pat@) == Some(i as int),
            None => first_index(s@, pat@) is None,
        },
        r matches Some(i) ==> i + pat@.len() <= s@.len() && occurs_at(s@, pat@, i as int),
{
    let cs = to_chars(s);
    let ps = to_chars(pat);
    if ps.len() > cs.len() {
        return None;
    }
    let last: usize = cs.len() - ps.len();
    let mut i: usize = 0;
    while i <= last
        invariant
            cs@ == s@,
            ps@ == pat@,
            last + ps@.len() == cs@.len(),
            i <= last + 1,
            first_index(s@, pat@) == find_from(s@, pat@, i as int),
        decreases last + 1 - i,
    {
        if matches_at(&cs, &ps, i) {
            return Some(i);
        }
        if i == last {
            return None;
        }
        i += 1;
    }
    None
}

/// Whether `s` starts with `pat`.
pub fn starts_with(s: &str, pat: &str) -> (r: bool)
    ensures
        r == pat@.is_prefix_of(s@),
{
    let cs = to_chars(s);
    let ps = to_chars(pat);
    if ps.len() > cs.len() {
        return false;
    }
    matches_at(&cs, &ps, 0)
}

/// Whether `pat` stands anywhere in `s`.
pub fn contains(s: &str, pat: &str) -> (r: bool)
    ensures
        r == contains_seq(s@, pat@),
{
    find(s, pat).is_some()
}

/// The parts of `s` before and behind the first `pat`.
pub fn split_once<'a>(s: &'a str, pat: &str) -> (r: Option<(&'a str, &'a str)>)
    ensures
        match r {
            Some((a, b)) => split_first(s@, pat@) == Some((a@, b@)),
            None => split_first(s@, pat@) is None,
        },
{
    match find(s, pat) {
        Some(i) => {
            let n: usize = s.unicode_len();
            let p: usize = pat.unicode_len();
            let a = s.substring_char(0, i);
            let b = s.substring_char(i + p, n);
            Some((a, b))
        },
        None => None,
    }
}

/// The concatenation of two strings.
pub fn concat(a: &str, b: &str) -> (r: String)
    ensures
        r@ == a@ + b@,
{
    let mut r = a.to_owned();
    r.append(b);
    r
}

/// The concatenation of three strings.
pub fn concat3(a: &str, b: &str, c: &str) -> (r: String)
    ensures
        r@ == a@ + b@ + c@,
{
    let mut r = a.to_owned();
    r.append(b);
    r.append(c);
    r
}

/// Whether two strings hold the same characters.
pub fn same(a: &str, b: &str) -> (r: bool)
    ensures
        r == (a@ == b@),
{
    let x = to_chars(a);
    let y = to_chars(b);
    if x.len() != y.len() {
        return false;
    }
    let r = matches_at(&x, &y, 0);
    proof {
        assert(x@.subrange(0, x@.len() as int) =~= x@);
    }
    r
}

/// `a` comes before `b` in the order of their characters.
pub open spec fn comes_before(a: Seq<char>, b: Seq<char>) -> bool
    decreases a.len(),
{
    if b.len() == 0 {
        false
    } else if a.len() == 0 {
        true
    } else if a[0] != b[0] {
        a[0] < b[0]
    } else {
        comes_before(a.subrange(1, a.len() as int), b.subrange(1, b.len() as int))
    }
}

/// Whether `a` comes before `b` in the order of their characters.
pub fn less_than(a: &str, b: &str) -> (r: bool)
    ensures
        r == comes_before(a@, b@),
{
    let x = to_chars(a);
    let y = to_chars(b);
    let n: usize = x.len();
    let m: usize = y.len();
    let mut i: usize = 0;
    assert(a@.subrange(0, n as int) =~= a@);
    assert(b@.subrange(0, m as int) =~= b@);
    while i < n && i < m
        invariant
            x@ == a@,
            y@ == b@,
            n == a@.len(),
            m == b@.len(),
            i <= n,
            i <= m,
            comes_before(a@, b@) == comes_before(
                a@.subrange(i as int, n as int),
                b@.subrange(i as int, m as int),
            ),
        decreases n - i,
    {
        let ghost p = a@.subrange(i as int, n as int);
        let ghost q = b@.subrange(i as int, m as int);
        assert(p[0] == x@[i as int] && q[0] == y@[i as int]);
        assert(p.subrange(1, p.len() as int) =~= a@.subrange(i + 1, n as int));
        assert(q.subrange(1, q.len() as int) =~= b@.subrange(i + 1, m as int));
        if x[i] != y[i] {
            return x[i] < y[i];
        }
        i += 1;
    }
    i == n && i < m
}

/// The order of strings is strict and total, and it is transitive.
pub proof fn lemma_order(a: Seq<char>, b: Seq<char>, c: Seq<char>)
    ensures
        !comes_before(a, a),
        comes_before(a, b) ==> !comes_before(b, a),
        !comes_before(a, b) && !comes_before(b, a) ==> a == b,
        !comes_before(b, a) && !comes_before(c, b) ==> !comes_before(c, a),
    decreases a.len() + b.len() + c.len(),
{
    let at = a.subrange(1, a.len() as int);
    let bt = b.subrange(1, b.len() as int);
    let ct = c.subrange(1, c.len() as int);
    if a.len() > 0 && b.len() > 0 && c.len() > 0 {
        lemma_order(at, bt, ct);
    } else if a.len() > 0 && b.len() > 0 {
        lemma_order(at, bt, c);
    } else if a.len() > 0 && c.len() > 0 {
        lemma_order(at, b, ct);
    } else if a.len() > 0 {
        lemma_order(at, b, c);
    }
    if a.len() > 0 && b.len() > 0 && a[0] == b[0] && at == bt {
        assert(a =~= seq![a[0]] + at);
        assert(b =~= seq![b[0]] + bt);
    }
    if a.len() == 0 && b.len() == 0 {
        assert(a =~= b);
    }
}

/// The strings stand in order.
pub open spec fn in_order(v: Seq<Seq<char>>) -> bool {
    forall|i: int, j: int|
        0 <= i < j < v.len() ==> !comes_before(#[trigger] v[j], #[trigger] v[i])
}

/// Puts strings in order.
pub fn sorted(v: Vec<String>) -> (r: Vec<String>)
    ensures
        in_order(strs(r@)),
        strs(r@).to_multiset() == strs(v@).to_multiset(),
{
    let ghost all = strs(v@);
    let n: usize = v.len();
    let mut out: Vec<String> = Vec::new();
    assert(strs(out@) =~= all.take(0));
    for s in it: v
        invariant
            all == strs(it.seq()),
            in_order(strs(out@)),
            strs(out@).to_multiset() == all.take(it.index()).to_multiset(),
            n == all.len(),
    {
        let ghost i = it.index();
        let ghost before = strs(out@);
        let ghost sv = s@;
        assert(all[i] == sv);
        assert(all.take(i + 1) =~= all.take(i).push(sv));
        let mut k: usize = out.len();
        while k > 0 && less_than(s.as_str(), out[k - 1].as_str())
            invariant
                k <= out@.len(),
                before == strs(out@),
                sv == s@,
                forall|j: int| k <= j < before.len() ==> comes_before(sv, #[trigger] before[j]),
            decreases k,
        {
            assert(before[k - 1] == out@[k - 1]@);
            k -= 1;
        }
        let ghost at = k as int;
        proof {
            if at > 0 {
                assert(before[at - 1] == out@[at - 1]@);
            }
        }
        out.insert(k, s);
        let ghost after = strs(out@);
        proof {
            assert(after =~= before.insert(at, sv));
            before.to_multiset_ensures();
            all.take(i).to_multiset_ensures();
            broadcast use vstd::seq_lib::group_to_multiset_ensures;

            assert(after.to_multiset() =~= before.to_multiset().insert(sv));
            assert(all.take(i + 1).to_multiset() =~= all.take(i).to_multiset().insert(sv));
            assert forall|a: int, b: int| 0 <= a < b < after.len() implies !comes_before(
                #[trigger] after[b],
                #[trigger] after[a],
            ) by {
                let x = if a < at { a } else { a - 1 };
                let y = if b < at { b } else { b - 1 };
                if a == at {
                    assert(comes_before(sv, before[y]));
                    lemma_order(sv, before[y], sv);
                } else if b == at {
                    lemma_order(before[x], before[at - 1], sv);
                    if x < at - 1 {
                        assert(!comes_before(before[at - 1], before[x]));
                    } else {
                        lemma_order(before[x], before[x], sv);
                    }
                } else {
                    assert(!comes_before(before[y], before[x]));
                }
            }
        }
    }
    assert(all.take(n as int) =~= all);
    out
}

/// Whether `s` ends with `pat`.
pub fn ends_with(s: &str, pat: &str) -> (r: bool)
    ensures
        r == pat@.is_suffix_of(s@),
{
    let cs = to_chars(s);
    let ps = to_chars(pat);
    if ps.len() > cs.len() {
        return false;
    }
    let at: usize = cs.len() - ps.len();
    let r = matches_at(&cs, &ps, at);
    assert(cs@.subrange(at as int, at + ps@.len()) =~= cs@.subrange(
        cs@.len() - ps@.len(),
        cs@.len() as int,
    ));
    r
}

/// The number of a character, where a capital letter of ASCII counts as the small one.
pub open spec fn small(c: char) -> int {
    if 'A' <= c && c <= 'Z' {
        c as int + 32
    } else {
        c as int
    }
}

/// The strings are the same but for the case of the letters of ASCII.
pub open spec fn same_but_case(a: Seq<char>, b: Seq<char>) -> bool {
    a.len() == b.len() && forall|i: int| 0 <= i < a.len() ==> small(#[trigger] a[i]) == small(b[i])
}

fn small_of(c: char) -> (r: u32)
    ensures
        r == small(c),
{
    let n: u32 = c as u32;
    if 'A' <= c && c <= 'Z' {
        n + 32
    } else {
        n
    }
}

/// Whether two strings are the same but for the case of the letters of ASCII.
pub fn same_ignoring_case(a: &str, b: &str) -> (r: bool)
    ensures
        r == same_but_case(a@, b@),
{
    let x = to_chars(a);
    let y = to_chars(b);
    if x.len() != y.len() {
        return false;
    }
    let mut i: usize = 0;
    while i < x.len()
        invariant
            i <= x@.len(),
            x@ == a@,
            y@ == b@,
            x@.len() == y@.len(),
            forall|k: int| 0 <= k < i ==> small(#[trigger] x@[k]) == small(y@[k]),
        decreases x@.len() - i,
    {
        if small_of(x[i]) != small_of(y[i]) {
            assert(small(x@[i as int]) != small(y@[i as int]));
            return false;
        }
        i += 1;
    }
    true
}

/// The order of strings is an order: no string comes before itself, of two different strings one
/// comes before the other and not the other way round, and what comes before a string comes before
/// all that the string comes before.
pub proof fn law_order_of_strings(a: Seq<char>, b: Seq<char>, c: Seq<char>)
    ensures
        !comes_before(a, a),
        a != b ==> comes_before(a, b) || comes_before(b, a),
        comes_before(a, b) ==> !comes_before(b, a),
        comes_before(a, b) && comes_before(b, c) ==> comes_before(a, c),
    decreases a.len() + b.len() + c.len(),
{
    let ta = a.subrange(1, a.len() as int);
    let tb = b.subrange(1, b.len() as int);
    let tc = c.subrange(1, c.len() as int);
    if a.len() == 0 && b.len() == 0 {
        assert(a =~= b);
    }
    if a.len() > 0 && b.len() > 0 && c.len() > 0 {
        law_order_of_strings(ta, tb, tc);
        if a[0] == b[0] && ta == tb {
            assert(a =~= seq![a[0]] + ta);
            assert(b =~= seq![b[0]] + tb);
        }
    } else if a.len() > 0 && b.len() > 0 {
        law_order_of_strings(ta, tb, c);
        if a[0] == b[0] && ta == tb {
            assert(a =~= seq![a[0]] + ta);
            assert(b =~= seq![b[0]] + tb);
        }
    } else if a.len() > 0 {
        law_order_of_strings(ta, b, c);
    }
}

/// A string comes before every longer string that starts with it, and one whose first different
/// character is the smaller before the other.
pub proof fn law_order_by_the_first_difference(
    common: Seq<char>,
    x: char,
    y: char,
    a: Seq<char>,
    b: Seq<char>,
)
    requires
        x < y,
    ensures
        comes_before(common + seq![x] + a, common + seq![y] + b),
        comes_before(common, common + seq![x] + a),
    decreases common.len(),
{
    let p = common + seq![x] + a;
    let q = common + seq![y] + b;
    if common.len() > 0 {
        let rest = common.subrange(1, common.len() as int);
        law_order_by_the_first_difference(rest, x, y, a, b);
        assert(p.subrange(1, p.len() as int) =~= rest + seq![x] + a);
        assert(q.subrange(1, q.len() as int) =~= rest + seq![y] + b);
        assert(p[0] == q[0]);
    }
}

/// Two characters are the same but for case where they are the same, or a capital letter of ASCII
/// and the small one.
pub proof fn law_same_but_case(x: char, y: char)
    ensures
        same_but_case(seq![x], seq![y]) <==> x == y || ('A' <= x <= 'Z' && y as int == x as int + 32)
            || ('A' <= y <= 'Z' && x as int == y as int + 32),
{
    assert(seq![x][0] == x);
    assert(seq![y][0] == y);
    if small(x) == small(y) {
        assert forall|i: int| 0 <= i < 1 implies small(#[trigger] seq![x][i]) == small(
            seq![y][i],
        ) by {}
    }
}

} // verus!
