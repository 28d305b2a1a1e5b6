//! An explicit model of the variable table handed to delegated subprocesses:
//! the launcher builds it once and every change is recorded here, so no
//! component reads or writes ambient process state directly. The unverified
//! shell applies the finished table to the real process environment.

use vstd::prelude::*;

verus! {

/// First-match lookup in an association list keyed by strings.
pub open spec fn spec_assoc<V>(list: Seq<(Seq<char>, V)>, key: Seq<char>) -> Option<V>
    decreases list.len(),
{
    if list.len() == 0 {
        None
    } else if list[0].0 == key {
        Some(list[0].1)
    } else {
        spec_assoc(list.skip(1), key)
    }
}

pub proof fn lemma_assoc_none<V>(list: Seq<(Seq<char>, V)>, key: Seq<char>)
    requires
        forall|j: int| 0 <= j < list.len() ==> (#[trigger] list[j]).0 != key,
    ensures
        spec_assoc(list, key) is None,
    decreases list.len(),
{
    if list.len() > 0 {
        lemma_assoc_none(list.skip(1), key);
    }
}

pub proof fn lemma_assoc_append<V>(l1: Seq<(Seq<char>, V)>, l2: Seq<(Seq<char>, V)>, key: Seq<char>)
    ensures
        spec_assoc(l1 + l2, key) == (match spec_assoc(l1, key) {
            Some(v) => Some(v),
            None => spec_assoc(l2, key),
        }),
    decreases l1.len(),
{
    if l1.len() == 0 {
        assert(l1 + l2 =~= l2);
    } else {
        assert((l1 + l2).skip(1) =~= l1.skip(1) + l2);
        lemma_assoc_append(l1.skip(1), l2, key);
    }
}

/// A table of environment variables with unique names.
pub struct Environment {
    entries: Vec<(String, String)>,
}

impl Environment {
    /// The table as a sequence of name/value pairs, in insertion order.
    pub closed spec fn spec_entries(&self) -> Seq<(Seq<char>, Seq<char>)> {
        self.entries@.map_values(|p: (String, String)| (p.0@, p.1@))
    }

    /// The value bound to `name`, if any.
    pub open spec fn spec_get(&self, name: Seq<char>) -> Option<Seq<char>> {
        spec_assoc(self.spec_entries(), name)
    }

    /// Names are unique.
    pub open spec fn wf(&self) -> bool {
        forall|i: int, j: int|
            0 <= i < j < self.spec_entries().len() ==> (#[trigger] self.spec_entries()[i]).0 != (
            #[trigger] self.spec_entries()[j]).0
    }

    /// An empty variable table.
    pub fn new() -> (r: Environment)
        ensures
            r.wf(),
            forall|k: Seq<char>| r.spec_get(k) is None,
            r.spec_entries() == Seq::<(Seq<char>, Seq<char>)>::empty(),
    {
        let r = Environment { entries: Vec::new() };
        proof {
            assert(r.spec_entries() =~= Seq::<(Seq<char>, Seq<char>)>::empty());
        }
        r
    }

    /// Bind `name` to `value`, replacing any previous binding.
    pub fn set(&mut self, name: &str, value: &str)
        requires
            old(self).wf(),
        ensures
            final(self).wf(),
            final(self).spec_get(name@) == Some(value@),
            forall|k: Seq<char>| k != name@ ==> final(self).spec_get(k) == old(self).spec_get(k),
    {
        let n = self.entries.len();
        let mut i: usize = 0;
        while i < n
            invariant
                i <= n,
                n == self.entries@.len(),
                *self == *old(self),
                old(self).wf(),
                forall|j: int|
                    0 <= j < i ==> (#[trigger] self.spec_entries()[j]).0 != name@,
            decreases n - i,
        {
            if str_eq_pair(&self.entries[i].0, name) {
                let ghost prev = self.spec_entries();
                proof {
                    assert(prev == old(self).spec_entries());
                    assert forall|p: int, q: int| 0 <= p < q < prev.len() implies (
                    #[trigger] prev[p]).0 != (#[trigger] prev[q]).0 by {
                        assert((old(self).spec_entries()[p]).0 != (old(
                            self,
                        ).spec_entries()[q]).0);
                    }
                }
                self.entries.set(i, (name.to_owned(), value.to_owned()));
                proof {
                    let cur = self.spec_entries();
                    assert(cur =~= prev.update(i as int, (name@, value@)));
                    lemma_set_hit(prev, cur, i as int, name@, value@);
                }
                return ;
            }
            i = i + 1;
        }
        let ghost prev = self.spec_entries();
        self.entries.push((name.to_owned(), value.to_owned()));
        proof {
            let cur = self.spec_entries();
            assert(cur =~= prev + seq![(name@, value@)]);
            lemma_assoc_none(prev, name@);
            assert(spec_assoc(cur, name@) == Some(value@)) by {
                lemma_assoc_append(prev, seq![(name@, value@)], name@);
            }
            assert forall|k: Seq<char>| k != name@ implies spec_assoc(cur, k) == spec_assoc(
                prev,
                k,
            ) by {
                lemma_assoc_append(prev, seq![(name@, value@)], k);
                lemma_assoc_none(seq![(name@, value@)], k);
            }
            assert forall|p: int, q: int| 0 <= p < q < cur.len() implies (#[trigger] cur[p]).0
                != (#[trigger] cur[q]).0 by {
                if q < prev.len() {
                    assert((old(self).spec_entries()[p]).0 != (old(
                        self,
                    ).spec_entries()[q]).0);
                } else {
                    assert(cur[q] == (name@, value@));
                    assert((self.spec_entries()[p]).0 != name@);
                }
            }
        }
    }

    /// Bind `name` to `value` only when it has no binding yet.
    pub fn setdefault(&mut self, name: &str, value: &str)
        requires
            old(self).wf(),
        ensures
            final(self).wf(),
            old(self).spec_get(name@) is None ==> final(self).spec_get(name@) == Some(value@),
            old(self).spec_get(name@) is Some ==> final(self).spec_get(name@) == old(
                self,
            ).spec_get(name@),
            forall|k: Seq<char>| k != name@ ==> final(self).spec_get(k) == old(self).spec_get(k),
    {
        if !self.is_set(name) {
            self.set(name, value);
        }
    }

    /// Remove the binding of `name`, if any.
    pub fn unset(&mut self, name: &str)
        requires
            old(self).wf(),
        ensures
            final(self).wf(),
            final(self).spec_get(name@) is None,
            forall|k: Seq<char>| k != name@ ==> final(self).spec_get(k) == old(self).spec_get(k),
    {
        let n = self.entries.len();
        let mut i: usize = 0;
        while i < n
            invariant
                i <= n,
                n == self.entries@.len(),
                *self == *old(self),
                old(self).wf(),
                forall|j: int|
                    0 <= j < i ==> (#[trigger] self.spec_entries()[j]).0 != name@,
            decreases n - i,
        {
            if str_eq_pair(&self.entries[i].0, name) {
                let ghost prev = self.spec_entries();
                proof {
                    assert(prev == old(self).spec_entries());
                    assert forall|p: int, q: int| 0 <= p < q < prev.len() implies (
                    #[trigger] prev[p]).0 != (#[trigger] prev[q]).0 by {
                        assert((old(self).spec_entries()[p]).0 != (old(
                            self,
                        ).spec_entries()[q]).0);
                    }
                }
                self.entries.remove(i);
                proof {
                    let cur = self.spec_entries();
                    assert(cur =~= prev.remove(i as int));
                    lemma_remove_hit(prev, cur, i as int, name@);
                }
                return ;
            }
            i = i + 1;
        }
        proof {
            lemma_assoc_none(self.spec_entries(), name@);
        }
    }

    /// Whether `name` has a binding.
    pub fn is_set(&self, name: &str) -> (r: bool)
        ensures
            r == (self.spec_get(name@) is Some),
    {
        let n = self.entries.len();
        let mut i: usize = 0;
        while i < n
            invariant
                i <= n,
                n == self.entries@.len(),
                forall|j: int|
                    0 <= j < i ==> (#[trigger] self.spec_entries()[j]).0 != name@,
            decreases n - i,
        {
            if str_eq_pair(&self.entries[i].0, name) {
                proof {
                    lemma_assoc_found(self.spec_entries(), i as int, name@);
                }
                return true;
            }
            i = i + 1;
        }
        proof {
            lemma_assoc_none(self.spec_entries(), name@);
        }
        false
    }

    /// The value of `name`, or `default` when unset.
    pub fn get(&self, name: &str, default: Option<&str>) -> (r: Option<String>)
        ensures
            self.spec_get(name@) is Some ==> r is Some && r.unwrap()@ == self.spec_get(
                name@,
            ).unwrap(),
            self.spec_get(name@) is None && default is Some ==> r is Some && r.unwrap()@
                == default.unwrap()@,
            self.spec_get(name@) is None && default is None ==> r is None,
    {
        let n = self.entries.len();
        let mut i: usize = 0;
        while i < n
            invariant
                i <= n,
                n == self.entries@.len(),
                forall|j: int|
                    0 <= j < i ==> (#[trigger] self.spec_entries()[j]).0 != name@,
            decreases n - i,
        {
            if str_eq_pair(&self.entries[i].0, name) {
                proof {
                    lemma_assoc_found(self.spec_entries(), i as int, name@);
                }
                return Some(self.entries[i].1.clone());
            }
            i = i + 1;
        }
        proof {
            lemma_assoc_none(self.spec_entries(), name@);
        }
        match default {
            Some(d) => Some(d.to_owned()),
            None => None,
        }
    }

    /// The value of `name`, or `default` when unset; never absent.
    pub fn uget(&self, name: &str, default: &str) -> (r: String)
        ensures
            self.spec_get(name@) is Some ==> r@ == self.spec_get(name@).unwrap(),
            self.spec_get(name@) is None ==> r@ == default@,
    {
        let got = self.get(name, Some(default));
        got.unwrap()
    }

    /// All bound names, in insertion order.
    pub fn keys(&self) -> (r: Vec<String>)
        ensures
            r@.len() == self.spec_entries().len(),
            forall|i: int|
                0 <= i < r@.len() ==> (#[trigger] r@[i])@ == self.spec_entries()[i].0,
    {
        let n = self.entries.len();
        let mut r: Vec<String> = Vec::new();
        let mut i: usize = 0;
        while i < n
            invariant
                i <= n,
                n == self.entries@.len(),
                r@.len() == i,
                forall|j: int|
                    0 <= j < i ==> (#[trigger] r@[j])@ == self.spec_entries()[j].0,
            decreases n - i,
        {
            r.push(self.entries[i].0.clone());
            i = i + 1;
        }
        r
    }
}

fn str_eq_pair(a: &String, b: &str) -> (r: bool)
    ensures
        r == (a@ == b@),
{
    crate::strutil::str_eq(a.as_str(), b)
}

pub proof fn lemma_assoc_found<V>(list: Seq<(Seq<char>, V)>, i: int, key: Seq<char>)
    requires
        0 <= i < list.len(),
        list[i].0 == key,
        forall|j: int| 0 <= j < i ==> (#[trigger] list[j]).0 != key,
    ensures
        spec_assoc(list, key) == Some(list[i].1),
    decreases i,
{
    if i > 0 {
        lemma_assoc_found(list.skip(1), i - 1, key);
    }
}

proof fn lemma_set_hit(
    prev: Seq<(Seq<char>, Seq<char>)>,
    cur: Seq<(Seq<char>, Seq<char>)>,
    i: int,
    key: Seq<char>,
    value: Seq<char>,
)
    requires
        0 <= i < prev.len(),
        cur == prev.update(i, (key, value)),
        prev[i].0 == key,
        forall|j: int| 0 <= j < i ==> (#[trigger] prev[j]).0 != key,
        forall|p: int, q: int|
            0 <= p < q < prev.len() ==> (#[trigger] prev[p]).0 != (#[trigger] prev[q]).0,
    ensures
        spec_assoc(cur, key) == Some(value),
        forall|k: Seq<char>| k != key ==> spec_assoc(cur, k) == spec_assoc(prev, k),
        forall|p: int, q: int|
            0 <= p < q < cur.len() ==> (#[trigger] cur[p]).0 != (#[trigger] cur[q]).0,
    decreases i,
{
    if i == 0 {
        assert(cur[0].0 == key);
        assert forall|k: Seq<char>| k != key implies spec_assoc(cur, k) == spec_assoc(
            prev,
            k,
        ) by {
            assert(cur.skip(1) =~= prev.skip(1));
        }
    } else {
        assert(cur[0] == prev[0]);
        assert(cur.skip(1) =~= prev.skip(1).update(i - 1, (key, value)));
        assert forall|p: int, q: int| 0 <= p < q < prev.skip(1).len() implies (
        #[trigger] prev.skip(1)[p]).0 != (#[trigger] prev.skip(1)[q]).0 by {
            assert(prev.skip(1)[p] == prev[p + 1]);
            assert(prev.skip(1)[q] == prev[q + 1]);
        }
        assert forall|j: int| 0 <= j < i - 1 implies (#[trigger] prev.skip(1)[j]).0
            != key by {
            assert(prev.skip(1)[j] == prev[j + 1]);
        }
        lemma_set_hit(prev.skip(1), cur.skip(1), i - 1, key, value);
        assert(spec_assoc(cur, key) == Some(value));
        assert forall|k: Seq<char>| k != key implies spec_assoc(cur, k) == spec_assoc(
            prev,
            k,
        ) by {
            if prev[0].0 == k {
                assert(spec_assoc(cur, k) == Some(cur[0].1));
            } else {
                assert(spec_assoc(cur, k) == spec_assoc(cur.skip(1), k));
                assert(spec_assoc(prev, k) == spec_assoc(prev.skip(1), k));
            }
        }
        assert forall|p: int, q: int| 0 <= p < q < cur.len() implies (#[trigger] cur[p]).0
            != (#[trigger] cur[q]).0 by {
            if p > 0 {
                assert(cur.skip(1)[p - 1] == cur[p]);
                assert(cur.skip(1)[q - 1] == cur[q]);
            } else {
                assert(cur[0] == prev[0]);
                if q == i {
                    assert(cur[q] == (key, value));
                    assert(prev[0].0 != prev[i].0);
                } else {
                    assert(cur[q] == prev[q]);
                }
            }
        }
    }
}

proof fn lemma_remove_hit(
    prev: Seq<(Seq<char>, Seq<char>)>,
    cur: Seq<(Seq<char>, Seq<char>)>,
    i: int,
    key: Seq<char>,
)
    requires
        0 <= i < prev.len(),
        cur == prev.remove(i),
        prev[i].0 == key,
        forall|j: int| 0 <= j < i ==> (#[trigger] prev[j]).0 != key,
        forall|p: int, q: int|
            0 <= p < q < prev.len() ==> (#[trigger] prev[p]).0 != (#[trigger] prev[q]).0,
    ensures
        spec_assoc(cur, key) is None,
        forall|k: Seq<char>| k != key ==> spec_assoc(cur, k) == spec_assoc(prev, k),
        forall|p: int, q: int|
            0 <= p < q < cur.len() ==> (#[trigger] cur[p]).0 != (#[trigger] cur[q]).0,
    decreases i,
{
    if i == 0 {
        assert(cur =~= prev.skip(1));
        assert forall|j: int| 0 <= j < cur.len() implies (#[trigger] cur[j]).0 != key by {
            assert(prev[0].0 != prev[j + 1].0);
            assert(cur[j] == prev[j + 1]);
        }
        lemma_assoc_none(cur, key);
        assert forall|k: Seq<char>| k != key implies spec_assoc(cur, k) == spec_assoc(
            prev,
            k,
        ) by {
            assert(prev.len() > 0 && prev[0].0 == key);
        }
        assert forall|p: int, q: int| 0 <= p < q < cur.len() implies (#[trigger] cur[p]).0
            != (#[trigger] cur[q]).0 by {
            assert(cur[p] == prev[p + 1]);
            assert(cur[q] == prev[q + 1]);
        }
    } else {
        assert(cur[0] == prev[0]);
        assert(cur.skip(1) =~= prev.skip(1).remove(i - 1));
        assert forall|p: int, q: int| 0 <= p < q < prev.skip(1).len() implies (
        #[trigger] prev.skip(1)[p]).0 != (#[trigger] prev.skip(1)[q]).0 by {
            assert(prev.skip(1)[p] == prev[p + 1]);
            assert(prev.skip(1)[q] == prev[q + 1]);
        }
        assert forall|j: int| 0 <= j < i - 1 implies (#[trigger] prev.skip(1)[j]).0
            != key by {
            assert(prev.skip(1)[j] == prev[j + 1]);
        }
        lemma_remove_hit(prev.skip(1), cur.skip(1), i - 1, key);
        assert(spec_assoc(cur, key) is None);
        assert forall|k: Seq<char>| k != key implies spec_assoc(cur, k) == spec_assoc(
            prev,
            k,
        ) by {
            if prev[0].0 == k {
                assert(spec_assoc(cur, k) == Some(cur[0].1));
            } else {
                assert(spec_assoc(cur, k) == spec_assoc(cur.skip(1), k));
                assert(spec_assoc(prev, k) == spec_assoc(prev.skip(1), k));
            }
        }
        assert forall|p: int, q: int| 0 <= p < q < cur.len() implies (#[trigger] cur[p]).0
            != (#[trigger] cur[q]).0 by {
            if p > 0 {
                assert(cur.skip(1)[p - 1] == cur[p]);
                assert(cur.skip(1)[q - 1] == cur[q]);
            } else {
                assert(cur[0] == prev[0]);
                assert(cur.skip(1)[q - 1] == cur[q]);
                let j = if q < i { q } else { q + 1 };
                assert(cur.skip(1) =~= prev.skip(1).remove(i - 1));
                assert(cur[q] == prev[j]);
                assert(prev[0].0 != prev[j].0);
            }
        }
    }
}

/// ASCII lower-casing of a single character; other characters are unchanged.
pub open spec fn spec_lower_char(c: char) -> char {
    if c == 'A' { 'a' }
    else if c == 'B' { 'b' }
    else if c == 'C' { 'c' }
    else if c == 'D' { 'd' }
    else if c == 'E' { 'e' }
    else if c == 'F' { 'f' }
    else if c == 'G' { 'g' }
    else if c == 'H' { 'h' }
    else if c == 'I' { 'i' }
    else if c == 'J' { 'j' }
    else if c == 'K' { 'k' }
    else if c == 'L' { 'l' }
    else if c == 'M' { 'm' }
    else if c == 'N' { 'n' }
    else if c == 'O' { 'o' }
    else if c == 'P' { 'p' }
    else if c == 'Q' { 'q' }
    else if c == 'R' { 'r' }
    else if c == 'S' { 's' }
    else if c == 'T' { 't' }
    else if c == 'U' { 'u' }
    else if c == 'V' { 'v' }
    else if c == 'W' { 'w' }
    else if c == 'X' { 'x' }
    else if c == 'Y' { 'y' }
    else if c == 'Z' { 'z' }
    else { c }
}

/// ASCII lower-casing of a whole string.
pub open spec fn spec_lower(s: Seq<char>) -> Seq<char> {
    s.map_values(|c: char| spec_lower_char(c))
}

fn lower_char(c: char) -> (r: char)
    ensures
        r == spec_lower_char(c),
{
    match c {
        'A' => 'a',
        'B' => 'b',
        'C' => 'c',
        'D' => 'd',
        'E' => 'e',
        'F' => 'f',
        'G' => 'g',
        'H' => 'h',
        'I' => 'i',
        'J' => 'j',
        'K' => 'k',
        'L' => 'l',
        'M' => 'm',
        'N' => 'n',
        'O' => 'o',
        'P' => 'p',
        'Q' => 'q',
        'R' => 'r',
        'S' => 's',
        'T' => 't',
        'U' => 'u',
        'V' => 'v',
        'W' => 'w',
        'X' => 'x',
        'Y' => 'y',
        'Z' => 'z',
        _ => c,
    }
}

/// Whether `v`, lower-cased, equals `token`.
fn eq_lower(v: &str, token: &str) -> (r: bool)
    ensures
        r == (spec_lower(v@) == token@),
{
    let vl = v.unicode_len();
    let tl = token.unicode_len();
    if vl != tl {
        proof {
            assert(spec_lower(v@).len() == v@.len());
        }
        return false;
    }
    let mut i: usize = 0;
    while i < vl
        invariant
            i <= vl,
            vl == v@.len(),
            vl == token@.len(),
            forall|j: int| 0 <= j < i ==> spec_lower_char(v@[j]) == token@[j],
        decreases vl - i,
    {
        if lower_char(v.get_char(i)) != token.get_char(i) {
            proof {
                assert(spec_lower(v@)[i as int] != token@[i as int]);
            }
            return false;
        }
        i = i + 1;
    }
    proof {
        assert(spec_lower(v@) =~= token@);
    }
    true
}

/// A boolean read from a variable's text, ASCII-case-insensitively:
/// `false`/`0`/`no`/`off` and `true`/`1`/`yes`/`on`; anything else is no boolean.
pub open spec fn spec_parse_bool(v: Seq<char>) -> Option<bool> {
    let l = spec_lower(v);
    if l == "false"@ || l == "0"@ || l == "no"@ || l == "off"@ {
        Some(false)
    } else if l == "true"@ || l == "1"@ || l == "yes"@ || l == "on"@ {
        Some(true)
    } else {
        None
    }
}

/// Parse a boolean from a variable's text.
pub fn parse_bool(v: &str) -> (r: Option<bool>)
    ensures
        r == spec_parse_bool(v@),
{
    if eq_lower(v, "false") || eq_lower(v, "0") || eq_lower(v, "no") || eq_lower(v, "off") {
        Some(false)
    } else if eq_lower(v, "true") || eq_lower(v, "1") || eq_lower(v, "yes") || eq_lower(
        v,
        "on",
    ) {
        Some(true)
    } else {
        None
    }
}

impl Environment {
    /// The boolean read from `name`, or `default` when unset;
    /// a set but unintelligible value is no boolean.
    pub fn get_bool(&self, name: &str, default: Option<bool>) -> (r: Option<bool>)
        ensures
            self.spec_get(name@) is Some ==> r == spec_parse_bool(self.spec_get(name@).unwrap()),
            self.spec_get(name@) is None ==> r == default,
    {
        match self.get(name, None) {
            Some(v) => parse_bool(v.as_str()),
            None => default,
        }
    }

    /// The boolean read from `name`; `default` when unset or unintelligible.
    pub fn ubool(&self, name: &str, default: bool) -> (r: bool)
        ensures
            self.spec_get(name@) is None ==> r == default,
            self.spec_get(name@) is Some ==> r == (match spec_parse_bool(
                self.spec_get(name@).unwrap(),
            ) {
                Some(b) => b,
                None => default,
            }),
    {
        match self.get_bool(name, Some(default)) {
            Some(b) => b,
            None => default,
        }
    }
}

} // verus!
