//! A read-only bundle of named byte files, fixed before the launcher runs,
//! queried by exact path or by shell-style wildcard pattern. Entries are kept
//! in strict lexical path order so every query is deterministic.

use vstd::prelude::*;

use crate::environment::lemma_assoc_append;
use crate::environment::lemma_assoc_found;
use crate::environment::lemma_assoc_none;
use crate::environment::spec_assoc;
use crate::strutil::lemma_lex_lt_irrefl;
use crate::strutil::lemma_lex_lt_total;
use crate::strutil::lemma_lex_lt_trans;
use crate::strutil::spec_lex_lt;
use crate::strutil::str_eq;
use crate::strutil::str_lt;

verus! {

/// Whether a wildcard pattern compiles; a function of the pattern text alone.
pub uninterp spec fn glob_pattern_ok(pattern: Seq<char>) -> bool;

/// Whether a path matches a wildcard pattern; a function of the two texts alone.
pub uninterp spec fn glob_match_of(pattern: Seq<char>, path: Seq<char>) -> bool;

/// Relies on glob::Pattern::new: a pattern either compiles or is rejected,
/// depending only on the pattern text.
#[verifier::external_body]
fn glob_pattern_valid(pattern: &str) -> (r: bool)
    ensures
        r == glob_pattern_ok(pattern@),
{
    glob::Pattern::new(pattern).is_ok()
}

/// Relies on glob::Pattern::matches: shell-style wildcard matching over the
/// full path, case-sensitive, depending only on pattern and path text.
#[verifier::external_body]
fn glob_pattern_matches(pattern: &str, path: &str) -> (r: bool)
    requires
        glob_pattern_ok(pattern@),
    ensures
        r == glob_match_of(pattern@, path@),
{
    match glob::Pattern::new(pattern) {
        Ok(p) => p.matches(path),
        Err(_) => false,
    }
}

/// What an asset query can report: the only failure is a malformed pattern.
#[derive(Clone, Copy, PartialEq, Eq, Debug)]
pub enum AssetError {
    BadPattern,
}

/// One bundled file: a relative path and its content.
pub struct AssetEntry {
    pub path: String,
    pub data: Vec<u8>,
}

/// A read-only mapping from relative path to byte content, held in strict
/// lexical path order.
pub struct AssetBundle {
    entries: Vec<AssetEntry>,
}

/// The entries matching `pattern`, kept in their bundle order.
pub open spec fn spec_glob_list(
    entries: Seq<(Seq<char>, Seq<u8>)>,
    pattern: Seq<char>,
) -> Seq<(Seq<char>, Seq<u8>)>
    decreases entries.len(),
{
    if entries.len() == 0 {
        Seq::empty()
    } else if glob_match_of(pattern, entries[0].0) {
        seq![entries[0]] + spec_glob_list(entries.skip(1), pattern)
    } else {
        spec_glob_list(entries.skip(1), pattern)
    }
}

impl AssetBundle {
    /// The bundle as a sequence of path/content pairs, in lexical path order.
    pub closed spec fn spec_entries(&self) -> Seq<(Seq<char>, Seq<u8>)> {
        self.entries@.map_values(|e: AssetEntry| (e.path@, e.data@))
    }

    /// The content filed under `path`, if any.
    pub open spec fn spec_read(&self, path: Seq<char>) -> Option<Seq<u8>> {
        spec_assoc(self.spec_entries(), path)
    }

    /// Paths are held in strictly increasing lexical order.
    pub open spec fn wf(&self) -> bool {
        forall|i: int, j: int|
            0 <= i < j < self.spec_entries().len() ==> spec_lex_lt(
                (#[trigger] self.spec_entries()[i]).0,
                (#[trigger] self.spec_entries()[j]).0,
            )
    }

    /// An empty bundle.
    pub fn new() -> (r: AssetBundle)
        ensures
            r.wf(),
            r.spec_entries() == Seq::<(Seq<char>, Seq<u8>)>::empty(),
            forall|p: Seq<char>| r.spec_read(p) is None,
    {
        let r = AssetBundle { entries: Vec::new() };
        proof {
            assert(r.spec_entries() =~= Seq::<(Seq<char>, Seq<u8>)>::empty());
        }
        r
    }

    /// How many files the bundle holds.
    pub fn len(&self) -> (r: usize)
        ensures
            r == self.spec_entries().len(),
    {
        self.entries.len()
    }

    /// File `data` under `path`, replacing any previous content there.
    /// Bundles are populated before the launcher runs and read-only afterwards.
    pub fn insert(&mut self, path: String, data: Vec<u8>)
        requires
            old(self).wf(),
        ensures
            final(self).wf(),
            final(self).spec_read(path@) == Some(data@),
            forall|k: Seq<char>|
                k != path@ ==> final(self).spec_read(k) == old(self).spec_read(k),
    {
        let n = self.entries.len();
        let mut i: usize = 0;
        while i < n && str_lt(self.entries[i].path.as_str(), path.as_str())
            invariant
                i <= n,
                n == self.entries@.len(),
                *self == *old(self),
                old(self).wf(),
                forall|j: int|
                    0 <= j < i ==> spec_lex_lt((#[trigger] self.spec_entries()[j]).0, path@),
            decreases n - i,
        {
            i = i + 1;
        }
        let ghost prev = self.spec_entries();
        proof {
            assert(prev == old(self).spec_entries());
            assert forall|p: int, q: int| 0 <= p < q < prev.len() implies spec_lex_lt(
                (#[trigger] prev[p]).0,
                (#[trigger] prev[q]).0,
            ) by {
                assert(spec_lex_lt(
                    (old(self).spec_entries()[p]).0,
                    (old(self).spec_entries()[q]).0,
                ));
            }
            assert forall|p: int, q: int| 0 <= p < q < prev.len() implies (#[trigger] prev[p]).0
                != (#[trigger] prev[q]).0 by {
                lemma_lex_lt_irrefl(prev[p].0);
                if prev[p].0 == prev[q].0 {
                    assert(spec_lex_lt(prev[p].0, prev[q].0));
                }
            }
        }
        if i < n && str_eq(self.entries[i].path.as_str(), path.as_str()) {
            self.entries.set(i, AssetEntry { path, data });
            proof {
                let cur = self.spec_entries();
                assert(cur =~= prev.update(i as int, (prev[i as int].0, data@)));
                lemma_bundle_update(prev, cur, i as int, prev[i as int].0, data@);
                assert forall|p: int, q: int| 0 <= p < q < cur.len() implies spec_lex_lt(
                    (#[trigger] cur[p]).0,
                    (#[trigger] cur[q]).0,
                ) by {
                    assert(cur[p].0 == prev[p].0);
                    assert(cur[q].0 == prev[q].0);
                    assert(spec_lex_lt(prev[p].0, prev[q].0));
                }
            }
            return ;
        }
        // `path` is not in the bundle: everything before `i` is smaller,
        // everything from `i` on is larger.
        proof {
            if i < prev.len() {
                assert(!spec_lex_lt(prev[i as int].0, path@));
            }
            assert forall|j: int| i <= j < prev.len() implies spec_lex_lt(
                path@,
                (#[trigger] prev[j]).0,
            ) by {
                assert(prev[j].0 != path@) by {
                    if j > i {
                        assert(spec_lex_lt(prev[i as int].0, prev[j].0));
                        if prev[j].0 == path@ {
                            assert(spec_lex_lt(prev[i as int].0, path@));
                            lemma_lex_lt_total(prev[i as int].0, path@);
                            lemma_lex_lt_trans(path@, prev[i as int].0, path@);
                            lemma_lex_lt_irrefl(path@);
                        }
                    } else {
                        if prev[j].0 == path@ {
                            assert(!spec_lex_lt(prev[i as int].0, path@));
                            lemma_lex_lt_irrefl(path@);
                        }
                    }
                }
                lemma_lex_lt_total(prev[j].0, path@);
                if spec_lex_lt(prev[j].0, path@) {
                    if j > i {
                        assert(spec_lex_lt(prev[i as int].0, prev[j].0));
                        lemma_lex_lt_trans(prev[i as int].0, prev[j].0, path@);
                    }
                    assert(false);
                }
            }
        }
        self.entries.insert(i, AssetEntry { path, data });
        proof {
            let cur = self.spec_entries();
            let ghost x = (cur[i as int].0, cur[i as int].1);
            assert(cur =~= prev.insert(i as int, x));
            lemma_bundle_insert(prev, cur, i as int, x);
        }
    }

    /// Whether a file exists under `path`.
    pub fn contains_path(&self, path: &str) -> (r: bool)
        ensures
            r == (self.spec_read(path@) is Some),
    {
        let n = self.entries.len();
        let mut i: usize = 0;
        while i < n
            invariant
                i <= n,
                n == self.entries@.len(),
                forall|j: int|
                    0 <= j < i ==> (#[trigger] self.spec_entries()[j]).0 != path@,
            decreases n - i,
        {
            if str_eq(self.entries[i].path.as_str(), path) {
                proof {
                    lemma_assoc_found(self.spec_entries(), i as int, path@);
                }
                return true;
            }
            i = i + 1;
        }
        proof {
            lemma_assoc_none(self.spec_entries(), path@);
        }
        false
    }

    /// The content filed under `path`, if any.
    pub fn read(&self, path: &str) -> (r: Option<Vec<u8>>)
        ensures
            self.spec_read(path@) is Some ==> r is Some && r.unwrap()@ == self.spec_read(
                path@,
            ).unwrap(),
            self.spec_read(path@) is None ==> r is None,
    {
        let n = self.entries.len();
        let mut i: usize = 0;
        while i < n
            invariant
                i <= n,
                n == self.entries@.len(),
                forall|j: int|
                    0 <= j < i ==> (#[trigger] self.spec_entries()[j]).0 != path@,
            decreases n - i,
        {
            if str_eq(self.entries[i].path.as_str(), path) {
                proof {
                    lemma_assoc_found(self.spec_entries(), i as int, path@);
                }
                return Some(self.entries[i].data.clone());
            }
            i = i + 1;
        }
        proof {
            lemma_assoc_none(self.spec_entries(), path@);
        }
        None
    }

    /// The paths matching `pattern`, in lexical order.
    pub fn glob_files(&self, pattern: &str) -> (r: Result<Vec<String>, AssetError>)
        ensures
            r is Ok <==> glob_pattern_ok(pattern@),
            r is Ok ==> r.unwrap().deep_view() == spec_glob_list(
                self.spec_entries(),
                pattern@,
            ).map_values(|p: (Seq<char>, Seq<u8>)| p.0),
            (r is Ok && self.wf()) ==> spec_strs_sorted(
                spec_glob_list(self.spec_entries(), pattern@).map_values(
                    |p: (Seq<char>, Seq<u8>)| p.0,
                ),
            ),
    {
        proof {
            if self.wf() {
                lemma_glob_list_sorted(self.spec_entries(), pattern@);
                let list = spec_glob_list(self.spec_entries(), pattern@);
                let ps = list.map_values(|p: (Seq<char>, Seq<u8>)| p.0);
                assert forall|i: int, j: int| 0 <= i < j < ps.len() implies spec_lex_lt(
                    #[trigger] ps[i],
                    #[trigger] ps[j],
                ) by {
                    assert(ps[i] == list[i].0);
                    assert(ps[j] == list[j].0);
                    assert(spec_lex_lt(list[i].0, list[j].0));
                }
            }
        }
        let matched = self.glob(pattern)?;
        let n = matched.len();
        let mut r: Vec<String> = Vec::new();
        let mut i: usize = 0;
        let ghost want = spec_glob_list(self.spec_entries(), pattern@).map_values(
            |p: (Seq<char>, Seq<u8>)| p.0,
        );
        while i < n
            invariant
                i <= n,
                n == matched@.len(),
                matched.deep_view() == spec_glob_list(self.spec_entries(), pattern@),
                want == spec_glob_list(self.spec_entries(), pattern@).map_values(
                    |p: (Seq<char>, Seq<u8>)| p.0,
                ),
                r.deep_view() =~= want.take(i as int),
            decreases n - i,
        {
            let ghost prevr = r.deep_view();
            r.push(matched[i].0.clone());
            proof {
                let ghost mi = matched@[i as int];
                assert(matched.deep_view()[i as int] == (mi.0@, mi.1.deep_view()));
                assert(r.deep_view() =~= prevr.push(mi.0@));
                assert(want.take(i + 1) =~= want.take(i as int).push(want[i as int]));
            }
            i = i + 1;
        }
        proof {
            assert(want.take(n as int) =~= want);
        }
        Ok(r)
    }

    /// The contents matching `pattern`, in lexical path order.
    pub fn glob_data(&self, pattern: &str) -> (r: Result<Vec<Vec<u8>>, AssetError>)
        ensures
            r is Ok <==> glob_pattern_ok(pattern@),
            r is Ok ==> r.unwrap().deep_view() == spec_glob_list(
                self.spec_entries(),
                pattern@,
            ).map_values(|p: (Seq<char>, Seq<u8>)| p.1),
    {
        let matched = self.glob(pattern)?;
        let n = matched.len();
        let mut r: Vec<Vec<u8>> = Vec::new();
        let mut i: usize = 0;
        let ghost want = spec_glob_list(self.spec_entries(), pattern@).map_values(
            |p: (Seq<char>, Seq<u8>)| p.1,
        );
        while i < n
            invariant
                i <= n,
                n == matched@.len(),
                matched.deep_view() == spec_glob_list(self.spec_entries(), pattern@),
                want == spec_glob_list(self.spec_entries(), pattern@).map_values(
                    |p: (Seq<char>, Seq<u8>)| p.1,
                ),
                r.deep_view() =~= want.take(i as int),
            decreases n - i,
        {
            let ghost prevr = r.deep_view();
            r.push(matched[i].1.clone());
            proof {
                let ghost mi = matched@[i as int];
                assert(matched.deep_view()[i as int] == (mi.0@, mi.1.deep_view()));
                assert(mi.1.deep_view() =~= mi.1@);
                assert(r.deep_view() =~= prevr.push(mi.1@));
                assert(want.take(i + 1) =~= want.take(i as int).push(want[i as int]));
            }
            i = i + 1;
        }
        proof {
            assert(want.take(n as int) =~= want);
        }
        Ok(r)
    }

    /// The path/content pairs matching `pattern`, in lexical path order.
    pub fn glob(&self, pattern: &str) -> (r: Result<Vec<(String, Vec<u8>)>, AssetError>)
        ensures
            r is Ok <==> glob_pattern_ok(pattern@),
            r is Ok ==> r.unwrap().deep_view() == spec_glob_list(
                self.spec_entries(),
                pattern@,
            ),
            (r is Ok && self.wf()) ==> spec_paths_sorted(
                spec_glob_list(self.spec_entries(), pattern@),
            ),
    {
        proof {
            if self.wf() {
                lemma_glob_list_sorted(self.spec_entries(), pattern@);
            }
        }
        if !glob_pattern_valid(pattern) {
            return Err(AssetError::BadPattern);
        }
        let n = self.entries.len();
        let mut r: Vec<(String, Vec<u8>)> = Vec::new();
        let mut i: usize = 0;
        proof {
            assert(self.spec_entries().skip(0) =~= self.spec_entries());
            assert(r.deep_view() =~= Seq::<(Seq<char>, Seq<u8>)>::empty());
        }
        while i < n
            invariant
                i <= n,
                n == self.entries@.len(),
                glob_pattern_ok(pattern@),
                spec_glob_list(self.spec_entries(), pattern@) =~= r.deep_view()
                    + spec_glob_list(self.spec_entries().skip(i as int), pattern@),
            decreases n - i,
        {
            let ghost rest = self.spec_entries().skip(i as int);
            proof {
                assert(rest[0] == self.spec_entries()[i as int]);
                assert(rest.skip(1) =~= self.spec_entries().skip(i + 1));
            }
            if glob_pattern_matches(pattern, self.entries[i].path.as_str()) {
                let ghost prevr = r.deep_view();
                let ghost e = self.entries@[i as int];
                r.push((self.entries[i].path.clone(), self.entries[i].data.clone()));
                proof {
                    assert(e.data.deep_view() =~= e.data@);
                    assert(r.deep_view() =~= prevr.push(self.spec_entries()[i as int]));
                    assert(prevr.push(self.spec_entries()[i as int]) =~= prevr + seq![
                        self.spec_entries()[i as int],
                    ]);
                    assert(prevr + (seq![rest[0]] + spec_glob_list(rest.skip(1), pattern@))
                        =~= (prevr + seq![rest[0]]) + spec_glob_list(rest.skip(1), pattern@));
                }
            }
            i = i + 1;
        }
        proof {
            assert(self.spec_entries().skip(n as int) =~= Seq::<(Seq<char>, Seq<u8>)>::empty());
            assert(r.deep_view() + Seq::<(Seq<char>, Seq<u8>)>::empty() =~= r.deep_view());
        }
        Ok(r)
    }
}

/// Path names in strictly increasing lexical order.
pub open spec fn spec_strs_sorted(ps: Seq<Seq<char>>) -> bool {
    forall|i: int, j: int|
        0 <= i < j < ps.len() ==> spec_lex_lt(#[trigger] ps[i], #[trigger] ps[j])
}

/// Paths in strictly increasing lexical order.
pub open spec fn spec_paths_sorted(entries: Seq<(Seq<char>, Seq<u8>)>) -> bool {
    forall|i: int, j: int|
        0 <= i < j < entries.len() ==> spec_lex_lt(
            (#[trigger] entries[i]).0,
            (#[trigger] entries[j]).0,
        )
}

/// Every matched entry is one of the entries it was drawn from.
proof fn lemma_glob_list_member(entries: Seq<(Seq<char>, Seq<u8>)>, pattern: Seq<char>, k: int)
    requires
        0 <= k < spec_glob_list(entries, pattern).len(),
    ensures
        exists|j: int|
            0 <= j < entries.len() && spec_glob_list(entries, pattern)[k] == #[trigger] entries[j],
    decreases entries.len(),
{
    if entries.len() > 0 {
        if glob_match_of(pattern, entries[0].0) {
            if k == 0 {
                assert(spec_glob_list(entries, pattern)[0] == entries[0]);
            } else {
                lemma_glob_list_member(entries.skip(1), pattern, k - 1);
                let j = choose|j: int|
                    0 <= j < entries.skip(1).len() && spec_glob_list(entries.skip(1), pattern)[k
                        - 1] == entries.skip(1)[j];
                assert(spec_glob_list(entries, pattern)[k] == entries[j + 1]);
            }
        } else {
            lemma_glob_list_member(entries.skip(1), pattern, k);
            let j = choose|j: int|
                0 <= j < entries.skip(1).len() && spec_glob_list(entries.skip(1), pattern)[k]
                    == entries.skip(1)[j];
            assert(spec_glob_list(entries, pattern)[k] == entries[j + 1]);
        }
    }
}

/// Law: filtering keeps the order: a wildcard query over a lexically sorted
/// bundle comes back lexically sorted, so dependent work is reproducible.
pub proof fn lemma_glob_list_sorted(entries: Seq<(Seq<char>, Seq<u8>)>, pattern: Seq<char>)
    requires
        spec_paths_sorted(entries),
    ensures
        spec_paths_sorted(spec_glob_list(entries, pattern)),
    decreases entries.len(),
{
    if entries.len() > 0 {
        let tail = entries.skip(1);
        assert forall|p: int, q: int| 0 <= p < q < tail.len() implies spec_lex_lt(
            (#[trigger] tail[p]).0,
            (#[trigger] tail[q]).0,
        ) by {
            assert(tail[p] == entries[p + 1]);
            assert(tail[q] == entries[q + 1]);
        }
        lemma_glob_list_sorted(tail, pattern);
        let result = spec_glob_list(entries, pattern);
        let rest = spec_glob_list(tail, pattern);
        if glob_match_of(pattern, entries[0].0) {
            assert forall|p: int, q: int| 0 <= p < q < result.len() implies spec_lex_lt(
                (#[trigger] result[p]).0,
                (#[trigger] result[q]).0,
            ) by {
                if p == 0 {
                    assert(result[q] == rest[q - 1]);
                    lemma_glob_list_member(tail, pattern, q - 1);
                    let j = choose|j: int| 0 <= j < tail.len() && rest[q - 1] == tail[j];
                    assert(tail[j] == entries[j + 1]);
                    assert(spec_lex_lt(entries[0].0, entries[j + 1].0));
                } else {
                    assert(result[p] == rest[p - 1]);
                    assert(result[q] == rest[q - 1]);
                    assert(spec_lex_lt(rest[p - 1].0, rest[q - 1].0));
                }
            }
        } else {
            assert(result =~= rest);
        }
    }
}

proof fn lemma_bundle_update(
    prev: Seq<(Seq<char>, Seq<u8>)>,
    cur: Seq<(Seq<char>, Seq<u8>)>,
    i: int,
    key: Seq<char>,
    value: Seq<u8>,
)
    requires
        0 <= i < prev.len(),
        cur == prev.update(i, (key, value)),
        prev[i].0 == key,
        forall|j: int| 0 <= j < i ==> (#[trigger] prev[j]).0 != key,
    ensures
        spec_assoc(cur, key) == Some(value),
        forall|k: Seq<char>| k != key ==> spec_assoc(cur, k) == spec_assoc(prev, k),
    decreases i,
{
    if i == 0 {
        assert(cur[0].0 == key);
        assert forall|k: Seq<char>| k != key implies spec_assoc(cur, k) == spec_assoc(
            prev,
            k,
        ) by {
            assert(cur.skip(1) =~= prev.skip(1));
        }
    } else {
        assert(cur[0] == prev[0]);
        assert(cur.skip(1) =~= prev.skip(1).update(i - 1, (key, value)));
        assert forall|j: int| 0 <= j < i - 1 implies (#[trigger] prev.skip(1)[j]).0 != key by {
            assert(prev.skip(1)[j] == prev[j + 1]);
        }
        lemma_bundle_update(prev.skip(1), cur.skip(1), i - 1, key, value);
        assert(spec_assoc(cur, key) == Some(value));
        assert forall|k: Seq<char>| k != key implies spec_assoc(cur, k) == spec_assoc(
            prev,
            k,
        ) by {
            if prev[0].0 == k {
                assert(spec_assoc(cur, k) == Some(cur[0].1));
            } else {
                assert(spec_assoc(cur, k) == spec_assoc(cur.skip(1), k));
                assert(spec_assoc(prev, k) == spec_assoc(prev.skip(1), k));
            }
        }
    }
}

proof fn lemma_bundle_insert(
    prev: Seq<(Seq<char>, Seq<u8>)>,
    cur: Seq<(Seq<char>, Seq<u8>)>,
    i: int,
    x: (Seq<char>, Seq<u8>),
)
    requires
        0 <= i <= prev.len(),
        cur == prev.insert(i, x),
        forall|j: int| 0 <= j < i ==> spec_lex_lt((#[trigger] prev[j]).0, x.0),
        forall|j: int| i <= j < prev.len() ==> spec_lex_lt(x.0, (#[trigger] prev[j]).0),
        forall|p: int, q: int|
            0 <= p < q < prev.len() ==> spec_lex_lt((#[trigger] prev[p]).0, (#[trigger] prev[q]).0),
    ensures
        spec_assoc(cur, x.0) == Some(x.1),
        forall|k: Seq<char>| k != x.0 ==> spec_assoc(cur, k) == spec_assoc(prev, k),
        forall|p: int, q: int|
            0 <= p < q < cur.len() ==> spec_lex_lt((#[trigger] cur[p]).0, (#[trigger] cur[q]).0),
{
    let front = prev.take(i);
    let back = prev.skip(i);
    assert(cur =~= front + (seq![x] + back));
    assert forall|j: int| 0 <= j < front.len() implies (#[trigger] front[j]).0 != x.0 by {
        assert(front[j] == prev[j]);
        assert(spec_lex_lt(prev[j].0, x.0));
        if prev[j].0 == x.0 {
            lemma_lex_lt_irrefl(x.0);
        }
    }
    lemma_assoc_none(front, x.0);
    lemma_assoc_append(front, seq![x] + back, x.0);
    assert((seq![x] + back)[0] == x);
    assert(spec_assoc(seq![x] + back, x.0) == Some(x.1));
    assert forall|k: Seq<char>| k != x.0 implies spec_assoc(cur, k) == spec_assoc(prev, k) by {
        lemma_assoc_append(front, seq![x] + back, k);
        lemma_assoc_append(front, back, k);
        assert(prev =~= front + back);
        assert((seq![x] + back)[0] == x);
        assert((seq![x] + back).skip(1) =~= back);
        assert(spec_assoc(seq![x] + back, k) == spec_assoc(back, k));
    }
    assert forall|p: int, q: int| 0 <= p < q < cur.len() implies spec_lex_lt(
        (#[trigger] cur[p]).0,
        (#[trigger] cur[q]).0,
    ) by {
        let pp = if p < i { prev[p] } else { prev[p - 1] };
        let qq = if q < i { prev[q] } else { prev[q - 1] };
        if p < i {
            assert(cur[p] == prev[p]);
        } else if p == i {
            assert(cur[p] == x);
        } else {
            assert(cur[p] == prev[p - 1]);
        }
        if q < i {
            assert(cur[q] == prev[q]);
        } else if q == i {
            assert(cur[q] == x);
        } else {
            assert(cur[q] == prev[q - 1]);
        }
    }
}

} // verus!
