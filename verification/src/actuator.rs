//! Debounced actuator layer.
//!
//! The cache remembers the last value written to each actuator file (files
//! are identified by small integer node keys; the outer layer maps keys to
//! paths).  A write is skipped when the target equals the cached value; a
//! forced write first re-reads the file and repairs the cache when the file
//! already holds the target.  The outer layer performs the actual file
//! probe, read and write, and feeds their results in as plain values.

use vstd::prelude::*;
use vstd::string::StrSliceExecFns;

verus! {

/// Last-written value per node, later entries never duplicating a key.
pub struct ActuatorCache {
    entries: Vec<(u64, u64)>,
}

/// Map denoted by an association list with unique keys.
pub open spec fn entries_map(s: Seq<(u64, u64)>) -> Map<u64, u64>
    decreases s.len(),
{
    if s.len() == 0 {
        Map::empty()
    } else {
        entries_map(s.drop_last()).insert(s.last().0, s.last().1)
    }
}

pub open spec fn keys_unique(s: Seq<(u64, u64)>) -> bool {
    forall|i: int, j: int| 0 <= i < j < s.len() ==> s[i].0 != s[j].0
}

proof fn lemma_entries_map_domain(s: Seq<(u64, u64)>, k: u64)
    ensures
        entries_map(s).contains_key(k) <==> exists|i: int| 0 <= i < s.len() && s[i].0 == k,
    decreases s.len(),
{
    if s.len() > 0 {
        lemma_entries_map_domain(s.drop_last(), k);
        if s.last().0 == k {
            assert(s[s.len() - 1].0 == k);
        } else if entries_map(s).contains_key(k) {
            let i = choose|i: int| 0 <= i < s.drop_last().len() && s.drop_last()[i].0 == k;
            assert(s[i].0 == k);
        } else {
            assert forall|i: int| 0 <= i < s.len() implies s[i].0 != k by {
                if i < s.len() - 1 {
                    assert(s.drop_last()[i].0 == s[i].0);
                }
            }
        }
    }
}

proof fn lemma_entries_map_value(s: Seq<(u64, u64)>, i: int)
    requires
        keys_unique(s),
        0 <= i < s.len(),
    ensures
        entries_map(s).contains_key(s[i].0),
        entries_map(s)[s[i].0] == s[i].1,
    decreases s.len(),
{
    lemma_entries_map_domain(s, s[i].0);
    if i < s.len() - 1 {
        assert(s.drop_last()[i] == s[i]);
        lemma_entries_map_value(s.drop_last(), i);
        assert(s[i].0 != s.last().0);
    }
}

proof fn lemma_entries_map_update(s: Seq<(u64, u64)>, i: int, v: u64)
    requires
        keys_unique(s),
        0 <= i < s.len(),
    ensures
        entries_map(s.update(i, (s[i].0, v))) == entries_map(s).insert(s[i].0, v),
    decreases s.len(),
{
    let k = s[i].0;
    let t = s.update(i, (k, v));
    if i == s.len() - 1 {
        assert(t.drop_last() =~= s.drop_last());
        assert(t.last() == (k, v));
        assert(entries_map(t) == entries_map(s.drop_last()).insert(k, v));
        assert(entries_map(s).insert(k, v) =~= entries_map(s.drop_last()).insert(k, s[i].1).insert(
            k,
            v,
        ));
        assert(entries_map(s.drop_last()).insert(k, s[i].1).insert(k, v)
            =~= entries_map(s.drop_last()).insert(k, v));
    } else {
        assert(t.drop_last() =~= s.drop_last().update(i, (k, v)));
        assert(s.drop_last()[i] == s[i]);
        lemma_entries_map_update(s.drop_last(), i, v);
        assert(t.last() == s.last());
        assert(s.last().0 != k);
        assert(entries_map(t) == entries_map(s.drop_last()).insert(k, v).insert(
            s.last().0,
            s.last().1,
        ));
        assert(entries_map(s.drop_last()).insert(k, v).insert(s.last().0, s.last().1)
            =~= entries_map(s.drop_last()).insert(s.last().0, s.last().1).insert(k, v));
    }
}

impl View for ActuatorCache {
    type V = Map<u64, u64>;

    closed spec fn view(&self) -> Map<u64, u64> {
        entries_map(self.entries@)
    }
}

impl ActuatorCache {
    /// Internal shape the public methods preserve.
    pub closed spec fn wf(self) -> bool {
        keys_unique(self.entries@)
    }

    /// Empty cache: nothing has been written yet.
    pub fn new() -> (c: ActuatorCache)
        ensures
            c.wf(),
            c@ == Map::<u64, u64>::empty(),
    {
        ActuatorCache { entries: Vec::new() }
    }

    /// Cached last-written value for a node, if any.
    pub fn get(&self, node: u64) -> (r: Option<u64>)
        requires
            self.wf(),
        ensures
            r == if self@.contains_key(node) {
                Some(self@[node])
            } else {
                None::<u64>
            },
    {
        let n = self.entries.len();
        let mut i: usize = 0;
        while i < n
            invariant
                self.wf(),
                n == self.entries@.len(),
                i <= n,
                forall|j: int| 0 <= j < i ==> self.entries@[j].0 != node,
            decreases n - i,
        {
            if self.entries[i].0 == node {
                proof {
                    lemma_entries_map_value(self.entries@, i as int);
                }
                return Some(self.entries[i].1);
            }
            i = i + 1;
        }
        proof {
            lemma_entries_map_domain(self.entries@, node);
        }
        None
    }

    /// Record `val` as the last value written to `node`.
    pub fn set(&mut self, node: u64, val: u64)
        requires
            old(self).wf(),
        ensures
            final(self).wf(),
            final(self)@ == old(self)@.insert(node, val),
    {
        let n = self.entries.len();
        let mut i: usize = 0;
        while i < n
            invariant
                old(self).wf(),
                *self == *old(self),
                n == self.entries@.len(),
                i <= n,
                forall|j: int| 0 <= j < i ==> self.entries@[j].0 != node,
            decreases n - i,
        {
            if self.entries[i].0 == node {
                proof {
                    lemma_entries_map_update(self.entries@, i as int, val);
                }
                self.entries[i] = (node, val);
                return ;
            }
            i = i + 1;
        }
        proof {
            let s = self.entries@;
            assert(s.push((node, val)).drop_last() =~= s);
            lemma_entries_map_domain(s, node);
        }
        self.entries.push((node, val));
    }
}

/// What one debounced write does to the filesystem: nothing, a cache repair
/// (the file already held the target), or an actual write.
#[derive(Clone, Copy, Debug, PartialEq, Eq, Structural)]
pub enum WriteStep {
    Unchanged,
    CacheRepair,
    DoWrite,
}

/// Decision rule of the debounced write.  A missing file is a silent no-op;
/// an unforced write with an up-to-date cache entry is skipped; a forced
/// write whose re-read already shows the target only repairs the cache;
/// everything else writes.
pub open spec fn spec_write_step(
    cache: Map<u64, u64>,
    node: u64,
    target: u64,
    force_check: bool,
    path_exists: bool,
    current: Option<u64>,
) -> WriteStep {
    if !path_exists {
        WriteStep::Unchanged
    } else if !force_check && cache.contains_key(node) && cache[node] == target {
        WriteStep::Unchanged
    } else if force_check && current == Some(target) {
        WriteStep::CacheRepair
    } else {
        WriteStep::DoWrite
    }
}

/// Cache contents after one debounced write whose decision was `step`.
/// `write_ok` says whether an actual write went through; a failed write
/// leaves the cache untouched so the next tick naturally retries.
pub open spec fn spec_cache_after(
    cache: Map<u64, u64>,
    node: u64,
    target: u64,
    step: WriteStep,
    write_ok: bool,
) -> Map<u64, u64> {
    match step {
        WriteStep::Unchanged => cache,
        WriteStep::CacheRepair => cache.insert(node, target),
        WriteStep::DoWrite => if write_ok {
            cache.insert(node, target)
        } else {
            cache
        },
    }
}

/// Decide what a debounced numeric write must do.  `path_exists` and
/// `current` are the file probe and (for forced writes) the re-read value,
/// supplied by the outer layer; the decision is a pure function of them and
/// the cache.  On `CacheRepair`, and on `DoWrite` once the write succeeded,
/// the caller records the target with [`ActuatorCache::set`].
pub fn write_u64_if_needed(
    cache: &ActuatorCache,
    node: u64,
    target: u64,
    force_check: bool,
    path_exists: bool,
    current: Option<u64>,
) -> (d: WriteStep)
    requires
        cache.wf(),
    ensures
        d == spec_write_step(cache@, node, target, force_check, path_exists, current),
{
    if !path_exists {
        return WriteStep::Unchanged;
    }
    if !force_check {
        if let Some(last) = cache.get(node) {
            if last == target {
                return WriteStep::Unchanged;
            }
        }
    }
    if force_check {
        if let Some(cur) = current {
            if cur == target {
                return WriteStep::CacheRepair;
            }
        }
    }
    WriteStep::DoWrite
}

/// Number of filesystem writes performed by `n` consecutive unforced
/// debounced writes of the same target to the same existing node, the cache
/// evolving after each step.
pub open spec fn spec_repeat_unforced_writes(
    cache: Map<u64, u64>,
    node: u64,
    target: u64,
    n: nat,
) -> nat
    decreases n,
{
    if n == 0 {
        0
    } else {
        let d = spec_write_step(cache, node, target, false, true, None);
        let w: nat = if d == WriteStep::DoWrite {
            1
        } else {
            0
        };
        w + spec_repeat_unforced_writes(
            spec_cache_after(cache, node, target, d, true),
            node,
            target,
            (n - 1) as nat,
        )
    }
}

/// Debounce law: once the cache holds the target for a node, any number of
/// consecutive unforced writes of that same target performs zero filesystem
/// writes.
pub proof fn lemma_debounced_repeat_no_write(cache: Map<u64, u64>, node: u64, target: u64, n: nat)
    requires
        cache.contains_key(node),
        cache[node] == target,
    ensures
        spec_repeat_unforced_writes(cache, node, target, n) == 0,
    decreases n,
{
    if n > 0 {
        lemma_debounced_repeat_no_write(cache, node, target, (n - 1) as nat);
    }
}

/// A successful write settles the cache: after it, any number of unforced
/// repeats of the same target performs no further filesystem write.
pub proof fn lemma_write_then_silent(cache: Map<u64, u64>, node: u64, target: u64, n: nat)
    ensures
        spec_repeat_unforced_writes(cache.insert(node, target), node, target, n) == 0,
{
    lemma_debounced_repeat_no_write(cache.insert(node, target), node, target, n);
}

/// Last-written text per node (the governor string uses this), later
/// entries never duplicating a key.
pub struct StrActuatorCache {
    entries: Vec<(u64, String)>,
}

/// Map denoted by a string association list with unique keys, each value
/// by its text.
pub open spec fn str_entries_map(s: Seq<(u64, String)>) -> Map<u64, Seq<char>>
    decreases s.len(),
{
    if s.len() == 0 {
        Map::empty()
    } else {
        str_entries_map(s.drop_last()).insert(s.last().0, s.last().1@)
    }
}

pub open spec fn str_keys_unique(s: Seq<(u64, String)>) -> bool {
    forall|i: int, j: int| 0 <= i < j < s.len() ==> s[i].0 != s[j].0
}

proof fn lemma_str_entries_map_domain(s: Seq<(u64, String)>, k: u64)
    ensures
        str_entries_map(s).contains_key(k) <==> exists|i: int| 0 <= i < s.len() && s[i].0 == k,
    decreases s.len(),
{
    if s.len() > 0 {
        lemma_str_entries_map_domain(s.drop_last(), k);
        if s.last().0 == k {
            assert(s[s.len() - 1].0 == k);
        } else if str_entries_map(s).contains_key(k) {
            let i = choose|i: int| 0 <= i < s.drop_last().len() && s.drop_last()[i].0 == k;
            assert(s[i].0 == k);
        } else {
            assert forall|i: int| 0 <= i < s.len() implies s[i].0 != k by {
                if i < s.len() - 1 {
                    assert(s.drop_last()[i].0 == s[i].0);
                }
            }
        }
    }
}

proof fn lemma_str_entries_map_value(s: Seq<(u64, String)>, i: int)
    requires
        str_keys_unique(s),
        0 <= i < s.len(),
    ensures
        str_entries_map(s).contains_key(s[i].0),
        str_entries_map(s)[s[i].0] == s[i].1@,
    decreases s.len(),
{
    lemma_str_entries_map_domain(s, s[i].0);
    if i < s.len() - 1 {
        assert(s.drop_last()[i] == s[i]);
        lemma_str_entries_map_value(s.drop_last(), i);
        assert(s[i].0 != s.last().0);
    }
}

proof fn lemma_str_entries_map_update(s: Seq<(u64, String)>, i: int, v: String)
    requires
        str_keys_unique(s),
        0 <= i < s.len(),
    ensures
        str_entries_map(s.update(i, (s[i].0, v))) == str_entries_map(s).insert(s[i].0, v@),
    decreases s.len(),
{
    let k = s[i].0;
    let t = s.update(i, (k, v));
    if i == s.len() - 1 {
        assert(t.drop_last() =~= s.drop_last());
        assert(t.last() == (k, v));
        assert(str_entries_map(t) == str_entries_map(s.drop_last()).insert(k, v@));
        assert(str_entries_map(s).insert(k, v@) =~= str_entries_map(s.drop_last()).insert(
            k,
            s[i].1@,
        ).insert(k, v@));
        assert(str_entries_map(s.drop_last()).insert(k, s[i].1@).insert(k, v@)
            =~= str_entries_map(s.drop_last()).insert(k, v@));
    } else {
        assert(t.drop_last() =~= s.drop_last().update(i, (k, v)));
        assert(s.drop_last()[i] == s[i]);
        lemma_str_entries_map_update(s.drop_last(), i, v);
        assert(t.last() == s.last());
        assert(s.last().0 != k);
        assert(str_entries_map(t) == str_entries_map(s.drop_last()).insert(k, v@).insert(
            s.last().0,
            s.last().1@,
        ));
        assert(str_entries_map(s.drop_last()).insert(k, v@).insert(s.last().0, s.last().1@)
            =~= str_entries_map(s.drop_last()).insert(s.last().0, s.last().1@).insert(k, v@));
    }
}

impl View for StrActuatorCache {
    type V = Map<u64, Seq<char>>;

    closed spec fn view(&self) -> Map<u64, Seq<char>> {
        str_entries_map(self.entries@)
    }
}

impl StrActuatorCache {
    /// Internal shape the public methods preserve.
    pub closed spec fn wf(self) -> bool {
        str_keys_unique(self.entries@)
    }

    /// Empty cache: nothing has been written yet.
    pub fn new() -> (c: StrActuatorCache)
        ensures
            c.wf(),
            c@ == Map::<u64, Seq<char>>::empty(),
    {
        StrActuatorCache { entries: Vec::new() }
    }

    /// Cached last-written text for a node, if any.
    pub fn get(&self, node: u64) -> (r: Option<&String>)
        requires
            self.wf(),
        ensures
            match r {
                Some(v) => self@.contains_key(node) && self@[node] == v@,
                None => !self@.contains_key(node),
            },
    {
        let n = self.entries.len();
        let mut i: usize = 0;
        while i < n
            invariant
                self.wf(),
                n == self.entries@.len(),
                i <= n,
                forall|j: int| 0 <= j < i ==> self.entries@[j].0 != node,
            decreases n - i,
        {
            if self.entries[i].0 == node {
                proof {
                    lemma_str_entries_map_value(self.entries@, i as int);
                }
                return Some(&self.entries[i].1);
            }
            i = i + 1;
        }
        proof {
            lemma_str_entries_map_domain(self.entries@, node);
        }
        None
    }

    /// Record `val` as the last text written to `node`.
    pub fn set(&mut self, node: u64, val: String)
        requires
            old(self).wf(),
        ensures
            final(self).wf(),
            final(self)@ == old(self)@.insert(node, val@),
    {
        let n = self.entries.len();
        let mut i: usize = 0;
        while i < n
            invariant
                old(self).wf(),
                *self == *old(self),
                n == self.entries@.len(),
                i <= n,
                forall|j: int| 0 <= j < i ==> self.entries@[j].0 != node,
            decreases n - i,
        {
            if self.entries[i].0 == node {
                proof {
                    lemma_str_entries_map_update(self.entries@, i as int, val);
                }
                self.entries[i] = (node, val);
                return ;
            }
            i = i + 1;
        }
        proof {
            let s = self.entries@;
            assert(s.push((node, val)).drop_last() =~= s);
            lemma_str_entries_map_domain(s, node);
        }
        self.entries.push((node, val));
    }
}

/// Decision rule of the debounced text write, the forced re-read compared
/// after trimming (drift in surrounding whitespace does not force a
/// rewrite).
pub open spec fn spec_write_str_step(
    cache: Map<u64, Seq<char>>,
    node: u64,
    target: Seq<char>,
    force_check: bool,
    path_exists: bool,
    current: Option<Seq<char>>,
) -> WriteStep {
    if !path_exists {
        WriteStep::Unchanged
    } else if !force_check && cache.contains_key(node) && cache[node] == target {
        WriteStep::Unchanged
    } else if force_check && (match current {
        Some(c) => crate::text::spec_trim_chars(c) == target,
        None => false,
    }) {
        WriteStep::CacheRepair
    } else {
        WriteStep::DoWrite
    }
}

/// Decide what a debounced text write must do; the caller performs the
/// write and records the target with [`StrActuatorCache::set`] on
/// `CacheRepair` and on a successful `DoWrite`.
pub fn write_str_if_needed(
    cache: &StrActuatorCache,
    node: u64,
    target: &str,
    force_check: bool,
    path_exists: bool,
    current: Option<&str>,
) -> (d: WriteStep)
    requires
        cache.wf(),
    ensures
        d == spec_write_str_step(
            cache@,
            node,
            target@,
            force_check,
            path_exists,
            match current {
                Some(c) => Some(c@),
                None => None,
            },
        ),
{
    if !path_exists {
        return WriteStep::Unchanged;
    }
    if !force_check {
        if let Some(last) = cache.get(node) {
            if crate::text::str_eq_chars(last.as_str(), target) {
                return WriteStep::Unchanged;
            }
        }
    }
    if force_check {
        if let Some(cur) = current {
            let n = cur.unicode_len();
            let (a, b) = crate::text::trim_char_bounds(cur, 0, n);
            proof {
                assert(cur@.subrange(0, n as int) =~= cur@);
            }
            if crate::text::range_eq_str(cur, a, b, target) {
                return WriteStep::CacheRepair;
            }
        }
    }
    WriteStep::DoWrite
}

} // verus!
