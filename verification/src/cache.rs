//! The result cache: a durable key-value store from file path to the
//! last analysis result and the file's modification timestamp at
//! analysis time.
//!
//! A lookup hits only when the stored timestamp equals the file's
//! current one; any mismatch — including an unreadable timestamp — is a
//! miss, never an error.  A write overwrites any entry for the path.
//! Reading timestamps and persisting the table are the embedding's
//! duties: the current timestamp comes in as a plain value, and
//! [`Cache::entries`] hands the table out for the write-through
//! persistence step that follows every update.

use vstd::prelude::*;

use crate::analyzer::CodeAnalysis;
use crate::text::str_eq;

verus! {

/// One stored record: the modification timestamp seen at analysis time
/// and the analysis snapshot.
#[derive(Debug, PartialEq, Eq)]
pub struct CacheEntry {
    pub last_modified: u64,
    pub analysis: CodeAnalysis,
}

impl Clone for CacheEntry {
    /// A copy carrying the same facts.
    fn clone(&self) -> (r: Self)
        ensures
            r.last_modified == self.last_modified,
            r.analysis.like(&self.analysis),
    {
        CacheEntry { last_modified: self.last_modified, analysis: self.analysis.clone() }
    }
}

/// The mathematical model of the table: path, timestamp, snapshot; a
/// later record for the same path shadows an earlier one.
pub open spec fn spec_seq_lookup(s: Seq<(Seq<char>, u64, CodeAnalysis)>, key: Seq<char>) -> Option<
    (u64, CodeAnalysis),
>
    decreases s.len(),
{
    if s.len() == 0 {
        None
    } else if s.last().0 == key {
        Some((s.last().1, s.last().2))
    } else {
        spec_seq_lookup(s.drop_last(), key)
    }
}

/// What a cache lookup returns: a hit needs a stored entry whose
/// timestamp equals the current one; a missing timestamp is a miss.
pub open spec fn spec_cache_get(
    s: Seq<(Seq<char>, u64, CodeAnalysis)>,
    key: Seq<char>,
    current: Option<u64>,
) -> Option<CodeAnalysis> {
    match current {
        None => None,
        Some(t) => match spec_seq_lookup(s, key) {
            Some((m, a)) => if m == t {
                Some(a)
            } else {
                None
            },
            None => None,
        },
    }
}

/// The table with every record for `key` removed.
pub open spec fn spec_remove_key(s: Seq<(Seq<char>, u64, CodeAnalysis)>, key: Seq<char>) -> Seq<
    (Seq<char>, u64, CodeAnalysis),
>
    decreases s.len(),
{
    if s.len() == 0 {
        Seq::empty()
    } else {
        spec_remove_key(s.drop_last(), key) + (if s.last().0 == key {
            Seq::<(Seq<char>, u64, CodeAnalysis)>::empty()
        } else {
            seq![s.last()]
        })
    }
}

/// What a cache write produces: the old records for the path give way
/// to one new record carrying the current timestamp.
pub open spec fn spec_cache_set(
    s: Seq<(Seq<char>, u64, CodeAnalysis)>,
    key: Seq<char>,
    m: u64,
    a: CodeAnalysis,
) -> Seq<(Seq<char>, u64, CodeAnalysis)> {
    spec_remove_key(s, key).push((key, m, a))
}

/// Writing an entry and reading it back with an unchanged timestamp
/// returns exactly the written snapshot; a changed or unreadable
/// timestamp makes the same lookup a miss.
pub proof fn lemma_cache_round_trip(
    s: Seq<(Seq<char>, u64, CodeAnalysis)>,
    key: Seq<char>,
    m: u64,
    a: CodeAnalysis,
)
    ensures
        spec_cache_get(spec_cache_set(s, key, m, a), key, Some(m)) == Some(a),
        forall|m2: u64| m2 != m ==> spec_cache_get(spec_cache_set(s, key, m, a), key, Some(m2))
            is None,
        spec_cache_get(spec_cache_set(s, key, m, a), key, None) is None,
{
    let s2 = spec_cache_set(s, key, m, a);
    assert(s2.last() == (key, m, a));
}

/// The modification-time cache.
pub struct Cache {
    cache_file: String,
    entries: Vec<(String, CacheEntry)>,
}

impl Cache {
    /// The table as its mathematical model.
    pub closed spec fn model(&self) -> Seq<(Seq<char>, u64, CodeAnalysis)> {
        self.entries@.map_values(
            |p: (String, CacheEntry)| (p.0@, p.1.last_modified, p.1.analysis),
        )
    }

    /// The path the table is persisted under.
    pub closed spec fn file_spec(&self) -> Seq<char> {
        self.cache_file@
    }

    /// An empty cache that will persist under `cache_file`.  Loading
    /// previously persisted records — and treating a missing or corrupt
    /// store as simply empty — is the embedding's step: it replays them
    /// through [`Cache::set`].
    pub fn new(cache_file: &str) -> (r: Cache)
        ensures
            r.model() == Seq::<(Seq<char>, u64, CodeAnalysis)>::empty(),
            r.file_spec() == cache_file@,
    {
        let r = Cache { cache_file: cache_file.to_owned(), entries: Vec::new() };
        proof {
            assert(r.model() =~= Seq::<(Seq<char>, u64, CodeAnalysis)>::empty());
        }
        r
    }

    /// The persistence path.
    pub fn cache_file(&self) -> (r: &String)
        ensures
            r@ == self.file_spec(),
    {
        &self.cache_file
    }

    /// The stored records, for the write-through persistence step.
    pub fn entries(&self) -> (r: &Vec<(String, CacheEntry)>)
        ensures
            r@.map_values(|p: (String, CacheEntry)| (p.0@, p.1.last_modified, p.1.analysis))
                == self.model(),
    {
        &self.entries
    }

    /// Looks the path up: a hit only if a record exists and its stored
    /// timestamp equals `current_mtime`; `None` for the timestamp —
    /// the file's timestamp could not be read — is a miss, not an
    /// error.
    pub fn get(&self, file_path: &str, current_mtime: Option<u64>) -> (r: Option<&CodeAnalysis>)
        ensures
            match r {
                Some(a) => spec_cache_get(self.model(), file_path@, current_mtime) == Some(*a),
                None => spec_cache_get(self.model(), file_path@, current_mtime) is None,
            },
    {
        if current_mtime.is_none() {
            return None;
        }
        let t = current_mtime.unwrap();
        proof {
            assert(current_mtime == Some(t));
        }
        let n = self.entries.len();
        let mut i: usize = n;
        proof {
            assert(self.model().subrange(0, n as int) =~= self.model());
        }
        while i > 0
            invariant
                i <= n == self.entries@.len(),
                n == self.model().len(),
                current_mtime == Some(t),
                spec_seq_lookup(self.model(), file_path@) == spec_seq_lookup(
                    self.model().subrange(0, i as int),
                    file_path@,
                ),
            decreases i,
        {
            proof {
                assert(self.model()[i - 1] == (
                    self.entries@[i - 1].0@,
                    self.entries@[i - 1].1.last_modified,
                    self.entries@[i - 1].1.analysis,
                ));
                assert(self.model().subrange(0, i as int).last() == self.model()[i - 1]);
                assert(self.model().subrange(0, i as int).drop_last() =~= self.model().subrange(
                    0,
                    i - 1,
                ));
            }
            if str_eq(self.entries[i - 1].0.as_str(), file_path) {
                proof {
                    assert(self.model().subrange(0, i as int).last().0 == file_path@);
                    assert(spec_seq_lookup(self.model(), file_path@) == Some((
                        self.entries@[i - 1].1.last_modified,
                        self.entries@[i - 1].1.analysis,
                    )));
                }
                if self.entries[i - 1].1.last_modified == t {
                    proof {
                        assert(spec_cache_get(self.model(), file_path@, current_mtime) == Some(
                            self.entries@[i - 1].1.analysis,
                        ));
                    }
                    return Some(&self.entries[i - 1].1.analysis);
                } else {
                    proof {
                        assert(spec_cache_get(self.model(), file_path@, current_mtime) is None);
                    }
                    return None;
                }
            }
            i = i - 1;
        }
        proof {
            assert(self.model().subrange(0, 0) =~= Seq::<(Seq<char>, u64, CodeAnalysis)>::empty());
        }
        None
    }

    /// Stores the analysis for the path under the current timestamp,
    /// overwriting any existing record for that path.  The caller
    /// persists the whole table right after, so every write is durable.
    pub fn set(&mut self, file_path: String, last_modified: u64, analysis: CodeAnalysis)
        ensures
            final(self).model() == spec_cache_set(
                old(self).model(),
                file_path@,
                last_modified,
                analysis,
            ),
            final(self).file_spec() == old(self).file_spec(),
    {
        let ghost model0 = self.model();
        let ghost entries0 = self.entries@;
        let ghost file0 = self.cache_file@;
        let n = self.entries.len();
        let mut kept: Vec<(String, CacheEntry)> = Vec::new();
        let mut k: usize = 0;
        proof {
            assert(model0.subrange(0, 0) =~= Seq::<(Seq<char>, u64, CodeAnalysis)>::empty());
            assert(kept@.map_values(
                |p: (String, CacheEntry)| (p.0@, p.1.last_modified, p.1.analysis),
            ) =~= spec_remove_key(model0.subrange(0, 0), file_path@));
        }
        while k < n
            invariant
                k <= n == entries0.len(),
                n == model0.len(),
                self.cache_file@ == file0,
                self.entries@ == entries0.skip(k as int),
                model0 == entries0.map_values(
                    |p: (String, CacheEntry)| (p.0@, p.1.last_modified, p.1.analysis),
                ),
                kept@.map_values(
                    |p: (String, CacheEntry)| (p.0@, p.1.last_modified, p.1.analysis),
                ) =~= spec_remove_key(model0.subrange(0, k as int), file_path@),
            decreases n - k,
        {
            let ghost kept0 = kept@.map_values(
                |p: (String, CacheEntry)| (p.0@, p.1.last_modified, p.1.analysis),
            );
            proof {
                assert(entries0.skip(k as int)[0] == entries0[k as int]);
                assert(entries0.skip(k as int).drop_first() =~= entries0.skip(k + 1));
                assert(model0[k as int] == (
                    entries0[k as int].0@,
                    entries0[k as int].1.last_modified,
                    entries0[k as int].1.analysis,
                ));
                assert(model0.subrange(0, k + 1).last() == model0[k as int]);
                assert(model0.subrange(0, k + 1).drop_last() =~= model0.subrange(0, k as int));
            }
            let pair = self.entries.remove(0);
            let keep_it = !str_eq(pair.0.as_str(), file_path.as_str());
            if keep_it {
                kept.push(pair);
                proof {
                    assert(kept@.map_values(
                        |p: (String, CacheEntry)| (p.0@, p.1.last_modified, p.1.analysis),
                    ) =~= kept0.push(model0[k as int]));
                }
            }
            k = k + 1;
            proof {
                assert(kept@.map_values(
                    |p: (String, CacheEntry)| (p.0@, p.1.last_modified, p.1.analysis),
                ) =~= spec_remove_key(model0.subrange(0, k as int), file_path@));
            }
        }
        proof {
            assert(model0.subrange(0, n as int) =~= model0);
        }
        let entry = CacheEntry { last_modified, analysis };
        let ghost keyv = file_path@;
        kept.push((file_path, entry));
        self.entries = kept;
        proof {
            assert(self.model() =~= spec_cache_set(model0, keyv, last_modified, entry.analysis));
        }
    }
}

} // verus!
