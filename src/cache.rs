use vstd::prelude::*;
use vstd::hash_map::StringHashMap;
use crate::layout::Size;

verus! {

/// Why a texture could not be registered.
#[derive(Clone, Copy, Debug, PartialEq, Eq, Structural)]
pub enum CacheError {
    /// The display name already has a texture: each name is registered once.
    DuplicateKey,
}

/// Decoded images keyed by display name, each with its native size.
///
/// `H` is the handle of an uploaded texture. Entries are only ever added,
/// never replaced or evicted.
#[verifier::reject_recursive_types(H)]
pub struct TextureCache<H> {
    entries: StringHashMap<(H, Size)>,
}

impl<H> View for TextureCache<H> {
    type V = Map<Seq<char>, (H, Size)>;

    closed spec fn view(&self) -> Self::V {
        self.entries@
    }
}

/// The entries that a list of load outcomes yields: each name whose image
/// loaded maps to its handle and size.
pub open spec fn loaded_entries<H>(outcomes: Seq<(String, Option<(H, Size)>)>) -> Map<
    Seq<char>,
    (H, Size),
>
    decreases outcomes.len(),
{
    if outcomes.len() == 0 {
        Map::empty()
    } else {
        let rest = loaded_entries(outcomes.drop_first());
        match outcomes[0].1 {
            Some(e) => rest.insert(outcomes[0].0@, e),
            None => rest,
        }
    }
}

/// Two loaded outcomes share a display name.
pub open spec fn has_duplicate_loaded<H>(outcomes: Seq<(String, Option<(H, Size)>)>) -> bool {
    exists|i: int, j: int|
        0 <= i < j < outcomes.len() && outcomes[i].1 is Some && outcomes[j].1 is Some
            && #[trigger] outcomes[i].0@ == #[trigger] outcomes[j].0@
}

/// How many outcomes carry no image.
pub open spec fn count_missing<H>(outcomes: Seq<(String, Option<(H, Size)>)>) -> nat
    decreases outcomes.len(),
{
    if outcomes.len() == 0 {
        0
    } else {
        count_missing(outcomes.drop_first()) + if outcomes[0].1 is None {
            1nat
        } else {
            0nat
        }
    }
}

/// A name is cached exactly when some outcome with that name loaded.
proof fn lemma_loaded_keys<H>(outcomes: Seq<(String, Option<(H, Size)>)>, k: Seq<char>)
    ensures
        loaded_entries(outcomes).dom().finite(),
        loaded_entries(outcomes).contains_key(k) <==> exists|i: int|
            0 <= i < outcomes.len() && outcomes[i].1 is Some && #[trigger] outcomes[i].0@ == k,
    decreases outcomes.len(),
{
    if outcomes.len() > 0 {
        let rest = outcomes.drop_first();
        lemma_loaded_keys(rest, k);
        if loaded_entries(rest).contains_key(k) {
            let i = choose|i: int| 0 <= i < rest.len() && rest[i].1 is Some && #[trigger] rest[i].0@ == k;
            assert(outcomes[i + 1] == rest[i]);
        }
        if exists|i: int| 0 <= i < outcomes.len() && outcomes[i].1 is Some && #[trigger] outcomes[i].0@ == k {
            let i = choose|i: int| 0 <= i < outcomes.len() && outcomes[i].1 is Some && #[trigger] outcomes[i].0@ == k;
            if i > 0 {
                assert(rest[i - 1] == outcomes[i]);
            }
        }
    }
}

/// Missing-asset resilience: when the loaded names are distinct, the cache
/// built from `N` load outcomes of which `M` carry no image holds exactly
/// `N - M` entries.
pub proof fn lemma_cache_size_excludes_missing<H>(outcomes: Seq<(String, Option<(H, Size)>)>)
    requires
        !has_duplicate_loaded(outcomes),
    ensures
        loaded_entries(outcomes).len() == outcomes.len() - count_missing(outcomes),
    decreases outcomes.len(),
{
    if outcomes.len() > 0 {
        let rest = outcomes.drop_first();
        assert(!has_duplicate_loaded(rest)) by {
            if has_duplicate_loaded(rest) {
                let (i, j) = choose|i: int, j: int|
                    0 <= i < j < rest.len() && rest[i].1 is Some && rest[j].1 is Some
                        && #[trigger] rest[i].0@ == #[trigger] rest[j].0@;
                assert(outcomes[i + 1] == rest[i] && outcomes[j + 1] == rest[j]);
            }
        }
        lemma_cache_size_excludes_missing(rest);
        lemma_loaded_keys(rest, outcomes[0].0@);
        if outcomes[0].1 is Some {
            if loaded_entries(rest).contains_key(outcomes[0].0@) {
                let i = choose|i: int| 0 <= i < rest.len() && rest[i].1 is Some && #[trigger] rest[i].0@ == outcomes[0].0@;
                assert(outcomes[i + 1] == rest[i]);
                assert(outcomes[0].0@ == outcomes[i + 1].0@);
            }
        }
    }
}

/// Looking up the same key twice in a cache gives the same entry both times.
pub proof fn lemma_lookup_stable<H>(
    cache: &TextureCache<H>,
    key: Seq<char>,
    first: Option<&(H, Size)>,
    second: Option<&(H, Size)>,
)
    requires
        cache.is_lookup_of(key, first),
        cache.is_lookup_of(key, second),
    ensures
        first == second,
{
}

impl<H> TextureCache<H> {
    /// An empty cache.
    pub fn new() -> (r: Self)
        ensures
            r@ == Map::<Seq<char>, (H, Size)>::empty(),
    {
        TextureCache { entries: StringHashMap::new() }
    }

    /// The number of cached textures.
    pub fn len(&self) -> (r: usize)
        ensures
            r == self@.len(),
    {
        self.entries.len()
    }

    /// Stores `handle` and its native `size` under `key`.
    ///
    /// A key that is already cached is refused and the cache is left as it was.
    pub fn register(&mut self, key: String, handle: H, size: Size) -> (r: Result<(), CacheError>)
        ensures
            old(self)@.contains_key(key@) ==> r == Err::<(), CacheError>(CacheError::DuplicateKey)
                && final(self)@ == old(self)@,
            !old(self)@.contains_key(key@) ==> r is Ok && final(self)@ == old(self)@.insert(
                key@,
                (handle, size),
            ),
    {
        if self.entries.contains_key(key.as_str()) {
            return Err(CacheError::DuplicateKey);
        }
        self.entries.insert(key, (handle, size));
        Ok(())
    }

    /// `r` is what a lookup of `key` in this cache gives.
    pub open spec fn is_lookup_of(&self, key: Seq<char>, r: Option<&(H, Size)>) -> bool {
        match r {
            Some(e) => self@.contains_key(key) && *e == self@[key],
            None => !self@.contains_key(key),
        }
    }

    /// The handle and native size cached under `key`, if any.
    pub fn lookup(&self, key: &str) -> (r: Option<&(H, Size)>)
        ensures
            self.is_lookup_of(key@, r),
    {
        self.entries.get(key)
    }

    /// Builds the cache from the load outcome of each capture record: the
    /// records whose image loaded are registered under their display names,
    /// the others are left out.
    ///
    /// Fails with `DuplicateKey` exactly when two loaded records share a name.
    pub fn from_loaded(outcomes: Vec<(String, Option<(H, Size)>)>) -> (r: Result<Self, CacheError>)
        ensures
            r is Ok <==> !has_duplicate_loaded(outcomes@),
            r matches Ok(c) ==> c@ == loaded_entries(outcomes@),
            r matches Err(e) ==> e == CacheError::DuplicateKey,
    {
        let ghost all = outcomes@;
        let mut rest = outcomes;
        let mut cache = TextureCache::new();
        while rest.len() > 0
            invariant
                outcomes@ == all,
                rest@ == all.take(rest@.len() as int),
                rest@.len() <= all.len(),
                cache@ == loaded_entries(all.subrange(rest@.len() as int, all.len() as int)),
                !has_duplicate_loaded(all.subrange(rest@.len() as int, all.len() as int)),
            decreases rest@.len(),
        {
            let ghost n = rest@.len() as int;
            let ghost tail = all.subrange(n, all.len() as int);
            let ghost longer = all.subrange(n - 1, all.len() as int);
            let (name, outcome) = rest.pop().unwrap();
            assert(rest@ == all.take(n - 1));
            assert(longer.drop_first() =~= tail);
            assert(longer[0] == (name, outcome));
            match outcome {
                Some(entry) => {
                    if cache.entries.contains_key(name.as_str()) {
                        proof {
                            lemma_loaded_keys(tail, name@);
                            let j = choose|j: int| 0 <= j < tail.len() && tail[j].1 is Some && #[trigger] tail[j].0@ == name@;
                            assert(all[n - 1] == longer[0]);
                            assert(all[n + j] == tail[j]);
                            assert(all[n - 1].0@ == all[n + j].0@);
                            assert(all[n - 1].1 is Some);
                            assert(has_duplicate_loaded(all));
                        }
                        return Err(CacheError::DuplicateKey);
                    }
                    proof {
                        lemma_loaded_keys(tail, name@);
                    }
                    cache.entries.insert(name, entry);
                },
                None => {},
            }
            assert(!has_duplicate_loaded(longer)) by {
                if has_duplicate_loaded(longer) {
                    let (i, j) = choose|i: int, j: int|
                        0 <= i < j < longer.len() && longer[i].1 is Some && longer[j].1 is Some
                            && #[trigger] longer[i].0@ == #[trigger] longer[j].0@;
                    if i > 0 {
                        assert(tail[i - 1] == longer[i] && tail[j - 1] == longer[j]);
                    } else {
                        assert(tail[j - 1] == longer[j]);
                    }
                }
            }
        }
        assert(all.subrange(0, all.len() as int) =~= all);
        Ok(cache)
    }
}

} // verus!
