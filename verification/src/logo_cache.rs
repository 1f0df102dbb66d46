//! The cache of agent logo images, filled from the bundled assets on first
//! use.
use vstd::prelude::*;
use crate::search::{first_match, lemma_first_match_at, lemma_first_match_none};
use crate::text::str_eq;

verus! {

/// Files bundled with the application: a path and its bytes.
pub struct AssetStore {
    pub files: Vec<(String, Vec<u8>)>,
}

/// Logo bytes already read, by path.
pub struct LogoCache {
    entries: Vec<(String, Vec<u8>)>,
}

pub open spec fn keyed(path: Seq<char>) -> spec_fn((String, Vec<u8>)) -> bool {
    |e: (String, Vec<u8>)| e.0@ == path
}

/// The bytes stored under `path` in `entries` (the first entry for it).
pub open spec fn lookup(entries: Seq<(String, Vec<u8>)>, path: Seq<char>) -> Option<Seq<u8>> {
    match first_match(entries, keyed(path)) {
        Some(i) => Some(entries[i].1@),
        None => None,
    }
}

/// Every cached logo holds the bytes that the assets hold for its path.
pub open spec fn cache_agrees(c: LogoCache, assets: AssetStore) -> bool {
    forall|i: int|
        0 <= i < c.cached().len() ==> lookup(assets.files@, (#[trigger] c.cached()[i]).0@) == Some(
            c.cached()[i].1@,
        )
}

pub open spec fn opt_bytes(o: Option<Vec<u8>>) -> Option<Seq<u8>> {
    match o {
        Some(v) => Some(v@),
        None => None,
    }
}

impl LogoCache {
    /// No path is cached twice.
    #[verifier::type_invariant]
    spec fn no_path_twice(self) -> bool {
        forall|i: int, j: int|
            0 <= i < j < self.entries@.len() ==> (#[trigger] self.entries@[i]).0@ != (
            #[trigger] self.entries@[j]).0@
    }

    /// The cached logos, in the order they were read.
    pub closed spec fn cached(self) -> Seq<(String, Vec<u8>)> {
        self.entries@
    }

    pub fn new() -> (r: LogoCache)
        ensures
            r.cached().len() == 0,
            forall|assets: AssetStore| #[trigger] cache_agrees(r, assets),
    {
        LogoCache { entries: Vec::new() }
    }

    /// How many logos are cached.
    pub fn len(&self) -> (r: usize)
        ensures
            r == self.cached().len(),
    {
        self.entries.len()
    }
}

fn find_entry(entries: &Vec<(String, Vec<u8>)>, path: &str) -> (r: Option<usize>)
    ensures
        match r {
            Some(i) => i < entries.len() && first_match(entries@, keyed(path@)) == Some(i as int),
            None => first_match(entries@, keyed(path@)) is None,
        },
{
    let ghost p = keyed(path@);
    let mut i: usize = 0;
    while i < entries.len()
        invariant
            i <= entries.len(),
            p == keyed(path@),
            forall|j: int| 0 <= j < i ==> !p(#[trigger] entries@[j]),
        decreases entries.len() - i,
    {
        if str_eq(entries[i].0.as_str(), path) {
            proof {
                lemma_first_match_at(entries@, p, i as int);
            }
            return Some(i);
        }
        i = i + 1;
    }
    proof {
        lemma_first_match_none(entries@, p);
    }
    None
}

fn copy_bytes(v: &Vec<u8>) -> (r: Vec<u8>)
    ensures
        r@ == v@,
{
    let mut r: Vec<u8> = Vec::new();
    let mut i: usize = 0;
    while i < v.len()
        invariant
            i <= v.len(),
            r@ == v@.take(i as int),
        decreases v.len() - i,
    {
        r.push(v[i]);
        i = i + 1;
        assert(r@ == v@.take(i as int));
    }
    assert(v@.take(v.len() as int) == v@);
    r
}

/// The bytes of logo `path`: from the cache where it holds them, else from
/// the bundled assets (and then kept in the cache; a path the assets lack is
/// not cached). A cache that agrees with the assets (as a new one does) keeps
/// agreeing, and every load then gives the assets' bytes for the path.
pub fn load_logo_bytes(cache: &mut LogoCache, path: &str, assets: &AssetStore) -> (r: Option<
    Vec<u8>,
>)
    ensures
        match lookup(old(cache).cached(), path@) {
            Some(b) => r matches Some(v) && v@ == b && final(cache).cached() == old(cache).cached(),
            None => match lookup(assets.files@, path@) {
                Some(b) => r matches Some(v) && v@ == b && final(cache).cached().len() == old(cache).cached().len() + 1 && final(cache).cached().take(
                    old(cache).cached().len() as int,
                ) == old(cache).cached() && final(cache).cached().last().0@ == path@
                    && final(cache).cached().last().1@ == b,
                None => r is None && final(cache).cached() == old(cache).cached(),
            },
        },
        cache_agrees(*old(cache), *assets) ==> cache_agrees(*final(cache), *assets) && opt_bytes(r)
            == lookup(assets.files@, path@),
{
    proof {
        use_type_invariant(&*cache);
    }
    if let Some(i) = find_entry(&cache.entries, path) {
        proof {
            if cache_agrees(*cache, *assets) {
                assert(lookup(assets.files@, cache.entries@[i as int].0@) == Some(
                    cache.entries@[i as int].1@,
                ));
            }
        }
        return Some(copy_bytes(&cache.entries[i].1));
    }
    let ai = match find_entry(&assets.files, path) {
        Some(i) => i,
        None => return None,
    };
    let bytes = copy_bytes(&assets.files[ai].1);
    let ghost before = cache.entries@;
    proof {
        assert forall|j: int| 0 <= j < before.len() implies (#[trigger] before[j]).0@ != path@ by {
            if before[j].0@ == path@ {
                crate::search::lemma_first_exists(before, keyed(path@), j);
            }
        }
    }
    let mut entries: Vec<(String, Vec<u8>)> = Vec::new();
    std::mem::swap(&mut entries, &mut cache.entries);
    entries.push((path.to_owned(), copy_bytes(&bytes)));
    cache.entries = entries;
    assert(cache.entries@.take(before.len() as int) == before);
    proof {
        assert forall|k: int| 0 <= k < before.len() implies #[trigger] cache.entries@[k] == before[k] by {}
    }
    Some(bytes)
}

/// A logo read once is read again from the cache, with the same bytes,
/// whatever the assets hold by then.
pub proof fn lemma_cached_logo_is_stable(
    before: Seq<(String, Vec<u8>)>,
    after: Seq<(String, Vec<u8>)>,
    path: Seq<char>,
    b: Seq<u8>,
)
    requires
        lookup(before, path) is None,
        after.len() == before.len() + 1,
        after.take(before.len() as int) == before,
        after.last().0@ == path,
        after.last().1@ == b,
    ensures
        lookup(after, path) == Some(b),
{
    let n = before.len() as int;
    assert forall|j: int| 0 <= j < n implies !keyed(path)(#[trigger] after[j]) by {
        assert(after[j] == before[j]);
        if keyed(path)(before[j]) {
            crate::search::lemma_first_exists(before, keyed(path), j);
        }
    }
    lemma_first_match_at(after, keyed(path), n);
}

} // verus!
