//! The badge image cache: badge URLs keyed by `set/version`, filled from the
//! global and the channel's badge lists (the channel's come later and win),
//! and looked up by the badge ids that chat messages carry.
use crate::text::{chars_of, find_char_in, has_char};
use vstd::prelude::*;
use vstd::string::StringExecFns;

verus! {

/// The image URLs of one badge version.
pub struct BadgeUrls {
    pub url_1x: String,
    pub url_2x: String,
}

impl BadgeUrls {
    pub open spec fn urls(&self) -> (Seq<char>, Seq<char>) {
        (self.url_1x@, self.url_2x@)
    }

    pub fn duplicate(&self) -> (r: BadgeUrls)
        ensures
            r.urls() == self.urls(),
    {
        BadgeUrls { url_1x: self.url_1x.clone(), url_2x: self.url_2x.clone() }
    }
}

/// The cache key of a badge id: the id itself when it names a version
/// (`subscriber/12`), otherwise version `1` of it.
pub open spec fn badge_key(id: Seq<char>) -> Seq<char> {
    if has_char(id, '/') {
        id
    } else {
        id + "/1"@
    }
}

/// The cache key of a badge id (see `badge_key`).
pub fn badge_cache_key(id: &str) -> (r: String)
    ensures
        r@ == badge_key(id@),
{
    let v = chars_of(id);
    let n = v.len();
    let slash = find_char_in(v.as_slice(), 0, n, '/');
    assert(v@.subrange(0, n as int) =~= v@);
    if slash < n {
        id.to_owned()
    } else {
        let mut r = id.to_owned();
        r.append("/1");
        r
    }
}

/// The map a list of cache entries stands for: a later entry replaces an
/// earlier one with the same key.
pub open spec fn entries_map(e: Seq<(String, BadgeUrls)>) -> Map<Seq<char>, (Seq<char>, Seq<char>)>
    decreases e.len(),
{
    if e.len() == 0 {
        Map::empty()
    } else {
        entries_map(e.drop_last()).insert(e.last().0@, e.last().1.urls())
    }
}

proof fn lemma_entries_map_last(e: Seq<(String, BadgeUrls)>, k: Seq<char>, i: int)
    requires
        0 <= i < e.len(),
        e[i].0@ == k,
        forall|j: int| i < j < e.len() ==> (#[trigger] e[j]).0@ != k,
    ensures
        entries_map(e).contains_key(k),
        entries_map(e)[k] == e[i].1.urls(),
    decreases e.len(),
{
    if i < e.len() - 1 {
        let d = e.drop_last();
        assert forall|j: int| i < j < d.len() implies (#[trigger] d[j]).0@ != k by {
            assert(d[j] == e[j]);
        }
        lemma_entries_map_last(d, k, i);
    }
}

proof fn lemma_entries_map_absent(e: Seq<(String, BadgeUrls)>, k: Seq<char>)
    requires
        forall|j: int| 0 <= j < e.len() ==> (#[trigger] e[j]).0@ != k,
    ensures
        !entries_map(e).contains_key(k),
    decreases e.len(),
{
    if e.len() > 0 {
        let d = e.drop_last();
        assert forall|j: int| 0 <= j < d.len() implies (#[trigger] d[j]).0@ != k by {
            assert(d[j] == e[j]);
        }
        lemma_entries_map_absent(d, k);
    }
}

/// Badge URLs by `set/version` key.
pub struct BadgeCache {
    entries: Vec<(String, BadgeUrls)>,
}

impl View for BadgeCache {
    type V = Map<Seq<char>, (Seq<char>, Seq<char>)>;

    closed spec fn view(&self) -> Map<Seq<char>, (Seq<char>, Seq<char>)> {
        entries_map(self.entries@)
    }
}

impl BadgeCache {
    /// An empty cache.
    pub fn new() -> (r: BadgeCache)
        ensures
            r@ == Map::<Seq<char>, (Seq<char>, Seq<char>)>::empty(),
    {
        BadgeCache { entries: Vec::new() }
    }

    /// Records the URLs of version `version_id` of badge set `set_id`,
    /// replacing what was recorded under the same key.
    pub fn insert(&mut self, set_id: &str, version_id: &str, urls: BadgeUrls)
        ensures
            final(self)@ == old(self)@.insert(set_id@ + "/"@ + version_id@, urls.urls()),
    {
        let mut key = set_id.to_owned();
        key.append("/");
        key.append(version_id);
        self.entries.push((key, urls));
        assert(self.entries@.drop_last() =~= old(self).entries@);
    }

    /// The URLs recorded under `key`.
    pub fn get(&self, key: &str) -> (r: Option<BadgeUrls>)
        ensures
            match r {
                Some(u) => self@.contains_key(key@) && u.urls() == self@[key@],
                None => !self@.contains_key(key@),
            },
    {
        let k = key.to_owned();
        let mut i: usize = self.entries.len();
        while i > 0
            invariant
                i <= self.entries@.len(),
                k@ == key@,
                forall|j: int| i <= j < self.entries@.len() ==> (#[trigger] self.entries@[j]).0@ != key@,
            decreases i,
        {
            i = i - 1;
            if self.entries[i].0 == k {
                proof {
                    lemma_entries_map_last(self.entries@, key@, i as int);
                }
                return Some(self.entries[i].1.duplicate());
            }
        }
        proof {
            lemma_entries_map_absent(self.entries@, key@);
        }
        None
    }
}

/// The badge ids of `ids` that the cache knows, each with its URLs, in
/// order; an id without a version is looked up as version `1`.
pub open spec fn resolved(
    ids: Seq<Seq<char>>,
    cache: Map<Seq<char>, (Seq<char>, Seq<char>)>,
) -> Seq<(Seq<char>, (Seq<char>, Seq<char>))>
    decreases ids.len(),
{
    if ids.len() == 0 {
        seq![]
    } else {
        let r = resolved(ids.drop_last(), cache);
        let key = badge_key(ids.last());
        if cache.contains_key(key) {
            r.push((ids.last(), cache[key]))
        } else {
            r
        }
    }
}

pub open spec fn resolved_view(v: Seq<(String, BadgeUrls)>) -> Seq<(Seq<char>, (Seq<char>, Seq<char>))> {
    v.map_values(|p: (String, BadgeUrls)| (p.0@, p.1.urls()))
}

/// Looks up the URLs of the badges a chat message names.
pub fn resolve_badges(cache: &BadgeCache, badge_ids: &[String]) -> (r: Vec<(String, BadgeUrls)>)
    ensures
        resolved_view(r@) == resolved(badge_ids@.map_values(|s: String| s@), cache@),
{
    let ghost ids = badge_ids@.map_values(|s: String| s@);
    let mut out: Vec<(String, BadgeUrls)> = Vec::new();
    let mut k: usize = 0;
    while k < badge_ids.len()
        invariant
            k <= badge_ids@.len(),
            ids == badge_ids@.map_values(|s: String| s@),
            resolved_view(out@) == resolved(ids.subrange(0, k as int), cache@),
        decreases badge_ids@.len() - k,
    {
        assert(ids.subrange(0, k + 1).drop_last() =~= ids.subrange(0, k as int));
        assert(ids.subrange(0, k + 1).last() == badge_ids@[k as int]@);
        let id = &badge_ids[k];
        let key = badge_cache_key(id.as_str());
        if let Some(urls) = cache.get(key.as_str()) {
            let ghost before = out@;
            out.push((id.clone(), urls));
            assert(resolved_view(out@) =~= resolved_view(before).push(
                (badge_ids@[k as int]@, cache@[key@]),
            ));
        }
        k = k + 1;
    }
    assert(ids.subrange(0, k as int) =~= ids);
    out
}

} // verus!
