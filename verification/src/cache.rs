//! The images that have been loaded so far, by the address they came from.

use vstd::prelude::*;
use crate::event::{any_shows_image, shows_image, views, Event, EventView};

verus! {

/// One loaded image.
#[derive(Debug)]
struct CachedImage {
    url: String,
    bytes: Vec<u8>,
}

/// The loaded images, by address. An address that is absent has not been
/// loaded: its request is still under way, or it has failed.
#[derive(Debug)]
pub struct ImageCache {
    entries: Vec<CachedImage>,
}

/// Whether an entry of `entries` has the address `url`.
spec fn holds(entries: Seq<CachedImage>, url: Seq<char>) -> bool {
    exists|i: int| 0 <= i < entries.len() && (#[trigger] entries[i]).url@ == url
}

/// The place of an entry with the address `url`.
spec fn place(entries: Seq<CachedImage>, url: Seq<char>) -> int {
    choose|i: int| 0 <= i < entries.len() && (#[trigger] entries[i]).url@ == url
}

/// No two entries have the same address.
spec fn distinct(entries: Seq<CachedImage>) -> bool {
    forall|i: int, j: int|
        0 <= i < j < entries.len() ==> (#[trigger] entries[i]).url@ != (#[trigger] entries[j]).url@
}

/// The mapping that `entries` stand for.
spec fn contents(entries: Seq<CachedImage>) -> Map<Seq<char>, Seq<u8>> {
    Map::new(|url: Seq<char>| holds(entries, url), |url: Seq<char>| entries[place(entries, url)].bytes@)
}

/// Each entry is what the mapping gives for its address.
proof fn lemma_entry(entries: Seq<CachedImage>, i: int)
    requires
        distinct(entries),
        0 <= i < entries.len(),
    ensures
        contents(entries).contains_key(entries[i].url@),
        contents(entries)[entries[i].url@] == entries[i].bytes@,
{
    let url = entries[i].url@;
    assert(holds(entries, url));
    let at = place(entries, url);
    assert(entries[at].url@ == entries[i].url@);
    assert(at == i);
}

/// Taking one entry out takes its address out of the mapping, and nothing else.
proof fn lemma_remove(entries: Seq<CachedImage>, i: int)
    requires
        distinct(entries),
        0 <= i < entries.len(),
    ensures
        distinct(entries.remove(i)),
        contents(entries.remove(i)) == contents(entries).remove(entries[i].url@),
{
    let rest = entries.remove(i);
    let gone = entries[i].url@;
    assert forall|a: int, b: int| 0 <= a < b < rest.len() implies (#[trigger] rest[a]).url@
        != (#[trigger] rest[b]).url@ by {
        let a0 = if a < i { a } else { a + 1 };
        let b0 = if b < i { b } else { b + 1 };
        assert(rest[a] == entries[a0]);
        assert(rest[b] == entries[b0]);
    }
    assert forall|url: Seq<char>| #[trigger]
        contents(rest).contains_key(url) == contents(entries).remove(gone).contains_key(url) by {
        if holds(rest, url) {
            let a = place(rest, url);
            let a0 = if a < i { a } else { a + 1 };
            assert(rest[a] == entries[a0]);
            assert(entries[a0].url@ == url);
            assert(a0 != i);
            if a0 < i {
                assert(entries[a0].url@ != entries[i].url@);
            } else {
                assert(entries[i].url@ != entries[a0].url@);
            }
        }
        if holds(entries, url) && url != gone {
            let a0 = place(entries, url);
            let a = if a0 < i { a0 } else { a0 - 1 };
            assert(rest[a] == entries[a0]);
        }
    }
    assert forall|url: Seq<char>| #[trigger]
        contents(rest).contains_key(url) implies contents(rest)[url] == contents(entries).remove(
        gone,
    )[url] by {
        let a = place(rest, url);
        let a0 = if a < i { a } else { a + 1 };
        assert(rest[a] == entries[a0]);
        lemma_entry(rest, a);
        lemma_entry(entries, a0);
    }
    assert(contents(rest) =~= contents(entries).remove(gone));
}

/// Adding an entry with a new address adds it to the mapping, and nothing else.
proof fn lemma_push(entries: Seq<CachedImage>, entry: CachedImage)
    requires
        distinct(entries),
        !holds(entries, entry.url@),
    ensures
        distinct(entries.push(entry)),
        contents(entries.push(entry)) == contents(entries).insert(entry.url@, entry.bytes@),
{
    let more = entries.push(entry);
    let last = entries.len() as int;
    assert forall|a: int, b: int| 0 <= a < b < more.len() implies (#[trigger] more[a]).url@
        != (#[trigger] more[b]).url@ by {
        assert(more[a] == entries[a]);
        if b < last {
            assert(more[b] == entries[b]);
        }
    }
    assert(more[last] == entry);
    assert forall|url: Seq<char>| #[trigger]
        contents(more).contains_key(url) == contents(entries).insert(
        entry.url@,
        entry.bytes@,
    ).contains_key(url) by {
        if holds(more, url) {
            let a = place(more, url);
            if a < last {
                assert(more[a] == entries[a]);
            }
        }
        if holds(entries, url) {
            let a = place(entries, url);
            assert(more[a] == entries[a]);
        }
    }
    assert forall|url: Seq<char>| #[trigger]
        contents(more).contains_key(url) implies contents(more)[url] == contents(entries).insert(
        entry.url@,
        entry.bytes@,
    )[url] by {
        let a = place(more, url);
        lemma_entry(more, a);
        if a < last {
            assert(more[a] == entries[a]);
            lemma_entry(entries, a);
        }
    }
    assert(contents(more) =~= contents(entries).insert(entry.url@, entry.bytes@));
}

/// The bytes of an optional payload.
pub open spec fn bytes_of(bytes: Option<Vec<u8>>) -> Option<Seq<u8>> {
    match bytes {
        Some(b) => Some(b@),
        None => None,
    }
}

/// What is left of `images` when every address that no event of `events` has
/// is dropped.
pub open spec fn kept(images: Map<Seq<char>, Seq<u8>>, events: Seq<EventView>) -> Map<
    Seq<char>,
    Seq<u8>,
> {
    Map::new(
        |url: Seq<char>| images.contains_key(url) && shows_image(events, url),
        |url: Seq<char>| images[url],
    )
}

impl View for ImageCache {
    type V = Map<Seq<char>, Seq<u8>>;

    /// The loaded bytes, by address.
    closed spec fn view(&self) -> Map<Seq<char>, Seq<u8>> {
        contents(self.entries@)
    }
}

impl ImageCache {
    /// No address is held twice.
    pub closed spec fn well_formed(&self) -> bool {
        distinct(self.entries@)
    }

    /// A cache that holds nothing.
    pub fn new() -> (cache: ImageCache)
        ensures
            cache.well_formed(),
            cache@ == Map::<Seq<char>, Seq<u8>>::empty(),
    {
        let cache = ImageCache { entries: Vec::new() };
        assert(cache@ =~= Map::<Seq<char>, Seq<u8>>::empty());
        cache
    }

    /// The place of the entry for `url`, if there is one.
    fn find(&self, url: &String) -> (at: Option<usize>)
        ensures
            match at {
                Some(i) => i < self.entries.len() && self.entries[i as int].url@ == url@,
                None => !holds(self.entries@, url@),
            },
    {
        let mut i: usize = 0;
        while i < self.entries.len()
            invariant
                i <= self.entries.len(),
                forall|j: int| 0 <= j < i ==> (#[trigger] self.entries[j]).url@ != url@,
            decreases self.entries.len() - i,
        {
            if self.entries[i].url == *url {
                return Some(i);
            }
            i += 1;
        }
        None
    }

    /// Whether nothing has been loaded.
    pub fn is_empty(&self) -> (empty: bool)
        ensures
            empty == (self@ == Map::<Seq<char>, Seq<u8>>::empty()),
    {
        let empty = self.entries.len() == 0;
        proof {
            if empty {
                assert(self@ =~= Map::<Seq<char>, Seq<u8>>::empty());
            } else {
                assert(holds(self.entries@, self.entries[0].url@));
                assert(self@.contains_key(self.entries[0].url@));
            }
        }
        empty
    }

    /// Whether the image at `url` has been loaded.
    pub fn contains(&self, url: &String) -> (loaded: bool)
        ensures
            loaded == self@.contains_key(url@),
    {
        self.find(url).is_some()
    }

    /// The bytes loaded from `url`, if its image has been loaded.
    pub fn get(&self, url: &String) -> (bytes: Option<&Vec<u8>>)
        requires
            self.well_formed(),
        ensures
            match bytes {
                Some(b) => self@.contains_key(url@) && b@ == self@[url@],
                None => !self@.contains_key(url@),
            },
    {
        match self.find(url) {
            Some(i) => {
                proof {
                    lemma_entry(self.entries@, i as int);
                }
                Some(&self.entries[i].bytes)
            },
            None => None,
        }
    }

    /// Drops the image at `url`, and hands out its bytes if it had been loaded.
    pub fn remove(&mut self, url: &String) -> (bytes: Option<Vec<u8>>)
        requires
            old(self).well_formed(),
        ensures
            final(self).well_formed(),
            final(self)@ == old(self)@.remove(url@),
            match bytes {
                Some(b) => old(self)@.contains_key(url@) && b@ == old(self)@[url@],
                None => !old(self)@.contains_key(url@),
            },
    {
        match self.find(url) {
            Some(i) => {
                proof {
                    lemma_entry(self.entries@, i as int);
                    lemma_remove(self.entries@, i as int);
                }
                let entry = self.entries.remove(i);
                Some(entry.bytes)
            },
            None => {
                assert(self@ =~= self@.remove(url@));
                None
            },
        }
    }

    /// Stores `bytes` as the image at `url`, in place of any bytes loaded from
    /// there before.
    pub fn insert(&mut self, url: String, bytes: Vec<u8>)
        requires
            old(self).well_formed(),
        ensures
            final(self).well_formed(),
            final(self)@ == old(self)@.insert(url@, bytes@),
    {
        let _ = self.remove(&url);
        let entry = CachedImage { url, bytes };
        proof {
            assert(!self@.contains_key(entry.url@));
            lemma_push(self.entries@, entry);
            assert(old(self)@.remove(entry.url@).insert(entry.url@, entry.bytes@) =~= old(self)@.insert(
                entry.url@,
                entry.bytes@,
            ));
        }
        self.entries.push(entry);
    }

    /// Drops every image.
    pub fn clear(&mut self)
        ensures
            final(self).well_formed(),
            final(self)@ == Map::<Seq<char>, Seq<u8>>::empty(),
    {
        self.entries.clear();
        assert(self@ =~= Map::<Seq<char>, Seq<u8>>::empty());
    }

    /// Drops every image whose address no event of `events` has.
    pub fn retain_shown(&mut self, events: &Vec<Event>)
        requires
            old(self).well_formed(),
        ensures
            final(self).well_formed(),
            final(self)@ == kept(old(self)@, views(events@)),
    {
        let mut i: usize = 0;
        while i < self.entries.len()
            invariant
                i <= self.entries.len(),
                self.well_formed(),
                forall|j: int|
                    0 <= j < i ==> shows_image(views(events@), (#[trigger] self.entries[j]).url@),
                forall|url: Seq<char>| #[trigger]
                    self@.contains_key(url) ==> old(self)@.contains_key(url) && self@[url] == old(
                        self,
                    )@[url],
                forall|url: Seq<char>|
                    old(self)@.contains_key(url) && shows_image(views(events@), url)
                        ==> #[trigger] self@.contains_key(url),
            decreases self.entries.len() - i,
        {
            if any_shows_image(events, &self.entries[i].url) {
                i += 1;
            } else {
                let ghost before = self@;
                let ghost gone = self.entries[i as int].url@;
                proof {
                    lemma_remove(self.entries@, i as int);
                }
                let _ = self.entries.remove(i);
                assert(self@ == before.remove(gone));
            }
        }
        proof {
            assert forall|url: Seq<char>| #[trigger] self@.contains_key(url) implies shows_image(
                views(events@),
                url,
            ) by {
                let at = place(self.entries@, url);
                assert(self.entries[at].url@ == url);
            }
            assert(self@ =~= kept(old(self)@, views(events@)));
        }
    }
}

} // verus!
