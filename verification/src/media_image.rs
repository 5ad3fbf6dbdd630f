//! The pictures that were decoded for the chats, kept for a while.

use vstd::prelude::*;

verus! {

/// How many bytes the pictures may take.
pub const CACHE_BYTES: u64 = 8_388_608;

/// How many pictures are kept.
pub const CACHE_ENTRIES: usize = 96;

/// How small and how large a picture's longer edge is asked for.
pub const MIN_EDGE: i32 = 360;

pub const MAX_EDGE: i32 = 2160;

/// A decoded picture.
#[derive(Debug, Clone, Copy, PartialEq, Eq, Structural)]
pub struct Preview {
    /// The number of the file.
    pub file: u64,
    /// How long its longer edge was asked to be.
    pub edge: i32,
    pub width: u32,
    pub height: u32,
    /// The number of the picture itself.
    pub picture: u64,
}

/// How many bytes a picture takes.
pub open spec fn bytes_of(preview: Preview) -> int {
    preview.width * preview.height * 4
}

/// How many bytes some pictures take.
pub open spec fn total_bytes(entries: Seq<Preview>) -> int
    decreases entries.len(),
{
    if entries.len() == 0 {
        0
    } else {
        bytes_of(entries.first()) + total_bytes(entries.drop_first())
    }
}

/// Whether all pictures may be kept.
pub open spec fn fits(entries: Seq<Preview>) -> bool {
    entries.len() <= CACHE_ENTRIES && total_bytes(entries) <= CACHE_BYTES
}

/// The pictures that are kept: as many of the latest as fit.
pub open spec fn kept(entries: Seq<Preview>) -> Seq<Preview>
    decreases entries.len(),
{
    if entries.len() == 0 || fits(entries) {
        entries
    } else {
        kept(entries.drop_first())
    }
}

/// Whether a picture is of another file.
pub open spec fn other_file(file: u64) -> spec_fn(Preview) -> bool {
    |preview: Preview| preview.file != file
}

/// Where the picture of a file with an edge stands first, or how many there are.
pub open spec fn place_of(entries: Seq<Preview>, file: u64, edge: i32) -> int
    decreases entries.len(),
{
    if entries.len() == 0 {
        0
    } else if entries.first().file == file && entries.first().edge == edge {
        0
    } else {
        1 + place_of(entries.drop_first(), file, edge)
    }
}

/// The edge that is asked for.
pub open spec fn clamped_edge(edge: int) -> int {
    if edge < MIN_EDGE {
        MIN_EDGE as int
    } else if edge > MAX_EDGE {
        MAX_EDGE as int
    } else {
        edge
    }
}

pub fn clamp_edge(edge: i32) -> (clamped: i32)
    ensures
        clamped == clamped_edge(edge as int),
{
    if edge < MIN_EDGE {
        MIN_EDGE
    } else if edge > MAX_EDGE {
        MAX_EDGE
    } else {
        edge
    }
}

proof fn lemma_bytes(entries: Seq<Preview>)
    ensures
        0 <= total_bytes(entries),
    decreases entries.len(),
{
    if entries.len() > 0 {
        let first = entries.first();
        assert(first.width * first.height * 4 >= 0) by (nonlinear_arith)
            requires
                first.width >= 0,
                first.height >= 0,
        ;
        lemma_bytes(entries.drop_first());
    }
}

proof fn lemma_place(entries: Seq<Preview>, file: u64, edge: i32)
    ensures
        0 <= place_of(entries, file, edge) <= entries.len(),
        place_of(entries, file, edge) < entries.len() ==> {
            &&& entries[place_of(entries, file, edge)].file == file
            &&& entries[place_of(entries, file, edge)].edge == edge
        },
    decreases entries.len(),
{
    if entries.len() > 0 {
        lemma_place(entries.drop_first(), file, edge);
    }
}

/// The pictures, the one that was used last at the end.
pub struct PreviewCache {
    pub entries: Vec<Preview>,
}

impl PreviewCache {
    /// What is kept fits.
    pub open spec fn well_formed(self) -> bool {
        fits(self.entries@)
    }

    pub fn new() -> (cache: PreviewCache)
        ensures
            cache.well_formed(),
            cache.entries@.len() == 0,
    {
        PreviewCache { entries: Vec::new() }
    }

    pub fn clear_cache(&mut self)
        ensures
            final(self).well_formed(),
            final(self).entries@.len() == 0,
    {
        self.entries = Vec::new();
    }

    /// What looking a picture up leaves.
    pub open spec fn looked_up(
        before: Seq<Preview>,
        file: u64,
        edge: int,
        refresh: bool,
    ) -> Seq<Preview> {
        let entries = if refresh { before.filter(other_file(file)) } else { before };
        let at = place_of(entries, file, edge as i32);
        if at < entries.len() {
            entries.remove(at).push(entries[at])
        } else {
            entries
        }
    }

    /// The picture of a file. A picture that is found is the last to go. On a refresh
    /// all pictures of the file are forgotten first.
    pub fn lookup(&mut self, file: u64, edge: i32, refresh: bool) -> (picture: Option<u64>)
        requires
            old(self).well_formed(),
        ensures
            final(self).well_formed(),
            final(self).entries@ == PreviewCache::looked_up(
                old(self).entries@,
                file,
                clamped_edge(edge as int),
                refresh,
            ),
            picture == ({
                let entries = if refresh {
                    old(self).entries@.filter(other_file(file))
                } else {
                    old(self).entries@
                };
                let at = place_of(entries, file, clamped_edge(edge as int) as i32);
                if at < entries.len() {
                    Some(entries[at].picture)
                } else {
                    None
                }
            }),
    {
        let edge = clamp_edge(edge);
        if refresh {
            self.forget(file);
        }
        let ghost entries = self.entries@;
        let at = self.place(file, edge);
        if at < self.entries.len() {
            let found = self.entries.remove(at);
            self.entries.push(found);
            proof {
                lemma_moved(entries, at as int);
            }
            Some(found.picture)
        } else {
            None
        }
    }

    fn forget(&mut self, file: u64)
        requires
            old(self).well_formed(),
        ensures
            final(self).well_formed(),
            final(self).entries@ == old(self).entries@.filter(other_file(file)),
    {
        let ghost keep = other_file(file);
        let mut rest: Vec<Preview> = Vec::new();
        let mut i: usize = 0;
        proof {
            reveal(Seq::filter);
            assert(self.entries@.take(0) =~= Seq::<Preview>::empty());
        }
        while i < self.entries.len()
            invariant
                i <= self.entries@.len(),
                keep == other_file(file),
                *self == *old(self),
                rest@ == self.entries@.take(i as int).filter(keep),
            decreases self.entries@.len() - i,
        {
            proof {
                reveal(Seq::filter);
                assert(self.entries@.take(i + 1).drop_last() =~= self.entries@.take(i as int));
            }
            if self.entries[i].file != file {
                rest.push(self.entries[i]);
            }
            i += 1;
        }
        proof {
            assert(self.entries@.take(i as int) =~= self.entries@);
            lemma_filtered_fits(self.entries@, keep);
        }
        self.entries = rest;
    }

    fn place(&self, file: u64, edge: i32) -> (at: usize)
        ensures
            at == place_of(self.entries@, file, edge),
            at <= self.entries@.len(),
    {
        let mut at: usize = 0;
        assert(self.entries@.skip(0) =~= self.entries@);
        while at < self.entries.len()
            invariant
                at <= self.entries@.len(),
                place_of(self.entries@, file, edge) == at + place_of(
                    self.entries@.skip(at as int),
                    file,
                    edge,
                ),
            decreases self.entries@.len() - at,
        {
            let entry = self.entries[at];
            assert(self.entries@.skip(at as int).first() == entry);
            if entry.file == file && entry.edge == edge {
                return at;
            }
            assert(self.entries@.skip(at as int).drop_first() =~= self.entries@.skip(at + 1));
            at += 1;
        }
        at
    }

    /// Keeps a picture that was decoded. Older ones go where there is no room.
    pub fn insert(&mut self, preview: Preview)
        requires
            old(self).well_formed(),
        ensures
            final(self).well_formed(),
            final(self).entries@ == kept(old(self).entries@.push(preview)),
    {
        let ghost all = self.entries@.push(preview);
        self.entries.push(preview);
        assert(self.entries@ == all);
        while self.entries.len() > 0 && !self.has_room()
            invariant
                kept(self.entries@) == kept(all),
            decreases self.entries@.len(),
        {
            let ghost before = self.entries@;
            let _gone = self.entries.remove(0);
            assert(self.entries@ =~= before.drop_first());
        }
        if self.entries.len() == 0 {
            assert(total_bytes(self.entries@) == 0);
        }
    }

    fn has_room(&self) -> (room: bool)
        ensures
            room == fits(self.entries@),
    {
        if self.entries.len() > CACHE_ENTRIES {
            return false;
        }
        let mut bytes: u64 = 0;
        let mut i: usize = 0;
        assert(self.entries@.skip(0) =~= self.entries@);
        while i < self.entries.len()
            invariant
                i <= self.entries@.len(),
                bytes <= CACHE_BYTES,
                total_bytes(self.entries@) == bytes + total_bytes(self.entries@.skip(i as int)),
            decreases self.entries@.len() - i,
        {
            let entry = self.entries[i];
            proof {
                assert(self.entries@.skip(i as int).first() == entry);
                assert(self.entries@.skip(i as int).drop_first() =~= self.entries@.skip(i + 1));
                lemma_bytes(self.entries@.skip(i + 1));
            }
            let size = match picture_bytes(entry) {
                Some(size) => size,
                None => return false,
            };
            if size > CACHE_BYTES - bytes {
                return false;
            }
            bytes = bytes + size;
            i += 1;
        }
        true
    }
}

/// How many bytes a picture takes, unless that is more than is ever kept.
fn picture_bytes(preview: Preview) -> (bytes: Option<u64>)
    ensures
        match bytes {
            Some(bytes) => bytes == bytes_of(preview),
            None => bytes_of(preview) > CACHE_BYTES,
        },
{
    let width: u64 = preview.width as u64;
    let height: u64 = preview.height as u64;
    assert(width * height <= 0xffff_ffff * 0xffff_ffff) by (nonlinear_arith)
        requires
            width <= 0xffff_ffff,
            height <= 0xffff_ffff,
    ;
    let pixels: u64 = width * height;
    if pixels > CACHE_BYTES {
        return None;
    }
    Some(pixels * 4)
}

proof fn lemma_bytes_sum(left: Seq<Preview>, right: Seq<Preview>)
    ensures
        total_bytes(left + right) == total_bytes(left) + total_bytes(right),
    decreases left.len(),
{
    if left.len() == 0 {
        assert(left + right =~= right);
    } else {
        assert((left + right).drop_first() =~= left.drop_first() + right);
        assert((left + right).first() == left.first());
        lemma_bytes_sum(left.drop_first(), right);
    }
}

proof fn lemma_one(preview: Preview)
    ensures
        total_bytes(seq![preview]) == bytes_of(preview),
{
    assert(seq![preview].drop_first() =~= Seq::<Preview>::empty());
    assert(seq![preview].first() == preview);
    assert(total_bytes(Seq::<Preview>::empty()) == 0);
}

proof fn lemma_moved(entries: Seq<Preview>, at: int)
    requires
        0 <= at < entries.len(),
        fits(entries),
    ensures
        fits(entries.remove(at).push(entries[at])),
{
    let before = entries.take(at);
    let after = entries.skip(at + 1);
    let one = seq![entries[at]];
    assert(entries =~= before + (one + after));
    assert(entries.remove(at).push(entries[at]) =~= before + (after + one));
    lemma_bytes_sum(before, one + after);
    lemma_bytes_sum(one, after);
    lemma_bytes_sum(before, after + one);
    lemma_bytes_sum(after, one);
}

proof fn lemma_filtered_fits(entries: Seq<Preview>, keep: spec_fn(Preview) -> bool)
    ensures
        entries.filter(keep).len() <= entries.len(),
        total_bytes(entries.filter(keep)) <= total_bytes(entries),
    decreases entries.len(),
{
    reveal(Seq::filter);
    if entries.len() > 0 {
        let rest = entries.drop_last();
        let last = entries.last();
        lemma_filtered_fits(rest, keep);
        assert(entries =~= rest + seq![last]);
        lemma_bytes_sum(rest, seq![last]);
        lemma_one(last);
        lemma_bytes(seq![last]);
        if keep(last) {
            assert(entries.filter(keep) =~= rest.filter(keep) + seq![last]);
            lemma_bytes_sum(rest.filter(keep), seq![last]);
        }
    }
}

/// A picture that fits is found again, as long as no other one was kept since.
pub proof fn law_kept_pictures_are_found(entries: Seq<Preview>, preview: Preview)
    requires
        bytes_of(preview) <= CACHE_BYTES,
        preview.edge == clamped_edge(preview.edge as int),
    ensures
        kept(entries.push(preview)).len() > 0,
        kept(entries.push(preview)).last() == preview,
        place_of(kept(entries.push(preview)), preview.file, preview.edge) < kept(
            entries.push(preview),
        ).len(),
        fits(kept(entries.push(preview))),
    decreases entries.len(),
{
    let all = entries.push(preview);
    if entries.len() == 0 {
        assert(all =~= seq![preview]);
        lemma_one(preview);
        lemma_last_found(all);
    } else if fits(all) {
        lemma_last_found(all);
    } else {
        assert(all.drop_first() =~= entries.drop_first().push(preview));
        law_kept_pictures_are_found(entries.drop_first(), preview);
    }
}

proof fn lemma_last_found(entries: Seq<Preview>)
    requires
        entries.len() > 0,
    ensures
        place_of(entries, entries.last().file, entries.last().edge) < entries.len(),
    decreases entries.len(),
{
    if entries.len() > 1 {
        assert(entries.drop_first().last() == entries.last());
        lemma_last_found(entries.drop_first());
    }
}

/// What is kept is never more than fits.
pub proof fn law_cache_is_bounded(entries: Seq<Preview>)
    ensures
        fits(kept(entries)),
        kept(entries).len() <= entries.len(),
        entries.skip(entries.len() - kept(entries).len()) == kept(entries),
    decreases entries.len(),
{
    if entries.len() == 0 {
        assert(total_bytes(entries) == 0);
        assert(entries.skip(0) =~= entries);
    } else if fits(entries) {
        assert(entries.skip(0) =~= entries);
    } else {
        let rest = entries.drop_first();
        law_cache_is_bounded(rest);
        assert(entries.skip(entries.len() - kept(rest).len()) =~= rest.skip(
            rest.len() - kept(rest).len(),
        ));
    }
}

/// What is done to the cache.
pub ghost enum CacheStep {
    /// A picture is looked up.
    Lookup { file: u64, edge: i32, refresh: bool },
    /// A decoded picture is kept.
    Insert(Preview),
    Clear,
}

/// What one step leaves of the pictures.
pub open spec fn after_step(entries: Seq<Preview>, step: CacheStep) -> Seq<Preview> {
    match step {
        CacheStep::Lookup { file, edge, refresh } => PreviewCache::looked_up(
            entries,
            file,
            clamped_edge(edge as int),
            refresh,
        ),
        CacheStep::Insert(preview) => kept(entries.push(preview)),
        CacheStep::Clear => Seq::empty(),
    }
}

/// The pictures that an empty cache holds after some steps.
pub open spec fn after_steps(steps: Seq<CacheStep>) -> Seq<Preview>
    decreases steps.len(),
{
    if steps.len() == 0 {
        Seq::empty()
    } else {
        after_step(after_steps(steps.drop_last()), steps.last())
    }
}

/// Whatever was asked for, kept and cleared before, in whatever order: the pictures
/// of the cache take eight mebibytes at most, and there are no more than ninety-six.
pub proof fn law_previews_stay_bounded(steps: Seq<CacheStep>)
    ensures
        total_bytes(after_steps(steps)) <= 8 * 1024 * 1024,
        after_steps(steps).len() <= 96,
    decreases steps.len(),
{
    if steps.len() > 0 {
        let before = after_steps(steps.drop_last());
        law_previews_stay_bounded(steps.drop_last());
        match steps.last() {
            CacheStep::Lookup { file, edge, refresh } => {
                let entries = if refresh { before.filter(other_file(file)) } else { before };
                lemma_filtered_fits(before, other_file(file));
                let at = place_of(entries, file, clamped_edge(edge as int) as i32);
                lemma_place(entries, file, clamped_edge(edge as int) as i32);
                if at < entries.len() {
                    lemma_moved(entries, at);
                }
            },
            CacheStep::Insert(preview) => law_cache_is_bounded(before.push(preview)),
            CacheStep::Clear => {
                assert(total_bytes(Seq::<Preview>::empty()) == 0);
            },
        }
    } else {
        assert(total_bytes(Seq::<Preview>::empty()) == 0);
    }
}

} // verus!
