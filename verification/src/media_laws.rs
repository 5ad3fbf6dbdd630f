//! What holds of moving stickers and of previews: who may move, when the next frame
//! is due, and which pictures are kept.

use vstd::prelude::*;

use crate::lists::lemma_kept;
use crate::lottie::{
    due_in, halted, interval_of, live_place, next_due_in, pixels_of, stepped, Live,
};
use crate::lottie_backend::{is_gzip, sticker_of};
use crate::media_image::{
    bytes_of, clamped_edge, fits, kept, other_file, place_of, total_bytes, Preview, PreviewCache,
};
use crate::stickers::{
    broken, filled, framed, is_ready, next_waiting, pauses, plays, registered, remaining, vacated,
    wanted, wished, Command, Registry, Sticker,
};

verus! {

// ------------------------------------------------------------------- stickers

/// The next to move is the oldest that wants to and has no place yet.
pub proof fn law_oldest_moves_next(stickers: Seq<Sticker>, slots: Seq<u64>)
    ensures
        next_waiting(stickers, slots) matches Some(id) ==> !slots.contains(id) && exists|i: int|
            0 <= i < stickers.len() && (#[trigger] stickers[i]).id == id && stickers[i].wants,
        forall|i: int|
            0 <= i < stickers.len() && (#[trigger] stickers[i]).wants && !slots.contains(
                stickers[i].id,
            ) ==> (next_waiting(stickers, slots) matches Some(id) && id <= stickers[i].id),
    decreases stickers.len(),
{
    if stickers.len() > 0 {
        let rest = stickers.drop_last();
        law_oldest_moves_next(rest, slots);
        let earlier = next_waiting(rest, slots);
        let last = stickers.last();
        if earlier is Some {
            let i = choose|i: int|
                0 <= i < rest.len() && (#[trigger] rest[i]).id == earlier->0 && rest[i].wants;
            assert(stickers[i] == rest[i]);
        }
        assert(stickers[stickers.len() - 1] == last);
        assert forall|i: int|
            0 <= i < stickers.len() && (#[trigger] stickers[i]).wants && !slots.contains(
                stickers[i].id,
            ) implies (next_waiting(stickers, slots) matches Some(id) && id <= stickers[i].id) by {
            if i < rest.len() {
                assert(rest[i] == stickers[i]);
            }
        }
    }
}

/// Places are given away until six move or nobody waits, and nobody loses theirs.
pub proof fn law_six_may_move(stickers: Seq<Sticker>, slots: Seq<u64>)
    requires
        slots.len() <= 6,
    ensures
        filled(stickers, slots).len() <= 6,
        filled(stickers, slots).len() >= slots.len(),
        filled(stickers, slots).take(slots.len() as int) == slots,
        filled(stickers, slots).len() < 6 ==> forall|i: int|
            0 <= i < stickers.len() && (#[trigger] stickers[i]).wants ==> filled(
                stickers,
                slots,
            ).contains(stickers[i].id),
    decreases 6 - slots.len(),
{
    assert(slots.take(slots.len() as int) =~= slots);
    law_oldest_moves_next(stickers, slots);
    if slots.len() < 6 {
        if next_waiting(stickers, slots) is Some {
            let more = slots.push(next_waiting(stickers, slots)->0);
            law_six_may_move(stickers, more);
            let all = filled(stickers, more);
            assert(all.take(slots.len() as int) =~= slots) by {
                assert forall|i: int| 0 <= i < slots.len() implies all[i] == slots[i] by {
                    assert(all.take(more.len() as int)[i] == more[i]);
                }
            }
        }
    }
}

/// Who gives a place away is gone from the places, and all others stay.
pub proof fn law_places_are_given_up(slots: Seq<u64>, id: u64, other: u64)
    ensures
        vacated(slots, id).contains(other) <==> slots.contains(other) && other != id,
{
    lemma_kept(slots, crate::stickers::others(id));
}

/// A wish, a frame or a fault touches one sticker and no other.
pub proof fn law_stickers_change_alone(
    stickers: Seq<Sticker>,
    id: u64,
    playing: bool,
    index: usize,
    message: String,
    i: int,
)
    requires
        0 <= i < stickers.len(),
    ensures
        wished(stickers, id, playing).len() == stickers.len(),
        framed(stickers, id, index).len() == stickers.len(),
        broken(stickers, id, message).len() == stickers.len(),
        stickers[i].id != id ==> wished(stickers, id, playing)[i] == stickers[i] && framed(
            stickers,
            id,
            index,
        )[i] == stickers[i] && broken(stickers, id, message)[i] == stickers[i],
        stickers[i].id == id ==> wished(stickers, id, playing)[i] == (Sticker {
            wants: playing,
            ..stickers[i]
        }),
        stickers[i].id == id ==> framed(stickers, id, index)[i].ready && framed(
            stickers,
            id,
            index,
        )[i].frame == index && framed(stickers, id, index)[i].wants == stickers[i].wants,
        stickers[i].id == id ==> broken(stickers, id, message)[i].error == Some(message) && broken(
            stickers,
            id,
            message,
        )[i].ready == stickers[i].ready,
{
}

/// A sticker that is forgotten is gone, and all others stay.
pub proof fn law_forgotten_stickers_are_gone(stickers: Seq<Sticker>, id: u64, one: Sticker)
    ensures
        remaining(stickers, id).contains(one) <==> stickers.contains(one) && one.id != id,
{
    lemma_kept(stickers, crate::stickers::stays(id));
}

/// Stickers move only while both switches are on: when one is turned off, all are
/// told to stop; when both are on, those that got a place are told to begin.
pub proof fn law_switches_stop_all_stickers(before: Registry, after: Registry)
    requires
        after.refreshed(before),
        before.slots@.len() <= 6,
    ensures
        !(before.enabled && before.animations) ==> after.slots@ == Seq::<u64>::empty()
            && after.commands@.len() == before.commands@.len() + before.slots@.len(),
        !(before.enabled && before.animations) ==> forall|i: int|
            0 <= i < before.slots@.len() ==> #[trigger] after.commands@[before.commands@.len() + i]
                == Command::Pause(before.slots@[i]),
        before.enabled && before.animations ==> after.slots@.take(before.slots@.len() as int)
            == before.slots@,
        before.enabled && before.animations ==> forall|i: int|
            before.slots@.len() <= i < after.slots@.len() ==> after.commands@[before.commands@.len()
                + i - before.slots@.len()] == Command::Play(#[trigger] after.slots@[i]),
        after.stickers == before.stickers && after.enabled == before.enabled && after.animations
            == before.animations && after.next_id == before.next_id,
{
    law_six_may_move(before.stickers@, before.slots@);
    if before.on() {
        let given = after.slots@.skip(before.slots@.len() as int);
        assert forall|i: int|
            before.slots@.len() <= i < after.slots@.len() implies after.commands@[before.commands@.len()
            + i - before.slots@.len()] == Command::Play(#[trigger] after.slots@[i]) by {
            assert(given[i - before.slots@.len()] == after.slots@[i]);
            assert(plays(given)[i - before.slots@.len()] == Command::Play(after.slots@[i]));
        }
    } else {
        assert forall|i: int|
            0 <= i < before.slots@.len() implies #[trigger] after.commands@[before.commands@.len()
            + i] == Command::Pause(before.slots@[i]) by {
            assert(pauses(before.slots@)[i] == Command::Pause(before.slots@[i]));
        }
    }
}

// -------------------------------------------------------------------- playing

/// A sticker is drawn with as many points as the screen has for it, between eight and
/// five hundred and twelve.
pub proof fn law_stickers_have_a_size(size: int, scale: int)
    ensures
        8 <= pixels_of(size, scale) <= 512,
        8 <= size && 1 <= scale <= 3 && size * scale <= 512 ==> pixels_of(size, scale) == size
            * scale,
        8 <= size && 1 <= scale <= 3 && size * scale > 512 ==> pixels_of(size, scale) == 512,
        size < 8 ==> pixels_of(size, 1) == 8,
        8 <= size <= 170 && scale > 3 ==> pixels_of(size, scale) == 3 * size,
        8 <= size <= 512 && scale < 1 ==> pixels_of(size, scale) == size,
{
    let wide = if size < 8 { 8 } else { size };
    let by = if scale < 1 { 1 } else if scale > 3 { 3 } else { scale };
    assert(wide * by >= 8) by (nonlinear_arith)
        requires
            wide >= 8,
            by >= 1,
    ;
    if scale > 3 {
        assert(wide * by == 3 * wide) by (nonlinear_arith)
            requires
                by == 3,
        ;
    }
    if scale < 1 || scale == 1 {
        assert(wide * by == wide) by (nonlinear_arith)
            requires
                by == 1,
        ;
    }
}

/// A frame that is due is followed by the next one, the last by the first, and one
/// that is not due stays.
pub proof fn law_frames_follow_each_other(live: Live, now: u64)
    requires
        live.frames > 0,
        live.playhead < live.frames,
        live.due + live.interval <= u64::MAX,
    ensures
        !live.playing || now < live.due ==> stepped(live, now) == live,
        live.playing && live.due <= now && live.playhead + 1 < live.frames ==> stepped(
            live,
            now,
        ).playhead == live.playhead + 1,
        live.playing && live.due <= now && live.playhead + 1 == live.frames ==> stepped(
            live,
            now,
        ).playhead == 0,
        live.playing && live.due <= now && live.due + live.interval > now ==> stepped(live, now).due
            == live.due + live.interval,
        live.playing && live.due <= now && live.due + live.interval <= now ==> stepped(
            live,
            now,
        ).due == now,
        stepped(live, now).id == live.id && stepped(live, now).playing == live.playing,
{
    if live.playhead + 1 < live.frames {
        vstd::arithmetic::div_mod::lemma_small_mod(
            (live.playhead + 1) as nat,
            live.frames as nat,
        );
    } else {
        vstd::arithmetic::div_mod::lemma_mod_self_0(live.frames as int);
    }
}

/// All stickers whose frame is due are drawn, and no others.
pub proof fn law_due_frames_are_drawn(live: Seq<Live>, now: u64, given: int, i: int)
    requires
        0 <= i < given <= live.len(),
    ensures
        live[i].playing && live[i].due <= now ==> due_in(live, now, given).contains(
            (live[i].id, stepped(live[i], now).playhead),
        ),
        forall|frame: (u64, usize)|
            #[trigger] due_in(live, now, given).contains(frame) ==> exists|j: int|
                0 <= j < given && (#[trigger] live[j]).id == frame.0 && live[j].playing
                    && live[j].due <= now,
    decreases given,
{
    lemma_due(live, now, given);
    let all = due_in(live, now, given);
    let earlier = due_in(live, now, given - 1);
    let frame = (live[i].id, stepped(live[i], now).playhead);
    if live[i].playing && live[i].due <= now {
        if i == given - 1 {
            assert(all[earlier.len() as int] == frame);
        } else {
            law_due_frames_are_drawn(live, now, given - 1, i);
            let p = earlier.index_of(frame);
            assert(all[p] == frame);
        }
    }
}

proof fn lemma_due(live: Seq<Live>, now: u64, given: int)
    requires
        0 <= given <= live.len(),
    ensures
        forall|frame: (u64, usize)|
            #[trigger] due_in(live, now, given).contains(frame) ==> exists|j: int|
                0 <= j < given && (#[trigger] live[j]).id == frame.0 && live[j].playing
                    && live[j].due <= now,
    decreases given,
{
    if given > 0 {
        lemma_due(live, now, given - 1);
        let all = due_in(live, now, given);
        let earlier = due_in(live, now, given - 1);
        assert forall|frame: (u64, usize)| #[trigger] all.contains(frame) implies exists|j: int|
            0 <= j < given && (#[trigger] live[j]).id == frame.0 && live[j].playing && live[j].due
                <= now by {
            let p = all.index_of(frame);
            if p < earlier.len() {
                assert(earlier[p] == frame);
                assert(earlier.contains(frame));
            } else {
                assert(live[given - 1].id == frame.0);
            }
        }
    }
}

/// The next frame that is due is the earliest of those that play.
pub proof fn law_next_frame_is_the_earliest(live: Seq<Live>)
    ensures
        forall|i: int|
            0 <= i < live.len() && (#[trigger] live[i]).playing ==> (next_due_in(live) matches Some(
                due,
            ) && due <= live[i].due),
        next_due_in(live) matches Some(due) ==> exists|i: int|
            0 <= i < live.len() && (#[trigger] live[i]).playing && live[i].due == due,
    decreases live.len(),
{
    if live.len() > 0 {
        let rest = live.drop_last();
        law_next_frame_is_the_earliest(rest);
        let earlier = next_due_in(rest);
        assert(live[live.len() - 1] == live.last());
        assert forall|i: int| 0 <= i < live.len() && (#[trigger] live[i]).playing implies (
        next_due_in(live) matches Some(due) && due <= live[i].due) by {
            if i < rest.len() {
                assert(rest[i] == live[i]);
            }
        }
        if earlier is Some {
            let i = choose|i: int|
                0 <= i < rest.len() && (#[trigger] rest[i]).playing && rest[i].due == earlier->0;
            assert(live[i] == rest[i]);
        }
    }
}

proof fn lemma_live_place(live: Seq<Live>, id: u64)
    ensures
        0 <= live_place(live, id) <= live.len(),
        live_place(live, id) < live.len() ==> live[live_place(live, id)].id == id,
        forall|i: int| 0 <= i < live_place(live, id) ==> (#[trigger] live[i]).id != id,
    decreases live.len(),
{
    if live.len() > 0 {
        lemma_live_place(live.drop_last(), id);
        assert forall|i: int| 0 <= i < live_place(live, id) implies (#[trigger] live[i]).id
            != id by {
            if i < live.len() - 1 {
                assert(live.drop_last()[i] == live[i]);
            }
        }
    }
}

/// A sticker that is halted stands still, and all others go on.
pub proof fn law_one_sticker_is_halted(live: Seq<Live>, id: u64, i: int)
    requires
        0 <= i < live.len(),
        forall|a: int, b: int|
            0 <= a < b < live.len() ==> (#[trigger] live[a]).id != (#[trigger] live[b]).id,
    ensures
        halted(live, id).len() == live.len(),
        live[i].id != id ==> halted(live, id)[i] == live[i],
        live[i].id == id ==> !halted(live, id)[i].playing && halted(live, id)[i] == (Live {
            playing: false,
            ..live[i]
        }),
{
    lemma_live_place(live, id);
    let at = live_place(live, id);
    if at < live.len() && live[i].id == id && at != i {
        if at < i {
            assert(live[at].id != live[i].id);
        } else {
            assert(live[i].id != live[at].id);
        }
    }
}

/// No sticker is drawn more often than sixty times a second or so.
pub proof fn law_frames_take_their_time(interval: u64)
    ensures
        interval_of(interval) >= 16_000_000,
        interval >= 16_000_000 ==> interval_of(interval) == interval,
        interval < 16_000_000 ==> interval_of(interval) == 16_000_000,
{
}

/// Only what begins like a packed file is unpacked.
pub proof fn law_packed_stickers_are_unpacked(
    bytes: Seq<u8>,
    unpacked: Result<Seq<u8>, Seq<char>>,
)
    ensures
        is_gzip(bytes) <==> bytes.len() >= 3 && bytes[0] == 31 && bytes[1] == 139,
        !is_gzip(bytes) ==> sticker_of(bytes, unpacked) == Ok::<Seq<u8>, Seq<char>>(bytes),
        is_gzip(bytes) && unpacked is Ok ==> sticker_of(bytes, unpacked) == unpacked,
        is_gzip(bytes) && unpacked is Err ==> sticker_of(bytes, unpacked) == Err::<
            Seq<u8>,
            Seq<char>,
        >("sticker is not valid gzip: "@ + unpacked->Err_0),
{
}

// ------------------------------------------------------------------- previews

/// A preview takes four bytes for each of its points, and the cache what its
/// previews take.
pub proof fn law_previews_take_their_bytes(entries: Seq<Preview>, preview: Preview)
    ensures
        bytes_of(preview) == 4 * (preview.width * preview.height),
        total_bytes(Seq::empty()) == 0,
        total_bytes(seq![preview] + entries) == bytes_of(preview) + total_bytes(entries),
        fits(entries) <==> entries.len() <= 96 && total_bytes(entries) <= 8 * 1024 * 1024,
{
    assert((seq![preview] + entries).drop_first() =~= entries);
    assert((seq![preview] + entries).first() == preview);
    assert(preview.width * preview.height * 4 == 4 * (preview.width * preview.height))
        by (nonlinear_arith);
}

/// Of too many previews the oldest go, one by one, and no more than needed.
pub proof fn law_oldest_previews_go(entries: Seq<Preview>)
    ensures
        fits(entries) ==> kept(entries) == entries,
        kept(entries).len() <= entries.len(),
        entries.skip(entries.len() - kept(entries).len()) == kept(entries),
        kept(entries).len() < entries.len() ==> !fits(
            entries.skip(entries.len() - kept(entries).len() - 1),
        ),
    decreases entries.len(),
{
    assert(entries.skip(0) =~= entries);
    if entries.len() > 0 && !fits(entries) {
        let rest = entries.drop_first();
        law_oldest_previews_go(rest);
        let n = kept(rest).len() as int;
        assert(entries.skip(entries.len() - n) =~= rest.skip(rest.len() - n));
        if n < rest.len() {
            assert(entries.skip(entries.len() - n - 1) =~= rest.skip(rest.len() - n - 1));
        } else {
            assert(entries.skip(entries.len() - n - 1) =~= entries);
        }
    }
}

/// Previews are made for an edge between 360 and 2160 points.
pub proof fn law_edges_stay_in_range(edge: int)
    ensures
        360 <= clamped_edge(edge) <= 2160,
        360 <= edge <= 2160 ==> clamped_edge(edge) == edge,
        edge < 360 ==> clamped_edge(edge) == 360,
        edge > 2160 ==> clamped_edge(edge) == 2160,
{
}

proof fn lemma_preview_place(entries: Seq<Preview>, file: u64, edge: i32)
    ensures
        0 <= place_of(entries, file, edge) <= entries.len(),
        place_of(entries, file, edge) < entries.len() ==> entries[place_of(
            entries,
            file,
            edge,
        )].file == file && entries[place_of(entries, file, edge)].edge == edge,
        forall|i: int|
            0 <= i < place_of(entries, file, edge) ==> (#[trigger] entries[i]).file != file
                || entries[i].edge != edge,
    decreases entries.len(),
{
    if entries.len() > 0 && !(entries.first().file == file && entries.first().edge == edge) {
        let rest = entries.drop_first();
        lemma_preview_place(rest, file, edge);
        assert forall|i: int| 0 <= i < place_of(entries, file, edge) implies (
        #[trigger] entries[i]).file != file || entries[i].edge != edge by {
            if i > 0 {
                assert(rest[i - 1] == entries[i]);
            }
        }
        let at = place_of(rest, file, edge);
        if at < rest.len() {
            assert(rest[at] == entries[at + 1]);
        }
    }
}

/// Looking a preview up finds the one of that file and edge, and makes it the
/// youngest. A file that is loaded anew has no preview left.
pub proof fn law_lookups_find_their_file(entries: Seq<Preview>, file: u64, edge: i32, i: int)
    requires
        0 <= i < entries.len(),
    ensures
        entries[i].file == file && entries[i].edge == edge ==> ({
            let after = PreviewCache::looked_up(entries, file, edge as int, false);
            &&& after.len() == entries.len()
            &&& after.last().file == file
            &&& after.last().edge == edge
        }),
        PreviewCache::looked_up(entries, file, edge as int, true) == entries.filter(
            other_file(file),
        ),
        forall|one: Preview|
            #[trigger] PreviewCache::looked_up(entries, file, edge as int, true).contains(one)
                <==> entries.contains(one) && one.file != file,
{
    lemma_preview_place(entries, file, edge);
    let others = entries.filter(other_file(file));
    lemma_kept(entries, other_file(file));
    lemma_preview_place(others, file, edge);
    let at = place_of(others, file, edge);
    if at < others.len() {
        assert(others.contains(others[at]));
    }
}

/// Who stops gives their place to the oldest that waits, and both are told.
pub proof fn law_places_pass_on(before: Registry, after: Registry, id: u64)
    requires
        after.released(before, id),
    ensures
        !before.slots@.contains(id) ==> after == before,
        before.slots@.contains(id) ==> after.commands@.len() > before.commands@.len()
            && after.commands@[before.commands@.len() as int] == Command::Pause(id),
        before.slots@.contains(id) && !(before.enabled && before.animations) ==> !after.slots@.contains(
            id,
        ) && forall|other: u64|
            #[trigger] after.slots@.contains(other) <==> before.slots@.contains(other) && other
                != id,
        before.slots@.contains(id) && before.enabled && before.animations ==> after.slots@
            == filled(before.stickers@, vacated(before.slots@, id)),
        before.slots@.contains(id) ==> ({
            let left = vacated(before.slots@, id).len();
            forall|i: int|
                left <= i < after.slots@.len() ==> after.commands@[before.commands@.len() + 1 + i
                    - left] == Command::Play(#[trigger] after.slots@[i])
        }),
        after.stickers == before.stickers,
{
    lemma_kept(before.slots@, crate::stickers::others(id));
    let left = vacated(before.slots@, id);
    if before.slots@.contains(id) {
        let given = after.slots@.skip(left.len() as int);
        assert forall|i: int|
            left.len() <= i < after.slots@.len() implies after.commands@[before.commands@.len() + 1
            + i - left.len()] == Command::Play(#[trigger] after.slots@[i]) by {
            assert(given[i - left.len()] == after.slots@[i]);
            assert(plays(given)[i - left.len()] == Command::Play(after.slots@[i]));
        }
    }
}

/// A sticker that is forgotten is dropped, and its place is given away.
pub proof fn law_forgotten_stickers_are_dropped(before: Registry, after: Registry, id: u64)
    requires
        after.forgotten(before, id),
        before.slots@.len() <= 6,
    ensures
        forall|one: Sticker|
            #[trigger] after.stickers@.contains(one) <==> before.stickers@.contains(one) && one.id
                != id,
        after.commands@.len() > before.commands@.len(),
        after.commands@[before.commands@.len() as int] == Command::Drop(id),
        !after.slots@.contains(id),
        !before.slots@.contains(id) || !(before.enabled && before.animations) ==> after.slots@
            == vacated(before.slots@, id) && after.commands@.len() == before.commands@.len() + 1,
        after.enabled == before.enabled && after.animations == before.animations && after.next_id
            == before.next_id,
        forall|other: u64|
            before.slots@.contains(other) && other != id ==> #[trigger] after.slots@.contains(other),
{
    lemma_kept(before.stickers@, crate::stickers::stays(id));
    lemma_kept(before.slots@, crate::stickers::others(id));
    let left = vacated(before.slots@, id);
    before.slots@.lemma_filter_len(crate::stickers::others(id));
    law_six_may_move(after.stickers@, left);
    lemma_none_but_wanted(after.stickers@, left, id);
    assert forall|other: u64|
        before.slots@.contains(other) && other != id implies #[trigger] after.slots@.contains(
        other,
    ) by {
        assert(left.contains(other));
        let p = left.index_of(other);
        if after.slots@ != left {
            assert(after.slots@.take(left.len() as int)[p] == left[p]);
            assert(after.slots@[p] == other);
        }
    }
}

proof fn lemma_none_but_wanted(stickers: Seq<Sticker>, slots: Seq<u64>, id: u64)
    requires
        slots.len() <= 6,
        !slots.contains(id),
        forall|one: Sticker| #[trigger] stickers.contains(one) ==> one.id != id,
    ensures
        !filled(stickers, slots).contains(id),
    decreases 6 - slots.len(),
{
    law_oldest_moves_next(stickers, slots);
    if slots.len() < 6 && next_waiting(stickers, slots) is Some {
        let first = next_waiting(stickers, slots)->0;
        let i = choose|i: int|
            0 <= i < stickers.len() && (#[trigger] stickers[i]).id == first && stickers[i].wants;
        assert(stickers.contains(stickers[i]));
        let more = slots.push(first);
        if more.contains(id) {
            let p = more.index_of(id);
            if p < slots.len() {
                assert(slots[p] == id);
            }
        }
        lemma_none_but_wanted(stickers, more, id);
    }
}

/// In a sound registry at most six move, each once, and only those that want to; none
/// does while a switch is off, and nobody waits while a place is free.
pub proof fn law_registries_are_sound(registry: Registry, i: int, j: int)
    requires
        registry.well_formed(),
    ensures
        registry.slots@.len() <= 6,
        0 <= i < j < registry.slots@.len() ==> registry.slots@[i] != registry.slots@[j],
        0 <= i < registry.slots@.len() ==> exists|at: int|
            0 <= at < registry.stickers@.len() && (#[trigger] registry.stickers@[at]).id
                == registry.slots@[i] && registry.stickers@[at].wants,
        !registry.enabled || !registry.animations ==> registry.slots@.len() == 0,
        registry.enabled && registry.animations && registry.slots@.len() < 6 && 0 <= i
            < registry.stickers@.len() && registry.stickers@[i].wants ==> registry.slots@.contains(
            registry.stickers@[i].id,
        ),
{
    if 0 <= i < registry.slots@.len() {
        assert(wanted(registry.stickers@, registry.slots@[i]));
    }
    if registry.on() && registry.slots@.len() < 6 && 0 <= i < registry.stickers@.len()
        && registry.stickers@[i].wants {
        let id = registry.stickers@[i].id;
        assert(wanted(registry.stickers@, id));
        assert(!crate::stickers::waits(registry.stickers@, registry.slots@, id));
    }
}

/// Looking a preview up that is not kept changes nothing, and no lookup loses one.
pub proof fn law_lookups_lose_nothing(entries: Seq<Preview>, file: u64, edge: i32, one: Preview)
    ensures
        (forall|i: int|
            0 <= i < entries.len() ==> (#[trigger] entries[i]).file != file || entries[i].edge
                != edge) ==> PreviewCache::looked_up(entries, file, edge as int, false) == entries,
        PreviewCache::looked_up(entries, file, edge as int, false).contains(one)
            <==> entries.contains(one),
{
    lemma_preview_place(entries, file, edge);
    let at = place_of(entries, file, edge);
    let after = PreviewCache::looked_up(entries, file, edge as int, false);
    if at < entries.len() {
        if entries.contains(one) {
            let p = entries.index_of(one);
            if p < at {
                assert(after[p] == one);
            } else if p == at {
                assert(after[after.len() - 1] == one);
            } else {
                assert(after[p - 1] == one);
            }
        }
        if after.contains(one) {
            let p = after.index_of(one);
            if p < at {
                assert(entries[p] == one);
            } else if p == after.len() - 1 {
                assert(entries[at] == one);
            } else {
                assert(entries[p + 1] == one);
            }
        }
    }
}

/// A sticker is ready once one of its frames was shown.
pub proof fn law_stickers_are_ready_with_a_frame(stickers: Seq<Sticker>, id: u64, index: usize, i: int)
    requires
        0 <= i < stickers.len(),
        stickers[i].id == id,
    ensures
        is_ready(framed(stickers, id, index), id),
        stickers[i].ready ==> is_ready(stickers, id),
        is_ready(stickers, id) ==> exists|at: int|
            0 <= at < stickers.len() && (#[trigger] stickers[at]).id == id && stickers[at].ready,
        registered(stickers, id),
{
    assert(framed(stickers, id, index)[i].ready && framed(stickers, id, index)[i].id == id);
}

} // verus!
