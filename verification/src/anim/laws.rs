//! What holds of the effects: which of them are shown, when they begin and end, and
//! what their frames look like.

use vstd::prelude::*;

use crate::anim::choices::{entry_of, is_entry, runs_if, Entry, Run};
use crate::anim::effects::{group_of, Effect, RadioGroup};
use crate::anim::frames::{
    braille_frame, decoding, dissolving, ellipsis_frame, loading_frame, typing_text, TypingFrames,
};
use crate::anim::overlays::{
    at_least_one, boot_line, boot_text, columns_of, drop_of, is_dot, row_of, Dot, OverlayState,
    Quiet, Version,
};
use crate::anim::presets::{preset_choice, preset_has, Preset};
use crate::anim::previews::{demo_of, label_of, on_a_label, shows_alone, Demo, Preview};
use crate::anim::scanlines::{line_plan, LineKey};
use crate::anim::ticks::{
    begins, running, serials_of, stops, tick_place, Begun, Effects, Tick,
};
use crate::anim::vignette::{shade_plan, ShadeKey};
use crate::lists::lemma_kept;
use crate::text::{digits, white_space};

verus! {

// ---------------------------------------------------------------------- ticks

/// An effect is shown while animations are allowed and it is switched on or being
/// tried. The clock is also shown where the header's clock is switched on.
pub proof fn law_effects_are_shown_where_wanted(effects: Effects, effect: Effect)
    ensures
        effects.shows(effect) ==> effects.animations_enabled,
        effects.animations_enabled && effects.settings.has(effect) ==> effects.shows(effect),
        effects.animations_enabled && effects.previewing == Some(effect) ==> effects.shows(effect),
        effect != Effect::Liveclock && !effects.settings.has(effect) && effects.previewing != Some(
            effect,
        ) ==> !effects.shows(effect),
        effects.animations_enabled && effects.settings.header_clock ==> effects.shows(
            Effect::Liveclock,
        ),
{
}

/// The animations that run are counted.
pub proof fn law_running_is_counted(ticks: Seq<Tick>, tick: Tick)
    ensures
        running(Seq::empty()) == 0,
        tick.active ==> running(ticks.push(tick)) == running(ticks) + 1,
        !tick.active ==> running(ticks.push(tick)) == running(ticks),
{
    assert(ticks.push(tick).drop_last() =~= ticks);
}

/// A number leads to the first animation that has it.
pub proof fn law_numbers_lead_to_their_animation(ticks: Seq<Tick>, serial: u64)
    ensures
        0 <= tick_place(ticks, serial) <= ticks.len(),
        tick_place(ticks, serial) < ticks.len() ==> ticks[tick_place(ticks, serial)].serial
            == serial,
        forall|i: int|
            0 <= i < tick_place(ticks, serial) ==> (#[trigger] ticks[i]).serial != serial,
    decreases ticks.len(),
{
    if ticks.len() > 0 {
        law_numbers_lead_to_their_animation(ticks.drop_last(), serial);
        assert forall|i: int| 0 <= i < tick_place(ticks, serial) implies (
        #[trigger] ticks[i]).serial != serial by {
            if i < ticks.len() - 1 {
                assert(ticks.drop_last()[i] == ticks[i]);
            }
        }
    }
}

/// One widget shows an effect once at a time: what begins ends what ran before, ends
/// nothing else, and leaves out what is switched off.
pub proof fn law_effects_run_once(
    before: Effects,
    after: Effects,
    begun: Begun,
    widget: u64,
    effect: Effect,
    i: int,
)
    requires
        begins(before, after, begun, widget, effect),
        0 <= i < after.ticks@.len(),
    ensures
        after.ticks@.len() > 0,
        after.ticks@.last() == (Tick { serial: begun.serial, widget, effect, active: true }),
        begun.serial == before.next_tick + 1,
        i < after.ticks@.len() - 1 ==> !(after.ticks@[i].active && after.ticks@[i].widget == widget
            && after.ticks@[i].effect == effect),
        i < after.ticks@.len() - 1 && after.ticks@[i].active ==> before.ticks@.contains(
            after.ticks@[i],
        ) && before.shows(after.ticks@[i].effect),
        forall|tick: Tick|
            #[trigger] before.ticks@.contains(tick) && tick.active && before.shows(tick.effect) && !(
            tick.widget == widget && tick.effect == effect) ==> after.ticks@.contains(tick),
        after.settings == before.settings,
{
    let keep = before.runs_on();
    let kept = before.ticks@.filter(keep);
    let same = Effects::is_same(widget, effect);
    lemma_kept(before.ticks@, keep);
    let changed = kept.map_values(crate::anim::ticks::ended_if(same));
    if i < after.ticks@.len() - 1 {
        assert(after.ticks@[i] == changed[i]);
        assert(kept.contains(kept[i]));
    }
    assert forall|tick: Tick|
        #[trigger] before.ticks@.contains(tick) && tick.active && before.shows(tick.effect) && !(
        tick.widget == widget && tick.effect == effect) implies after.ticks@.contains(tick) by {
        assert(kept.contains(tick));
        let p = kept.index_of(tick);
        assert(changed[p] == tick);
        assert(after.ticks@[p] == tick);
    }
}

/// Stopping an effect on a widget ends it there and nowhere else.
pub proof fn law_one_effect_is_stopped(
    before: Effects,
    after: Effects,
    stopped: Seq<u64>,
    widget: u64,
    effect: Effect,
    i: int,
)
    requires
        stops(before, after, stopped, widget, effect),
        0 <= i < before.ticks@.len(),
    ensures
        after.ticks@.len() == before.ticks@.len(),
        before.ticks@[i].widget == widget && before.ticks@[i].effect == effect
            ==> !after.ticks@[i].active,
        before.ticks@[i].widget != widget || before.ticks@[i].effect != effect ==> after.ticks@[i]
            == before.ticks@[i],
        after.settings == before.settings && after.next_tick == before.next_tick,
{
}

// -------------------------------------------------------------------- choices

/// A message that comes in enters with the first of the six ways of entering that is
/// shown; an own message, and one that was there before, enters with none.
pub proof fn law_messages_enter_in_one_way(effects: Effects, outgoing: bool, is_live: bool)
    ensures
        outgoing || !is_live ==> entry_of(effects, outgoing, is_live) is None,
        !outgoing && is_live && effects.shows(Effect::Typewriter) ==> entry_of(
            effects,
            outgoing,
            is_live,
        ) == Some(Effect::Typewriter),
        entry_of(effects, outgoing, is_live) matches Some(effect) ==> effects.shows(effect)
            && group_of(effect) == Some(RadioGroup::Entry) && effect != Effect::Entrynone,
        !outgoing && is_live && entry_of(effects, outgoing, is_live) is None ==> !effects.shows(
            Effect::Typewriter,
        ) && !effects.shows(Effect::Decode) && !effects.shows(Effect::Lineprint) && !effects.shows(
            Effect::Fadeup,
        ) && !effects.shows(Effect::Instantcursor) && !effects.shows(Effect::Borderdraw),
{
}

/// Each way of entering looks like itself.
pub proof fn law_entries_look_like_themselves(entry: Option<Entry>, effect: Effect)
    requires
        is_entry(entry, Some(effect)),
    ensures
        effect == Effect::Typewriter ==> entry == Some(Entry::Typed),
        effect == Effect::Decode ==> entry == Some(Entry::Decoded),
        effect == Effect::Lineprint ==> entry == Some(Entry::Revealed),
        effect == Effect::Instantcursor ==> entry == Some(Entry::Cursor),
        effect == Effect::Fadeup ==> (entry matches Some(Entry::Marked(run)) && run.class@
            == "omg-run-fadeup"@ && run.time == 180),
        effect == Effect::Borderdraw ==> (entry matches Some(Entry::Marked(run)) && run.class@
            == "omg-run-borderdraw"@ && run.time == 520),
        effect == Effect::Entrynone ==> entry is None,
{
}

/// Something runs exactly where it is meant to, with its class and for its time.
pub proof fn law_runs_are_conditional(
    run: Option<Run>,
    condition: bool,
    class: Seq<char>,
    time: int,
)
    requires
        runs_if(run, condition, class, time),
    ensures
        run is Some <==> condition,
        run is Some ==> run->0.class@ == class && run->0.time == time,
{
}

// --------------------------------------------------------------------- frames

/// Frames come around again: eight of the wheel, three of the dots, and eight of a
/// bar that fills.
pub proof fn law_frames_come_around(index: int)
    ensures
        braille_frame(index + 8) == braille_frame(index),
        ellipsis_frame(index + 3) == ellipsis_frame(index),
        loading_frame(index + 8) == loading_frame(index),
        ellipsis_frame(index).len() == index % 3 + 1,
        forall|i: int| 0 <= i < ellipsis_frame(index).len() ==> ellipsis_frame(index)[i] == '.',
        loading_frame(index).len() == 16,
        forall|i: int|
            1 <= i <= 8 ==> #[trigger] loading_frame(index)[i] == (if i <= index % 8 + 1 {
                '▓'
            } else {
                '░'
            }),
        braille_frame(8 * index) == "⠋"@,
        braille_frame(8 * index + 1) == "⠙"@,
        braille_frame(8 * index + 2) == "⠹"@,
        braille_frame(8 * index + 3) == "⠸"@,
        braille_frame(8 * index + 4) == "⠼"@,
        braille_frame(8 * index + 5) == "⠴"@,
        braille_frame(8 * index + 6) == "⠦"@,
        braille_frame(8 * index + 7) == "⠧"@,
{
    reveal_strlit(".");
    reveal_strlit("..");
    reveal_strlit("...");
    reveal_strlit("[▓░░░░░░░] photo");
    reveal_strlit("[▓▓░░░░░░] photo");
    reveal_strlit("[▓▓▓░░░░░] photo");
    reveal_strlit("[▓▓▓▓░░░░] photo");
    reveal_strlit("[▓▓▓▓▓░░░] photo");
    reveal_strlit("[▓▓▓▓▓▓░░] photo");
    reveal_strlit("[▓▓▓▓▓▓▓░] photo");
    reveal_strlit("[▓▓▓▓▓▓▓▓] photo");
    let frame = loading_frame(index);
    assert(frame[1] == '▓');
    assert(frame[2] == (if 2 <= index % 8 + 1 { '▓' } else { '░' }));
    assert(frame[3] == (if 3 <= index % 8 + 1 { '▓' } else { '░' }));
    assert(frame[4] == (if 4 <= index % 8 + 1 { '▓' } else { '░' }));
    assert(frame[5] == (if 5 <= index % 8 + 1 { '▓' } else { '░' }));
    assert(frame[6] == (if 6 <= index % 8 + 1 { '▓' } else { '░' }));
    assert(frame[7] == (if 7 <= index % 8 + 1 { '▓' } else { '░' }));
    assert(frame[8] == (if 8 <= index % 8 + 1 { '▓' } else { '░' }));
    assert forall|i: int| 1 <= i <= 8 implies #[trigger] frame[i] == (if i <= index % 8 + 1 {
        '▓'
    } else {
        '░'
    }) by {
        assert(i == 1 || i == 2 || i == 3 || i == 4 || i == 5 || i == 6 || i == 7 || i == 8);
    }
}

/// Who types is named, with the wheel in front or the dots behind.
pub proof fn law_typing_has_a_frame(name: Seq<char>, frame: Seq<char>)
    ensures
        name.len() > 0 ==> typing_text(name, true, frame) == frame + " "@ + name + " is typing"@,
        name.len() > 0 ==> typing_text(name, false, frame) == name + " is typing"@ + frame,
        name.len() == 0 ==> typing_text(name, true, frame) == frame + " typing"@,
        name.len() == 0 ==> typing_text(name, false, frame) == "typing"@ + frame,
{
}

/// A text that dissolves loses every third character in each of three frames, so that
/// none is left unharmed.
pub proof fn law_dissolving_reaches_all(text: Seq<char>, frame: int, at: int)
    requires
        0 <= at < text.len(),
    ensures
        (at + frame) % 3 != 0 ==> dissolving(text, frame)[at] == text[at],
        (at + frame) % 3 == 0 && !white_space(text[at]) ==> ({
            let ch = dissolving(text, frame)[at];
            ch == '░' || ch == '▒' || ch == '▓' || ch == '#' || ch == '%' || ch == '@'
        }),
        at >= frame * 2 && !white_space(text[at]) ==> ({
            let ch = decoding(text, frame)[at];
            ch == '░' || ch == '▒' || ch == '▓' || ch == '#' || ch == '$' || ch == '%' || ch == '@'
                || ch == '&' || ch == '*' || ch == '+' || ch == '=' || ch == '-' || ch == '<' || ch
                == '>'
        }),
{
}

// ------------------------------------------------------------------- overlays

/// Overlays stand still for 350 milliseconds after something was typed.
pub proof fn law_overlays_stand_still_while_typing(quiet: Quiet, now: u64)
    ensures
        quiet.last_input is None ==> !quiet.still_at(now),
        quiet.last_input is Some ==> (quiet.still_at(now) <==> now < quiet.last_input->0 + 350),
{
}

/// What is switched off goes away and nothing new comes, and what is switched on comes
/// when it is asked for.
pub proof fn law_overlays_come_and_go(before: OverlayState, effects: Effects)
    ensures
        !effects.shows(Effect::Vignette) ==> !before.synced(effects).vignette,
        !effects.shows(Effect::Flicker) ==> !before.synced(effects).flicker,
        !effects.shows(Effect::Scanlines) ==> !before.synced(effects).scanlines_visible,
        !effects.shows(Effect::Matrixrain) ==> !before.synced(effects).matrix,
        !effects.shows(Effect::Gridshimmer) ==> !before.synced(effects).grid,
        before.synced(effects).vignette ==> before.vignette,
        before.synced(effects).flicker ==> before.flicker,
        before.synced(effects).scanlines == before.scanlines,
        effects.shows(Effect::Vignette) ==> before.ensured(effects).vignette,
        effects.shows(Effect::Flicker) ==> before.ensured(effects).flicker,
        effects.shows(Effect::Scanlines) ==> before.ensured(effects).scanlines && before.ensured(
            effects,
        ).scanlines_visible,
        before.vignette ==> before.ensured(effects).vignette,
{
}

/// The log at the start grows line by line.
pub proof fn law_boot_lines_follow_each_other(version: Version, lines: int)
    ensures
        boot_text(version, 0) == Seq::<char>::empty(),
        boot_text(version, 1) == "omarchygram / active theme"@,
        lines >= 1 ==> boot_text(version, lines + 1) == boot_text(version, lines) + "\n"@
            + boot_line(version, lines),
        boot_line(version, 1) == "gtk "@ + digits(version.major as int) + "."@ + digits(
            version.minor as int,
        ) + "."@ + digits(version.micro as int),
        boot_line(version, 2) == "session ok"@,
        boot_line(version, 3) == "theme monitor ok"@,
        boot_line(version, 4) == "dialogs ok"@,
        boot_line(version, 5) == "updates live"@,
        boot_line(version, 6) == "ready"@,
{
}

/// Rain falls in columns of sixteen points, one at least, from above the edge down.
pub proof fn law_rain_falls_in_columns(width: i32, height: i32, frame: int, column: int)
    ensures
        columns_of(width) >= 1,
        width >= 16 ==> 16 * columns_of(width) <= width < 16 * (columns_of(width) + 1),
        width < 32 ==> columns_of(width) == 1,
        at_least_one(width) >= 1,
        width >= 1 ==> at_least_one(width) == width,
        width < 1 ==> at_least_one(width) == 1,
        row_of(frame, column, height) >= -4,
        height >= 14 ==> 14 * row_of(frame, column, height) <= height,
{
    let span = at_least_one(height) / 14 + 5;
    vstd::arithmetic::div_mod::lemma_mod_bound(frame + column * 7, span);
}

/// Lines and shades are drawn only where there is room, and again only where what is
/// kept is of another size.
pub proof fn law_overlays_are_drawn_where_there_is_room(
    lines: Option<LineKey>,
    key: LineKey,
    rectangles: bool,
    shade: Option<ShadeKey>,
    size: ShadeKey,
)
    ensures
        key.width <= 0 || key.height <= 0 <==> line_plan(lines, key, rectangles) is Nothing,
        key.width > 0 && key.height > 0 && !rectangles ==> (line_plan(lines, key, rectangles)
            is Reuse <==> lines == Some(key)),
        key.width > 0 && key.height > 0 && !rectangles && lines != Some(key) ==> line_plan(
            lines,
            key,
            rectangles,
        ) is Draw,
        key.width > 0 && key.height > 0 && rectangles ==> line_plan(lines, key, rectangles)
            is Rectangles,
        size.width <= 0 || size.height <= 0 <==> shade_plan(shade, size) is Nothing,
        size.width > 0 && size.height > 0 ==> (shade_plan(shade, size) is Reuse <==> shade == Some(
            size,
        )),
{
}

// -------------------------------------------------------------------- presets

/// The purist's preset has nothing, the full one everything that does not flash, one
/// of each group, and the subtle one less than that.
pub proof fn law_presets_differ_in_strength(effect: Effect)
    ensures
        !preset_has(Preset::Purist, effect),
        group_of(effect) is None && effect != Effect::Flicker && effect != Effect::Staticerror
            ==> preset_has(Preset::FullPhosphor, effect),
        group_of(effect) is None && preset_has(Preset::Subtle, effect) ==> preset_has(
            Preset::FullPhosphor,
            effect,
        ),
        preset_choice(Preset::Subtle, RadioGroup::Entry) == Some(Effect::Fadeup),
        preset_choice(Preset::Subtle, RadioGroup::Send) == Some(Effect::Ticksweep),
        preset_choice(Preset::Subtle, RadioGroup::Switch) == Some(Effect::Crossfade),
        preset_choice(Preset::FullPhosphor, RadioGroup::Entry) == Some(Effect::Decode),
        preset_choice(Preset::FullPhosphor, RadioGroup::Send) == Some(Effect::Invert),
        preset_choice(Preset::FullPhosphor, RadioGroup::Switch) == Some(Effect::Wipe),
        preset_has(Preset::Subtle, effect) <==> (effect == Effect::Fadeup || effect
            == Effect::Ticksweep || effect == Effect::Crossfade || effect == Effect::Receiptdraw
            || effect == Effect::Editripple || effect == Effect::Ellipsis || effect
            == Effect::Badgepop || effect == Effect::Selbaron || effect == Effect::Jumprocket
            || effect == Effect::Datefloat || effect == Effect::Composercursor || effect
            == Effect::Tsreveal || effect == Effect::Liveclock || effect
            == Effect::Onlinebreathe),
{
}

/// Of the ways in which a message enters, a message is sent and a chat is opened one
/// is chosen each; all other effects stand alone.
pub proof fn law_groups_hold_their_effects(effect: Effect)
    ensures
        group_of(effect) == Some(RadioGroup::Entry) <==> (effect == Effect::Typewriter || effect
            == Effect::Decode || effect == Effect::Lineprint || effect == Effect::Fadeup || effect
            == Effect::Instantcursor || effect == Effect::Borderdraw || effect
            == Effect::Entrynone),
        group_of(effect) == Some(RadioGroup::Send) <==> (effect == Effect::Invert || effect
            == Effect::Ticksweep || effect == Effect::Sendspin || effect == Effect::Sendnone),
        group_of(effect) == Some(RadioGroup::Switch) <==> (effect == Effect::Wipe || effect
            == Effect::Crossfade || effect == Effect::Cascade || effect == Effect::Switchnone),
{
}

/// The rain of a column goes on by one row in each frame, and shows its sign where it
/// is on the screen.
pub proof fn law_rain_shows_where_it_falls(frame: int, column: int, trail: int, height: i32)
    requires
        0 <= column < 1_000_000,
        0 <= trail < 1_000_000,
        0 <= frame,
    ensures
        drop_of(frame, column, trail, height) matches Some(sign) ==> sign.x == 16 * column && sign.y
            == 14 * (row_of(frame, column, height) - trail) && 0 <= sign.y < height && sign.glyph
            < 8,
        drop_of(frame, column, trail, height) is None <==> !(0 <= 14 * (row_of(
            frame,
            column,
            height,
        ) - trail) < height),
{
}

/// A dot lies on the screen.
pub proof fn law_dots_lie_on_the_screen(dot: Dot, frame: u32, index: u32, width: i32, height: i32)
    requires
        is_dot(dot, frame, index, width, height),
    ensures
        0 <= dot.x,
        width > 0 ==> dot.x < width,
        0 <= dot.y,
        height > 0 ==> dot.y < height,
        1 <= dot.width <= 5,
        dot.strong <==> index % 3 == 0,
{
}

/// What tries an effect out fills the window for the effects of the window, and shows
/// a label for all others.
pub proof fn law_previews_show_their_effect(plan: Preview, effect: Effect)
    requires
        shows_alone(plan, effect),
    ensures
        plan is Launch <==> effect == Effect::Bootlog || effect == Effect::Poweron || effect
            == Effect::Scanlines || effect == Effect::Vignette || effect == Effect::Flicker,
        plan is ThemeSwitch <==> effect == Effect::Scansweep || effect == Effect::Thememorph,
        plan is ErrorFlash <==> effect == Effect::Staticerror,
        plan is Rain <==> effect == Effect::Matrixrain,
        plan is Grid <==> effect == Effect::Gridshimmer,
        plan is Label <==> on_a_label(effect),
        plan matches Preview::Label { text, demo } ==> demo == demo_of(effect) && text@ == label_of(
            effect,
        ),
{
}

/// What ends when an effect begins is told: the animations that are switched off, and
/// the one whose place is taken.
pub proof fn law_ended_animations_are_told(
    before: Effects,
    after: Effects,
    begun: Begun,
    widget: u64,
    effect: Effect,
    tick: Tick,
)
    requires
        begins(before, after, begun, widget, effect),
        before.ticks@.contains(tick),
        tick.active,
    ensures
        !before.shows(tick.effect) ==> begun.disabled@.contains(tick.serial),
        before.shows(tick.effect) && tick.widget == widget && tick.effect == effect
            ==> begun.replaced@.contains(tick.serial),
        forall|serial: u64|
            #[trigger] begun.disabled@.contains(serial) ==> exists|i: int|
                0 <= i < before.ticks@.len() && (#[trigger] before.ticks@[i]).serial == serial
                    && before.ticks@[i].active && !before.shows(before.ticks@[i].effect),
{
    lemma_serials(before.ticks@, before.is_disabled());
    let kept = before.ticks@.filter(before.runs_on());
    lemma_kept(before.ticks@, before.runs_on());
    lemma_serials(kept, Effects::is_same(widget, effect));
    if !before.shows(tick.effect) {
        let at = before.ticks@.index_of(tick);
        assert(before.is_disabled()(before.ticks@[at]));
    } else if tick.widget == widget && tick.effect == effect {
        assert(kept.contains(tick));
        let at = kept.index_of(tick);
        assert(Effects::is_same(widget, effect)(kept[at]));
    }
}

proof fn lemma_serials(ticks: Seq<Tick>, which: spec_fn(Tick) -> bool)
    ensures
        forall|i: int|
            0 <= i < ticks.len() && which(#[trigger] ticks[i]) ==> serials_of(
                ticks,
                which,
            ).contains(ticks[i].serial),
        forall|serial: u64|
            #[trigger] serials_of(ticks, which).contains(serial) ==> exists|i: int|
                0 <= i < ticks.len() && (#[trigger] ticks[i]).serial == serial && which(ticks[i]),
{
    lemma_kept(ticks, which);
    let chosen = ticks.filter(which);
    let serials = serials_of(ticks, which);
    assert forall|i: int|
        0 <= i < ticks.len() && which(#[trigger] ticks[i]) implies serials.contains(
        ticks[i].serial,
    ) by {
        assert(ticks.contains(ticks[i]));
        assert(chosen.contains(ticks[i]));
        assert(serials[chosen.index_of(ticks[i])] == ticks[i].serial);
    }
    assert forall|serial: u64| #[trigger] serials.contains(serial) implies exists|i: int|
        0 <= i < ticks.len() && (#[trigger] ticks[i]).serial == serial && which(ticks[i]) by {
        let p = serials.index_of(serial);
        assert(chosen.contains(chosen[p]));
        let at = ticks.index_of(chosen[p]);
        assert(ticks[at].serial == serial);
    }
}

/// The wheel turns or the dots run.
pub proof fn law_typing_frames_turn_or_run(frames: TypingFrames)
    ensures
        frames.turning ==> frames.frame() == braille_frame(frames.index as int),
        !frames.turning ==> frames.frame() == ellipsis_frame(frames.index as int),
{
}

/// The label that an effect is tried on fits the effect.
pub proof fn law_labels_fit_their_effect(effect: Effect)
    ensures
        effect == Effect::Badgepop || effect == Effect::Badgeroll || effect == Effect::Badgepulse
            ==> label_of(effect) == "2"@ && demo_of(effect) == Demo::Badge,
        effect == Effect::Receiptdraw ==> label_of(effect) == "✓"@ && demo_of(effect)
            == Demo::Receipt,
        effect == Effect::Jumprocket ==> label_of(effect) == "▼"@ && demo_of(effect) == Demo::Jump,
        effect == Effect::Composercursor || effect == Effect::Cursorcomet ==> label_of(effect)
            == "▌"@ && demo_of(effect) == Demo::Idle,
        effect == Effect::Asciiload ==> label_of(effect) == "[▓▓░░░░░░] photo"@ && demo_of(effect)
            == Demo::Loading,
        effect == Effect::Onlinebreathe ==> label_of(effect) == "·"@ && demo_of(effect)
            == Demo::Seen,
        effect == Effect::Unreadcomet ==> label_of(effect) == "·"@ && demo_of(effect)
            == Demo::Comet,
        effect == Effect::Typewriter ==> label_of(effect) == "Motion Lab preview"@ && demo_of(
            effect,
        ) == Demo::Enters(Entry::Typed),
        effect == Effect::Decode ==> demo_of(effect) == Demo::Enters(Entry::Decoded),
        effect == Effect::Lineprint ==> demo_of(effect) == Demo::Enters(Entry::Revealed),
        effect == Effect::Instantcursor ==> demo_of(effect) == Demo::Enters(Entry::Cursor),
        effect == Effect::Invert || effect == Effect::Ticksweep ==> demo_of(effect) == Demo::Sent,
        effect == Effect::Sendspin ==> demo_of(effect) == Demo::Sending,
        effect == Effect::Editripple ==> demo_of(effect) == Demo::Edited,
        effect == Effect::Deletedissolve ==> demo_of(effect) == Demo::Deleted,
        effect == Effect::Bellshake ==> demo_of(effect) == Demo::Mentioned,
        effect == Effect::Braille || effect == Effect::Ellipsis ==> demo_of(effect) == Demo::Typing,
        effect == Effect::Unreaddivider ==> demo_of(effect) == Demo::Divider,
        effect == Effect::Datefloat ==> demo_of(effect) == Demo::DateChip,
        effect == Effect::Chargesend ==> demo_of(effect) == Demo::Charge,
        effect == Effect::Attachunfold ==> demo_of(effect) == Demo::Menu,
        effect == Effect::Equalizer ==> demo_of(effect) == Demo::Bars,
        effect == Effect::Focusdim ==> demo_of(effect) == Demo::Unfocused,
        effect == Effect::Reactburst || effect == Effect::Reactroll ==> demo_of(effect)
            == Demo::Reacted,
        effect == Effect::Liveclock ==> demo_of(effect) == Demo::Clock,
{
}

} // verus!
