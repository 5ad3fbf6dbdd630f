use omarchygram_ui::anim::choices::{delays, Bars, Departure, Entry, Passage};
use omarchygram_ui::anim::effects::{effects, group_ids, Effect, RadioGroup};
use omarchygram_ui::anim::frames::{
    bar_height, bars_rest, tick_start, Decode, Dissolve, Typewriter,
};
use omarchygram_ui::anim::overlays::{
    columns, flicker_strength, glyph_text, grid_step, preview_drop, rain_drop, static_dots,
    static_over, BootLog, BootStep, OverlayState, Quiet, Rain, Version,
};
use omarchygram_ui::anim::presets::{
    apply_full_phosphor, apply_purist, apply_subtle, select_radio, AnimSettings,
};
use omarchygram_ui::anim::previews::{preview_plan, Demo, Preview};
use omarchygram_ui::anim::scanlines::{rows, LineKey, LinePlan, Scanlines};
use omarchygram_ui::anim::ticks::Effects;
use omarchygram_ui::anim::vignette::{ShadeKey, ShadePlan, Vignette};

fn with(on: &[Effect]) -> Effects {
    let mut settings = AnimSettings::new();
    for effect in on {
        settings.set_animation(*effect, true);
    }
    Effects::new(settings, true, None)
}

#[test]
fn effects_have_names_of_their_own() {
    let sheets = effects();
    assert_eq!(sheets.len(), 54);
    for sheet in &sheets {
        let effect = Effect::from_id(sheet.id).unwrap();
        assert_eq!(effect.id(), sheet.id);
        assert!(!sheet.description.is_empty());
    }
    assert_eq!(Effect::from_id("nothing"), None);
    assert_eq!(
        group_ids(RadioGroup::Send),
        vec![Effect::Invert, Effect::Ticksweep, Effect::Sendspin, Effect::Sendnone]
    );
}

#[test]
fn presets_choose_one_of_each_group() {
    let mut settings = AnimSettings::new();
    apply_full_phosphor(&mut settings);
    for group in [RadioGroup::Entry, RadioGroup::Send, RadioGroup::Switch] {
        let on = group_ids(group).into_iter().filter(|effect| settings.animation(*effect)).count();
        assert_eq!(on, 1);
    }
    assert!(settings.animation(Effect::Decode));
    assert!(settings.animation(Effect::Scanlines));
    assert!(!settings.animation(Effect::Flicker));
    assert!(!settings.animation(Effect::Staticerror));
    apply_subtle(&mut settings);
    assert!(settings.animation(Effect::Fadeup));
    assert!(!settings.animation(Effect::Decode));
    apply_purist(&mut settings);
    assert!(effects().iter().all(|sheet| !settings.animation(Effect::from_id(sheet.id).unwrap())));
    select_radio(&mut settings, Effect::Cascade, RadioGroup::Switch);
    assert!(settings.animation(Effect::Cascade));
    assert!(!settings.animation(Effect::Wipe));
}

#[test]
fn nothing_moves_where_nothing_may() {
    let mut effects = with(&[Effect::Equalizer, Effect::Fadeup]);
    let Bars::Dance(begun) = effects.composer_typing(3, true) else {
        panic!("the bars dance");
    };
    assert_eq!(begun.serial, 1);
    assert_eq!(effects.live_tick_count(), 1);
    let mut settings = AnimSettings::new();
    settings.set_animation(Effect::Equalizer, true);
    assert_eq!(effects.sync(settings, false), vec![1]);
    assert_eq!(effects.live_tick_count(), 0);
    assert!(!effects.on(Effect::Equalizer));
    assert!(matches!(effects.composer_typing(3, true), Bars::Nothing));
}

#[test]
fn an_animation_takes_the_place_of_an_earlier_one() {
    let mut effects = with(&[Effect::Selbaron]);
    assert_eq!(effects.move_sidebar_indicator(7).unwrap().serial, 1);
    let second = effects.move_sidebar_indicator(7).unwrap();
    assert_eq!((second.serial, second.replaced), (2, vec![1]));
    assert_eq!(effects.live_tick_count(), 1);
    assert!(!effects.finish_tick(1));
    assert!(effects.finish_tick(2));
    assert!(!effects.finish_tick(2));
    assert_eq!(effects.live_tick_count(), 0);
    assert_eq!(effects.sync_sidebar_indicator(7, Some(40)).1, Some(40));
}

#[test]
fn the_clock_of_the_header_counts_as_an_effect() {
    let mut settings = AnimSettings::new();
    settings.header_clock = true;
    let effects = Effects::new(settings, true, None);
    assert!(effects.on(Effect::Liveclock));
    assert!(!effects.on(Effect::Fadeup));
    let previewed = Effects::new(AnimSettings::new(), true, Some(Effect::Fadeup));
    assert!(previewed.on(Effect::Fadeup));
    assert_eq!(previewed.sync_root().iter().filter(|on| **on).count(), 1);
}

#[test]
fn new_messages_come_in_by_one_effect() {
    let effects = with(&[Effect::Decode, Effect::Fadeup, Effect::Phosphorburn]);
    let arrival = effects.message_added(false, true);
    assert!(matches!(arrival.entry, Some(Entry::Decoded)));
    assert_eq!(arrival.burn.unwrap().time, 1_120);
    let own = effects.message_added(true, true);
    assert!(own.entry.is_none() && own.burn.is_some());
    let old = effects.message_added(false, false);
    assert!(old.entry.is_none() && old.burn.is_none());
    let faded = with(&[Effect::Fadeup]).message_added(false, true);
    let Some(Entry::Marked(run)) = faded.entry else {
        panic!("it fades up");
    };
    assert_eq!((run.class, run.time), ("omg-run-fadeup", 180));
}

#[test]
fn own_messages_leave_by_one_effect() {
    assert!(with(&[]).message_sent().is_none());
    assert!(matches!(with(&[Effect::Ticksweep]).message_sent(), Some(Departure::Sweep)));
    let Some(Departure::Marked(run)) = with(&[Effect::Invert, Effect::Ticksweep]).message_sent() else {
        panic!("it is inverted");
    };
    assert_eq!(run.time, 110);
}

#[test]
fn a_second_wipe_replaces_the_first() {
    let mut effects = with(&[Effect::Wipe]);
    assert!(effects.chat_switched(false).is_none());
    let Some(Passage::Wipe { serial: 1, replaced: None }) = effects.chat_switched(true) else {
        panic!("it is wiped");
    };
    let Some(Passage::Wipe { serial: 2, replaced: Some(1) }) = effects.chat_switched(true) else {
        panic!("it is wiped again");
    };
    assert!(!effects.wipe_finished(1));
    assert!(effects.wipe_finished(2));
    assert!(matches!(with(&[Effect::Cascade]).chat_switched(true), Some(Passage::Cascade)));
    assert_eq!(delays(3, 20), vec![0, 20, 40]);
}

#[test]
fn badges_move_only_when_they_change() {
    let effects = with(&[Effect::Badgeroll, Effect::Badgepulse]);
    assert!(effects.badge_changed(2, 2).is_none());
    let change = effects.badge_changed(1, 2).unwrap();
    assert!(change.pop.is_none());
    assert_eq!(change.roll.unwrap().time, 240);
    assert_eq!(change.rolling.as_deref(), Some("1"));
    assert!(change.pulse);
    assert!(!effects.badge_changed(1, 0).unwrap().pulse);
}

#[test]
fn small_effects_follow_their_switches() {
    let on = with(&[
        Effect::Bellshake,
        Effect::Receiptdraw,
        Effect::Focusdim,
        Effect::Composercursor,
        Effect::Datefloat,
        Effect::Chargesend,
        Effect::Attachunfold,
        Effect::Onlinebreathe,
    ]);
    assert_eq!(on.mention().unwrap().time, 420);
    let receipt = on.receipt_drawn().unwrap();
    assert_eq!((receipt.first, receipt.second, receipt.change), ("✓", "✓✓", 400));
    assert!(on.window_focus(false));
    assert!(!on.window_focus(true));
    assert_eq!(on.composer_idle(true), (true, false));
    assert!(on.date_chip(true));
    assert_eq!(on.charging(0), Some(25));
    assert_eq!(on.charging(24), None);
    assert_eq!(on.attach_menu_opened(3), Some(vec![0, 40, 80]));
    assert!(on.recent_presence(true));
    let off = with(&[]);
    assert!(off.mention().is_none());
    assert!(off.receipt_drawn().is_none());
    assert!(!off.date_chip(true));
    assert_eq!(off.charging(0), None);
    assert!(off.reaction_changed("👍").is_none());
}

#[test]
fn someone_who_writes_is_shown_in_frames() {
    let braille = with(&[Effect::Braille]);
    let mut frames = braille.typing_frame("Marta").unwrap();
    assert_eq!(frames.interval(), 70);
    assert_eq!(frames.step(&braille).text.as_deref(), Some("⠋ Marta is typing"));
    assert_eq!(frames.step(&braille).text.as_deref(), Some("⠙ Marta is typing"));
    let off = with(&[]);
    let last = frames.step(&off);
    assert_eq!(last.text.as_deref(), Some("Marta is typing…"));
    assert!(!last.more);
    let dots = with(&[Effect::Ellipsis]);
    let mut frames = dots.typing_frame("").unwrap();
    assert_eq!(frames.interval(), 240);
    assert_eq!(frames.step(&dots).text.as_deref(), Some("typing."));
    assert!(off.typing_frame("").is_none());
}

#[test]
fn pictures_and_messages_show_their_progress() {
    let on = with(&[Effect::Asciiload, Effect::Sendspin]);
    let mut loading = on.image_loading().unwrap();
    assert_eq!(loading.step(&on).text.as_deref(), Some("[▓░░░░░░░] photo"));
    assert_eq!(loading.step(&on).text.as_deref(), Some("[▓▓░░░░░░] photo"));
    assert_eq!(loading.step(&with(&[])).text.as_deref(), Some("loading image…"));
    let mut sending = on.send_started().unwrap();
    assert_eq!(sending.step(&on, true).text.as_deref(), Some("⠋"));
    assert_eq!(sending.step(&on, false).text.as_deref(), Some("Send"));
}

#[test]
fn a_deleted_message_dissolves_and_comes_back() {
    let on = with(&[Effect::Deletedissolve]);
    assert_eq!(on.message_deleted().unwrap().time, 500);
    let mut dissolve = Dissolve::new(vec!["abc def".to_string()]);
    let (texts, more) = dissolve.step(&on);
    assert!(more);
    assert_eq!(texts, vec!["░bc de░".to_string()]);
    for _ in 0..5 {
        assert!(dissolve.step(&on).1);
    }
    assert_eq!(dissolve.step(&on), (vec!["abc def".to_string()], false));
}

#[test]
fn a_message_is_typed_out() {
    let on = with(&[Effect::Typewriter]);
    assert!(Typewriter::new("").is_none());
    let mut typewriter = Typewriter::new("hé").unwrap();
    let first = typewriter.step(&on);
    assert_eq!(first.text.as_deref(), Some("h▌"));
    assert!(first.more);
    let second = typewriter.step(&on);
    assert_eq!(second.text.as_deref(), Some("hé▌"));
    assert!(!second.more);
    assert_eq!(typewriter.step(&with(&[])).text.as_deref(), Some("hé"));
}

#[test]
fn a_message_is_read_out_of_noise() {
    let on = with(&[Effect::Decode]);
    let mut decode = Decode::new("ab c").unwrap();
    let first = decode.step(&on);
    assert_eq!(first.text.as_deref(), Some("░& &"));
    assert!(first.more);
    assert_eq!(decode.step(&on).text.as_deref(), Some("ab <"));
    let last = decode.step(&on);
    assert_eq!(last.text.as_deref(), Some("ab c"));
    assert!(!last.more);
}

#[test]
fn bars_dance_for_a_while() {
    assert_eq!(bar_height(0, 0), 3);
    assert_eq!(bar_height(70_000, 1), 9);
    assert_eq!(bar_height(0, 3), 5);
    assert!(!bars_rest(1_499_999));
    assert!(bars_rest(1_500_000));
    let mut started = None;
    assert_eq!(tick_start(&mut started, 5), 5);
    assert_eq!(tick_start(&mut started, 9), 5);
}

#[test]
fn previews_end_with_their_time() {
    let mut effects = with(&[]);
    let (ended, begun) = effects.preview("fadeup", true);
    assert!(ended.is_none());
    let begun = begun.unwrap();
    assert_eq!(begun.effect, Effect::Fadeup);
    let Preview::Label { text, demo: Demo::Marked(run) } = begun.plan else {
        panic!("it is shown on a label");
    };
    assert_eq!((text, run.class), ("Motion Lab preview", "omg-run-fadeup"));
    let (ended, second) = effects.preview("flicker", true);
    assert_eq!(ended, Some(1));
    let second = second.unwrap();
    assert!(matches!(second.plan, Preview::Launch));
    assert!(!effects.finish_preview(1));
    assert!(effects.finish_preview(second.serial));
    let (none, nothing) = effects.preview("nothing", true);
    assert!(none.is_none() && nothing.is_none());
    assert!(matches!(preview_plan(Effect::Matrixrain), Preview::Rain));
    assert_eq!(effects.cancel_preview(), None);
}

#[test]
fn overlays_come_and_go_with_their_switches() {
    let on = with(&[Effect::Scanlines, Effect::Vignette, Effect::Bootlog, Effect::Matrixrain]);
    let mut state = OverlayState::new();
    state.refresh(&on);
    assert!(!state.scanlines);
    assert_eq!(state.launch(&on), (true, false));
    assert!(state.scanlines_visible && state.vignette && !state.flicker);
    let off = with(&[]);
    state.empty_state(&on, 4, true);
    assert!(state.matrix && state.matrix_visible && !state.grid);
    state.empty_state(&off, 4, true);
    assert!(state.matrix && !state.matrix_visible);
    state.empty_state(&off, 5, true);
    assert!(!state.matrix);
    let both = with(&[Effect::Matrixrain, Effect::Gridshimmer]);
    state.empty_state(&both, 5, true);
    assert!(state.matrix_visible && state.grid_visible);
    state.sync_permanent(&on);
    assert!(state.matrix_visible && !state.grid && !state.grid_visible);
    state.empty_state(&on, 5, false);
    assert!(!state.matrix && !state.matrix_visible);
    state.sync_permanent(&off);
    assert!(state.scanlines && !state.scanlines_visible && !state.vignette);
}

#[test]
fn overlays_rest_while_someone_writes() {
    let mut quiet = Quiet::new();
    assert!(!quiet.paused(0));
    quiet.note_input(1_000);
    assert!(quiet.paused(1_349));
    assert!(!quiet.paused(1_350));
    assert_eq!(flicker_strength(0), 12);
    assert_eq!(flicker_strength(16_667), 6);
    assert_eq!(flicker_strength(40_000), 0);
    assert_eq!(flicker_strength(16_667 * 360), 12);
}

#[test]
fn the_log_grows_line_by_line() {
    let on = with(&[Effect::Bootlog]);
    let mut log = BootLog::new(Version { major: 4, minor: 20, micro: 1 });
    assert!(matches!(log.step(&on), BootStep::Show(_)));
    let BootStep::Show(text) = log.step(&on) else {
        panic!("there are more lines");
    };
    assert_eq!(text, "omarchygram / active theme\ngtk 4.20.1");
    for _ in 0..5 {
        assert!(matches!(log.step(&on), BootStep::Show(_)));
    }
    assert!(matches!(log.step(&on), BootStep::Complete));
    assert!(matches!(log.step(&with(&[])), BootStep::Remove));
}

#[test]
fn noise_is_the_same_in_every_window() {
    let dots = static_dots(0, 100, 50);
    assert_eq!(dots.len(), 96);
    assert_eq!(dots[0].x, 1_013_904_223 % 100);
    assert_eq!(dots[0].y, 1_013_904_223_u32.rotate_left(11) % 50);
    assert!(dots[0].strong && !dots[1].strong);
    assert_eq!(dots[4].width, 5);
    assert!(static_dots(9, 0, 0).iter().all(|dot| dot.x == 0 && dot.y == 0));
    assert!(!static_over(299_999));
    assert!(static_over(300_000));
}

#[test]
fn signs_fall_in_columns() {
    assert_eq!(columns(0), 1);
    assert_eq!(columns(100), 6);
    let sign = rain_drop(6, 0, 0, 140).unwrap();
    assert_eq!((sign.x, sign.y, sign.glyph), (0, 28, 2));
    assert_eq!(rain_drop(0, 0, 0, 140), None);
    assert_eq!(glyph_text(sign.glyph), "+");
    let shown = preview_drop(3, 1, 140);
    assert_eq!((shown.x, shown.y, shown.glyph), (16, 112, 1));
    let mut rain = Rain { frame: 0, last: 0 };
    assert!(!rain.advance(65_999));
    assert!(rain.advance(66_000));
    assert_eq!((rain.frame, rain.last), (1, 66_000));
}

#[test]
fn the_grid_moves_in_sixteen_steps() {
    assert_eq!(grid_step(0, false), 0);
    assert_eq!(grid_step(875_000, false), 1);
    assert_eq!(grid_step(14_000_000, false), 0);
    assert_eq!(grid_step(150_000, true), 3);
}

#[test]
fn drawings_are_kept() {
    assert_eq!(rows(7), vec![0, 3, 6]);
    assert!(rows(0).is_empty());
    let key = LineKey {
        width: 10,
        height: 10,
        scale: 1.0_f64.to_bits(),
        red: 0,
        green: 0,
        blue: 0,
        alpha: 0,
        offset: 0,
    };
    let mut lines = Scanlines::new();
    assert_eq!(lines.snapshot(key, false), LinePlan::Draw);
    assert_eq!(lines.drawn(key, true), LinePlan::Reuse);
    assert_eq!(lines.snapshot(key, false), LinePlan::Reuse);
    assert_eq!(lines.snapshot(LineKey { height: 11, ..key }, false), LinePlan::Draw);
    assert_eq!(lines.snapshot(key, true), LinePlan::Rectangles);
    assert_eq!(lines.snapshot(key, false), LinePlan::Draw);
    let shade = ShadeKey { width: 4, height: 3, scale: 2, red: 0, green: 0, blue: 0, alpha: 0 };
    let mut vignette = Vignette::new();
    assert_eq!(vignette.snapshot(shade), ShadePlan::Draw { width: 8, height: 6 });
    vignette.drawn(shade);
    assert_eq!(vignette.snapshot(shade), ShadePlan::Reuse);
    assert_eq!(vignette.rasterizations(), 1);
    vignette.unmap();
    assert_eq!(vignette.snapshot(shade), ShadePlan::Draw { width: 8, height: 6 });
}
