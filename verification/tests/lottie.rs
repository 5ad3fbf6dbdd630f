use std::io::Write;

use flate2::write::GzEncoder;
use flate2::Compression;
use omarchygram_ui::event_loop::Batch;
use omarchygram_ui::lottie::{sticker_pixels, Bus, Stage, Wait};
use omarchygram_ui::lottie_backend::{canvas_size, decode_tgs, frame_index, unpacked_sticker};
use omarchygram_ui::media_image::{clamp_edge, Preview, PreviewCache};
use omarchygram_ui::stickers::{Command, Registry};

fn packed(bytes: &[u8]) -> Vec<u8> {
    let mut encoder = GzEncoder::new(Vec::new(), Compression::default());
    encoder.write_all(bytes).unwrap();
    encoder.finish().unwrap()
}

#[test]
fn packed_stickers_are_unpacked() {
    let json = b"{\"v\":\"5.5.2\"}";
    assert_eq!(decode_tgs(&packed(json)).unwrap(), json.to_vec());
}

#[test]
fn plain_stickers_stay_as_they_are() {
    let json = b"{\"v\":\"5.5.2\"}";
    assert_eq!(decode_tgs(json).unwrap(), json.to_vec());
    assert!(decode_tgs(&[0x1f, 0x8b, 0, 0]).is_err());
}

#[test]
fn a_sticker_that_unpacks_to_too_much_is_cut_off() {
    assert_eq!(unpacked_sticker(Ok(vec![0; 16])), Ok(vec![0; 16]));
    assert_eq!(
        unpacked_sticker(Err("bad".to_string())),
        Err("sticker is not valid gzip: bad".to_string())
    );
    let huge = packed(&vec![b'x'; 17 * 1024 * 1024]);
    assert_eq!(decode_tgs(&huge).unwrap().len(), 16 * 1024 * 1024);
}

#[test]
fn frames_stay_within_the_sticker() {
    assert_eq!(frame_index(0, 60), 0);
    assert_eq!(frame_index(59, 60), 59);
    assert_eq!(frame_index(60, 60), 0);
    assert_eq!(frame_index(61, 60), 1);
    assert_eq!(canvas_size(0), 8);
    assert_eq!(canvas_size(64), 64);
    assert_eq!(canvas_size(4_096), 1024);
}

#[test]
fn pixels_follow_the_scale_of_the_screen() {
    assert_eq!(sticker_pixels(96, 1), 96);
    assert_eq!(sticker_pixels(96, 2), 192);
    assert_eq!(sticker_pixels(256, 3), 512);
}

#[test]
fn a_later_frame_takes_the_place_of_an_earlier_one() {
    let (send, receive) = async_channel::bounded(1);
    let mut bus = Bus::new(send);
    bus.frame(1, 0, 2, vec![0; 16]);
    bus.frame(1, 5, 2, vec![1; 16]);
    bus.error(2, "broken".to_string());
    assert!(receive.try_recv().is_ok());
    assert!(receive.try_recv().is_err());
    let waiting = bus.pending.take();
    assert_eq!(waiting.frames.len(), 1);
    assert_eq!(waiting.frames[&1].index, 5);
    assert_eq!(waiting.errors, vec![(2, "broken".to_string())]);
    assert!(bus.pending.frames.is_empty());
}

#[test]
fn frames_keep_their_pace() {
    let mut stage = Stage::new();
    assert!(matches!(stage.wait(0), Wait::Forever));
    stage.play(1, 0);
    stage.loaded(1, 3, 33_000_000, 0);
    assert_eq!(stage.next_due(), Some(33_000_000));
    assert!(matches!(stage.wait(0), Wait::AtMost(33_000_000)));
    assert!(stage.advance(10_000_000).is_empty());
    assert_eq!(stage.advance(33_000_000), vec![(1, 1)]);
    assert_eq!(stage.advance(70_000_000), vec![(1, 2)]);
    assert_eq!(stage.next_due(), Some(99_000_000));
    assert_eq!(stage.advance(99_000_000), vec![(1, 0)]);
    stage.pause(1);
    assert!(stage.advance(999_000_000).is_empty());
    stage.discard(1);
    assert_eq!(stage.next_due(), None);
}

#[test]
fn six_stickers_play_at_once() {
    let mut registry = Registry::new(true, true);
    let ids: Vec<u64> = (0..8).map(|_| registry.register()).collect();
    for id in &ids {
        registry.set_playing(*id, true);
    }
    assert_eq!(registry.animating_count(), 6);
    assert_eq!(registry.registered_count(), 8);
    assert!(registry.is_animating(ids[0]));
    assert!(!registry.is_animating(ids[6]));
    registry.set_playing(ids[0], false);
    assert!(registry.is_animating(ids[6]));
    registry.take_commands();
    registry.forget(ids[1]);
    assert!(registry.is_animating(ids[7]));
    assert!(!registry.is_alive(ids[1]));
    let commands = registry.take_commands();
    assert!(commands.contains(&Command::Drop(ids[1])));
    assert!(commands.contains(&Command::Play(ids[7])));
}

#[test]
fn stickers_stand_still_where_nothing_may_move() {
    let mut registry = Registry::new(true, true);
    let id = registry.register();
    registry.set_playing(id, true);
    registry.set_animations(false);
    assert_eq!(registry.animating_count(), 0);
    registry.set_animations(true);
    assert_eq!(registry.animating_count(), 1);
    registry.set_animated_stickers_enabled(false);
    assert_eq!(registry.animating_count(), 0);
    assert!(!registry.animated_stickers_enabled());
}

#[test]
fn a_frame_is_delivered_to_its_sticker() {
    let mut registry = Registry::new(true, true);
    let id = registry.register();
    assert_eq!(registry.deliver_frame(id, 0), Some(true));
    assert_eq!(registry.deliver_frame(id, 1), Some(false));
    assert_eq!(registry.deliver_frame(id + 9, 1), None);
    assert!(registry.deliver_error(id, "broken".to_string()));
    assert!(!registry.deliver_error(id + 9, "broken".to_string()));
}

#[test]
fn the_window_gets_a_turn_after_four_milliseconds() {
    let batch = Batch::new(10);
    assert!(!batch.pause_due(13));
    assert!(batch.pause_due(14));
}

fn preview(file: u64, side: u32) -> Preview {
    Preview { file, edge: 720, width: side, height: side, picture: file + 100 }
}

#[test]
fn reopened_chats_reuse_their_previews() {
    let mut cache = PreviewCache::new();
    assert_eq!(cache.lookup(1, 720, false), None);
    cache.insert(preview(1, 10));
    assert_eq!(cache.lookup(1, 720, false), Some(101));
    assert_eq!(cache.lookup(1, 360, false), None);
    assert_eq!(cache.lookup(1, 720, true), None);
    assert_eq!(cache.lookup(1, 720, false), None);
    assert_eq!(clamp_edge(10), 360);
    assert_eq!(clamp_edge(720), 720);
    assert_eq!(clamp_edge(9_999), 2160);
}

#[test]
fn previews_are_kept_within_their_bounds() {
    let mut cache = PreviewCache::new();
    for file in 0..100 {
        cache.insert(preview(file, 10));
    }
    assert!(cache.entries.len() <= 96);
    assert_eq!(cache.lookup(99, 720, false), Some(199));
    assert_eq!(cache.lookup(0, 720, false), None);
    let mut large = PreviewCache::new();
    for file in 0..5 {
        large.insert(preview(file, 1000));
    }
    assert_eq!(large.entries.len(), 2);
    large.clear_cache();
    assert!(large.entries.is_empty());
}

#[test]
fn previews_stay_within_their_bounds_whatever_is_asked_for() {
    let mut cache = PreviewCache::new();
    for step in 0..400u64 {
        let file = step * 7 % 31;
        match step % 5 {
            0 => {
                cache.lookup(file, 720, step % 3 == 0);
            }
            4 if step % 97 == 0 => cache.clear_cache(),
            _ => cache.insert(preview(file, 100 + (step * 53 % 900) as u32)),
        }
        let bytes: u64 = cache
            .entries
            .iter()
            .map(|entry| u64::from(entry.width) * u64::from(entry.height) * 4)
            .sum();
        assert!(bytes <= 8 * 1024 * 1024);
        assert!(cache.entries.len() <= 96);
    }
    cache.insert(preview(1, 5_000));
    assert!(cache.entries.is_empty());
}
