//! The texts that effects show one after the other.

use vstd::prelude::*;

use crate::anim::effects::Effect;
use crate::anim::ticks::Effects;
use crate::text::{characters, text_between, white_space};

verus! {

/// A step of an effect that changes a text.
pub struct Frame {
    /// The text to show, where it changes.
    pub text: Option<String>,
    /// Whether there are more steps.
    pub more: bool,
}

/// The frames of the dots that turn.
pub open spec fn braille_frame(index: int) -> Seq<char> {
    let at = index % 8;
    if at == 0 { "⠋"@ } else if at == 1 { "⠙"@ } else if at == 2 { "⠹"@ }
    else if at == 3 { "⠸"@ } else if at == 4 { "⠼"@ } else if at == 5 { "⠴"@ }
    else if at == 6 { "⠦"@ } else { "⠧"@ }
}

fn braille(index: usize) -> (frame: &'static str)
    ensures
        frame@ == braille_frame(index as int),
{
    match index % 8 {
        0 => "⠋",
        1 => "⠙",
        2 => "⠹",
        3 => "⠸",
        4 => "⠼",
        5 => "⠴",
        6 => "⠦",
        _ => "⠧",
    }
}

/// The frames of the dots that grow.
pub open spec fn ellipsis_frame(index: int) -> Seq<char> {
    let at = index % 3;
    if at == 0 { "."@ } else if at == 1 { ".."@ } else { "..."@ }
}

fn ellipsis(index: usize) -> (frame: &'static str)
    ensures
        frame@ == ellipsis_frame(index as int),
{
    match index % 3 {
        0 => ".",
        1 => "..",
        _ => "...",
    }
}

/// The frames of a picture that is being loaded.
pub open spec fn loading_frame(index: int) -> Seq<char> {
    let at = index % 8;
    if at == 0 { "[▓░░░░░░░] photo"@ } else if at == 1 { "[▓▓░░░░░░] photo"@ }
    else if at == 2 { "[▓▓▓░░░░░] photo"@ } else if at == 3 { "[▓▓▓▓░░░░] photo"@ }
    else if at == 4 { "[▓▓▓▓▓░░░] photo"@ } else if at == 5 { "[▓▓▓▓▓▓░░] photo"@ }
    else if at == 6 { "[▓▓▓▓▓▓▓░] photo"@ } else { "[▓▓▓▓▓▓▓▓] photo"@ }
}

fn loading(index: usize) -> (frame: &'static str)
    ensures
        frame@ == loading_frame(index as int),
{
    match index % 8 {
        0 => "[▓░░░░░░░] photo",
        1 => "[▓▓░░░░░░] photo",
        2 => "[▓▓▓░░░░░] photo",
        3 => "[▓▓▓▓░░░░] photo",
        4 => "[▓▓▓▓▓░░░] photo",
        5 => "[▓▓▓▓▓▓░░] photo",
        6 => "[▓▓▓▓▓▓▓░] photo",
        _ => "[▓▓▓▓▓▓▓▓] photo",
    }
}

/// What is said of someone who is writing, whose name may be unknown.
pub open spec fn typing_text(name: Seq<char>, braille: bool, frame: Seq<char>) -> Seq<char> {
    if braille {
        if name.len() == 0 {
            frame + " typing"@
        } else {
            frame + " "@ + name + " is typing"@
        }
    } else if name.len() == 0 {
        "typing"@ + frame
    } else {
        name + " is typing"@ + frame
    }
}

fn typing_line(name: &str, braille: bool, frame: &str) -> (text: String)
    ensures
        text@ == typing_text(name@, braille, frame@),
{
    let mut text = String::new();
    if braille {
        text.push_str(frame);
        if !name.is_empty() {
            text.push_str(" ");
            text.push_str(name);
            text.push_str(" is typing");
        } else {
            text.push_str(" typing");
        }
    } else {
        if !name.is_empty() {
            text.push_str(name);
            text.push_str(" is typing");
        } else {
            text.push_str("typing");
        }
        text.push_str(frame);
    }
    assert(text@ =~= typing_text(name@, braille, frame@));
    text
}

/// Someone is writing.
pub struct TypingFrames {
    /// Whether the dots turned when it began.
    pub turning: bool,
    pub name: String,
    pub index: usize,
}

impl TypingFrames {
    /// The time between two frames, in milliseconds.
    pub fn interval(&self) -> (time: u64)
        ensures
            time == (if self.turning { 70u64 } else { 240u64 }),
    {
        if self.turning {
            70
        } else {
            240
        }
    }

    /// The frame that comes next.
    pub open spec fn frame(self) -> Seq<char> {
        if self.turning {
            braille_frame(self.index as int)
        } else {
            ellipsis_frame(self.index as int)
        }
    }

    /// The next frame. Once both effects are switched off the text stays as it is
    /// without them.
    pub fn step(&mut self, effects: &Effects) -> (step: Frame)
        requires
            effects.well_formed(),
        ensures
            step.more == (effects.shows(Effect::Braille) || effects.shows(Effect::Ellipsis)),
            step.text matches Some(text) && text@ == (if step.more {
                typing_text(old(self).name@, effects.shows(Effect::Braille), old(self).frame())
            } else {
                typing_text(old(self).name@, false, "…"@)
            }),
            *final(self) == (TypingFrames {
                index: if step.more {
                    old(self).index.wrapping_add(1)
                } else {
                    old(self).index
                },
                ..*old(self)
            }),
    {
        let turning = effects.on(Effect::Braille);
        if !turning && !effects.on(Effect::Ellipsis) {
            return Frame { text: Some(typing_line(&self.name, false, "…")), more: false };
        }
        let frame = if self.turning {
            braille(self.index)
        } else {
            ellipsis(self.index)
        };
        self.index = self.index.wrapping_add(1);
        Frame { text: Some(typing_line(&self.name, turning, frame)), more: true }
    }
}

/// A picture is being loaded.
pub struct LoadingFrames {
    pub index: usize,
}

impl LoadingFrames {
    /// The next frame, after 110 milliseconds.
    pub fn step(&mut self, effects: &Effects) -> (step: Frame)
        requires
            effects.well_formed(),
        ensures
            step.more == effects.shows(Effect::Asciiload),
            step.text matches Some(text) && text@ == (if step.more {
                loading_frame(old(self).index as int)
            } else {
                "loading image…"@
            }),
            final(self).index == (if step.more {
                old(self).index.wrapping_add(1)
            } else {
                old(self).index
            }),
    {
        if !effects.on(Effect::Asciiload) {
            return Frame { text: Some("loading image…".to_owned()), more: false };
        }
        let text = loading(self.index).to_owned();
        self.index = self.index.wrapping_add(1);
        Frame { text: Some(text), more: true }
    }
}

/// A message is being sent.
pub struct SendingFrames {
    pub index: usize,
}

impl SendingFrames {
    /// The next frame, after 60 milliseconds. A button that is not to be seen, or whose
    /// effect is switched off, says what it said before.
    pub fn step(&mut self, effects: &Effects, mapped: bool) -> (step: Frame)
        requires
            effects.well_formed(),
        ensures
            step.more == (mapped && effects.shows(Effect::Sendspin)),
            step.text matches Some(text) && text@ == (if step.more {
                braille_frame(old(self).index as int % 6)
            } else {
                "Send"@
            }),
            final(self).index == (if step.more {
                old(self).index.wrapping_add(1)
            } else {
                old(self).index
            }),
    {
        if !mapped || !effects.on(Effect::Sendspin) {
            return Frame { text: Some("Send".to_owned()), more: false };
        }
        let text = braille(self.index % 6).to_owned();
        self.index = self.index.wrapping_add(1);
        Frame { text: Some(text), more: true }
    }
}

impl Effects {
    /// Someone began to write. Returns the frames that say so, where an effect shows
    /// them.
    pub fn typing_frame(&self, name: &str) -> (frames: Option<TypingFrames>)
        requires
            self.well_formed(),
        ensures
            frames is Some <==> self.shows(Effect::Braille) || self.shows(Effect::Ellipsis),
            frames matches Some(frames) ==> {
                &&& frames.turning == self.shows(Effect::Braille)
                &&& frames.name@ == name@
                &&& frames.index == 0
            },
    {
        let turning = self.on(Effect::Braille);
        if turning || self.on(Effect::Ellipsis) {
            Some(TypingFrames { turning, name: name.to_owned(), index: 0 })
        } else {
            None
        }
    }

    /// A picture is being loaded.
    pub fn image_loading(&self) -> (frames: Option<LoadingFrames>)
        requires
            self.well_formed(),
        ensures
            frames == (if self.shows(Effect::Asciiload) {
                Some(LoadingFrames { index: 0 })
            } else {
                None
            }),
    {
        if self.on(Effect::Asciiload) {
            Some(LoadingFrames { index: 0 })
        } else {
            None
        }
    }

    /// A message is being sent.
    pub fn send_started(&self) -> (frames: Option<SendingFrames>)
        requires
            self.well_formed(),
        ensures
            frames == (if self.shows(Effect::Sendspin) {
                Some(SendingFrames { index: 0 })
            } else {
                None
            }),
    {
        if self.on(Effect::Sendspin) {
            Some(SendingFrames { index: 0 })
        } else {
            None
        }
    }
}

/// The sign that stands for a character that dissolves.
pub open spec fn dissolving_sign(at: int) -> char {
    let place = at % 6;
    if place == 0 { '░' } else if place == 1 { '▒' } else if place == 2 { '▓' }
    else if place == 3 { '#' } else if place == 4 { '%' } else { '@' }
}

/// What a dissolving text looks like: every third character is a sign.
pub open spec fn dissolving(text: Seq<char>, frame: int) -> Seq<char> {
    Seq::new(
        text.len(),
        |i: int|
            if white_space(text[i]) || (i + frame) % 3 != 0 {
                text[i]
            } else {
                dissolving_sign(i + frame)
            },
    )
}

fn dissolve(text: &str, frame: u32) -> (noise: String)
    requires
        frame < 6,
    ensures
        noise@ == dissolving(text@, frame as int),
{
    let chars = characters(text);
    let mut noise = String::new();
    let mut i: usize = 0;
    while i < chars.len()
        invariant
            i <= chars@.len(),
            chars@ == text@,
            frame < 6,
            noise@ == dissolving(text@, frame as int).take(i as int),
        decreases chars@.len() - i,
    {
        let ch = chars[i];
        let place: usize = (i % 6 + frame as usize) % 6;
        assert(place == (i + frame) % 6);
        assert(place % 3 == (i + frame) % 3);
        let sign: char = if ch.is_whitespace() || place % 3 != 0 {
            ch
        } else {
            match place {
                0 => '░',
                1 => '▒',
                2 => '▓',
                3 => '#',
                4 => '%',
                _ => '@',
            }
        };
        noise.push(sign);
        assert(sign == dissolving(text@, frame as int)[i as int]);
        i += 1;
        assert(noise@ =~= dissolving(text@, frame as int).take(i as int));
    }
    assert(noise@ =~= dissolving(text@, frame as int));
    noise
}

/// The texts of a message that was deleted.
pub struct Dissolve {
    pub originals: Vec<String>,
    pub frame: u32,
}

impl Dissolve {
    pub fn new(originals: Vec<String>) -> (dissolve: Dissolve)
        ensures
            dissolve.originals == originals,
            dissolve.frame == 0,
    {
        Dissolve { originals, frame: 0 }
    }

    /// The next texts, after 48 milliseconds, and whether there are more. In the end
    /// the texts are what they were.
    pub fn step(&mut self, effects: &Effects) -> (step: (Vec<String>, bool))
        requires
            effects.well_formed(),
        ensures
            step.1 == (effects.shows(Effect::Deletedissolve) && old(self).frame < 6),
            step.0@.len() == old(self).originals@.len(),
            forall|i: int|
                0 <= i < step.0@.len() ==> (#[trigger] step.0@[i])@ == (if step.1 {
                    dissolving(old(self).originals@[i]@, old(self).frame as int)
                } else {
                    old(self).originals@[i]@
                }),
            final(self).originals == old(self).originals,
            final(self).frame == (if step.1 {
                old(self).frame + 1
            } else {
                old(self).frame as int
            }),
    {
        let more = effects.on(Effect::Deletedissolve) && self.frame < 6;
        let frame: u32 = self.frame;
        let mut texts: Vec<String> = Vec::new();
        let mut i: usize = 0;
        while i < self.originals.len()
            invariant
                i <= self.originals@.len(),
                texts@.len() == i,
                more ==> frame < 6,
                forall|j: int|
                    0 <= j < i ==> (#[trigger] texts@[j])@ == (if more {
                        dissolving(self.originals@[j]@, frame as int)
                    } else {
                        self.originals@[j]@
                    }),
            decreases self.originals@.len() - i,
        {
            if more {
                texts.push(dissolve(&self.originals[i], frame));
            } else {
                texts.push(self.originals[i].clone());
            }
            i += 1;
        }
        if more {
            self.frame = frame + 1;
        }
        (texts, more)
    }
}

/// A text that is typed out, one character every 18 milliseconds. The cursor goes 350
/// milliseconds after the last.
pub struct Typewriter {
    pub characters: Vec<char>,
    pub index: usize,
}

impl Typewriter {
    pub open spec fn well_formed(self) -> bool {
        self.index <= self.characters@.len()
    }

    /// An empty text is not typed out.
    pub fn new(text: &str) -> (typewriter: Option<Typewriter>)
        ensures
            typewriter is Some <==> text@.len() > 0,
            typewriter matches Some(typewriter) ==> typewriter.well_formed()
                && typewriter.characters@ == text@ && typewriter.index == 0,
    {
        if text.is_empty() {
            return None;
        }
        Some(Typewriter { characters: characters(text), index: 0 })
    }

    /// Types one character more. The whole text stands there at once where the effect
    /// is switched off.
    pub fn step(&mut self, effects: &Effects) -> (step: Frame)
        requires
            old(self).well_formed(),
            effects.well_formed(),
        ensures
            final(self).well_formed(),
            final(self).characters == old(self).characters,
            ({
                let all = old(self).characters@;
                if !effects.shows(Effect::Typewriter) {
                    &&& step.text matches Some(text) && text@ == all
                    &&& !step.more
                    &&& final(self).index == old(self).index
                } else {
                    &&& final(self).index == (if old(self).index < all.len() {
                        old(self).index + 1
                    } else {
                        all.len() as int
                    })
                    &&& step.text matches Some(text) && text@ == all.take(
                        final(self).index as int,
                    ).push('▌')
                    &&& step.more == (final(self).index < all.len())
                }
            }),
    {
        if !effects.on(Effect::Typewriter) {
            let text = text_between(&self.characters, 0, self.characters.len());
            assert(text@ =~= self.characters@);
            return Frame { text: Some(text), more: false };
        }
        if self.index < self.characters.len() {
            self.index = self.index + 1;
        }
        let mut text = text_between(&self.characters, 0, self.index);
        assert(text@ =~= self.characters@.take(self.index as int));
        text.push('▌');
        Frame { text: Some(text), more: self.index < self.characters.len() }
    }
}

/// The sign that stands for a character that is not read yet.
pub open spec fn code_sign(at: int) -> char {
    let place = at % 14;
    if place == 0 { '░' } else if place == 1 { '▒' } else if place == 2 { '▓' }
    else if place == 3 { '#' } else if place == 4 { '$' } else if place == 5 { '%' }
    else if place == 6 { '@' } else if place == 7 { '&' } else if place == 8 { '*' }
    else if place == 9 { '+' } else if place == 10 { '=' } else if place == 11 { '-' }
    else if place == 12 { '<' } else { '>' }
}

/// What a text that is being read looks like: two characters more in each frame are
/// what they are.
pub open spec fn decoding(text: Seq<char>, frame: int) -> Seq<char> {
    Seq::new(
        text.len(),
        |i: int|
            if white_space(text[i]) || i < frame * 2 {
                text[i]
            } else {
                code_sign(i * 7 + frame * 5)
            },
    )
}

fn code_char(place: usize) -> (sign: char)
    requires
        place < 14,
    ensures
        sign == code_sign(place as int),
{
    match place {
        0 => '░',
        1 => '▒',
        2 => '▓',
        3 => '#',
        4 => '$',
        5 => '%',
        6 => '@',
        7 => '&',
        8 => '*',
        9 => '+',
        10 => '=',
        11 => '-',
        12 => '<',
        _ => '>',
    }
}

/// Which sign stands for a character in a frame.
fn noise_place(i: usize, frame: usize) -> (place: usize)
    ensures
        place == (i * 7 + frame * 5) % 14,
{
    ((i % 14) * 7 + (frame % 14) * 5) % 14
}

/// A text that is read out of noise, one frame every 16 milliseconds.
pub struct Decode {
    pub characters: Vec<char>,
    pub frame: usize,
}

impl Decode {
    pub open spec fn well_formed(self) -> bool {
        self.frame <= self.characters@.len()
    }

    /// An empty text is not read.
    pub fn new(text: &str) -> (decode: Option<Decode>)
        ensures
            decode is Some <==> text@.len() > 0,
            decode matches Some(decode) ==> decode.well_formed() && decode.characters@ == text@
                && decode.frame == 0,
    {
        if text.is_empty() {
            return None;
        }
        Some(Decode { characters: characters(text), frame: 0 })
    }

    /// The text in the current frame.
    fn noise(&self) -> (text: String)
        requires
            self.well_formed(),
        ensures
            text@ == decoding(self.characters@, self.frame as int),
    {
        let count: usize = self.characters.len();
        let mut text = String::new();
        let mut i: usize = 0;
        while i < count
            invariant
                count == self.characters@.len(),
                i <= count,
                text@ == decoding(self.characters@, self.frame as int).take(i as int),
            decreases count - i,
        {
            let ch = self.characters[i];
            let place = noise_place(i, self.frame);
            let sign: char = if ch.is_whitespace() || i / 2 < self.frame {
                ch
            } else {
                code_char(place)
            };
            text.push(sign);
            assert(sign == decoding(self.characters@, self.frame as int)[i as int]);
            i += 1;
            assert(text@ =~= decoding(self.characters@, self.frame as int).take(i as int));
        }
        assert(text@ =~= decoding(self.characters@, self.frame as int));
        text
    }

    /// Shows the next frame. The whole text stands there at once where the effect is
    /// switched off.
    pub fn step(&mut self, effects: &Effects) -> (step: Frame)
        requires
            old(self).well_formed(),
            effects.well_formed(),
        ensures
            final(self).well_formed(),
            final(self).characters == old(self).characters,
            step.more == (effects.shows(Effect::Decode) && old(self).frame * 2
                < old(self).characters@.len()),
            step.text matches Some(text) && text@ == (if step.more {
                decoding(old(self).characters@, old(self).frame as int)
            } else {
                old(self).characters@
            }),
            final(self).frame == (if step.more {
                old(self).frame + 1
            } else {
                old(self).frame as int
            }),
    {
        let frames: usize = self.characters.len() / 2 + self.characters.len() % 2;
        if !effects.on(Effect::Decode) || self.frame >= frames {
            let text = text_between(&self.characters, 0, self.characters.len());
            assert(text@ =~= self.characters@);
            return Frame { text: Some(text), more: false };
        }
        let text = self.noise();
        self.frame = self.frame + 1;
        Frame { text: Some(text), more: true }
    }
}

/// When an animation began: at the first moment that is asked about.
pub fn tick_start(started: &mut Option<i64>, now: i64) -> (start: i64)
    ensures
        start == (match *old(started) {
            Some(start) => start,
            None => now,
        }),
        *final(started) == Some(start),
{
    match *started {
        Some(start) => start,
        None => {
            *started = Some(now);
            now
        },
    }
}

/// How high a bar beside the composer is, some microseconds after the bars began to
/// dance.
pub fn bar_height(elapsed: i64, bar: usize) -> (height: i32)
    requires
        elapsed >= 0,
    ensures
        height == 3 + ((elapsed as int / 70_000 + bar * 2) % 5) * 2,
{
    let phase: usize = (((elapsed / 70_000) % 5) as usize + (bar % 5) * 2) % 5;
    assert(phase == (elapsed as int / 70_000 + bar * 2) % 5);
    3 + phase as i32 * 2
}

/// Whether the bars have danced long enough.
pub fn bars_rest(elapsed: i64) -> (over: bool)
    ensures
        over == (elapsed >= 1_500_000),
{
    elapsed >= 1_500_000
}

proof fn lemma_last_frame(text: Seq<char>, frame: int)
    requires
        frame * 2 >= text.len(),
    ensures
        decoding(text, frame) == text,
{
    assert(decoding(text, frame) =~= text);
}

/// A text that is read never changes its length or its white space, what has been read
/// once stays, and in the end the whole text is read.
pub proof fn law_reading_reveals_the_text(text: Seq<char>, frame: int, later: int, at: int)
    requires
        0 <= frame <= later,
        0 <= at < text.len(),
    ensures
        decoding(text, frame).len() == text.len(),
        white_space(text[at]) ==> decoding(text, frame)[at] == text[at],
        at < frame * 2 ==> decoding(text, later)[at] == text[at],
        later * 2 >= text.len() ==> decoding(text, later) == text,
{
    if later * 2 >= text.len() {
        lemma_last_frame(text, later);
    }
}

/// A text that dissolves keeps its length and its white space.
pub proof fn law_dissolving_keeps_the_length(text: Seq<char>, frame: int, at: int)
    requires
        0 <= at < text.len(),
    ensures
        dissolving(text, frame).len() == text.len(),
        white_space(text[at]) ==> dissolving(text, frame)[at] == text[at],
{
}

} // verus!
