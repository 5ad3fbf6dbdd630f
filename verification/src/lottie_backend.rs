//! The files of animated stickers.

use std::io::Read;

use vstd::prelude::*;

verus! {

/// How many bytes of an unpacked file are read.
pub const MAX_UNPACKED: u64 = 16_777_216;

/// How small and how large a sticker's canvas may be, in pixels.
pub const MIN_CANVAS: u32 = 8;

pub const MAX_CANVAS: u32 = 1024;

/// What unpacking the first gzip member of `bytes` gives: its first `limit` bytes, or
/// what is wrong with it.
pub uninterp spec fn gunzipped(bytes: Seq<u8>, limit: u64) -> Result<Seq<u8>, Seq<char>>;

/// Calls `flate2::read::GzDecoder::new`, limits it with `take` and reads it to its
/// end. What comes out depends on the bytes and the limit alone, and is no longer than
/// the limit. An error is given by the text that it prints.
#[verifier::external_body]
fn gunzip(bytes: &[u8], limit: u64) -> (result: Result<Vec<u8>, String>)
    ensures
        match result {
            Ok(out) => gunzipped(bytes@, limit) == Ok::<Seq<u8>, Seq<char>>(out@) && out@.len()
                <= limit,
            Err(error) => gunzipped(bytes@, limit) == Err::<Seq<u8>, Seq<char>>(error@),
        },
{
    let mut out = Vec::new();
    match flate2::read::GzDecoder::new(bytes).take(limit).read_to_end(&mut out) {
        Ok(_) => Ok(out),
        Err(error) => Err(error.to_string()),
    }
}

/// Whether a file begins as gzip files do.
pub open spec fn is_gzip(bytes: Seq<u8>) -> bool {
    bytes.len() > 2 && bytes[0] == 0x1f && bytes[1] == 0x8b
}

/// The sticker in a file, given what unpacking it gives.
pub open spec fn sticker_of(
    bytes: Seq<u8>,
    unpacked: Result<Seq<u8>, Seq<char>>,
) -> Result<Seq<u8>, Seq<char>> {
    if !is_gzip(bytes) {
        Ok(bytes)
    } else {
        match unpacked {
            Ok(out) => Ok(out),
            Err(error) => Err("sticker is not valid gzip: "@ + error),
        }
    }
}

/// What was unpacked, or what is shown where that failed.
pub fn unpacked_sticker(unpacked: Result<Vec<u8>, String>) -> (result: Result<Vec<u8>, String>)
    ensures
        match unpacked {
            Ok(out) => result == Ok::<Vec<u8>, String>(out),
            Err(error) => result is Err && result->Err_0@ == "sticker is not valid gzip: "@
                + error@,
        },
{
    match unpacked {
        Ok(out) => Ok(out),
        Err(error) => {
            let mut message = "sticker is not valid gzip: ".to_owned();
            message.push_str(&error);
            Err(message)
        },
    }
}

/// A sticker's file holds Lottie JSON, mostly packed with gzip but sometimes plain.
pub fn decode_tgs(bytes: &[u8]) -> (result: Result<Vec<u8>, String>)
    ensures
        match result {
            Ok(out) => sticker_of(bytes@, gunzipped(bytes@, MAX_UNPACKED)) == Ok::<
                Seq<u8>,
                Seq<char>,
            >(out@),
            Err(error) => sticker_of(bytes@, gunzipped(bytes@, MAX_UNPACKED)) == Err::<
                Seq<u8>,
                Seq<char>,
            >(error@),
        },
        !is_gzip(bytes@) ==> result is Ok && result->Ok_0@ == bytes@,
        is_gzip(bytes@) && result is Ok ==> result->Ok_0@.len() <= MAX_UNPACKED,
{
    if bytes.len() > 2 && bytes[0] == 0x1f && bytes[1] == 0x8b {
        unpacked_sticker(gunzip(bytes, MAX_UNPACKED))
    } else {
        Ok(copy_bytes(bytes))
    }
}

fn copy_bytes(bytes: &[u8]) -> (copy: Vec<u8>)
    ensures
        copy@ == bytes@,
{
    let mut copy: Vec<u8> = Vec::new();
    let mut i: usize = 0;
    while i < bytes.len()
        invariant
            i <= bytes@.len(),
            copy@ == bytes@.take(i as int),
        decreases bytes@.len() - i,
    {
        copy.push(bytes[i]);
        i += 1;
        assert(copy@ =~= bytes@.take(i as int));
    }
    assert(bytes@.take(i as int) =~= bytes@);
    copy
}

/// A plain sticker is what decoding it gives, however often it is decoded.
pub proof fn law_plain_stickers_stay(
    bytes: Seq<u8>,
    first: Result<Seq<u8>, Seq<char>>,
    second: Result<Seq<u8>, Seq<char>>,
)
    requires
        !is_gzip(bytes),
    ensures
        sticker_of(bytes, first) == Ok::<Seq<u8>, Seq<char>>(bytes),
        sticker_of(sticker_of(bytes, first)->Ok_0, second) == Ok::<Seq<u8>, Seq<char>>(bytes),
{
}

/// How large a sticker's canvas is.
pub fn canvas_size(size: u32) -> (edge: u32)
    ensures
        edge == (if size < MIN_CANVAS {
            MIN_CANVAS
        } else if size > MAX_CANVAS {
            MAX_CANVAS
        } else {
            size
        }),
        MIN_CANVAS <= edge <= MAX_CANVAS,
{
    if size < MIN_CANVAS {
        MIN_CANVAS
    } else if size > MAX_CANVAS {
        MAX_CANVAS
    } else {
        size
    }
}

/// Which frame a number stands for: the frames repeat.
pub fn frame_index(index: usize, frame_count: usize) -> (frame: usize)
    requires
        frame_count > 0,
    ensures
        frame == index % frame_count,
        frame < frame_count,
{
    index % frame_count
}

} // verus!
