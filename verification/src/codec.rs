//! The command frames of the protocol and the decoding of the identify
//! response. Nothing here performs I/O.

use vstd::prelude::*;
use crate::crosspoint::{
    CrossPointError, CrossPointIO, CrossPointPreset, CrossPointTie, DeviceCapabilities, TieView,
};
use crate::text::{
    chars_of, lemma_split_has_a_piece, parse_i32, parse_i32_spec, pieces, split, split_at_each,
    strip_leading, trim, trimmed, without_leading,
};

verus! {

/// The ASCII escape byte, which introduces an escape sequence.
pub const ESC: u8 = 0x1B;

/// Carriage return: ends a frame.
pub const CR: u8 = 0x0D;

/// Line feed.
pub const LF: u8 = 0x0A;

/// The lowest preset number.
pub const FIRST_PRESET: i32 = 1;

/// The highest preset number.
pub const LAST_PRESET: i32 = 32;

/// Whether `n` numbers one of the device's presets.
pub open spec fn valid_preset_number(n: int) -> bool {
    FIRST_PRESET <= n <= LAST_PRESET
}

/// How a preset or channel number is written into a frame. A number above
/// ten is written as its tens, then its units, each added to ASCII `0`; any
/// other number as its units alone, so that ten is written `0`.
pub open spec fn digits_spec(value: int) -> Seq<u8> {
    if value > 10 {
        seq![(0x30 + value / 10) as u8, (0x30 + value % 10) as u8]
    } else {
        seq![(0x30 + value % 10) as u8]
    }
}

/// The identify frame, `I`, CR, LF.
pub open spec fn info_frame() -> Seq<u8> {
    seq![0x49u8, CR, LF]
}

/// The frame that asks for the name of preset `n`.
pub open spec fn get_preset_name_frame(n: int) -> Seq<u8> {
    seq![ESC] + digits_spec(n) + seq![0x4Eu8, 0x47u8, CR]
}

/// The frame that saves the current ties as preset `n`.
pub open spec fn save_current_frame(n: int) -> Seq<u8> {
    digits_spec(n) + seq![0x2Cu8, CR, LF]
}

/// The frame that recalls preset `n`.
pub open spec fn load_preset_frame(n: int) -> Seq<u8> {
    digits_spec(n) + seq![0x2Eu8, CR, LF]
}

/// The frame that empties preset `n`.
pub open spec fn clear_preset_frame(n: int) -> Seq<u8> {
    seq![ESC, 0x2Bu8] + digits_spec(n) + seq![0x50u8, 0x30u8, 0x2Au8, 0x21u8, CR]
}

/// One input tied to one output: the input, `*`, the output, and the
/// character of the kind of signal.
pub open spec fn tie_segment(input: u8, output: u8, io: CrossPointIO) -> Seq<u8> {
    digits_spec(input as int) + seq![0x2Au8] + digits_spec(output as int) + seq![io.to_char() as u8]
}

/// The segments of one tie, one for each of its outputs, in order.
pub open spec fn tie_segments(tie: TieView) -> Seq<u8> {
    outputs_segments(tie.input_channel, tie.output_channels, tie.io_type)
}

/// The segments that tie `input` to each of `outputs`, in order.
pub open spec fn outputs_segments(input: u8, outputs: Seq<u8>, io: CrossPointIO) -> Seq<u8>
    decreases outputs.len(),
{
    if outputs.len() == 0 {
        Seq::empty()
    } else {
        outputs_segments(input, outputs.drop_last(), io) + tie_segment(input, outputs.last(), io)
    }
}

/// The segments of all of `ties`, in order.
pub open spec fn ties_segments(ties: Seq<TieView>) -> Seq<u8>
    decreases ties.len(),
{
    if ties.len() == 0 {
        Seq::empty()
    } else {
        ties_segments(ties.drop_last()) + tie_segments(ties.last())
    }
}

/// The frame that defines preset `n` as `ties`.
pub open spec fn define_preset_frame(n: int, ties: Seq<TieView>) -> Seq<u8> {
    seq![ESC, 0x2Bu8] + digits_spec(n) + seq![0x50u8] + ties_segments(ties) + seq![CR]
}

/// Appends `value`, digit-encoded, to `frame`.
fn push_digits(frame: &mut Vec<u8>, value: u8)
    ensures
        final(frame)@ == old(frame)@ + digits_spec(value as int),
{
    if value > 10 {
        frame.push(0x30 + value / 10);
    }
    frame.push(0x30 + value % 10);
    assert(final(frame)@ == old(frame)@ + digits_spec(value as int));
}

/// The bytes that stand for `value` in a frame.
pub fn digits(value: u8) -> (out: Vec<u8>)
    ensures
        out@ == digits_spec(value as int),
        value <= 10 ==> out@ == seq![(0x30 + value % 10) as u8],
        value > 10 ==> out@ == seq![(0x30 + value / 10) as u8, (0x30 + value % 10) as u8],
{
    let mut out: Vec<u8> = Vec::new();
    push_digits(&mut out, value);
    out
}

/// Between 1 and 32 a number is written as it is printed in decimal, except
/// ten, which is written as a single `0`: one digit up to ten, the tens digit
/// and then the units digit above.
pub proof fn lemma_digits_of_preset_number(n: int)
    requires
        valid_preset_number(n),
    ensures
        n <= 10 ==> digits_spec(n).len() == 1,
        n > 10 ==> digits_spec(n).len() == 2,
        forall|i: int| 0 <= i < digits_spec(n).len() ==> 0x30 <= #[trigger] digits_spec(n)[i] <= 0x39,
        n != 10 ==> digits_spec(n) == crate::text::decimal_digits(n as nat),
        n == 10 ==> digits_spec(n) == seq![0x30u8],
{
    reveal_with_fuel(crate::text::decimal_digits, 2);
    if n >= 10 {
        assert(crate::text::decimal_digits(n as nat) == crate::text::decimal_digits((n / 10) as nat).push(
            crate::text::digit_byte((n % 10) as nat),
        ));
    }
}

/// Whether `n` numbers a preset.
pub fn is_valid_preset_number(n: i32) -> (valid: bool)
    ensures
        valid == valid_preset_number(n as int),
{
    FIRST_PRESET <= n && n <= LAST_PRESET
}

/// The identify frame.
pub fn encode_info() -> (frame: Vec<u8>)
    ensures
        frame@ == info_frame(),
{
    let mut frame: Vec<u8> = Vec::new();
    frame.push(0x49);
    frame.push(CR);
    frame.push(LF);
    assert(frame@ == info_frame());
    frame
}

/// The frame that asks for the name of preset `n`, or `Validation` if `n` is
/// no preset number.
pub fn encode_get_preset_name(n: i32) -> (frame: Result<Vec<u8>, CrossPointError>)
    ensures
        !valid_preset_number(n as int) ==> frame == Err::<Vec<u8>, CrossPointError>(
            CrossPointError::Validation,
        ),
        valid_preset_number(n as int) ==> frame is Ok && frame->Ok_0@ == get_preset_name_frame(
            n as int,
        ),
{
    if !is_valid_preset_number(n) {
        return Err(CrossPointError::Validation);
    }
    let mut frame: Vec<u8> = Vec::new();
    frame.push(ESC);
    push_digits(&mut frame, n as u8);
    frame.push(0x4E);
    frame.push(0x47);
    frame.push(CR);
    assert(frame@ == get_preset_name_frame(n as int));
    Ok(frame)
}

/// The frame that saves the current ties as preset `n`, or `Validation` if
/// `n` is no preset number.
pub fn encode_save_current(n: i32) -> (frame: Result<Vec<u8>, CrossPointError>)
    ensures
        !valid_preset_number(n as int) ==> frame == Err::<Vec<u8>, CrossPointError>(
            CrossPointError::Validation,
        ),
        valid_preset_number(n as int) ==> frame is Ok && frame->Ok_0@ == save_current_frame(
            n as int,
        ),
{
    if !is_valid_preset_number(n) {
        return Err(CrossPointError::Validation);
    }
    let mut frame: Vec<u8> = Vec::new();
    push_digits(&mut frame, n as u8);
    frame.push(0x2C);
    frame.push(CR);
    frame.push(LF);
    assert(frame@ == save_current_frame(n as int));
    Ok(frame)
}

/// The frame that recalls preset `n`, or `Validation` if `n` is no preset
/// number.
pub fn encode_load_preset(n: i32) -> (frame: Result<Vec<u8>, CrossPointError>)
    ensures
        !valid_preset_number(n as int) ==> frame == Err::<Vec<u8>, CrossPointError>(
            CrossPointError::Validation,
        ),
        valid_preset_number(n as int) ==> frame is Ok && frame->Ok_0@ == load_preset_frame(
            n as int,
        ),
{
    if !is_valid_preset_number(n) {
        return Err(CrossPointError::Validation);
    }
    let mut frame: Vec<u8> = Vec::new();
    push_digits(&mut frame, n as u8);
    frame.push(0x2E);
    frame.push(CR);
    frame.push(LF);
    assert(frame@ == load_preset_frame(n as int));
    Ok(frame)
}

/// The frame that empties preset `n`, or `Validation` if `n` is no preset
/// number.
pub fn encode_clear_preset(n: i32) -> (frame: Result<Vec<u8>, CrossPointError>)
    ensures
        !valid_preset_number(n as int) ==> frame == Err::<Vec<u8>, CrossPointError>(
            CrossPointError::Validation,
        ),
        valid_preset_number(n as int) ==> frame is Ok && frame->Ok_0@ == clear_preset_frame(
            n as int,
        ),
{
    if !is_valid_preset_number(n) {
        return Err(CrossPointError::Validation);
    }
    let mut frame: Vec<u8> = Vec::new();
    frame.push(ESC);
    frame.push(0x2B);
    push_digits(&mut frame, n as u8);
    frame.push(0x50);
    frame.push(0x30);
    frame.push(0x2A);
    frame.push(0x21);
    frame.push(CR);
    assert(frame@ == clear_preset_frame(n as int));
    Ok(frame)
}

/// Appends the segments of `tie` to `frame`.
fn push_tie(frame: &mut Vec<u8>, tie: &CrossPointTie)
    ensures
        final(frame)@ == old(frame)@ + tie_segments(tie@),
{
    let io: u8 = tie.io_type.to_char() as u8;
    let mut i: usize = 0;
    assert(tie.output_channels@.take(0) == Seq::<u8>::empty());
    while i < tie.output_channels.len()
        invariant
            i <= tie.output_channels.len(),
            io == tie.io_type.to_char() as u8,
            frame@ == old(frame)@ + outputs_segments(
                tie.input_channel,
                tie.output_channels@.take(i as int),
                tie.io_type,
            ),
        decreases tie.output_channels.len() - i,
    {
        let ghost before = frame@;
        push_digits(frame, tie.input_channel);
        frame.push(0x2A);
        push_digits(frame, tie.output_channels[i]);
        frame.push(io);
        assert(tie.output_channels@.take(i + 1).drop_last() == tie.output_channels@.take(i as int));
        assert(frame@ == before + tie_segment(
            tie.input_channel,
            tie.output_channels@[i as int],
            tie.io_type,
        ));
        i += 1;
    }
    assert(tie.output_channels@.take(i as int) == tie.output_channels@);
}

/// The two frames that create `preset`: the one that empties it and the one
/// that defines it. `Validation` if its number is no preset number.
pub fn encode_create_preset(preset: &CrossPointPreset) -> (frames: Result<
    (Vec<u8>, Vec<u8>),
    CrossPointError,
>)
    ensures
        !valid_preset_number(preset.number as int) ==> frames == Err::<
            (Vec<u8>, Vec<u8>),
            CrossPointError,
        >(CrossPointError::Validation),
        valid_preset_number(preset.number as int) ==> frames is Ok && frames->Ok_0.0@
            == clear_preset_frame(preset.number as int) && frames->Ok_0.1@ == define_preset_frame(
            preset.number as int,
            preset@.ties,
        ),
{
    let clear = match encode_clear_preset(preset.number) {
        Ok(frame) => frame,
        Err(e) => { return Err(e); },
    };
    let mut frame: Vec<u8> = Vec::new();
    frame.push(ESC);
    frame.push(0x2B);
    push_digits(&mut frame, preset.number as u8);
    frame.push(0x50);
    let ghost head = frame@;
    let mut i: usize = 0;
    assert(preset@.ties.take(0) == Seq::<TieView>::empty());
    while i < preset.ties.len()
        invariant
            i <= preset.ties.len(),
            frame@ == head + ties_segments(preset@.ties.take(i as int)),
        decreases preset.ties.len() - i,
    {
        push_tie(&mut frame, &preset.ties[i]);
        assert(preset@.ties.take(i + 1).drop_last() == preset@.ties.take(i as int));
        assert(preset@.ties.take(i + 1).last() == preset.ties@[i as int]@);
        i += 1;
    }
    assert(preset@.ties.take(i as int) == preset@.ties);
    frame.push(CR);
    assert(frame@ == define_preset_frame(preset.number as int, preset@.ties));
    Ok((clear, frame))
}

/// What is known of a device before it has identified itself.
pub open spec fn no_capabilities() -> DeviceCapabilities {
    DeviceCapabilities { input_count: 0, output_count: 0, audio_supported: false }
}

/// The number that `s` denotes in decimal, or zero if it denotes none.
pub open spec fn count_of(s: Seq<char>) -> i32 {
    match parse_i32_spec(s) {
        Some(value) => value,
        None => 0,
    }
}

/// What one token of an identify response adds to `caps`. A token that
/// begins with `V` gives both channel counts: without its leading `V`s it is
/// split at `X`, the first piece is the input count and the second, if there
/// is one, the output count; a piece that is no decimal number counts as
/// zero. A token that begins with `A` says that audio is supported. Any other
/// token changes nothing.
pub open spec fn after_token(caps: DeviceCapabilities, token: Seq<char>) -> DeviceCapabilities {
    if token.len() > 0 && token[0] == 'V' {
        let counts = split(strip_leading(token, 'V'), 'X');
        DeviceCapabilities {
            input_count: count_of(counts[0]),
            output_count: if counts.len() > 1 {
                count_of(counts[1])
            } else {
                0
            },
            audio_supported: caps.audio_supported,
        }
    } else if token.len() > 0 && token[0] == 'A' {
        DeviceCapabilities {
            input_count: caps.input_count,
            output_count: caps.output_count,
            audio_supported: true,
        }
    } else {
        caps
    }
}

/// What the tokens of an identify response say, taken in order.
pub open spec fn after_tokens(tokens: Seq<Seq<char>>) -> DeviceCapabilities
    decreases tokens.len(),
{
    if tokens.len() == 0 {
        no_capabilities()
    } else {
        after_token(after_tokens(tokens.drop_last()), tokens.last())
    }
}

/// The capabilities that the identify response `line` states: the line
/// without the white space at its ends, split at each space, token by token.
pub open spec fn handshake_capabilities(line: Seq<char>) -> DeviceCapabilities {
    after_tokens(split(trim(line), ' '))
}

/// The decimal number in `piece`, or zero.
fn parse_count(piece: &Vec<char>) -> (count: i32)
    ensures
        count == count_of(piece@),
{
    match parse_i32(piece) {
        Some(value) => value,
        None => 0,
    }
}

/// Applies one token of an identify response to `caps`.
fn apply_token(caps: DeviceCapabilities, token: &Vec<char>) -> (next: DeviceCapabilities)
    ensures
        next == after_token(caps, token@),
{
    if token.len() > 0 && token[0] == 'V' {
        let body = without_leading(token, 'V');
        let counts = split_at_each(&body, 'X');
        proof {
            lemma_split_has_a_piece(body@, 'X');
            assert(pieces(counts@).len() == counts.len());
            assert(pieces(counts@)[0] == counts@[0]@);
            if counts.len() > 1 {
                assert(pieces(counts@)[1] == counts@[1]@);
            }
        }
        let input_count = parse_count(&counts[0]);
        let output_count = if counts.len() > 1 {
            parse_count(&counts[1])
        } else {
            0
        };
        DeviceCapabilities { input_count, output_count, audio_supported: caps.audio_supported }
    } else if token.len() > 0 && token[0] == 'A' {
        DeviceCapabilities {
            input_count: caps.input_count,
            output_count: caps.output_count,
            audio_supported: true,
        }
    } else {
        caps
    }
}

/// Decodes the identify response of a device.
pub fn decode_handshake(line: &str) -> (caps: DeviceCapabilities)
    ensures
        caps == handshake_capabilities(line@),
{
    let chars = chars_of(line);
    let body = trimmed(&chars);
    let tokens = split_at_each(&body, ' ');
    let mut caps = DeviceCapabilities { input_count: 0, output_count: 0, audio_supported: false };
    let mut i: usize = 0;
    assert(pieces(tokens@).take(0) == Seq::<Seq<char>>::empty());
    while i < tokens.len()
        invariant
            i <= tokens.len(),
            caps == after_tokens(pieces(tokens@).take(i as int)),
        decreases tokens.len() - i,
    {
        assert(pieces(tokens@).take(i + 1).drop_last() == pieces(tokens@).take(i as int));
        assert(pieces(tokens@).take(i + 1).last() == tokens@[i as int]@);
        caps = apply_token(caps, &tokens[i]);
        i += 1;
    }
    assert(pieces(tokens@).take(i as int) == pieces(tokens@));
    caps
}

} // verus!
