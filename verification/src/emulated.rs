//! What a client sees of an emulated device. The emulator is deterministic,
//! so what an exchange with it leaves and returns can be computed, and the
//! outcomes that the client's contracts admit reduce to that one.

use vstd::prelude::*;
use vstd::utf8::{decode_utf8, encode_utf8, valid_utf8};
use crate::codec::{
    after_token, after_tokens, clear_preset_frame, count_of, define_preset_frame, digits_spec,
    get_preset_name_frame, handshake_capabilities, info_frame, load_preset_frame, no_capabilities,
    save_current_frame, valid_preset_number, CR, ESC, LF,
};
use crate::crosspoint::{
    command_outcome, create_outcome, handshake_outcome, identified, response_text,
    CrossPointError, DeviceCapabilities, TieView,
};
use crate::text::{
    all_digits, ascii_chars, decimal_digits, digits_value, is_digit, is_space, lemma_split_once,
    parse_i32_spec, split, strip_leading, trim, trim_end, trim_start, two_digits,
};
use crate::transport::{
    absorbed, chunk_outcome, collect_outcome, completes, exchange_outcome, flushed_outcome,
    lemma_position_of, lemma_position_of_is_first, lemma_position_of_parts, position_of,
    written_outcome, DeviceTransport, ExchangeError, IoError, CHUNK_SIZE, READ_LIMIT,
};
use crate::vextron::{
    asks_for_name, leading_digits, leading_number, lemma_pending_is_held, VirtualCrosspoint,
    VirtualCrosspointView, PRESET_SLOTS,
};

verus! {

/// What reading a response from `device` leaves and gives, with `response`
/// gathered so far and `reads` reads still allowed.
pub open spec fn drained(
    device: VirtualCrosspointView,
    response: Seq<u8>,
    mark: u8,
    reads: nat,
) -> (VirtualCrosspointView, Result<Seq<u8>, ExchangeError>)
    decreases reads,
{
    if reads == 0 {
        (device, Err(ExchangeError::Endless))
    } else {
        let chunk = device.read_bytes(CHUNK_SIZE as nat);
        let next = device.after_read(CHUNK_SIZE as nat);
        if completes(chunk, mark) {
            (next, Ok(absorbed(response, chunk, mark)))
        } else {
            drained(next, absorbed(response, chunk, mark), mark, (reads - 1) as nat)
        }
    }
}

/// What one exchange with `device` leaves and gives.
pub open spec fn exchanged(device: VirtualCrosspointView, frame: Seq<u8>, mark: u8) -> (
    VirtualCrosspointView,
    Result<Seq<u8>, ExchangeError>,
) {
    drained(device.after_write(frame), Seq::empty(), mark, READ_LIMIT as nat)
}

/// How many of the bytes in `pending` the reading of one response takes
/// away: all of them where there is no `mark`, and else all up to the end of
/// the chunk that holds the first `mark`.
pub open spec fn consumed(pending: Seq<u8>, mark: u8) -> int {
    let k = position_of(pending, mark);
    let end = CHUNK_SIZE * (k / CHUNK_SIZE as int + 1);
    if k < pending.len() && end <= pending.len() {
        end
    } else {
        pending.len() as int
    }
}

/// Every outcome that the client's contract admits of reading a response
/// from an emulated device is the one that `drained` computes.
pub proof fn lemma_collect_is_drained(
    before: VirtualCrosspoint,
    response: Seq<u8>,
    mark: u8,
    reads: nat,
    after: VirtualCrosspoint,
    result: Result<Seq<u8>, ExchangeError>,
)
    requires
        collect_outcome(before, response, mark, reads, after, result),
    ensures
        (after@, result) == drained(before@, response, mark, reads),
    decreases reads,
{
    if reads > 0 {
        let (next, chunk) = choose|next: VirtualCrosspoint, chunk: Result<Seq<u8>, IoError>| #[trigger]
            VirtualCrosspoint::read_outcome(before, CHUNK_SIZE as nat, next, chunk) && chunk_outcome(
                next,
                chunk,
                response,
                mark,
                reads,
                after,
                result,
            );
        let bytes = before@.read_bytes(CHUNK_SIZE as nat);
        if !completes(bytes, mark) {
            lemma_collect_is_drained(
                next,
                absorbed(response, bytes, mark),
                mark,
                (reads - 1) as nat,
                after,
                result,
            );
        }
    }
}

/// Every outcome that the client's contract admits of an exchange with an
/// emulated device is the one that `exchanged` computes.
pub proof fn lemma_exchange_is_exchanged(
    before: VirtualCrosspoint,
    frame: Seq<u8>,
    mark: u8,
    after: VirtualCrosspoint,
    result: Result<Seq<u8>, ExchangeError>,
)
    requires
        exchange_outcome(before, frame, mark, after, result),
    ensures
        (after@, result) == exchanged(before@, frame, mark),
        before@.after_write(frame).pending.len() <= usize::MAX,
{
    let (written, taken) = choose|written: VirtualCrosspoint, taken: Result<usize, IoError>| #[trigger]
        VirtualCrosspoint::write_outcome(before, frame, written, taken) && written_outcome(
            written,
            taken,
            mark,
            after,
            result,
        );
    let (flushed, done) = choose|flushed: VirtualCrosspoint, done: Result<(), IoError>| #[trigger]
        VirtualCrosspoint::flush_outcome(written, flushed, done) && flushed_outcome(
            flushed,
            done,
            mark,
            after,
            result,
        );
    lemma_collect_is_drained(flushed, Seq::empty(), mark, READ_LIMIT as nat, after, result);
    lemma_pending_is_held(flushed);
}

/// Every outcome that the client's contract admits of a command to an
/// emulated device is the one that `exchanged` computes, as text.
pub proof fn lemma_command_is_exchanged(
    before: VirtualCrosspoint,
    frame: Seq<u8>,
    after: VirtualCrosspoint,
    result: Result<Seq<char>, CrossPointError>,
)
    requires
        command_outcome(before, frame, after, result),
    ensures
        after@ == exchanged(before@, frame, CR).0,
        result == response_text(exchanged(before@, frame, CR).1),
        before@.after_write(frame).pending.len() <= usize::MAX,
{
    let raw = choose|raw: Result<Seq<u8>, ExchangeError>| #[trigger]
        exchange_outcome(before, frame, CR, after, raw) && result == response_text(raw);
    lemma_exchange_is_exchanged(before, frame, CR, after, raw);
}

/// Reading a response from an emulated device gives what is pending up to
/// the first `mark`, after what was gathered before, and takes away the
/// chunks that were read: provided that the reads allowed suffice.
pub proof fn lemma_drained(device: VirtualCrosspointView, response: Seq<u8>, mark: u8, reads: nat)
    requires
        device.pending.len() + CHUNK_SIZE <= CHUNK_SIZE * reads,
    ensures
        drained(device, response, mark, reads).0 == (VirtualCrosspointView {
            pending: device.pending.skip(consumed(device.pending, mark)),
            ..device
        }),
        drained(device, response, mark, reads).1 == Ok::<Seq<u8>, ExchangeError>(
            response + device.pending.take(position_of(device.pending, mark)),
        ),
        0 <= consumed(device.pending, mark) <= device.pending.len(),
        device.pending.len() > 0 ==> consumed(device.pending, mark) > 0,
    decreases reads,
{
    let pending = device.pending;
    let k = position_of(pending, mark);
    let count = device.read_count(CHUNK_SIZE as nat) as int;
    let chunk = device.read_bytes(CHUNK_SIZE as nat);
    let next = device.after_read(CHUNK_SIZE as nat);
    lemma_position_of_is_first(pending, mark);
    lemma_position_of_parts(pending, mark, count);
    assert(chunk == pending.take(count));
    assert(next.pending == pending.skip(count));
    if completes(chunk, mark) {
        assert(consumed(pending, mark) == count);
        assert(chunk.take(position_of(chunk, mark)) == pending.take(k));
    } else {
        let gathered = absorbed(response, chunk, mark);
        assert(position_of(chunk, mark) == count);
        assert(gathered == response + chunk) by {
            assert(chunk.take(count) == chunk);
        }
        lemma_drained(next, gathered, mark, (reads - 1) as nat);
        let rest = next.pending;
        assert(position_of(rest, mark) == k - count);
        assert(count + consumed(rest, mark) == consumed(pending, mark)) by {
            if count == CHUNK_SIZE {
                assert((k - CHUNK_SIZE) / CHUNK_SIZE as int == k / CHUNK_SIZE as int - 1);
            }
        }
        assert(gathered + rest.take(k - count) == response + pending.take(k));
        assert(rest.skip(consumed(rest, mark)) == pending.skip(consumed(pending, mark)));
    }
}

/// A command to an emulated device returns every byte that is pending once
/// the command was written, up to the first carriage return, as text; and
/// takes from the device the chunks that were read. No length is too great:
/// what a device holds is read to its end.
pub proof fn lemma_command_reads_what_is_pending(
    before: VirtualCrosspoint,
    frame: Seq<u8>,
    after: VirtualCrosspoint,
    result: Result<Seq<char>, CrossPointError>,
)
    requires
        command_outcome(before, frame, after, result),
    ensures
        ({
            let pending = before@.after_write(frame).pending;
            &&& result == response_text(
                Ok::<Seq<u8>, ExchangeError>(pending.take(position_of(pending, CR))),
            )
            &&& after@ == (VirtualCrosspointView {
                pending: pending.skip(consumed(pending, CR)),
                ..before@
            })
        }),
{
    lemma_command_is_exchanged(before, frame, after, result);
    let written = before@.after_write(frame);
    lemma_drained(written, Seq::empty(), CR, READ_LIMIT as nat);
    let pending = written.pending;
    assert(Seq::<u8>::empty() + pending.take(position_of(pending, CR)) == pending.take(
        position_of(pending, CR),
    ));
}

/// The name under which a device answers for preset `n`: the name of the
/// preset, or `[unassigned]` for an empty one.
pub open spec fn preset_label(device: VirtualCrosspointView, n: int) -> Seq<char> {
    match device.preset(n) {
        Some(p) => p.name,
        None => "[unassigned]"@,
    }
}

/// The emulator answers the request for the name of a preset with that name,
/// whatever the preset number from 1 to 32, except ten: the request for
/// preset ten carries the single digit `0`, which names no preset, and is not
/// answered.
pub proof fn lemma_reply_to_name_request(device: VirtualCrosspointView, n: int)
    requires
        valid_preset_number(n),
        device.presets.len() == PRESET_SLOTS,
    ensures
        n != 10 ==> device.reply(get_preset_name_frame(n)) == encode_utf8(preset_label(device, n)),
        n == 10 ==> device.reply(get_preset_name_frame(n)) == Seq::<u8>::empty(),
{
    let frame = get_preset_name_frame(n);
    let rest = frame.skip(1);
    assert(frame[0] == ESC);
    assert(rest == digits_spec(n) + seq![0x4Eu8, 0x47u8, CR]);
    if n > 10 {
        assert(rest[0] == (0x30 + n / 10) as u8);
        assert(rest[1] == (0x30 + n % 10) as u8);
        assert(rest[2] == 0x4E && rest[3] == 0x47);
        assert(leading_digits(rest) == 2);
        assert(leading_number(rest) == n);
        assert(asks_for_name(rest));
    } else {
        assert(rest[0] == (0x30 + n % 10) as u8);
        assert(rest[1] == 0x4E && rest[2] == 0x47);
        assert(leading_digits(rest) == 1);
        if n == 10 {
            assert(leading_number(rest) == 0);
            assert(!asks_for_name(rest));
        } else {
            assert(leading_number(rest) == n);
            assert(asks_for_name(rest));
        }
    }
}

/// The emulator answers none of the commands that save, recall, empty or
/// define a preset.
pub proof fn lemma_commands_without_reply(device: VirtualCrosspointView, n: int, ties: Seq<TieView>)
    requires
        valid_preset_number(n),
    ensures
        device.reply(save_current_frame(n)) == Seq::<u8>::empty(),
        device.reply(load_preset_frame(n)) == Seq::<u8>::empty(),
        device.reply(clear_preset_frame(n)) == Seq::<u8>::empty(),
        device.reply(define_preset_frame(n, ties)) == Seq::<u8>::empty(),
{
    assert(0x30 <= save_current_frame(n)[0] <= 0x39);
    assert(0x30 <= load_preset_frame(n)[0] <= 0x39);
    let clear = clear_preset_frame(n);
    assert(clear[0] == ESC && clear.skip(1)[0] == 0x2B);
    assert(leading_digits(clear.skip(1)) == 0);
    let define = define_preset_frame(n, ties);
    assert(define[0] == ESC && define.skip(1)[0] == 0x2B);
    assert(leading_digits(define.skip(1)) == 0);
}

/// A command that the emulator does not answer, sent to a device with
/// nothing pending, returns the empty text and leaves the device as it was.
pub proof fn lemma_command_without_reply(
    before: VirtualCrosspoint,
    frame: Seq<u8>,
    after: VirtualCrosspoint,
    result: Result<Seq<char>, CrossPointError>,
)
    requires
        command_outcome(before, frame, after, result),
        before@.reply(frame) == Seq::<u8>::empty(),
        before@.pending.len() == 0,
    ensures
        after@ == before@,
        result == Ok::<Seq<char>, CrossPointError>(Seq::empty()),
{
    lemma_command_is_exchanged(before, frame, after, result);
    let written = before@.after_write(frame);
    assert(written.pending == Seq::<u8>::empty());
    assert(written == before@);
    lemma_drained(written, Seq::empty(), CR, READ_LIMIT as nat);
    assert(Seq::<u8>::empty() + written.pending.take(position_of(written.pending, CR)) == Seq::<
        u8,
    >::empty());
    assert(written.pending.skip(consumed(written.pending, CR)) == written.pending);
    assert(valid_utf8(Seq::<u8>::empty()) && decode_utf8(Seq::<u8>::empty()) == Seq::<char>::empty())
        by {
        vstd::utf8::encode_utf8_valid_utf8(Seq::<char>::empty());
        vstd::utf8::encode_utf8_decode_utf8(Seq::<char>::empty());
        assert(encode_utf8(Seq::<char>::empty()) == Seq::<u8>::empty());
    }
}

/// The answer for an empty preset has no carriage return in it: an empty
/// preset reads back as `[unassigned]`.
pub proof fn lemma_unassigned_reads_back()
    ensures
        !"[unassigned]"@.contains('\r'),
{
    reveal_strlit("[unassigned]");
    let label = "[unassigned]"@;
    assert(label.len() == 12);
    assert forall|i: int| 0 <= i < label.len() implies label[i] != '\r' by {}
}

/// Asking an emulated device for the name of a preset returns the name that
/// the device holds for it, `[unassigned]` where it holds none, and leaves
/// the device as it was, however long the name is. This holds of a device
/// with nothing pending and of a name without a carriage return. For preset
/// ten the emulator gives no answer, and the text returned is empty.
pub proof fn lemma_preset_name_from_emulator(
    before: VirtualCrosspoint,
    n: int,
    after: VirtualCrosspoint,
    result: Result<Seq<char>, CrossPointError>,
)
    requires
        valid_preset_number(n),
        command_outcome(before, get_preset_name_frame(n), after, result),
        before@.presets.len() == PRESET_SLOTS,
        before@.pending.len() == 0,
        !preset_label(before@, n).contains('\r'),
    ensures
        after@ == before@,
        n != 10 ==> result == Ok::<Seq<char>, CrossPointError>(preset_label(before@, n)),
        n == 10 ==> result == Ok::<Seq<char>, CrossPointError>(Seq::empty()),
{
    let frame = get_preset_name_frame(n);
    lemma_reply_to_name_request(before@, n);
    if n == 10 {
        lemma_command_without_reply(before, frame, after, result);
    } else {
        lemma_command_is_exchanged(before, frame, after, result);
        let label = preset_label(before@, n);
        let reply = encode_utf8(label);
        let written = before@.after_write(frame);
        assert(written.pending == reply);
        lemma_drained(written, Seq::empty(), CR, READ_LIMIT as nat);
        assert forall|i: int| 0 <= i < label.len() implies label[i] as u32 != CR by {
            assert(label.contains(label[i]));
            vstd::utf8::char_u32_cast(label[i], label[i] as u32);
            assert('\r' as u32 == 0x0D);
        }
        crate::text::lemma_encoded_without(label, CR);
        lemma_position_of(reply, CR, reply.len() as int);
        assert(Seq::<u8>::empty() + reply.take(reply.len() as int) == reply);
        assert(reply.skip(reply.len() as int) == before@.pending);
        vstd::utf8::encode_utf8_valid_utf8(label);
        vstd::utf8::encode_utf8_decode_utf8(label);
    }
}

/// Emptying a preset of an emulated device twice leaves the device as
/// emptying it once does, and returns the same empty text, provided that
/// nothing is pending after the first time; with something still pending the
/// second command reads on, and the device is not as it was. The emulator
/// keeps its presets either way. From a device with nothing pending the
/// first command already changes nothing.
pub proof fn lemma_clear_preset_twice(
    before: VirtualCrosspoint,
    n: int,
    once: VirtualCrosspoint,
    first: Result<Seq<char>, CrossPointError>,
    twice: VirtualCrosspoint,
    second: Result<Seq<char>, CrossPointError>,
)
    requires
        valid_preset_number(n),
        command_outcome(before, clear_preset_frame(n), once, first),
        command_outcome(once, clear_preset_frame(n), twice, second),
    ensures
        twice@.presets == before@.presets && once@.presets == before@.presets,
        twice@ == once@ <==> once@.pending.len() == 0,
        once@.pending.len() == 0 ==> second == Ok::<Seq<char>, CrossPointError>(Seq::empty()),
        before@.pending.len() == 0 ==> once@ == before@ && twice@ == before@ && first == second,
{
    let frame = clear_preset_frame(n);
    lemma_commands_without_reply(before@, n, Seq::empty());
    lemma_commands_without_reply(once@, n, Seq::empty());
    lemma_command_is_exchanged(before, frame, once, first);
    lemma_command_is_exchanged(once, frame, twice, second);
    let written = before@.after_write(frame);
    assert(written.pending == before@.pending);
    lemma_drained(written, Seq::empty(), CR, READ_LIMIT as nat);
    let again = once@.after_write(frame);
    assert(again.pending == once@.pending);
    lemma_drained(again, Seq::empty(), CR, READ_LIMIT as nat);
    if once@.pending.len() == 0 {
        lemma_command_without_reply(once, frame, twice, second);
    } else {
        assert(twice@.pending.len() < once@.pending.len());
    }
    if before@.pending.len() == 0 {
        lemma_command_without_reply(before, frame, once, first);
    }
}

/// Creating a preset on an emulated device with nothing pending leaves the
/// device as it was and returns the empty text: the emulator answers neither
/// of the two commands. What the device holds under the preset's number is
/// what it held before.
pub proof fn lemma_create_preset_on_emulator(
    before: VirtualCrosspoint,
    n: int,
    ties: Seq<TieView>,
    after: VirtualCrosspoint,
    result: Result<Seq<char>, CrossPointError>,
)
    requires
        valid_preset_number(n),
        before@.pending.len() == 0,
        create_outcome(before, n, ties, after, result),
    ensures
        after@ == before@,
        result == Ok::<Seq<char>, CrossPointError>(Seq::empty()),
{
    let (emptied, first) = choose|
        emptied: VirtualCrosspoint,
        first: Result<Seq<char>, CrossPointError>,
    |
        {
            &&& #[trigger] command_outcome(before, clear_preset_frame(n), emptied, first)
            &&& match first {
                Err(e) => after == emptied && result == Err::<Seq<char>, CrossPointError>(e),
                Ok(_) => command_outcome(emptied, define_preset_frame(n, ties), after, result),
            }
        };
    lemma_commands_without_reply(before@, n, ties);
    lemma_command_without_reply(before, clear_preset_frame(n), emptied, first);
    lemma_commands_without_reply(emptied@, n, ties);
    lemma_command_without_reply(emptied, define_preset_frame(n, ties), after, result);
}

/// The two characters that stand for a channel count below a hundred in
/// the identify response are digits, and read as that count.
pub proof fn lemma_two_digits_read_back(n: nat)
    requires
        n < 100,
    ensures
        two_digits(n).len() == 2,
        all_digits(ascii_chars(two_digits(n))),
        count_of(ascii_chars(two_digits(n))) == n,
{
    reveal_with_fuel(decimal_digits, 2);
    reveal_with_fuel(digits_value, 3);
    let digits = two_digits(n);
    let chars = ascii_chars(digits);
    assert(digits == seq![(0x30 + n / 10) as u8, (0x30 + n % 10) as u8]);
    assert(chars[0] as u32 == 0x30 + n / 10 && chars[1] as u32 == 0x30 + n % 10);
    assert('0' as u32 == 0x30 && '9' as u32 == 0x39 && '-' as u32 == 0x2d && '+' as u32 == 0x2b);
    assert(is_digit(chars[0]) && is_digit(chars[1]));
    assert(chars.drop_last().drop_last() == Seq::<char>::empty());
    assert(chars.drop_last().last() == chars[0]);
    assert(digits_value(chars) == n);
    assert(parse_i32_spec(chars) == Some(n as i32));
}

/// A client that connects to an emulated device with nothing pending learns
/// its channel counts, and that it switches audio: the identify response
/// carries an audio token whether the device does or not. The device is left
/// as it was. This holds of a device with fewer than a hundred channels of
/// either kind, whose counts take two digits each.
pub proof fn lemma_handshake_with_emulator(
    before: VirtualCrosspoint,
    after: VirtualCrosspoint,
    result: Result<DeviceCapabilities, CrossPointError>,
)
    requires
        handshake_outcome(before, after, result),
        before@.pending.len() == 0,
        before@.in_channels < 100,
        before@.out_channels < 100,
    ensures
        after@ == before@,
        result == Ok::<DeviceCapabilities, CrossPointError>(
            DeviceCapabilities {
                input_count: before@.in_channels as i32,
                output_count: before@.out_channels as i32,
                audio_supported: true,
            },
        ),
{
    let raw = choose|raw: Result<Seq<u8>, ExchangeError>| #[trigger]
        exchange_outcome(before, info_frame(), LF, after, raw) && result == identified(raw);
    lemma_exchange_is_exchanged(before, info_frame(), LF, after, raw);
    let device = before@;
    let inputs = device.in_channels as nat;
    let outputs = device.out_channels as nat;
    let audio_in: nat = if device.audio { inputs } else { 0 };
    let audio_out: nat = if device.audio { outputs } else { 0 };
    lemma_two_digits_read_back(inputs);
    lemma_two_digits_read_back(outputs);
    lemma_two_digits_read_back(audio_in);
    lemma_two_digits_read_back(audio_out);

    // What the device produces, and what the exchange takes of it.
    let reply = device.info_reply();
    let first = seq![0x56u8] + two_digits(inputs) + seq![0x58u8] + two_digits(outputs);
    let second = seq![0x41u8] + two_digits(audio_in) + seq![0x58u8] + two_digits(audio_out);
    assert(reply == first + seq![0x20u8] + second + seq![0x0Du8, 0x0Au8]);
    assert(reply.len() == 15);
    assert(info_frame()[0] == 0x49);
    let written = device.after_write(info_frame());
    assert(written.pending == reply);
    lemma_drained(written, Seq::empty(), LF, READ_LIMIT as nat);
    assert forall|j: int| 0 <= j < 14 implies reply[j] != LF by {
        lemma_reply_bytes(device);
    }
    lemma_position_of(reply, LF, 14);
    assert(consumed(reply, LF) == 15);
    assert(reply.skip(15) == device.pending);
    let line = reply.take(14);
    assert(Seq::<u8>::empty() + line == line);
    assert(raw == Ok::<Seq<u8>, ExchangeError>(line));

    // The line as text.
    let text = ascii_chars(line);
    lemma_reply_bytes(device);
    assert(vstd::utf8::is_ascii_chars(text)) by {
        assert forall|i: int| 0 <= i < text.len() implies '\0' <= #[trigger] text[i] <= '\u{7f}' by {
            assert(line[i] < 0x80);
            assert(text[i] as u32 == line[i]);
        }
    }
    vstd::utf8::is_ascii_chars_encode_utf8(text);
    assert(encode_utf8(text) == line) by {
        assert forall|i: int| 0 <= i < line.len() implies encode_utf8(text)[i] == line[i] by {
            assert(text[i] as u8 == line[i]);
        }
    }
    vstd::utf8::encode_utf8_valid_utf8(text);
    vstd::utf8::encode_utf8_decode_utf8(text);

    // What the line says.
    let v = ascii_chars(first);
    let a = ascii_chars(second);
    assert(text == v + seq![' '] + a + seq!['\r']);
    assert(!is_space(text[0])) by {
        assert(text[0] as u32 == 0x56);
    }
    assert(trim_start(text) == text);
    assert(text.drop_last() == v + seq![' '] + a);
    assert(is_space(text.last())) by {
        assert(text.last() as u32 == 0x0D);
    }
    assert(!is_space(text.drop_last().last())) by {
        assert(text.drop_last().last() as u32 == line[12]);
    }
    assert(trim_end(text) == trim_end(text.drop_last()));
    assert(trim(text) == v + seq![' '] + a);
    assert(!v.contains(' ')) by {
        assert forall|i: int| 0 <= i < v.len() implies v[i] != ' ' by {
            assert(v[i] as u32 == first[i]);
            assert(' ' as u32 == 0x20);
        }
    }
    assert(!a.contains(' ')) by {
        assert forall|i: int| 0 <= i < a.len() implies a[i] != ' ' by {
            assert(a[i] as u32 == second[i]);
            assert(' ' as u32 == 0x20);
        }
    }
    lemma_split_once(v, a, ' ');
    let tokens = seq![v, a];
    assert(tokens.drop_last() == seq![v]);
    assert(seq![v].drop_last() == Seq::<Seq<char>>::empty());
    assert(after_tokens(Seq::<Seq<char>>::empty()) == no_capabilities());
    assert(after_tokens(seq![v]) == after_token(no_capabilities(), v));
    assert(after_tokens(tokens) == after_token(after_token(no_capabilities(), v), a));

    // The token with the counts.
    let ins = ascii_chars(two_digits(inputs));
    let outs = ascii_chars(two_digits(outputs));
    assert(v == seq!['V'] + ins + seq!['X'] + outs) by {
        assert('V' as u32 == 0x56 && 'X' as u32 == 0x58);
        assert forall|i: int| 0 <= i < v.len() implies v[i] == (seq!['V'] + ins + seq!['X']
            + outs)[i] by {
            assert(v[i] as u32 == first[i]);
            vstd::utf8::char_u32_cast(v[i], v[i] as u32);
        }
    }
    let counts = ins + seq!['X'] + outs;
    assert(v[0] == 'V');
    assert(v.skip(1) == counts);
    assert(counts[0] != 'V') by {
        assert(is_digit(ins[0]));
    }
    assert(strip_leading(counts, 'V') == counts);
    assert(strip_leading(v, 'V') == counts);
    assert(!ins.contains('X')) by {
        assert forall|i: int| 0 <= i < ins.len() implies ins[i] != 'X' by {
            assert(is_digit(ins[i]));
        }
    }
    assert(!outs.contains('X')) by {
        assert forall|i: int| 0 <= i < outs.len() implies outs[i] != 'X' by {
            assert(is_digit(outs[i]));
        }
    }
    lemma_split_once(ins, outs, 'X');
    assert(split(counts, 'X')[0] == ins && split(counts, 'X')[1] == outs);

    // The audio token.
    assert(a[0] == 'A') by {
        assert(a[0] as u32 == 0x41);
        vstd::utf8::char_u32_cast(a[0], a[0] as u32);
    }
    assert(handshake_capabilities(text) == DeviceCapabilities {
        input_count: inputs as i32,
        output_count: outputs as i32,
        audio_supported: true,
    });
}

/// The bytes of the identify response of a device with fewer than a hundred
/// channels of either kind: letters, digits, one space, and CR, LF at the
/// end.
pub proof fn lemma_reply_bytes(device: VirtualCrosspointView)
    requires
        device.in_channels < 100,
        device.out_channels < 100,
    ensures
        device.info_reply().len() == 15,
        forall|j: int| 0 <= j < 15 ==> #[trigger] device.info_reply()[j] < 0x80,
        forall|j: int| 0 <= j < 14 ==> #[trigger] device.info_reply()[j] != LF,
        device.info_reply()[12] != 0x0D && device.info_reply()[12] != 0x20,
{
    reveal_with_fuel(decimal_digits, 2);
    let reply = device.info_reply();
    let inputs = device.in_channels as nat;
    let outputs = device.out_channels as nat;
    let audio_in: nat = if device.audio { inputs } else { 0 };
    let audio_out: nat = if device.audio { outputs } else { 0 };
    assert(two_digits(inputs) == seq![(0x30 + inputs / 10) as u8, (0x30 + inputs % 10) as u8]);
    assert(two_digits(outputs) == seq![(0x30 + outputs / 10) as u8, (0x30 + outputs % 10) as u8]);
    assert(two_digits(audio_in) == seq![(0x30 + audio_in / 10) as u8, (0x30 + audio_in % 10) as u8]);
    assert(two_digits(audio_out) == seq![
        (0x30 + audio_out / 10) as u8,
        (0x30 + audio_out % 10) as u8,
    ]);
    assert(reply == seq![
        0x56u8,
        (0x30 + inputs / 10) as u8,
        (0x30 + inputs % 10) as u8,
        0x58u8,
        (0x30 + outputs / 10) as u8,
        (0x30 + outputs % 10) as u8,
        0x20u8,
        0x41u8,
        (0x30 + audio_in / 10) as u8,
        (0x30 + audio_in % 10) as u8,
        0x58u8,
        (0x30 + audio_out / 10) as u8,
        (0x30 + audio_out % 10) as u8,
        0x0Du8,
        0x0Au8,
    ]);
}

} // verus!
