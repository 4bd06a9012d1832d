//! An emulator of the device: it takes the command bytes that a unit would
//! take and produces the response bytes that a unit would produce, so that a
//! client can run without hardware.

use vstd::prelude::*;
use vstd::utf8::encode_utf8;
use crate::codec::ESC;
use crate::config::ConfigurationError;
use crate::crosspoint::{ties_view, CrossPointPreset, CrossPointTie, PresetView, TieView};
use crate::text::{push_two_digits, two_digits};
use crate::transport::{DeviceTransport, IoError};

verus! {

/// The number of presets that a device holds.
pub const PRESET_SLOTS: usize = 32;

/// The most inputs, and the most outputs, that a device can be given.
pub const MAX_CHANNELS: usize = 16;

/// The emulator as a mathematical value.
pub struct VirtualCrosspointView {
    /// What the device has produced and nobody has read yet, oldest first.
    pub pending: Seq<u8>,
    pub in_channels: usize,
    pub out_channels: usize,
    pub audio: bool,
    /// The ties in effect now.
    pub current: PresetView,
    /// The 32 presets: preset `n` is at index `n - 1`.
    pub presets: Seq<Option<PresetView>>,
}

/// What the device answers when it is asked for the name of an empty preset.
pub open spec fn unassigned_reply() -> Seq<u8> {
    encode_utf8("[unassigned]"@)
}

/// Whether `byte` is an ASCII digit.
pub open spec fn is_digit_byte(byte: u8) -> bool {
    0x30 <= byte <= 0x39
}

/// How many of the first two bytes of `bytes` are the digits of a number:
/// the run of digits that `bytes` starts with, but no more than two.
pub open spec fn leading_digits(bytes: Seq<u8>) -> int {
    if bytes.len() > 0 && is_digit_byte(bytes[0]) {
        if bytes.len() > 1 && is_digit_byte(bytes[1]) {
            2
        } else {
            1
        }
    } else {
        0
    }
}

/// The number that the leading digits of `bytes` denote; zero without any.
pub open spec fn leading_number(bytes: Seq<u8>) -> int {
    if leading_digits(bytes) == 2 {
        (bytes[0] - 0x30) * 10 + (bytes[1] - 0x30)
    } else if leading_digits(bytes) == 1 {
        bytes[0] - 0x30
    } else {
        0
    }
}

/// Whether what follows ESC asks for the name of a preset: a preset number
/// in one or two digits, then `N`, `G`.
pub open spec fn asks_for_name(bytes: Seq<u8>) -> bool {
    let used = leading_digits(bytes);
    &&& 1 <= leading_number(bytes) <= PRESET_SLOTS
    &&& bytes.len() >= used + 2
    &&& bytes[used] == 0x4E
    &&& bytes[used + 1] == 0x47
}

impl VirtualCrosspointView {
    /// There are 32 presets, and a preset that is held under a number has
    /// that number.
    pub open spec fn wf(self) -> bool {
        &&& self.presets.len() == PRESET_SLOTS
        &&& forall|i: int|
            0 <= i < self.presets.len() ==> (#[trigger] self.presets[i] matches Some(p) ==> p.number
                == i + 1)
    }

    /// Preset `n`, if there is one.
    pub open spec fn preset(self, n: int) -> Option<PresetView> {
        if 1 <= n <= self.presets.len() {
            self.presets[n - 1]
        } else {
            None
        }
    }

    /// The same device with `bytes` produced after what is pending.
    pub open spec fn producing(self, bytes: Seq<u8>) -> Self {
        VirtualCrosspointView { pending: self.pending + bytes, ..self }
    }

    /// The identify response: `V`, the inputs, `X`, the outputs, a space,
    /// `A`, the inputs, `X`, the outputs, CR, LF. Each count has two digits
    /// at least, and the two after `A` are zero without audio.
    pub open spec fn info_reply(self) -> Seq<u8> {
        let audio_in: nat = if self.audio { self.in_channels as nat } else { 0 };
        let audio_out: nat = if self.audio { self.out_channels as nat } else { 0 };
        seq![0x56u8] + two_digits(self.in_channels as nat) + seq![0x58u8] + two_digits(
            self.out_channels as nat,
        ) + seq![0x20u8, 0x41u8] + two_digits(audio_in) + seq![0x58u8] + two_digits(audio_out)
            + seq![0x0Du8, 0x0Au8]
    }

    /// The answer to a request for the name of preset `n`: the name in
    /// UTF-8, or `[unassigned]` for an empty preset. Nothing ends it. No
    /// answer for a number that is not one of a preset.
    pub open spec fn name_reply(self, n: int) -> Seq<u8> {
        if 1 <= n <= self.presets.len() {
            match self.presets[n - 1] {
                Some(p) => encode_utf8(p.name),
                None => unassigned_reply(),
            }
        } else {
            Seq::empty()
        }
    }

    /// The answer to what follows ESC in a command.
    pub open spec fn escape_reply(self, bytes: Seq<u8>) -> Seq<u8> {
        if asks_for_name(bytes) {
            self.name_reply(leading_number(bytes))
        } else {
            Seq::empty()
        }
    }

    /// The answer to the command `bytes`. The first byte decides: `I` asks
    /// the device to identify itself, ESC begins an escape sequence. Nothing
    /// else is answered.
    pub open spec fn reply(self, bytes: Seq<u8>) -> Seq<u8> {
        if bytes.len() > 0 && bytes[0] == 0x49 {
            self.info_reply()
        } else if bytes.len() > 0 && bytes[0] == ESC {
            self.escape_reply(bytes.skip(1))
        } else {
            Seq::empty()
        }
    }

    /// The device after the command `bytes` was written to it.
    pub open spec fn after_write(self, bytes: Seq<u8>) -> Self {
        self.producing(self.reply(bytes))
    }

    /// How many bytes a read into `room` bytes takes.
    pub open spec fn read_count(self, room: nat) -> nat {
        if room <= self.pending.len() {
            room
        } else {
            self.pending.len()
        }
    }

    /// The bytes that a read into `room` bytes takes: the oldest.
    pub open spec fn read_bytes(self, room: nat) -> Seq<u8> {
        self.pending.take(self.read_count(room) as int)
    }

    /// The device after a read into `room` bytes.
    pub open spec fn after_read(self, room: nat) -> Self {
        VirtualCrosspointView { pending: self.pending.skip(self.read_count(room) as int), ..self }
    }
}

/// Neither a command nor a read changes what a device holds: its channels,
/// its ties and its presets stay, and with them its well-formedness. Only
/// what is pending changes.
pub proof fn lemma_commands_keep_the_presets(device: VirtualCrosspointView, bytes: Seq<u8>, room: nat)
    ensures
        device.after_write(bytes) == (VirtualCrosspointView {
            pending: device.after_write(bytes).pending,
            ..device
        }),
        device.after_read(room) == (VirtualCrosspointView {
            pending: device.after_read(room).pending,
            ..device
        }),
        device.wf() ==> device.after_write(bytes).wf() && device.after_read(room).wf(),
{
}

/// What is pending in a device is held in memory: its length is one that a
/// `usize` holds.
pub proof fn lemma_pending_is_held(device: VirtualCrosspoint)
    ensures
        device@.pending.len() <= usize::MAX,
{
    vstd::std_specs::vec::axiom_spec_len(&device.buffer);
}

/// The emulator as it is when nothing was loaded: 12 inputs, 8 outputs,
/// audio, no presets, nothing pending.
pub open spec fn factory_state() -> VirtualCrosspointView {
    VirtualCrosspointView {
        pending: Seq::empty(),
        in_channels: 12,
        out_channels: 8,
        audio: true,
        current: PresetView { number: 0, name: "Current"@, ties: Seq::empty() },
        presets: Seq::new(PRESET_SLOTS as nat, |i: int| None::<PresetView>),
    }
}

/// The state of a device that is given these properties: 16 inputs and 16
/// outputs where none are given, no audio where nothing is said of it, no
/// presets and nothing pending. More than 16 channels of either kind are
/// refused, the inputs first.
pub open spec fn configured_state(
    in_channels: Option<usize>,
    out_channels: Option<usize>,
    audio: Option<bool>,
    current_ties: Seq<TieView>,
) -> Result<VirtualCrosspointView, Seq<char>> {
    let inputs = match in_channels {
        Some(n) => n,
        None => MAX_CHANNELS,
    };
    let outputs = match out_channels {
        Some(n) => n,
        None => MAX_CHANNELS,
    };
    if inputs > MAX_CHANNELS {
        Err("Invalid input port count"@)
    } else if outputs > MAX_CHANNELS {
        Err("Invalid output port count"@)
    } else {
        Ok(
            VirtualCrosspointView {
                pending: Seq::empty(),
                in_channels: inputs,
                out_channels: outputs,
                audio: match audio {
                    Some(a) => a,
                    None => false,
                },
                current: PresetView { number: 0, name: "Current"@, ties: current_ties },
                presets: Seq::new(PRESET_SLOTS as nat, |i: int| None::<PresetView>),
            },
        )
    }
}

/// The state of `device` once it was asked to keep a preset. A preset
/// without ties is not kept, whatever its number. One with ties is kept
/// under its number, in place of what was there, and is refused where the
/// number is not one from 1 to 32.
pub open spec fn kept_state(
    device: VirtualCrosspointView,
    number: usize,
    name: Seq<char>,
    ties: Seq<TieView>,
) -> Result<VirtualCrosspointView, Seq<char>> {
    if ties.len() == 0 {
        Ok(device)
    } else if 1 <= number <= PRESET_SLOTS {
        Ok(
            VirtualCrosspointView {
                presets: device.presets.update(
                    number - 1,
                    Some(PresetView { number: number as i32, name, ties }),
                ),
                ..device
            },
        )
    } else {
        Err("Invalid preset number"@)
    }
}

/// Whether `result` is `expected`: the same device, or an error that says
/// the same.
pub open spec fn is_outcome(
    result: Result<VirtualCrosspoint, ConfigurationError>,
    expected: Result<VirtualCrosspointView, Seq<char>>,
) -> bool {
    match expected {
        Ok(state) => result is Ok && result->Ok_0@ == state,
        Err(description) => result is Err && result->Err_0.description() == description,
    }
}

/// The view of one slot of the preset table.
pub open spec fn slot_view(slot: Option<CrossPointPreset>) -> Option<PresetView> {
    match slot {
        Some(p) => Some(p@),
        None => None,
    }
}

/// An emulated device.
#[derive(Clone, Debug, PartialEq, Eq)]
pub struct VirtualCrosspoint {
    buffer: Vec<u8>,
    in_channels: usize,
    out_channels: usize,
    audio: bool,
    current: CrossPointPreset,
    presets: [Option<CrossPointPreset>; 32],
}

impl View for VirtualCrosspoint {
    type V = VirtualCrosspointView;

    closed spec fn view(&self) -> VirtualCrosspointView {
        VirtualCrosspointView {
            pending: self.buffer@,
            in_channels: self.in_channels,
            out_channels: self.out_channels,
            audio: self.audio,
            current: self.current@,
            presets: Seq::new(PRESET_SLOTS as nat, |i: int| slot_view(self.presets@[i])),
        }
    }
}

impl VirtualCrosspoint {
    /// A device in its factory state.
    pub fn new() -> (device: VirtualCrosspoint)
        ensures
            device@ == factory_state(),
            device@.wf(),
    {
        let device = VirtualCrosspoint {
            buffer: Vec::new(),
            in_channels: 12,
            out_channels: 8,
            audio: true,
            current: CrossPointPreset {
                number: 0,
                name: "Current".to_owned(),
                ties: Vec::new(),
            },
            presets: [
                None, None, None, None, None, None, None, None,
                None, None, None, None, None, None, None, None,
                None, None, None, None, None, None, None, None,
                None, None, None, None, None, None, None, None,
            ],
        };
        assert(device@.presets == factory_state().presets);
        assert(device@.current.ties == Seq::<crate::crosspoint::TieView>::empty());
        device
    }

    /// A device with the properties given and no presets.
    pub fn configured(
        in_channels: Option<usize>,
        out_channels: Option<usize>,
        audio: Option<bool>,
        current_ties: Vec<CrossPointTie>,
    ) -> (result: Result<VirtualCrosspoint, ConfigurationError>)
        ensures
            is_outcome(
                result,
                configured_state(in_channels, out_channels, audio, ties_view(current_ties@)),
            ),
            result matches Ok(device) ==> device@.wf(),
    {
        let inputs = match in_channels {
            Some(n) => n,
            None => MAX_CHANNELS,
        };
        if inputs > MAX_CHANNELS {
            return Err(ConfigurationError::new("Invalid input port count"));
        }
        let outputs = match out_channels {
            Some(n) => n,
            None => MAX_CHANNELS,
        };
        if outputs > MAX_CHANNELS {
            return Err(ConfigurationError::new("Invalid output port count"));
        }
        let audio = match audio {
            Some(a) => a,
            None => false,
        };
        let device = VirtualCrosspoint {
            buffer: Vec::new(),
            in_channels: inputs,
            out_channels: outputs,
            audio,
            current: CrossPointPreset {
                number: 0,
                name: "Current".to_owned(),
                ties: current_ties,
            },
            presets: [
                None, None, None, None, None, None, None, None,
                None, None, None, None, None, None, None, None,
                None, None, None, None, None, None, None, None,
                None, None, None, None, None, None, None, None,
            ],
        };
        assert(device@.presets == Seq::new(PRESET_SLOTS as nat, |i: int| None::<PresetView>));
        Ok(device)
    }

    /// Keeps a preset under `number`, if it has ties.
    pub fn keep_preset(&mut self, number: usize, name: &str, ties: Vec<CrossPointTie>) -> (result:
        Result<(), ConfigurationError>)
        ensures
            match kept_state(old(self)@, number, name@, ties_view(ties@)) {
                Ok(state) => result is Ok && final(self)@ == state,
                Err(description) => result is Err && result->Err_0.description() == description
                    && final(self)@ == old(self)@,
            },
            old(self)@.wf() ==> final(self)@.wf(),
    {
        if ties.len() == 0 {
            return Ok(());
        }
        if number < 1 || number > PRESET_SLOTS {
            return Err(ConfigurationError::new("Invalid preset number"));
        }
        let ghost kept = PresetView { number: number as i32, name: name@, ties: ties_view(ties@) };
        self.presets[number - 1] = Some(
            CrossPointPreset { number: number as i32, name: name.to_owned(), ties },
        );
        assert(self@.presets == old(self)@.presets.update(number - 1, Some(kept)));
        Ok(())
    }

    /// How many bytes the device has produced that nobody has read yet.
    pub fn bytes_to_read(&self) -> (count: usize)
        ensures
            count == self@.pending.len(),
    {
        self.buffer.len()
    }

    /// Appends `bytes` to what is pending.
    fn produce(&mut self, bytes: &[u8])
        ensures
            final(self)@ == old(self)@.producing(bytes@),
    {
        let mut i: usize = 0;
        while i < bytes.len()
            invariant
                i <= bytes.len(),
                self.buffer@ == old(self).buffer@ + bytes@.take(i as int),
                self.in_channels == old(self).in_channels,
                self.out_channels == old(self).out_channels,
                self.audio == old(self).audio,
                self.current == old(self).current,
                self.presets == old(self).presets,
            decreases bytes.len() - i,
        {
            self.buffer.push(bytes[i]);
            assert(bytes@.take(i + 1) == bytes@.take(i as int).push(bytes@[i as int]));
            i += 1;
        }
        assert(bytes@.take(i as int) == bytes@);
    }

    /// Takes one command and produces its answer, if it has one.
    pub fn evaluate_command(&mut self, buf: &[u8])
        ensures
            final(self)@ == old(self)@.after_write(buf@),
    {
        if buf.len() > 0 && buf[0] == 0x49 {
            self.info();
        } else if buf.len() > 0 && buf[0] == ESC {
            let rest = vstd::slice::slice_subrange(buf, 1, buf.len());
            assert(rest@ == buf@.skip(1));
            self.escape_commands(rest);
        } else {
            assert(self@.pending + Seq::<u8>::empty() == self@.pending);
        }
    }

    /// Produces the identify response.
    pub fn info(&mut self)
        ensures
            final(self)@ == old(self)@.producing(old(self)@.info_reply()),
    {
        let audio_in: usize = if self.audio { self.in_channels } else { 0 };
        let audio_out: usize = if self.audio { self.out_channels } else { 0 };
        let mut response: Vec<u8> = Vec::new();
        response.push(0x56);
        push_two_digits(&mut response, self.in_channels as u64);
        response.push(0x58);
        push_two_digits(&mut response, self.out_channels as u64);
        response.push(0x20);
        response.push(0x41);
        push_two_digits(&mut response, audio_in as u64);
        response.push(0x58);
        push_two_digits(&mut response, audio_out as u64);
        response.push(0x0D);
        response.push(0x0A);
        assert(response@ == self@.info_reply());
        self.produce(response.as_slice());
    }

    /// Takes what follows ESC in a command and produces its answer, if it
    /// has one.
    pub fn escape_commands(&mut self, buf: &[u8])
        ensures
            final(self)@ == old(self)@.producing(old(self)@.escape_reply(buf@)),
    {
        let mut number: usize = 0;
        let mut used: usize = 0;
        if buf.len() > 0 && 0x30 <= buf[0] && buf[0] <= 0x39 {
            number = (buf[0] - 0x30) as usize;
            used = 1;
            if buf.len() > 1 && 0x30 <= buf[1] && buf[1] <= 0x39 {
                number = number * 10 + (buf[1] - 0x30) as usize;
                used = 2;
            }
        }
        assert(used == leading_digits(buf@));
        assert(number == leading_number(buf@));
        if number > 0 && number <= PRESET_SLOTS && buf.len() >= used + 2 && buf[used] == 0x4E
            && buf[used + 1] == 0x47 {
            self.preset_name(number);
        } else {
            assert(self@.pending + Seq::<u8>::empty() == self@.pending);
        }
    }

    /// Produces the name of a preset, or `[unassigned]` for an empty one.
    /// Produces nothing for a number that is not one of a preset.
    pub fn preset_name(&mut self, preset_number: usize)
        ensures
            final(self)@ == old(self)@.producing(old(self)@.name_reply(preset_number as int)),
    {
        if preset_number < 1 || preset_number > PRESET_SLOTS {
            assert(self@.pending + Seq::<u8>::empty() == self@.pending);
            return ;
        }
        let mut name: Vec<u8> = Vec::new();
        match &self.presets[preset_number - 1] {
            Some(preset) => {
                let bytes = preset.name.as_str().as_bytes();
                name = vstd::slice::slice_to_vec(bytes);
            },
            None => {
                name = vstd::slice::slice_to_vec("[unassigned]".as_bytes());
            },
        }
        assert(name@ == self@.name_reply(preset_number as int));
        self.produce(name.as_slice());
    }
}

impl DeviceTransport for VirtualCrosspoint {
    /// A write is one command: its answer is produced, and all of it counts
    /// as taken. It never fails.
    open spec fn write_outcome(
        before: Self,
        bytes: Seq<u8>,
        after: Self,
        result: Result<usize, IoError>,
    ) -> bool {
        after@ == before@.after_write(bytes) && result == Ok::<usize, IoError>(bytes.len() as usize)
    }

    /// A flush changes nothing and never fails.
    open spec fn flush_outcome(before: Self, after: Self, result: Result<(), IoError>) -> bool {
        after@ == before@ && result == Ok::<(), IoError>(())
    }

    /// A read takes the oldest pending bytes, as many as there is room for.
    /// It never fails and never waits: with nothing pending it takes nothing.
    open spec fn read_outcome(
        before: Self,
        room: nat,
        after: Self,
        result: Result<Seq<u8>, IoError>,
    ) -> bool {
        after@ == before@.after_read(room) && result == Ok::<Seq<u8>, IoError>(
            before@.read_bytes(room),
        )
    }

    fn write(&mut self, bytes: &[u8]) -> (result: Result<usize, IoError>)
        ensures
            final(self)@ == old(self)@.after_write(bytes@),
            result == Ok::<usize, IoError>(bytes@.len() as usize),
    {
        self.evaluate_command(bytes);
        Ok(bytes.len())
    }

    fn flush(&mut self) -> (result: Result<(), IoError>)
        ensures
            final(self)@ == old(self)@,
            result == Ok::<(), IoError>(()),
    {
        Ok(())
    }

    fn read(&mut self, buffer: &mut [u8]) -> (result: Result<usize, IoError>)
        ensures
            final(self)@ == old(self)@.after_read(old(buffer)@.len()),
            result == Ok::<usize, IoError>(old(self)@.read_count(old(buffer)@.len()) as usize),
            old(self)@.pending.len() == 0 ==> result == Ok::<usize, IoError>(0) && final(self)@
                == old(self)@,
            final(buffer)@ == old(self)@.read_bytes(old(buffer)@.len()) + old(buffer)@.skip(
                old(self)@.read_count(old(buffer)@.len()) as int,
            ),
    {
        let count: usize = if buffer.len() <= self.buffer.len() {
            buffer.len()
        } else {
            self.buffer.len()
        };
        let mut i: usize = 0;
        while i < count
            invariant
                i <= count,
                count <= buffer@.len(),
                count <= self.buffer@.len(),
                *self == *old(self),
                buffer@.len() == old(buffer)@.len(),
                buffer@ == self.buffer@.take(i as int) + old(buffer)@.skip(i as int),
            decreases count - i,
        {
            buffer[i] = self.buffer[i];
            i += 1;
        }
        let rest = self.buffer.split_off(count);
        self.buffer = rest;
        assert(buffer@.take(count as int) == old(self)@.read_bytes(old(buffer)@.len()));
        assert(old(self)@.pending.len() == 0 ==> self@.pending == old(self)@.pending);
        Ok(count)
    }
}

} // verus!
