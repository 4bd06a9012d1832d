//! Presets and ties, and the client that manages them on a device.

use vstd::prelude::*;
use vstd::utf8::{decode_utf8, valid_utf8};
use crate::codec::{
    clear_preset_frame, decode_handshake, define_preset_frame, encode_clear_preset,
    encode_create_preset, encode_get_preset_name, encode_info, encode_load_preset,
    encode_save_current, get_preset_name_frame, handshake_capabilities, info_frame,
    load_preset_frame, save_current_frame, valid_preset_number, CR, LF,
};
use crate::text::{str_eq, string_from_utf8};
use crate::transport::{exchange, exchange_outcome, DeviceTransport, ExchangeError, IoError};

verus! {

/// The kind of signal that a tie routes.
#[derive(Clone, Copy, Debug, PartialEq, Eq, Structural)]
pub enum CrossPointIO {
    All,
    RGB,
    Vid,
    Aud,
}

/// One input routed to one or more outputs.
#[derive(Clone, Debug, PartialEq, Eq)]
pub struct CrossPointTie {
    pub input_channel: u8,
    pub output_channels: Vec<u8>,
    pub io_type: CrossPointIO,
}

/// A numbered, named set of ties.
#[derive(Clone, Debug, PartialEq, Eq)]
pub struct CrossPointPreset {
    pub number: i32,
    pub name: String,
    pub ties: Vec<CrossPointTie>,
}

/// What a device said of itself when it was asked to identify.
#[derive(Clone, Copy, Debug, PartialEq, Eq, Structural)]
pub struct DeviceCapabilities {
    pub input_count: i32,
    pub output_count: i32,
    pub audio_supported: bool,
}

/// Why an operation on the device failed.
#[derive(Clone, Debug, PartialEq, Eq)]
pub enum CrossPointError {
    /// The preset number is outside 1 to 32. The device was not contacted.
    Validation,
    /// The handshake failed: on the channel, with its error, or because the
    /// identify response could not be decoded.
    Connection(Option<IoError>),
    /// The channel failed during an operation.
    Io(IoError),
    /// The response was not valid UTF-8, or had no end.
    Protocol,
}

impl CrossPointError {
    /// What went wrong, in words: for a failure of the channel, the words of
    /// the transport.
    pub open spec fn message(&self) -> Seq<char> {
        match self {
            CrossPointError::Validation => "Invalid preset number"@,
            CrossPointError::Connection(Some(e)) => e.message@,
            CrossPointError::Connection(None) => "Identify response could not be decoded"@,
            CrossPointError::Io(e) => e.message@,
            CrossPointError::Protocol => "Response is not valid text"@,
        }
    }

    /// What went wrong, in words.
    pub fn to_string(&self) -> (text: String)
        ensures
            text@ == self.message(),
    {
        match self {
            CrossPointError::Validation => "Invalid preset number".to_owned(),
            CrossPointError::Connection(Some(e)) => e.message.clone(),
            CrossPointError::Connection(None) => "Identify response could not be decoded".to_owned(),
            CrossPointError::Io(e) => e.message.clone(),
            CrossPointError::Protocol => "Response is not valid text".to_owned(),
        }
    }
}

/// A tie as a mathematical value.
pub struct TieView {
    pub input_channel: u8,
    pub output_channels: Seq<u8>,
    pub io_type: CrossPointIO,
}

/// A preset as a mathematical value.
pub struct PresetView {
    pub number: i32,
    pub name: Seq<char>,
    pub ties: Seq<TieView>,
}

/// The ties that a vector of ties holds, as mathematical values.
pub open spec fn ties_view(ties: Seq<CrossPointTie>) -> Seq<TieView> {
    ties.map_values(|tie: CrossPointTie| tie@)
}

impl View for CrossPointTie {
    type V = TieView;

    open spec fn view(&self) -> TieView {
        TieView {
            input_channel: self.input_channel,
            output_channels: self.output_channels@,
            io_type: self.io_type,
        }
    }
}

impl View for CrossPointPreset {
    type V = PresetView;

    open spec fn view(&self) -> PresetView {
        PresetView {
            number: self.number,
            name: self.name@,
            ties: ties_view(self.ties@),
        }
    }
}

impl CrossPointIO {
    /// The character that stands for this kind of signal in a command.
    pub open spec fn spec_to_char(&self) -> char {
        match self {
            CrossPointIO::All => '!',
            CrossPointIO::RGB => '&',
            CrossPointIO::Vid => '%',
            CrossPointIO::Aud => '$',
        }
    }

    /// The kind of signal that `name` stands for; `All` for any other text.
    pub open spec fn spec_from_str(name: Seq<char>) -> CrossPointIO {
        if name == "RGB"@ {
            CrossPointIO::RGB
        } else if name == "Vid"@ {
            CrossPointIO::Vid
        } else if name == "Aud"@ {
            CrossPointIO::Aud
        } else {
            CrossPointIO::All
        }
    }

    #[verifier::when_used_as_spec(spec_to_char)]
    pub fn to_char(&self) -> (c: char)
        ensures
            c == self.spec_to_char(),
    {
        match self {
            CrossPointIO::All => '!',
            CrossPointIO::RGB => '&',
            CrossPointIO::Vid => '%',
            CrossPointIO::Aud => '$',
        }
    }

    /// Reads the name of a kind of signal. Never fails: a name that is none
    /// of `All`, `RGB`, `Vid` and `Aud` reads as `All`.
    pub fn from_str(s: &str) -> (kind: Result<CrossPointIO, ()>)
        ensures
            kind == Ok::<CrossPointIO, ()>(Self::spec_from_str(s@)),
    {
        if str_eq(s, "RGB") {
            Ok(CrossPointIO::RGB)
        } else if str_eq(s, "Vid") {
            Ok(CrossPointIO::Vid)
        } else if str_eq(s, "Aud") {
            Ok(CrossPointIO::Aud)
        } else {
            Ok(CrossPointIO::All)
        }
    }
}

/// What a command returns for what the exchange gave: the response decoded
/// as UTF-8, `Protocol` where it is not valid UTF-8 or had no end, and the
/// error of the channel unchanged.
pub open spec fn response_text(raw: Result<Seq<u8>, ExchangeError>) -> Result<
    Seq<char>,
    CrossPointError,
> {
    match raw {
        Ok(bytes) => if valid_utf8(bytes) {
            Ok(decode_utf8(bytes))
        } else {
            Err(CrossPointError::Protocol)
        },
        Err(ExchangeError::Io(e)) => Err(CrossPointError::Io(e)),
        Err(ExchangeError::Endless) => Err(CrossPointError::Protocol),
    }
}

/// What the handshake returns for what the exchange gave: the capabilities
/// that the response states, and `Connection` for every failure, with the
/// error of the channel where there is one.
pub open spec fn identified(raw: Result<Seq<u8>, ExchangeError>) -> Result<
    DeviceCapabilities,
    CrossPointError,
> {
    match raw {
        Ok(bytes) => if valid_utf8(bytes) {
            Ok(handshake_capabilities(decode_utf8(bytes)))
        } else {
            Err(CrossPointError::Connection(None))
        },
        Err(ExchangeError::Io(e)) => Err(CrossPointError::Connection(Some(e))),
        Err(ExchangeError::Endless) => Err(CrossPointError::Connection(None)),
    }
}

/// Whether sending the command `frame` on `before` may leave `after` and
/// return `result`: one exchange that ends at the first carriage return, and
/// its response as text.
pub open spec fn command_outcome<T: DeviceTransport>(
    before: T,
    frame: Seq<u8>,
    after: T,
    result: Result<Seq<char>, CrossPointError>,
) -> bool {
    exists|raw: Result<Seq<u8>, ExchangeError>| #[trigger]
        exchange_outcome(before, frame, CR, after, raw) && result == response_text(raw)
}

/// Whether the handshake on `before` may leave `after` and return `result`:
/// one exchange of the identify frame that ends at the first line feed, and
/// the capabilities that its response states.
pub open spec fn handshake_outcome<T: DeviceTransport>(
    before: T,
    after: T,
    result: Result<DeviceCapabilities, CrossPointError>,
) -> bool {
    exists|raw: Result<Seq<u8>, ExchangeError>| #[trigger]
        exchange_outcome(before, info_frame(), LF, after, raw) && result == identified(raw)
}

/// Whether creating preset `number` with `ties` on `before` may leave `after`
/// and return `result`: the preset is emptied, then defined. The two commands
/// are not undone together: where the first fails the second is not sent, and
/// where the second fails the preset stays empty.
pub open spec fn create_outcome<T: DeviceTransport>(
    before: T,
    number: int,
    ties: Seq<TieView>,
    after: T,
    result: Result<Seq<char>, CrossPointError>,
) -> bool {
    exists|emptied: T, first: Result<Seq<char>, CrossPointError>|
        {
            &&& #[trigger] command_outcome(before, clear_preset_frame(number), emptied, first)
            &&& match first {
                Err(e) => after == emptied && result == Err::<Seq<char>, CrossPointError>(e),
                Ok(_) => command_outcome(
                    emptied,
                    define_preset_frame(number, ties),
                    after,
                    result,
                ),
            }
        }
}

/// Whether the command for preset `n`, with the frame `frame`, may take the
/// session `before` to `after` and return `result`. A number that is none of
/// a preset is refused with `Validation` and the session, its transport
/// included, stays as it was: the device is not contacted. Otherwise the
/// command is sent, and what was learnt at the handshake stays.
pub open spec fn preset_command_outcome<T: DeviceTransport>(
    before: CrossPoint<T>,
    n: int,
    frame: Seq<u8>,
    after: CrossPoint<T>,
    result: Result<Seq<char>, CrossPointError>,
) -> bool {
    if valid_preset_number(n) {
        after.continues(&before) && command_outcome(
            before.transport(),
            frame,
            after.transport(),
            result,
        )
    } else {
        after == before && result == Err::<Seq<char>, CrossPointError>(CrossPointError::Validation)
    }
}

/// Whether creating preset `n` with `ties` may take the session `before` to
/// `after` and return `result`. A number that is none of a preset is refused
/// with `Validation` before the device is contacted.
pub open spec fn create_preset_outcome<T: DeviceTransport>(
    before: CrossPoint<T>,
    n: int,
    ties: Seq<TieView>,
    after: CrossPoint<T>,
    result: Result<Seq<char>, CrossPointError>,
) -> bool {
    if valid_preset_number(n) {
        after.continues(&before) && create_outcome(
            before.transport(),
            n,
            ties,
            after.transport(),
            result,
        )
    } else {
        after == before && result == Err::<Seq<char>, CrossPointError>(CrossPointError::Validation)
    }
}

/// The text that a command returned, as a sequence of characters.
pub open spec fn text_of(result: Result<String, CrossPointError>) -> Result<
    Seq<char>,
    CrossPointError,
> {
    match result {
        Ok(text) => Ok(text@),
        Err(e) => Err(e),
    }
}

/// A connection to one device. It owns its transport: every command is one
/// request and its response, and no two are ever in flight together.
pub struct CrossPoint<T: DeviceTransport> {
    port: T,
    serial_port: String,
    input_count: i32,
    output_count: i32,
    audio_support: bool,
}

impl<T: DeviceTransport> CrossPoint<T> {
    /// The transport as it stands.
    pub closed spec fn transport(&self) -> T {
        self.port
    }

    /// What the device said of itself at the handshake.
    pub closed spec fn capabilities(&self) -> DeviceCapabilities {
        DeviceCapabilities {
            input_count: self.input_count,
            output_count: self.output_count,
            audio_supported: self.audio_support,
        }
    }

    /// The name of the port that the connection was opened on.
    pub closed spec fn port_name_spec(&self) -> Seq<char> {
        self.serial_port@
    }

    /// Whether `self` is the session `before` at a later time: what was
    /// learnt at the handshake never changes.
    pub open spec fn continues(&self, before: &Self) -> bool {
        self.capabilities() == before.capabilities() && self.port_name_spec()
            == before.port_name_spec()
    }

    /// Opens a session on `transport`: sends the identify frame and decodes
    /// the line that comes back. Every failure is a `Connection` error.
    pub fn connect(port_name: &str, transport: T) -> (result: Result<Self, CrossPointError>)
        ensures
            match result {
                Ok(client) => handshake_outcome(
                    transport,
                    client.transport(),
                    Ok(client.capabilities()),
                ) && client.port_name_spec() == port_name@,
                Err(e) => exists|after: T| #[trigger]
                    handshake_outcome(transport, after, Err::<DeviceCapabilities, CrossPointError>(e)),
            },
    {
        let mut port = transport;
        let frame = encode_info();
        let raw = exchange(&mut port, frame.as_slice(), LF);
        assert(exchange_outcome(transport, info_frame(), LF, port, crate::transport::bytes_read(raw)));
        let bytes = match raw {
            Ok(bytes) => bytes,
            Err(ExchangeError::Io(e)) => {
                let error = CrossPointError::Connection(Some(e));
                assert(handshake_outcome(transport, port, Err::<DeviceCapabilities, CrossPointError>(error)));
                return Err(error);
            },
            Err(ExchangeError::Endless) => {
                let error = CrossPointError::Connection(None);
                assert(handshake_outcome(transport, port, Err::<DeviceCapabilities, CrossPointError>(error)));
                return Err(error);
            },
        };
        let line = match string_from_utf8(bytes) {
            Some(line) => line,
            None => {
                let error = CrossPointError::Connection(None);
                assert(handshake_outcome(transport, port, Err::<DeviceCapabilities, CrossPointError>(error)));
                return Err(error);
            },
        };
        let caps = decode_handshake(line.as_str());
        let serial_port = port_name.to_owned();
        Ok(
            CrossPoint {
                port,
                serial_port,
                input_count: caps.input_count,
                output_count: caps.output_count,
                audio_support: caps.audio_supported,
            },
        )
    }

    /// Ends the session and hands the transport back.
    pub fn into_transport(self) -> (port: T)
        ensures
            port == self.transport(),
    {
        self.port
    }

    /// The number of inputs that the device reported.
    pub fn input_port_count(&self) -> (count: i32)
        ensures
            count == self.capabilities().input_count,
    {
        self.input_count
    }

    /// The number of outputs that the device reported.
    pub fn output_port_count(&self) -> (count: i32)
        ensures
            count == self.capabilities().output_count,
    {
        self.output_count
    }

    /// Whether the device reported that it switches audio.
    pub fn audio_is_supported(&self) -> (supported: bool)
        ensures
            supported == self.capabilities().audio_supported,
    {
        self.audio_support
    }

    /// The name of the port that the connection was opened on.
    pub fn port_name(&self) -> (name: &str)
        ensures
            name@ == self.port_name_spec(),
    {
        self.serial_port.as_str()
    }

    /// Sends one command and returns its response as text.
    fn send_command(&mut self, frame: &[u8]) -> (result: Result<String, CrossPointError>)
        ensures
            final(self).continues(old(self)),
            command_outcome(
                old(self).transport(),
                frame@,
                final(self).transport(),
                text_of(result),
            ),
    {
        let raw = exchange(&mut self.port, frame, CR);
        assert(exchange_outcome(
            old(self).port,
            frame@,
            CR,
            self.port,
            crate::transport::bytes_read(raw),
        ));
        match raw {
            Ok(bytes) => match string_from_utf8(bytes) {
                Some(text) => Ok(text),
                None => Err(CrossPointError::Protocol),
            },
            Err(ExchangeError::Io(e)) => Err(CrossPointError::Io(e)),
            Err(ExchangeError::Endless) => Err(CrossPointError::Protocol),
        }
    }

    /// Asks for the name of a preset.
    pub fn get_preset_name(&mut self, preset_number: i32) -> (result: Result<
        String,
        CrossPointError,
    >)
        ensures
            preset_command_outcome(
                *old(self),
                preset_number as int,
                get_preset_name_frame(preset_number as int),
                *final(self),
                text_of(result),
            ),
    {
        let frame = match encode_get_preset_name(preset_number) {
            Ok(frame) => frame,
            Err(e) => { return Err(e); },
        };
        self.send_command(frame.as_slice())
    }

    /// Saves the current ties as a preset.
    pub fn save_current_config(&mut self, preset_number: i32) -> (result: Result<
        String,
        CrossPointError,
    >)
        ensures
            preset_command_outcome(
                *old(self),
                preset_number as int,
                save_current_frame(preset_number as int),
                *final(self),
                text_of(result),
            ),
    {
        let frame = match encode_save_current(preset_number) {
            Ok(frame) => frame,
            Err(e) => { return Err(e); },
        };
        self.send_command(frame.as_slice())
    }

    /// Recalls a preset.
    pub fn load_preset(&mut self, preset_number: i32) -> (result: Result<String, CrossPointError>)
        ensures
            preset_command_outcome(
                *old(self),
                preset_number as int,
                load_preset_frame(preset_number as int),
                *final(self),
                text_of(result),
            ),
    {
        let frame = match encode_load_preset(preset_number) {
            Ok(frame) => frame,
            Err(e) => { return Err(e); },
        };
        self.send_command(frame.as_slice())
    }

    /// Empties a preset.
    pub fn clear_preset(&mut self, preset_number: i32) -> (result: Result<String, CrossPointError>)
        ensures
            preset_command_outcome(
                *old(self),
                preset_number as int,
                clear_preset_frame(preset_number as int),
                *final(self),
                text_of(result),
            ),
    {
        let frame = match encode_clear_preset(preset_number) {
            Ok(frame) => frame,
            Err(e) => { return Err(e); },
        };
        self.send_command(frame.as_slice())
    }

    /// Creates a preset: empties it, then defines it with the ties given.
    pub fn create_preset(&mut self, new_preset: CrossPointPreset) -> (result: Result<
        String,
        CrossPointError,
    >)
        ensures
            create_preset_outcome(
                *old(self),
                new_preset.number as int,
                new_preset@.ties,
                *final(self),
                text_of(result),
            ),
    {
        let (clear, define) = match encode_create_preset(&new_preset) {
            Ok(frames) => frames,
            Err(e) => { return Err(e); },
        };
        let first = self.send_command(clear.as_slice());
        let ghost emptied = self.port;
        assert(command_outcome(
            old(self).port,
            clear_preset_frame(new_preset.number as int),
            emptied,
            text_of(first),
        ));
        match first {
            Err(e) => Err(e),
            Ok(_) => self.send_command(define.as_slice()),
        }
    }
}

} // verus!
