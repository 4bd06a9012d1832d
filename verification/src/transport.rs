//! The byte-duplex channel to a device, and how a response is read from it.

use vstd::prelude::*;
use vstd::slice::slice_subrange;

verus! {

/// A failure of the channel itself, as the transport reported it.
#[derive(Clone, Debug, PartialEq, Eq)]
pub struct IoError {
    pub message: String,
}

/// Why no response was obtained.
#[derive(Clone, Debug, PartialEq, Eq)]
pub enum ExchangeError {
    /// The channel failed.
    Io(IoError),
    /// The device went on sending and no response ended within `READ_LIMIT`
    /// reads: more than a machine can hold of a response.
    Endless,
}

/// The most that is asked of the transport in one read.
pub const CHUNK_SIZE: usize = 8;

/// The number of reads within which a response has to end: as many as can
/// be counted. A read that does not end the response adds a byte to it at
/// least, so a response that takes more reads is longer than memory is.
pub const READ_LIMIT: usize = usize::MAX;

/// A byte-duplex channel to a device. What a call may do is stated by three
/// relations. As they stand here they admit every outcome, which is all that
/// can be said of a serial line; a transport whose behaviour is known, such
/// as the emulator, states its own.
pub trait DeviceTransport: Sized {
    /// Whether writing `bytes` to `before` may leave `after` and return
    /// `result`.
    open spec fn write_outcome(
        before: Self,
        bytes: Seq<u8>,
        after: Self,
        result: Result<usize, IoError>,
    ) -> bool {
        true
    }

    /// Whether flushing `before` may leave `after` and return `result`.
    open spec fn flush_outcome(before: Self, after: Self, result: Result<(), IoError>) -> bool {
        true
    }

    /// Whether reading from `before` into a buffer of `room` bytes may leave
    /// `after` and return `result`: the bytes that were read, or an error.
    open spec fn read_outcome(
        before: Self,
        room: nat,
        after: Self,
        result: Result<Seq<u8>, IoError>,
    ) -> bool {
        true
    }

    /// Sends `bytes` and returns how many of them were taken.
    fn write(&mut self, bytes: &[u8]) -> (result: Result<usize, IoError>)
        ensures
            Self::write_outcome(*old(self), bytes@, *final(self), result),
    ;

    /// Pushes out what was written and not yet sent.
    fn flush(&mut self) -> (result: Result<(), IoError>)
        ensures
            Self::flush_outcome(*old(self), *final(self), result),
    ;

    /// Reads what is available into the start of `buffer` and returns how
    /// many bytes that was. Zero means that nothing is available now; it is
    /// no error.
    fn read(&mut self, buffer: &mut [u8]) -> (result: Result<usize, IoError>)
        ensures
            final(buffer)@.len() == old(buffer)@.len(),
            match result {
                Ok(count) => count <= old(buffer)@.len() && Self::read_outcome(
                    *old(self),
                    old(buffer)@.len(),
                    *final(self),
                    Ok(final(buffer)@.take(count as int)),
                ),
                Err(e) => Self::read_outcome(*old(self), old(buffer)@.len(), *final(self), Err(e)),
            },
    ;
}

/// The position of the first `mark` in `bytes`, or the length of `bytes` if
/// it holds none.
pub open spec fn position_of(bytes: Seq<u8>, mark: u8) -> int
    decreases bytes.len(),
{
    if bytes.len() == 0 || bytes[0] == mark {
        0
    } else {
        1 + position_of(bytes.skip(1), mark)
    }
}

/// `response` with what one read adds to it: the bytes of `chunk` before the
/// first `mark`. What follows the mark in the chunk is dropped.
pub open spec fn absorbed(response: Seq<u8>, chunk: Seq<u8>, mark: u8) -> Seq<u8> {
    response + chunk.take(position_of(chunk, mark))
}

/// Whether `chunk` ends a response: it is empty, or it holds a `mark`.
pub open spec fn completes(chunk: Seq<u8>, mark: u8) -> bool {
    chunk.len() == 0 || position_of(chunk, mark) < chunk.len()
}

/// `position_of` lies within the sequence, and it is the one place that has
/// no `mark` before it and either a `mark` at it or nothing.
pub proof fn lemma_position_of(bytes: Seq<u8>, mark: u8, k: int)
    ensures
        0 <= position_of(bytes, mark) <= bytes.len(),
        (0 <= k <= bytes.len() && (forall|j: int| 0 <= j < k ==> bytes[j] != mark) && (k
            < bytes.len() ==> bytes[k] == mark)) ==> position_of(bytes, mark) == k,
    decreases bytes.len(),
{
    if bytes.len() == 0 || bytes[0] == mark {
    } else {
        lemma_position_of(bytes.skip(1), mark, k - 1);
        if 0 <= k <= bytes.len() && (forall|j: int| 0 <= j < k ==> bytes[j] != mark) && (k
            < bytes.len() ==> bytes[k] == mark) {
            assert(k >= 1);
            assert forall|j: int| 0 <= j < k - 1 implies bytes.skip(1)[j] != mark by {
                assert(bytes.skip(1)[j] == bytes[j + 1]);
            }
        }
    }
}

/// Before the first `mark` there is none, and at its position there is one
/// unless the position is the end.
pub proof fn lemma_position_of_is_first(bytes: Seq<u8>, mark: u8)
    ensures
        0 <= position_of(bytes, mark) <= bytes.len(),
        forall|j: int| 0 <= j < position_of(bytes, mark) ==> bytes[j] != mark,
        position_of(bytes, mark) < bytes.len() ==> bytes[position_of(bytes, mark)] == mark,
    decreases bytes.len(),
{
    if bytes.len() == 0 || bytes[0] == mark {
    } else {
        lemma_position_of_is_first(bytes.skip(1), mark);
        assert forall|j: int| 0 <= j < position_of(bytes, mark) implies bytes[j] != mark by {
            if j > 0 {
                assert(bytes.skip(1)[j - 1] == bytes[j]);
            }
        }
    }
}

/// Where the first `mark` lies in the first `count` bytes of `bytes`, and in
/// what follows them.
pub proof fn lemma_position_of_parts(bytes: Seq<u8>, mark: u8, count: int)
    requires
        0 <= count <= bytes.len(),
    ensures
        position_of(bytes, mark) < count ==> position_of(bytes.take(count), mark) == position_of(
            bytes,
            mark,
        ),
        position_of(bytes, mark) >= count ==> position_of(bytes.take(count), mark) == count
            && position_of(bytes.skip(count), mark) == position_of(bytes, mark) - count,
{
    let k = position_of(bytes, mark);
    lemma_position_of_is_first(bytes, mark);
    let first = if k < count { k } else { count };
    assert forall|j: int| 0 <= j < first implies bytes.take(count)[j] != mark by {
        assert(bytes.take(count)[j] == bytes[j]);
    }
    lemma_position_of(bytes.take(count), mark, first);
    if k >= count {
        assert forall|j: int| 0 <= j < k - count implies bytes.skip(count)[j] != mark by {
            assert(bytes.skip(count)[j] == bytes[j + count]);
        }
        lemma_position_of(bytes.skip(count), mark, k - count);
    }
}

/// Adds one chunk to `response`: its bytes before the first `mark`. Tells
/// whether the response is complete: the chunk was empty, or held a `mark`.
pub fn absorb(response: &mut Vec<u8>, chunk: &[u8], mark: u8) -> (complete: bool)
    ensures
        final(response)@ == absorbed(old(response)@, chunk@, mark),
        complete == completes(chunk@, mark),
{
    let n = chunk.len();
    let mut i: usize = 0;
    while i < n && chunk[i] != mark
        invariant
            i <= n == chunk@.len(),
            forall|j: int| 0 <= j < i ==> chunk@[j] != mark,
            response@ == old(response)@ + chunk@.take(i as int),
        decreases n - i,
    {
        response.push(chunk[i]);
        assert(chunk@.take(i + 1) == chunk@.take(i as int).push(chunk@[i as int]));
        i += 1;
    }
    proof {
        lemma_position_of(chunk@, mark, i as int);
    }
    n == 0 || i < n
}

/// Whether reading a response from `before`, with `response` gathered so far
/// and `reads` reads still allowed, may leave `after` and give `result`. Each
/// read asks for `CHUNK_SIZE` bytes. A read that fails ends it with that
/// error; a chunk that completes the response ends it with the response;
/// running out of reads ends it as `Endless`.
pub open spec fn collect_outcome<T: DeviceTransport>(
    before: T,
    response: Seq<u8>,
    mark: u8,
    reads: nat,
    after: T,
    result: Result<Seq<u8>, ExchangeError>,
) -> bool
    decreases reads, 1int,
{
    if reads == 0 {
        after == before && result == Err::<Seq<u8>, ExchangeError>(ExchangeError::Endless)
    } else {
        exists|next: T, chunk: Result<Seq<u8>, IoError>| #[trigger]
            T::read_outcome(before, CHUNK_SIZE as nat, next, chunk) && chunk_outcome(
                next,
                chunk,
                response,
                mark,
                reads,
                after,
                result,
            )
    }
}

/// Whether reading a response, once a read has left `next` and returned
/// `chunk`, may go on to leave `after` and give `result`. The read was one of
/// the `reads` that were allowed.
pub open spec fn chunk_outcome<T: DeviceTransport>(
    next: T,
    chunk: Result<Seq<u8>, IoError>,
    response: Seq<u8>,
    mark: u8,
    reads: nat,
    after: T,
    result: Result<Seq<u8>, ExchangeError>,
) -> bool
    decreases reads, 0int,
{
    match chunk {
        Err(e) => after == next && result == Err::<Seq<u8>, ExchangeError>(ExchangeError::Io(e)),
        Ok(bytes) => if completes(bytes, mark) {
            after == next && result == Ok::<Seq<u8>, ExchangeError>(
                absorbed(response, bytes, mark),
            )
        } else if reads == 0 {
            false
        } else {
            collect_outcome(
                next,
                absorbed(response, bytes, mark),
                mark,
                (reads - 1) as nat,
                after,
                result,
            )
        },
    }
}

/// Whether an exchange in which the flush left `flushed` and returned `done`
/// may go on to leave `after` and give `result`.
pub open spec fn flushed_outcome<T: DeviceTransport>(
    flushed: T,
    done: Result<(), IoError>,
    mark: u8,
    after: T,
    result: Result<Seq<u8>, ExchangeError>,
) -> bool {
    match done {
        Err(e) => after == flushed && result == Err::<Seq<u8>, ExchangeError>(ExchangeError::Io(e)),
        Ok(_) => collect_outcome(flushed, Seq::empty(), mark, READ_LIMIT as nat, after, result),
    }
}

/// Whether an exchange in which the write left `written` and returned `taken`
/// may go on to leave `after` and give `result`. How many bytes were taken
/// makes no difference: the frame is written once.
pub open spec fn written_outcome<T: DeviceTransport>(
    written: T,
    taken: Result<usize, IoError>,
    mark: u8,
    after: T,
    result: Result<Seq<u8>, ExchangeError>,
) -> bool {
    match taken {
        Err(e) => after == written && result == Err::<Seq<u8>, ExchangeError>(ExchangeError::Io(e)),
        Ok(_) => exists|flushed: T, done: Result<(), IoError>| #[trigger]
            T::flush_outcome(written, flushed, done) && flushed_outcome(
                flushed,
                done,
                mark,
                after,
                result,
            ),
    }
}

/// Whether one request and its response on `before` may leave `after` and
/// give `result`: `frame` is written, the channel is flushed, and the
/// response is read up to the first `mark`. Any failure of the channel ends
/// the exchange at once.
pub open spec fn exchange_outcome<T: DeviceTransport>(
    before: T,
    frame: Seq<u8>,
    mark: u8,
    after: T,
    result: Result<Seq<u8>, ExchangeError>,
) -> bool {
    exists|written: T, taken: Result<usize, IoError>| #[trigger]
        T::write_outcome(before, frame, written, taken) && written_outcome(
            written,
            taken,
            mark,
            after,
            result,
        )
}

/// The response that was read, as a sequence of bytes.
pub open spec fn bytes_read(result: Result<Vec<u8>, ExchangeError>) -> Result<
    Seq<u8>,
    ExchangeError,
> {
    match result {
        Ok(bytes) => Ok(bytes@),
        Err(e) => Err(e),
    }
}

/// Reads a response from `port`, chunk by chunk, up to the first `mark` or to
/// a read that returns nothing.
pub fn read_response<T: DeviceTransport>(port: &mut T, mark: u8) -> (result: Result<
    Vec<u8>,
    ExchangeError,
>)
    ensures
        collect_outcome(
            *old(port),
            Seq::empty(),
            mark,
            READ_LIMIT as nat,
            *final(port),
            bytes_read(result),
        ),
{
    let mut response: Vec<u8> = Vec::new();
    let mut buffer: Vec<u8> = vec![0u8; CHUNK_SIZE];
    let mut reads: usize = READ_LIMIT;
    while reads > 0
        invariant
            buffer.len() == CHUNK_SIZE,
            forall|after: T, result: Result<Seq<u8>, ExchangeError>| #[trigger]
                collect_outcome(*port, response@, mark, reads as nat, after, result)
                    ==> collect_outcome(
                    *old(port),
                    Seq::empty(),
                    mark,
                    READ_LIMIT as nat,
                    after,
                    result,
                ),
        decreases reads,
    {
        let ghost before = *port;
        let ghost so_far = response@;
        proof {
            reveal_with_fuel(collect_outcome, 2);
        }
        match port.read(buffer.as_mut_slice()) {
            Err(e) => {
                assert(T::read_outcome(before, CHUNK_SIZE as nat, *port, Err(e)));
                assert(collect_outcome(
                    before,
                    so_far,
                    mark,
                    reads as nat,
                    *port,
                    Err(ExchangeError::Io(e)),
                ));
                return Err(ExchangeError::Io(e));
            },
            Ok(count) => {
                let chunk = slice_subrange(buffer.as_slice(), 0, count);
                assert(chunk@ == buffer@.take(count as int));
                assert(T::read_outcome(before, CHUNK_SIZE as nat, *port, Ok(chunk@)));
                let complete = absorb(&mut response, chunk, mark);
                if complete {

                    assert(collect_outcome(
                        before,
                        so_far,
                        mark,
                        reads as nat,
                        *port,
                        Ok(response@),
                    ));
                    return Ok(response);
                }
                reads -= 1;
                assert forall|after: T, result: Result<Seq<u8>, ExchangeError>| #[trigger]
                    collect_outcome(
                        *port,
                        response@,
                        mark,
                        reads as nat,
                        after,
                        result,
                    ) implies collect_outcome(
                    before,
                    so_far,
                    mark,
                    (reads + 1) as nat,
                    after,
                    result,
                ) by {
                    assert(T::read_outcome(before, CHUNK_SIZE as nat, *port, Ok(chunk@)));
                }
            },
        }
    }
    assert(collect_outcome(
        *port,
        response@,
        mark,
        0,
        *port,
        Err::<Seq<u8>, ExchangeError>(ExchangeError::Endless),
    ));
    Err(ExchangeError::Endless)
}

/// Sends `frame` to `port` and reads the response up to the first `mark`.
pub fn exchange<T: DeviceTransport>(port: &mut T, frame: &[u8], mark: u8) -> (result: Result<
    Vec<u8>,
    ExchangeError,
>)
    ensures
        exchange_outcome(*old(port), frame@, mark, *final(port), bytes_read(result)),
{
    let written = port.write(frame);
    let ghost after_write = *port;
    match written {
        Err(e) => {
            assert(written_outcome(
                after_write,
                written,
                mark,
                *port,
                Err::<Seq<u8>, ExchangeError>(ExchangeError::Io(e)),
            ));
            return Err(ExchangeError::Io(e));
        },
        Ok(_) => {},
    }
    let flushed = port.flush();
    let ghost after_flush = *port;
    match flushed {
        Err(e) => {
            assert(flushed_outcome(
                after_flush,
                flushed,
                mark,
                *port,
                Err::<Seq<u8>, ExchangeError>(ExchangeError::Io(e)),
            ));
            assert(written_outcome(
                after_write,
                written,
                mark,
                *port,
                Err::<Seq<u8>, ExchangeError>(ExchangeError::Io(e)),
            ));
            return Err(ExchangeError::Io(e));
        },
        Ok(_) => {},
    }
    let result = read_response(port, mark);
    assert(flushed_outcome(after_flush, flushed, mark, *port, bytes_read(result)));
    assert(written_outcome(after_write, written, mark, *port, bytes_read(result)));
    result
}

} // verus!
