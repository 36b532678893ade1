//! The frames in which payloads travel to the parent process: the length of the payload
//! as an unsigned 64-bit big-endian number, then the payload.

use vstd::arithmetic::div_mod::lemma_div_denominator;
use vstd::prelude::*;

verus! {

/// The largest payload that a reader accepts.
pub const MAX_PAYLOAD: u64 = 16 * 1024 * 1024;

/// How many bytes the length takes.
pub const HEADER: usize = 8;

/// `n` as `width` bytes, the most significant one first.
pub open spec fn big_endian(n: nat, width: nat) -> Seq<u8>
    decreases width,
{
    if width == 0 {
        Seq::empty()
    } else {
        big_endian(n / 256, (width - 1) as nat).push((n % 256) as u8)
    }
}

/// The number that `bytes` denote, the most significant one first.
pub open spec fn big_endian_value(bytes: Seq<u8>) -> nat
    decreases bytes.len(),
{
    if bytes.len() == 0 {
        0
    } else {
        big_endian_value(bytes.drop_last()) * 256 + bytes.last() as nat
    }
}

/// `payload` in a frame.
pub open spec fn frame(payload: Seq<u8>) -> Seq<u8> {
    big_endian(payload.len(), HEADER as nat) + payload
}

/// The length that the first eight bytes announce.
pub open spec fn announced(input: Seq<u8>) -> nat {
    big_endian_value(input.take(HEADER as int))
}

/// Why a frame is refused.
#[derive(Clone, Copy, Debug, PartialEq, Eq, Structural)]
pub enum FrameError {
    TooLarge,
}

impl FrameError {
    /// The error in words.
    pub open spec fn text(self) -> Seq<char> {
        "Collector poslal příliš velký payload"@
    }

    /// The error in words.
    pub fn message(&self) -> (m: String)
        ensures
            m@ == self.text(),
    {
        "Collector poslal příliš velký payload".to_owned()
    }
}

/// What the bytes that have arrived hold: the payload of the first frame with the number
/// of bytes that the frame takes, nothing while the frame is not complete, or an error as
/// soon as the length is known to be too large.
pub open spec fn first_frame(input: Seq<u8>) -> Result<Option<(Seq<u8>, nat)>, FrameError> {
    if input.len() < HEADER {
        Ok(None)
    } else {
        let len = announced(input);
        if len > MAX_PAYLOAD {
            Err(FrameError::TooLarge)
        } else if input.len() < HEADER + len {
            Ok(None)
        } else {
            Ok(Some((input.subrange(HEADER as int, HEADER + len), HEADER as nat + len)))
        }
    }
}

/// `256` to the power of `n`.
spec fn power(n: nat) -> nat
    decreases n,
{
    if n == 0 {
        1
    } else {
        256 * power((n - 1) as nat)
    }
}

proof fn lemma_power_eight()
    ensures
        power(8) == 0x1_0000_0000_0000_0000,
{
    reveal_with_fuel(power, 9);
}

proof fn lemma_big_endian(n: nat, width: nat)
    ensures
        big_endian(n, width).len() == width,
        n < power(width) ==> big_endian_value(big_endian(n, width)) == n,
    decreases width,
{
    if width > 0 {
        let w = (width - 1) as nat;
        lemma_big_endian(n / 256, w);
        assert(big_endian(n, width).drop_last() =~= big_endian(n / 256, w));
        if n < power(width) {
            assert(n / 256 < power(w)) by (nonlinear_arith)
                requires
                    n < 256 * power(w),
            ;
        }
    }
}

proof fn lemma_big_endian_value_bound(bytes: Seq<u8>)
    ensures
        big_endian_value(bytes) < power(bytes.len()),
    decreases bytes.len(),
{
    if bytes.len() > 0 {
        lemma_big_endian_value_bound(bytes.drop_last());
    }
}

/// A frame of any size announces the length of its payload, and the payload follows.
pub proof fn frame_layout(payload: Seq<u8>, rest: Seq<u8>)
    requires
        payload.len() <= u64::MAX,
    ensures
        frame(payload).len() == HEADER + payload.len(),
        announced(frame(payload) + rest) == payload.len(),
        (frame(payload) + rest).subrange(HEADER as int, HEADER + payload.len()) == payload,
        (frame(payload) + rest).skip(HEADER + payload.len()) == rest,
{
    let input = frame(payload) + rest;
    lemma_power_eight();
    lemma_big_endian(payload.len(), 8);
    assert(input.take(8) =~= big_endian(payload.len(), 8));
    assert(input.subrange(8, 8 + payload.len() as int) =~= payload);
    assert(input.skip(8 + payload.len() as int) =~= rest);
}

/// What is written in a frame is read back, whatever follows it. A payload over the limit
/// is refused.
pub proof fn frame_is_read_back(payload: Seq<u8>, rest: Seq<u8>)
    requires
        payload.len() <= u64::MAX,
    ensures
        payload.len() <= MAX_PAYLOAD ==> first_frame(frame(payload) + rest) == Ok::<
            Option<(Seq<u8>, nat)>,
            FrameError,
        >(Some((payload, frame(payload).len()))),
        payload.len() > MAX_PAYLOAD ==> first_frame(frame(payload) + rest) == Err::<
            Option<(Seq<u8>, nat)>,
            FrameError,
        >(FrameError::TooLarge),
{
    frame_layout(payload, rest);
}

/// A frame that has arrived only in part is not taken for a whole one.
pub proof fn partial_frame_is_awaited(payload: Seq<u8>, arrived: int)
    requires
        payload.len() <= MAX_PAYLOAD,
        0 <= arrived < frame(payload).len(),
    ensures
        first_frame(frame(payload).take(arrived)) == Ok::<
            Option<(Seq<u8>, nat)>,
            FrameError,
        >(None),
{
    let input = frame(payload).take(arrived);
    lemma_power_eight();
    lemma_big_endian(payload.len(), 8);
    if arrived >= 8 {
        assert(input.take(8) =~= big_endian(payload.len(), 8));
    }
}

/// A frame is eight bytes and the payload. Each of the eight holds its part of the length of
/// the payload, the most significant one first.
pub proof fn frame_begins_with_the_length(payload: Seq<u8>, i: int)
    requires
        payload.len() <= u64::MAX,
    ensures
        frame(payload).len() == 8 + payload.len(),
        frame(payload)[0] as int == payload.len() as int / 0x100000000000000 % 256,
        frame(payload)[1] as int == payload.len() as int / 0x1000000000000 % 256,
        frame(payload)[2] as int == payload.len() as int / 0x10000000000 % 256,
        frame(payload)[3] as int == payload.len() as int / 0x100000000 % 256,
        frame(payload)[4] as int == payload.len() as int / 0x1000000 % 256,
        frame(payload)[5] as int == payload.len() as int / 0x10000 % 256,
        frame(payload)[6] as int == payload.len() as int / 0x100 % 256,
        frame(payload)[7] as int == payload.len() as int / 1 % 256,
        0 <= i < payload.len() ==> frame(payload)[8 + i] == payload[i],
{
    let n = payload.len();
    lemma_big_endian(n, 8);
    lemma_big_endian_at(n, 8, 0);
    lemma_big_endian_at(n, 8, 1);
    lemma_big_endian_at(n, 8, 2);
    lemma_big_endian_at(n, 8, 3);
    lemma_big_endian_at(n, 8, 4);
    lemma_big_endian_at(n, 8, 5);
    lemma_big_endian_at(n, 8, 6);
    lemma_big_endian_at(n, 8, 7);
    reveal_with_fuel(power, 9);
}

/// Each byte holds the part of the number that its place stands for.
proof fn lemma_big_endian_at(n: nat, width: nat, k: int)
    requires
        0 <= k < width,
    ensures
        big_endian(n, width).len() == width,
        big_endian(n, width)[k] as int == n as int / power((width - 1 - k) as nat) as int % 256,
    decreases width,
{
    lemma_big_endian(n, width);
    let w = (width - 1) as nat;
    lemma_big_endian(n / 256, w);
    if k == width - 1 {
        let one = power(0) as int;
        assert(n as int / one == n) by (nonlinear_arith)
            requires
                one == 1,
        ;
    } else {
        let p = power((w - 1 - k) as nat);
        lemma_big_endian_at(n / 256, w, k);
        assert(big_endian(n, width)[k] == big_endian(n / 256, w)[k]);
        lemma_power_grows(0, (w - 1 - k) as nat);
        lemma_div_denominator(n as int, 256, p as int);
        assert(power((width - 1 - k) as nat) == 256 * p);
    }
}

/// The length that a header denotes: each of its eight bytes counts by its place, the first
/// one most.
pub open spec fn length_in(input: Seq<u8>) -> int {
    input[0] as int * 0x100000000000000
        + input[1] as int * 0x1000000000000
        + input[2] as int * 0x10000000000
        + input[3] as int * 0x100000000
        + input[4] as int * 0x1000000
        + input[5] as int * 0x10000
        + input[6] as int * 0x100
        + input[7] as int * 1
}

/// The announced length is the one that the first eight bytes denote by their places.
pub proof fn header_counts_by_its_places(input: Seq<u8>)
    requires
        input.len() >= 8,
    ensures
        announced(input) == input[0] as int * 0x100000000000000
            + input[1] as int * 0x1000000000000
            + input[2] as int * 0x10000000000
            + input[3] as int * 0x100000000
            + input[4] as int * 0x1000000
            + input[5] as int * 0x10000
            + input[6] as int * 0x100
            + input[7] as int * 1,
{
    let header = input.take(8);
    reveal_with_fuel(big_endian_value, 9);
    assert(header.drop_last() =~= input.take(7));
    assert(input.take(7).drop_last() =~= input.take(6));
    assert(input.take(6).drop_last() =~= input.take(5));
    assert(input.take(5).drop_last() =~= input.take(4));
    assert(input.take(4).drop_last() =~= input.take(3));
    assert(input.take(3).drop_last() =~= input.take(2));
    assert(input.take(2).drop_last() =~= input.take(1));
    assert(input.take(1).drop_last() =~= Seq::<u8>::empty());
}

/// The payload of the first frame is the bytes that follow the header, as many as the header
/// announces. Over 16 MiB it is refused as soon as the header is there; before all of it is
/// there, nothing is taken.
pub proof fn payload_is_what_was_announced(input: Seq<u8>, i: int)
    ensures
        input.len() < 8 ==> first_frame(input) == Ok::<Option<(Seq<u8>, nat)>, FrameError>(None),
        input.len() >= 8 && length_in(input) > 16777216 ==> first_frame(input) == Err::<
            Option<(Seq<u8>, nat)>,
            FrameError,
        >(FrameError::TooLarge),
        input.len() >= 8 && length_in(input) <= 16777216 && input.len() < 8 + length_in(input)
            ==> first_frame(input) == Ok::<Option<(Seq<u8>, nat)>, FrameError>(None),
        input.len() >= 8 && length_in(input) <= 16777216 && input.len() >= 8 + length_in(input)
            ==> (first_frame(input) matches Ok(Some((payload, taken))) && {
            &&& payload.len() == length_in(input)
            &&& taken == 8 + length_in(input)
            &&& 0 <= i < payload.len() ==> payload[i] == input[8 + i]
        }),
{
    if input.len() >= 8 {
        header_counts_by_its_places(input);
    }
}

/// The reason why a frame is refused, in words.
pub proof fn frame_error_in_words()
    ensures
        FrameError::TooLarge.text() == "Collector poslal příliš velký payload"@,
{
}

/// `n` as eight bytes, the most significant one first.
fn length_bytes(n: u64) -> (bytes: Vec<u8>)
    ensures
        bytes@ == big_endian(n as nat, HEADER as nat),
{
    let b7: u8 = (n % 256) as u8;
    let n6: u64 = n / 256;
    let n5: u64 = n6 / 256;
    let n4: u64 = n5 / 256;
    let n3: u64 = n4 / 256;
    let n2: u64 = n3 / 256;
    let n1: u64 = n2 / 256;
    let n0: u64 = n1 / 256;
    let bytes: Vec<u8> = vec![
        (n0 % 256) as u8,
        (n1 % 256) as u8,
        (n2 % 256) as u8,
        (n3 % 256) as u8,
        (n4 % 256) as u8,
        (n5 % 256) as u8,
        (n6 % 256) as u8,
        b7,
    ];
    proof {
        reveal_with_fuel(big_endian, 9);
        assert(bytes@ =~= big_endian(n as nat, 8));
    }
    bytes
}

/// The number that the first eight bytes denote.
fn length_of(input: &[u8]) -> (n: u64)
    requires
        input@.len() >= HEADER,
    ensures
        n == announced(input@),
{
    let mut n: u64 = 0;
    proof {
        lemma_power_eight();
    }
    for i in 0..HEADER
        invariant
            input@.len() >= HEADER,
            HEADER == 8,
            power(8) == 0x1_0000_0000_0000_0000,
            n == big_endian_value(input@.take(i as int)),
    {
        proof {
            let taken = input@.take(i + 1);
            assert(taken.drop_last() =~= input@.take(i as int));
            lemma_big_endian_value_bound(taken);
            lemma_power_grows((i + 1) as nat, 8);
        }
        n = n * 256 + input[i] as u64;
    }
    n
}

proof fn lemma_power_grows(m: nat, n: nat)
    requires
        m <= n,
    ensures
        power(m) <= power(n),
    decreases n,
{
    if m < n {
        lemma_power_grows(m, (n - 1) as nat);
    }
}

/// Puts `payload` in a frame.
pub fn write_frame(payload: &[u8]) -> (bytes: Vec<u8>)
    ensures
        bytes@ == frame(payload@),
{
    let mut bytes: Vec<u8> = length_bytes(payload.len() as u64);
    bytes.extend_from_slice(payload);
    assert(bytes@ =~= frame(payload@));
    bytes
}

/// Takes the first frame out of the bytes that have arrived: its payload and the number of
/// bytes that the frame takes. While the frame is not complete there is none.
pub fn read_frame(input: &[u8]) -> (res: Result<Option<(Vec<u8>, usize)>, FrameError>)
    ensures
        match res {
            Ok(None) => first_frame(input@) == Ok::<Option<(Seq<u8>, nat)>, FrameError>(None),
            Ok(Some((payload, taken))) => first_frame(input@) == Ok::<
                Option<(Seq<u8>, nat)>,
                FrameError,
            >(Some((payload@, taken as nat))),
            Err(e) => first_frame(input@) == Err::<Option<(Seq<u8>, nat)>, FrameError>(e),
        },
{
    if input.len() < HEADER {
        return Ok(None);
    }
    let len: u64 = length_of(input);
    if len > MAX_PAYLOAD {
        return Err(FrameError::TooLarge);
    }
    let end: usize = HEADER + len as usize;
    if input.len() < end {
        return Ok(None);
    }
    let mut payload: Vec<u8> = Vec::new();
    payload.extend_from_slice(&input[HEADER..end]);
    assert(payload@ =~= input@.subrange(HEADER as int, end as int));
    Ok(Some((payload, end)))
}

} // verus!
