//! The layout of the store file: a sequence of frames, each an eight-byte
//! little-endian length followed by that many bytes of payload.

use vstd::bytes::{
    lemma_auto_spec_u64_to_from_le_bytes, spec_u64_from_le_bytes, spec_u64_to_le_bytes,
    u64_from_le_bytes, u64_to_le_bytes,
};
use vstd::prelude::*;
use vstd::slice::{slice_subrange, slice_to_vec};

verus! {

/// The number of bytes that hold a frame's length.
pub const LENGTH_BYTES: usize = 8;

/// The frame that holds `payload`.
pub open spec fn frame_bytes(payload: Seq<u8>) -> Seq<u8> {
    spec_u64_to_le_bytes(payload.len() as u64) + payload
}

/// The payloads of the frames that make up `file`, in file order; `None`
/// where the file ends inside a frame.
pub open spec fn parse_frames(file: Seq<u8>) -> Option<Seq<Seq<u8>>>
    decreases file.len(),
{
    if file.len() == 0 {
        Some(Seq::empty())
    } else if file.len() < 8 {
        None
    } else {
        let length = spec_u64_from_le_bytes(file.subrange(0, 8)) as int;
        if length > file.len() - 8 {
            None
        } else {
            match parse_frames(file.subrange(8 + length, file.len() as int)) {
                None => None,
                Some(rest) => Some(seq![file.subrange(8, 8 + length)] + rest),
            }
        }
    }
}

/// The byte sequences that a list of slices stands for.
pub open spec fn payloads(frames: Seq<&[u8]>) -> Seq<Seq<u8>> {
    frames.map_values(|payload: &[u8]| payload@)
}

/// `first` followed by what `rest` holds, where it holds anything.
pub open spec fn followed_by(first: Seq<Seq<u8>>, rest: Option<Seq<Seq<u8>>>) -> Option<
    Seq<Seq<u8>>,
> {
    match rest {
        None => None,
        Some(rest) => Some(first + rest),
    }
}

/// Wraps `payload` in a frame; `None` where the frame would be longer than
/// memory can address.
pub fn frame(payload: &[u8]) -> (r: Option<Vec<u8>>)
    ensures
        r is Some <==> payload@.len() + LENGTH_BYTES <= usize::MAX,
        r is Some ==> r->Some_0@ == frame_bytes(payload@),
{
    if payload.len() > usize::MAX - LENGTH_BYTES {
        return None;
    }
    let mut framed = u64_to_le_bytes(payload.len() as u64);
    let mut body = slice_to_vec(payload);
    framed.append(&mut body);
    Some(framed)
}

/// Splits `file` into the payloads of its frames; `None` where the file ends
/// inside a frame.
pub fn split_frames<'a>(file: &'a [u8]) -> (r: Option<Vec<&'a [u8]>>)
    ensures
        r is Some <==> parse_frames(file@) is Some,
        r is Some ==> payloads(r->Some_0@) == parse_frames(file@)->Some_0,
{
    let mut frames: Vec<&'a [u8]> = Vec::new();
    let mut position: usize = 0;
    proof {
        assert(file@.subrange(0, file@.len() as int) =~= file@);
        assert(payloads(frames@) =~= Seq::<Seq<u8>>::empty());
        assert(Seq::<Seq<u8>>::empty() + parse_frames(file@)->Some_0 =~= parse_frames(
            file@,
        )->Some_0);
    }
    while position < file.len()
        invariant
            position <= file.len(),
            parse_frames(file@) == followed_by(
                payloads(frames@),
                parse_frames(file@.subrange(position as int, file@.len() as int)),
            ),
        decreases file.len() - position,
    {
        let ghost tail = file@.subrange(position as int, file@.len() as int);
        if file.len() - position < LENGTH_BYTES {
            return None;
        }
        let length = u64_from_le_bytes(slice_subrange(file, position, position + LENGTH_BYTES));
        let room = file.len() - position - LENGTH_BYTES;
        proof {
            assert(tail.subrange(0, 8) =~= file@.subrange(position as int, position + 8));
        }
        if length > room as u64 {
            return None;
        }
        let start = position + LENGTH_BYTES;
        let end = start + length as usize;
        let payload = slice_subrange(file, start, end);
        proof {
            let rest = file@.subrange(end as int, file@.len() as int);
            assert(tail.subrange(8, 8 + length as int) =~= payload@);
            assert(tail.subrange(8 + length as int, tail.len() as int) =~= rest);
            assert(payloads(frames@.push(payload)) =~= payloads(frames@).push(payload@));
            if let Some(more) = parse_frames(rest) {
                assert(payloads(frames@) + (seq![payload@] + more) =~= payloads(frames@).push(
                    payload@,
                ) + more);
            }
        }
        frames.push(payload);
        position = end;
    }
    proof {
        assert(payloads(frames@) + Seq::<Seq<u8>>::empty() =~= payloads(frames@));
    }
    Some(frames)
}

/// A frame put behind a file of whole frames is the file's last frame, and
/// the frames before it stay as they were.
pub proof fn lemma_parse_frames_append(file: Seq<u8>, payload: Seq<u8>)
    requires
        parse_frames(file) is Some,
        payload.len() <= u64::MAX,
    ensures
        parse_frames(file + frame_bytes(payload)) == Some(
            parse_frames(file)->Some_0.push(payload),
        ),
    decreases file.len(),
{
    lemma_auto_spec_u64_to_from_le_bytes();
    let framed = frame_bytes(payload);
    let whole = file + framed;
    if file.len() == 0 {
        let end = 8 + payload.len() as int;
        assert(whole =~= framed);
        assert(framed.subrange(0, 8) =~= spec_u64_to_le_bytes(payload.len() as u64));
        assert(framed.subrange(8, end) =~= payload);
        assert(framed.subrange(end, framed.len() as int) =~= Seq::<u8>::empty());
        assert(parse_frames(Seq::<u8>::empty()) == Some(Seq::<Seq<u8>>::empty()));
        assert(seq![payload] + Seq::<Seq<u8>>::empty() =~= Seq::<Seq<u8>>::empty().push(payload));
    } else {
        let length = spec_u64_from_le_bytes(file.subrange(0, 8)) as int;
        let first = seq![file.subrange(8, 8 + length)];
        let rest = file.subrange(8 + length, file.len() as int);
        assert(whole.subrange(0, 8) =~= file.subrange(0, 8));
        assert(whole.subrange(8, 8 + length) =~= file.subrange(8, 8 + length));
        assert(whole.subrange(8 + length, whole.len() as int) =~= rest + framed);
        lemma_parse_frames_append(rest, payload);
        let others = parse_frames(rest)->Some_0;
        assert(first + others.push(payload) =~= (first + others).push(payload));
    }
}

} // verus!
