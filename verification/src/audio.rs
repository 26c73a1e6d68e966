//! Cutting the backend's byte stream into audio frames of PCM16 samples.
use vstd::prelude::*;

verus! {

/// The frames of `n` bytes that can be cut from the front of `bytes`.
pub open spec fn whole_frames(bytes: Seq<u8>, n: nat) -> Seq<Seq<u8>>
    decreases bytes.len(),
{
    if n == 0 || bytes.len() < n {
        Seq::empty()
    } else {
        seq![bytes.take(n as int)] + whole_frames(bytes.skip(n as int), n)
    }
}

/// The bytes that are left when whole frames are cut off.
pub open spec fn remainder(bytes: Seq<u8>, n: nat) -> Seq<u8>
    decreases bytes.len(),
{
    if n == 0 || bytes.len() < n {
        bytes
    } else {
        remainder(bytes.skip(n as int), n)
    }
}

/// Bytes with a zero added where their number is odd.
pub open spec fn padded(bytes: Seq<u8>) -> Seq<u8> {
    if bytes.len() % 2 == 1 {
        bytes.push(0)
    } else {
        bytes
    }
}

/// The frame that ends an utterance, from the bytes that were left.
pub open spec fn last_frame(rest: Seq<u8>) -> Option<Seq<u8>> {
    if rest.len() == 0 {
        None
    } else {
        Some(padded(rest))
    }
}

/// What a list of frames holds.
pub open spec fn frames_view(frames: Seq<Vec<u8>>) -> Seq<Seq<u8>> {
    frames.map_values(|f: Vec<u8>| f@)
}

/// Cuts whole frames off the front of `bytes`; returns them and what is left.
pub fn cut_frames(bytes: Vec<u8>, chunk_size: usize) -> (r: (Vec<Vec<u8>>, Vec<u8>))
    requires
        chunk_size > 0,
    ensures
        frames_view(r.0@) == whole_frames(bytes@, chunk_size as nat),
        r.1@ == remainder(bytes@, chunk_size as nat),
{
    let ghost n = chunk_size as nat;
    let mut rest: Vec<u8> = bytes;
    let mut frames: Vec<Vec<u8>> = Vec::new();
    while rest.len() >= chunk_size
        invariant
            chunk_size > 0,
            n == chunk_size as nat,
            whole_frames(bytes@, n) =~= frames_view(frames@) + whole_frames(rest@, n),
            remainder(bytes@, n) == remainder(rest@, n),
        decreases rest@.len(),
    {
        let ghost before = rest@;
        let ghost cut = frames_view(frames@);
        let mut frame: Vec<u8> = rest;
        rest = frame.split_off(chunk_size);
        assert(frame@ =~= before.take(n as int));
        assert(rest@ =~= before.skip(n as int));
        frames.push(frame);
        assert(frames_view(frames@) =~= cut.push(frame@));
    }
    (frames, rest)
}

/// The frame that ends an utterance: what is left, made even.
pub fn end_frame(rest: Vec<u8>) -> (r: Option<Vec<u8>>)
    ensures
        r is Some <==> last_frame(rest@) is Some,
        r matches Some(frame) ==> frame@ == last_frame(rest@)->0,
{
    let mut frame: Vec<u8> = rest;
    if frame.len() == 0 {
        return None;
    }
    if frame.len() % 2 != 0 {
        frame.push(0);
    }
    Some(frame)
}

/// What has come out of a backend stream that arrived in pieces, and what is left.
pub open spec fn streamed(pieces: Seq<Seq<u8>>, n: nat) -> (Seq<Seq<u8>>, Seq<u8>)
    decreases pieces.len(),
{
    if pieces.len() == 0 {
        (Seq::empty(), Seq::empty())
    } else {
        let (frames, rest) = streamed(pieces.drop_last(), n);
        let bytes = rest + pieces.last();
        (frames + whole_frames(bytes, n), remainder(bytes, n))
    }
}

/// Every frame that is cut has the configured size, and less than one frame is left.
pub proof fn law_frames_have_fixed_size(bytes: Seq<u8>, n: nat)
    requires
        n > 0,
    ensures
        forall|i: int|
            0 <= i < whole_frames(bytes, n).len() ==> (#[trigger] whole_frames(bytes, n)[i]).len()
                == n,
        remainder(bytes, n).len() < n,
    decreases bytes.len(),
{
    if bytes.len() >= n {
        law_frames_have_fixed_size(bytes.skip(n as int), n);
        let tail = whole_frames(bytes.skip(n as int), n);
        assert forall|i: int| 0 <= i < whole_frames(bytes, n).len() implies (
        #[trigger] whole_frames(bytes, n)[i]).len() == n by {
            if i > 0 {
                assert(whole_frames(bytes, n)[i] == tail[i - 1]);
            }
        }
    }
}

/// Cutting loses no byte and moves none: the frames, then what is left, are the bytes
/// that went in.
pub proof fn law_frames_keep_the_bytes(bytes: Seq<u8>, n: nat)
    ensures
        whole_frames(bytes, n).flatten() + remainder(bytes, n) == bytes,
    decreases bytes.len(),
{
    if n == 0 || bytes.len() < n {
        assert(whole_frames(bytes, n).flatten() =~= Seq::<u8>::empty());
    } else {
        let head = bytes.take(n as int);
        let tail = bytes.skip(n as int);
        law_frames_keep_the_bytes(tail, n);
        assert(whole_frames(bytes, n).drop_first() =~= whole_frames(tail, n));
        assert(whole_frames(bytes, n).first() == head);
        assert(head + tail =~= bytes);
    }
}

/// Cutting early changes nothing: frames cut from a first part, then from what was left
/// of it and a second part, are those cut from both at once.
pub proof fn law_cutting_may_be_split(a: Seq<u8>, b: Seq<u8>, n: nat)
    requires
        n > 0,
    ensures
        whole_frames(a + b, n) == whole_frames(a, n) + whole_frames(remainder(a, n) + b, n),
        remainder(a + b, n) == remainder(remainder(a, n) + b, n),
    decreases a.len(),
{
    if a.len() < n {
        assert(whole_frames(a, n) + whole_frames(a + b, n) =~= whole_frames(a + b, n));
    } else {
        let rest = a.skip(n as int);
        law_cutting_may_be_split(rest, b, n);
        assert((a + b).skip(n as int) =~= rest + b);
        assert((a + b).take(n as int) =~= a.take(n as int));
        assert(whole_frames(a + b, n) =~= whole_frames(a, n) + whole_frames(
            remainder(a, n) + b,
            n,
        ));
    }
}

/// The frames do not depend on how the backend's stream was split into pieces: they are
/// those of the whole stream.
pub proof fn law_pieces_do_not_matter(pieces: Seq<Seq<u8>>, n: nat)
    requires
        n > 0,
    ensures
        streamed(pieces, n).0 == whole_frames(pieces.flatten(), n),
        streamed(pieces, n).1 == remainder(pieces.flatten(), n),
    decreases pieces.len(),
{
    if pieces.len() == 0 {
        assert(pieces.flatten() =~= Seq::<u8>::empty());
    } else {
        let before = pieces.drop_last();
        law_pieces_do_not_matter(before, n);
        law_cutting_may_be_split(before.flatten(), pieces.last(), n);
        pieces.lemma_flatten_and_flatten_alt_are_equivalent();
        before.lemma_flatten_and_flatten_alt_are_equivalent();
    }
}

/// All frames of an utterance together are the backend's bytes, with one zero added
/// where their number is odd.
pub proof fn law_audio_is_complete(pieces: Seq<Seq<u8>>, n: nat)
    requires
        n > 0,
        n % 2 == 0,
    ensures
        ({
            let (frames, rest) = streamed(pieces, n);
            frames.flatten() + (match last_frame(rest) {
                Some(frame) => frame,
                None => Seq::empty(),
            }) == padded(pieces.flatten())
        }),
{
    let all = pieces.flatten();
    let (frames, rest) = streamed(pieces, n);
    law_pieces_do_not_matter(pieces, n);
    law_frames_keep_the_bytes(all, n);
    lemma_even_cut(all, n);
    assert(frames.flatten() + rest.push(0) =~= (frames.flatten() + rest).push(0));
}

proof fn lemma_even_cut(bytes: Seq<u8>, n: nat)
    requires
        n > 0,
        n % 2 == 0,
    ensures
        bytes.len() % 2 == remainder(bytes, n).len() % 2,
    decreases bytes.len(),
{
    if bytes.len() >= n {
        lemma_even_cut(bytes.skip(n as int), n);
    }
}

/// Frames hold whole samples: every frame that is cut, and the one that ends an
/// utterance, has an even number of bytes.
pub proof fn law_frames_are_aligned(bytes: Seq<u8>, n: nat)
    requires
        n > 0,
        n % 2 == 0,
    ensures
        forall|i: int|
            0 <= i < whole_frames(bytes, n).len() ==> (#[trigger] whole_frames(bytes, n)[i]).len()
                % 2 == 0,
        last_frame(remainder(bytes, n)) matches Some(frame) ==> frame.len() % 2 == 0,
{
    law_frames_have_fixed_size(bytes, n);
}

} // verus!
