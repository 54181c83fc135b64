//! Cutting the tracker's byte stream into frames.
//!
//! The stream has no lengths and no terminators. Every frame begins with a
//! sentinel, the face-status pair `___iFacialMocaptrackingStatus-0|` or
//! `...-1|`, and runs up to the start of the next sentinel. Bytes before the
//! first sentinel belong to a frame whose start was missed and are dropped
//! with the first complete frame; the bytes from the last sentinel on wait
//! for more to come.

use vstd::prelude::*;
use vstd::string::StringSliceAdditionalSpecFns;
use vstd::utf8::{valid_utf8, valid_utf8_concat};

verus! {

/// `core::str::Utf8Error`: why bytes are no text. Nothing is read in it.
#[verifier::external_type_specification]
#[verifier::external_body]
pub struct ExUtf8Error(core::str::Utf8Error);

/// `core::str::from_utf8` accepts exactly the well-formed UTF-8 sequences
/// and hands the same bytes back as text.
pub assume_specification[ core::str::from_utf8 ](bytes: &[u8]) -> (text: Result<
    &str,
    core::str::Utf8Error,
>)
    ensures
        text.is_ok() == valid_utf8(bytes@),
        text matches Ok(t) ==> t.spec_bytes() == bytes@,
;

/// The regular expression that finds a sentinel.
pub const SENTINEL_PATTERN: &'static str = "___iFacialMocaptrackingStatus-[01]\\|";

/// What every sentinel begins with.
pub const SENTINEL_HEAD: &'static str = "___iFacialMocaptrackingStatus-";

/// The length of a sentinel in bytes.
pub const SENTINEL_LEN: usize = 32;

/// Whether a sentinel stands in `bytes` at index `at`: the head, then the
/// digit `0` or `1`, then `|`.
pub open spec fn is_sentinel_at(bytes: Seq<u8>, at: int) -> bool {
    &&& 0 <= at
    &&& at + SENTINEL_LEN <= bytes.len()
    &&& forall|i: int| 0 <= i < 30 ==> bytes[at + i] == #[trigger] SENTINEL_HEAD@[i] as u8
    &&& (bytes[at + 30] == '0' as u8 || bytes[at + 30] == '1' as u8)
    &&& bytes[at + 31] == '|' as u8
}

/// The index of the first sentinel at or after `from`, or the length of
/// `bytes` where there is none.
pub open spec fn next_sentinel(bytes: Seq<u8>, from: int) -> int
    decreases bytes.len() - from,
{
    if from < 0 || from >= bytes.len() {
        bytes.len() as int
    } else if is_sentinel_at(bytes, from) {
        from
    } else {
        next_sentinel(bytes, from + 1)
    }
}

/// [`next_sentinel`] finds the least index from `from` on at which a
/// sentinel stands.
pub proof fn lemma_next_sentinel(bytes: Seq<u8>, from: int)
    requires
        0 <= from,
    ensures
        from <= next_sentinel(bytes, from) || next_sentinel(bytes, from) == bytes.len(),
        next_sentinel(bytes, from) <= bytes.len(),
        next_sentinel(bytes, from) < bytes.len() ==> is_sentinel_at(
            bytes,
            next_sentinel(bytes, from),
        ),
        forall|at: int| from <= at < next_sentinel(bytes, from) ==> !is_sentinel_at(bytes, at),
    decreases bytes.len() - from,
{
    if from < bytes.len() && !is_sentinel_at(bytes, from) {
        lemma_next_sentinel(bytes, from + 1);
    }
}

/// The frames that a buffer holds complete, in order, and what stays
/// behind. With fewer than two sentinels nothing is complete and the buffer
/// stays as it is. Otherwise the bytes from the first sentinel up to the
/// second are a frame, and the rest of the work is done on the buffer from
/// the second sentinel on.
pub open spec fn drained(buffer: Seq<u8>) -> (Seq<Seq<u8>>, Seq<u8>)
    decreases buffer.len(),
{
    let first = next_sentinel(buffer, 0);
    let second = next_sentinel(buffer, first + 1);
    if first < second < buffer.len() {
        let later = drained(buffer.subrange(second, buffer.len() as int));
        (seq![buffer.subrange(first, second)] + later.0, later.1)
    } else {
        (Seq::empty(), buffer)
    }
}

/// The complete frames of a buffer.
pub open spec fn frames_of(buffer: Seq<u8>) -> Seq<Seq<u8>> {
    drained(buffer).0
}

/// What a buffer keeps after its complete frames are taken out.
pub open spec fn remainder_of(buffer: Seq<u8>) -> Seq<u8> {
    drained(buffer).1
}

/// What a read does to a buffer: the frames that it completes and the
/// buffer afterwards. A read that is not well-formed UTF-8 is dropped whole.
pub open spec fn pushed(buffer: Seq<u8>, chunk: Seq<u8>) -> (Seq<Seq<u8>>, Seq<u8>) {
    if valid_utf8(chunk) {
        drained(buffer + chunk)
    } else {
        (Seq::empty(), buffer)
    }
}

/// Whether a sentinel stands at index `at` is decided by the 32 bytes from
/// `at` on: bytes appended later change nothing.
pub proof fn lemma_sentinel_is_local(bytes: Seq<u8>, more: Seq<u8>, at: int)
    requires
        0 <= at,
        at + SENTINEL_LEN <= bytes.len(),
    ensures
        is_sentinel_at(bytes + more, at) == is_sentinel_at(bytes, at),
{
}

/// A sentinel that is found in a buffer is found at the same place after
/// more bytes have come in.
pub proof fn lemma_next_sentinel_stable(bytes: Seq<u8>, more: Seq<u8>, from: int)
    requires
        0 <= from,
        next_sentinel(bytes, from) < bytes.len(),
    ensures
        next_sentinel(bytes + more, from) == next_sentinel(bytes, from),
    decreases bytes.len() - from,
{
    lemma_next_sentinel(bytes, from);
    let found = next_sentinel(bytes, from);
    if from < bytes.len() {
        if is_sentinel_at(bytes, from) {
            lemma_sentinel_is_local(bytes, more, from);
        } else {
            assert(from < found);
            lemma_sentinel_is_local(bytes, more, from);
            lemma_next_sentinel_stable(bytes, more, from + 1);
        }
    }
}

/// Two sentinels never overlap, so the successive matches of a search
/// that skips past each match are all the sentinels there are.
pub proof fn lemma_sentinels_apart(bytes: Seq<u8>, one: int, other: int)
    requires
        is_sentinel_at(bytes, one),
        is_sentinel_at(bytes, other),
        one < other,
    ensures
        one + SENTINEL_LEN <= other,
{
    reveal_strlit("___iFacialMocaptrackingStatus-");
    if other < one + 32 {
        let gap = other - one;
        // The later sentinel opens with three underscores; the earlier one
        // has none after its own first three bytes.
        assert(bytes[other + 0] == SENTINEL_HEAD@[0] as u8);
        assert(bytes[other + 1] == SENTINEL_HEAD@[1] as u8);
        assert(bytes[other + 2] == SENTINEL_HEAD@[2] as u8);
        if gap + 2 < 30 {
            assert(bytes[one + (gap + 2)] == SENTINEL_HEAD@[gap + 2] as u8);
        }
        assert(false);
    }
}

/// Frames do not depend on how the stream was cut into reads: taking a
/// buffer's frames out and then appending more bytes gives, in all, the same
/// frames and the same remainder as appending first.
pub proof fn lemma_frames_regardless_of_split(buffer: Seq<u8>, more: Seq<u8>)
    ensures
        frames_of(buffer + more) == frames_of(buffer) + frames_of(remainder_of(buffer) + more),
        remainder_of(buffer + more) == remainder_of(remainder_of(buffer) + more),
    decreases buffer.len(),
{
    let first = next_sentinel(buffer, 0);
    let second = next_sentinel(buffer, first + 1);
    lemma_next_sentinel(buffer, 0);
    if first < second < buffer.len() {
        let whole = buffer + more;
        lemma_next_sentinel_stable(buffer, more, 0);
        lemma_next_sentinel_stable(buffer, more, first + 1);
        let tail = buffer.subrange(second, buffer.len() as int);
        assert(whole.subrange(second, whole.len() as int) =~= tail + more);
        assert(whole.subrange(first, second) =~= buffer.subrange(first, second));
        lemma_frames_regardless_of_split(tail, more);
        assert(frames_of(whole) =~= seq![buffer.subrange(first, second)] + frames_of(
            tail + more,
        ));
        assert(frames_of(buffer) =~= seq![buffer.subrange(first, second)] + frames_of(tail));
        assert(frames_of(whole) =~= frames_of(buffer) + frames_of(remainder_of(buffer) + more));
    } else {
        assert(frames_of(buffer) =~= Seq::<Seq<u8>>::empty());
        assert(frames_of(buffer) + frames_of(buffer + more) =~= frames_of(buffer + more));
    }
}

/// Two reads give, in all, the frames and the buffer that one read of the
/// same bytes gives, wherever the stream was cut, as long as the cut leaves
/// each read well-formed UTF-8.
pub proof fn lemma_two_reads_as_one(buffer: Seq<u8>, first: Seq<u8>, second: Seq<u8>)
    requires
        valid_utf8(first),
        valid_utf8(second),
    ensures
        pushed(buffer, first + second).0 == pushed(buffer, first).0 + pushed(
            pushed(buffer, first).1,
            second,
        ).0,
        pushed(buffer, first + second).1 == pushed(pushed(buffer, first).1, second).1,
{
    valid_utf8_concat(first, second);
    assert(buffer + (first + second) =~= (buffer + first) + second);
    lemma_frames_regardless_of_split(buffer + first, second);
}

/// What is left after the frames are taken out holds no complete frame.
pub proof fn lemma_remainder_is_drained(buffer: Seq<u8>)
    ensures
        frames_of(remainder_of(buffer)) == Seq::<Seq<u8>>::empty(),
        remainder_of(remainder_of(buffer)) == remainder_of(buffer),
    decreases buffer.len(),
{
    let first = next_sentinel(buffer, 0);
    let second = next_sentinel(buffer, first + 1);
    if first < second < buffer.len() {
        lemma_remainder_is_drained(buffer.subrange(second, buffer.len() as int));
    }
}

/// `regex::bytes::Regex::new` on the sentinel pattern, then `find_iter` and
/// `Match::start`: the byte offsets at which the successive matches begin.
/// The pattern is thirty literal bytes, a class of two digits and a literal
/// bar, so a match is a sentinel and nothing else is; the search goes from
/// left to right and steps over each match, and since sentinels cannot
/// overlap ([`lemma_sentinels_apart`]) it misses none.
#[verifier::external_body]
fn sentinel_starts(pattern: &str, haystack: &[u8]) -> (starts: Vec<usize>)
    requires
        pattern@ == SENTINEL_PATTERN@,
    ensures
        forall|i: int, j: int| 0 <= i < j < starts@.len() ==> starts@[i] < starts@[j],
        forall|i: int|
            0 <= i < starts@.len() ==> is_sentinel_at(haystack@, #[trigger] starts@[i] as int),
        forall|at: int|
            is_sentinel_at(haystack@, at) ==> exists|i: int|
                0 <= i < starts@.len() && #[trigger] starts@[i] == at,
{
    let finder = regex::bytes::Regex::new(pattern).unwrap();
    finder.find_iter(haystack).map(|found| found.start()).collect()
}

/// The bytes of one connection that have not yet made a complete frame.
pub struct FrameBuffer {
    pending: Vec<u8>,
}

impl View for FrameBuffer {
    type V = Seq<u8>;

    closed spec fn view(&self) -> Seq<u8> {
        self.pending@
    }
}

impl FrameBuffer {
    /// The buffer of a connection that has delivered nothing yet.
    pub fn new() -> (buffer: Self)
        ensures
            buffer@ == Seq::<u8>::empty(),
    {
        FrameBuffer { pending: Vec::new() }
    }

    /// The bytes that wait for more to come.
    pub fn pending(&self) -> (bytes: &[u8])
        ensures
            bytes@ == self@,
    {
        self.pending.as_slice()
    }

    /// Takes in what one read delivered and returns the frames that are now
    /// complete, in the order of their arrival. A read that is not
    /// well-formed UTF-8 is dropped whole and changes nothing.
    pub fn push(&mut self, chunk: &[u8]) -> (frames: Vec<Vec<u8>>)
        ensures
            frames@.map_values(|frame: Vec<u8>| frame@) == pushed(old(self)@, chunk@).0,
            final(self)@ == pushed(old(self)@, chunk@).1,
    {
        let mut frames: Vec<Vec<u8>> = Vec::new();
        if core::str::from_utf8(chunk).is_err() {
            assert(frames@.map_values(|frame: Vec<u8>| frame@) =~= Seq::<Seq<u8>>::empty());
            return frames;
        }
        self.pending.extend_from_slice(chunk);
        let ghost whole = self.pending@;
        assert(whole =~= old(self)@ + chunk@);
        assert(frames@.map_values(|frame: Vec<u8>| frame@) =~= Seq::<Seq<u8>>::empty());
        loop
            invariant
                frames@.map_values(|frame: Vec<u8>| frame@) + frames_of(self.pending@)
                    == frames_of(whole),
                remainder_of(self.pending@) == remainder_of(whole),
            ensures
                frames@.map_values(|frame: Vec<u8>| frame@) == frames_of(whole),
                self.pending@ == remainder_of(whole),
            decreases self.pending@.len(),
        {
            let ghost buffer = self.pending@;
            let ghost done = frames@.map_values(|frame: Vec<u8>| frame@);
            let starts = sentinel_starts(SENTINEL_PATTERN, self.pending.as_slice());
            proof {
                lemma_next_sentinel(buffer, 0);
                lemma_next_sentinel(buffer, next_sentinel(buffer, 0) + 1);
            }
            if starts.len() < 2 {
                proof {
                    let first = next_sentinel(buffer, 0);
                    let second = next_sentinel(buffer, first + 1);
                    if first < second < buffer.len() {
                        let i = choose|i: int| 0 <= i < starts@.len() && starts@[i] == first;
                        let j = choose|j: int| 0 <= j < starts@.len() && starts@[j] == second;
                        assert(i != j);
                    }
                    assert(frames_of(buffer) =~= Seq::<Seq<u8>>::empty());
                    assert(done + frames_of(buffer) =~= done);
                }
                break;
            }
            let first = starts[0];
            let second = starts[1];
            proof {
                assert(is_sentinel_at(buffer, first as int));
                assert(is_sentinel_at(buffer, second as int));
                let found = next_sentinel(buffer, 0);
                assert(found == first) by {
                    if found < first {
                        let i = choose|i: int| 0 <= i < starts@.len() && starts@[i] == found;
                        assert(starts@[0] <= starts@[i]);
                    }
                }
                let after = next_sentinel(buffer, first + 1);
                assert(after == second) by {
                    if after < second {
                        let i = choose|i: int| 0 <= i < starts@.len() && starts@[i] == after;
                        assert(i >= 1);
                        assert(starts@[1] <= starts@[i]);
                    }
                }
            }
            let rest = self.pending.split_off(second);
            let frame = self.pending.split_off(first);
            self.pending = rest;
            assert(frame@ =~= buffer.subrange(first as int, second as int));
            assert(self.pending@ =~= buffer.subrange(second as int, buffer.len() as int));
            frames.push(frame);
            assert(frames@.map_values(|frame: Vec<u8>| frame@) =~= done.push(frame@));
            assert(done.push(frame@) + frames_of(self.pending@) =~= done + frames_of(buffer));
        }
        frames
    }
}

} // verus!
