//! The chunked-transfer grammar as a byte-at-a-time state machine.
//!
//! The machine is the single meaning of "chunked" in this crate: the body
//! reader's contract says that the bytes it consumed drive the machine from
//! its entry state to its exit state and that the machine emitted exactly the
//! bytes the reader returned, and the body writer's frames are proved to
//! drive the machine back to where it started. The round-trip law at the end
//! ties the two together.

use vstd::prelude::*;

use crate::ascii::{CR, DIGIT_0, HTAB, LF, SEMICOLON, SP};
use crate::num::{hex_digit_value, hex_digits, hex_value, is_hex_digit, lemma_hex_digits_are_digits, lemma_hex_value_of_digits};

verus! {

/// Where a chunked-body byte stream stands.
pub enum ChunkState {
    /// Scanning a chunk-size line: `value` is the size read so far,
    /// `seen_digit` whether any hex digit appeared yet, `digits_over`
    /// whether digit accumulation has ended (whitespace or `;` seen),
    /// `in_ext` whether the scan is inside a chunk extension.
    Size { value: usize, seen_digit: bool, digits_over: bool, in_ext: bool },
    /// Saw the CR ending a size line of value `value`; expecting LF.
    SizeLf { value: usize },
    /// Inside chunk data with `rem` bytes of the chunk still to come.
    Data { rem: usize },
    /// After a chunk's data; expecting the CR of its closing CRLF.
    DataCr,
    /// Expecting the LF of a chunk's closing CRLF.
    DataLf,
    /// After a zero-size line; expecting the CR of the final CRLF.
    TrailCr,
    /// Expecting the LF of the final CRLF.
    TrailLf,
    /// The terminal chunk is complete: the body has ended.
    Done,
    /// The stream broke the chunked grammar.
    Failed,
}

/// The state a chunked body starts in: before its first size line.
pub open spec fn size_start() -> ChunkState {
    ChunkState::Size { value: 0, seen_digit: false, digits_over: false, in_ext: false }
}

/// One byte of input. Mirrors the grammar of the size line exactly: hex
/// digits accumulate base-16 while digit accumulation is open, whitespace
/// closes it, `;` opens an extension in which any octet is legal, CR ends
/// the line anywhere, and a size line must hold at least one digit.
pub open spec fn chunk_step(s: ChunkState, b: u8) -> ChunkState {
    match s {
        ChunkState::Size { value, seen_digit, digits_over, in_ext } => {
            if b == CR {
                if seen_digit {
                    ChunkState::SizeLf { value }
                } else {
                    ChunkState::Failed
                }
            } else if in_ext {
                ChunkState::Size { value, seen_digit, digits_over, in_ext }
            } else if is_hex_digit(b) && !digits_over {
                if value > (usize::MAX - hex_digit_value(b)) / 16 {
                    ChunkState::Failed
                } else {
                    ChunkState::Size {
                        value: (value * 16 + hex_digit_value(b)) as usize,
                        seen_digit: true,
                        digits_over,
                        in_ext,
                    }
                }
            } else if b == SEMICOLON {
                ChunkState::Size { value, seen_digit, digits_over: true, in_ext: true }
            } else if b == SP || b == HTAB {
                ChunkState::Size { value, seen_digit, digits_over: true, in_ext: false }
            } else {
                ChunkState::Failed
            }
        },
        ChunkState::SizeLf { value } => {
            if b == LF {
                if value == 0 {
                    ChunkState::TrailCr
                } else {
                    ChunkState::Data { rem: value }
                }
            } else {
                ChunkState::Failed
            }
        },
        ChunkState::Data { rem } => {
            if rem > 1 {
                ChunkState::Data { rem: (rem - 1) as usize }
            } else {
                ChunkState::DataCr
            }
        },
        ChunkState::DataCr => {
            if b == CR {
                ChunkState::DataLf
            } else {
                ChunkState::Failed
            }
        },
        ChunkState::DataLf => {
            if b == LF {
                size_start()
            } else {
                ChunkState::Failed
            }
        },
        ChunkState::TrailCr => {
            if b == CR {
                ChunkState::TrailLf
            } else {
                ChunkState::Failed
            }
        },
        ChunkState::TrailLf => {
            if b == LF {
                ChunkState::Done
            } else {
                ChunkState::Failed
            }
        },
        ChunkState::Done => ChunkState::Done,
        ChunkState::Failed => ChunkState::Failed,
    }
}

/// Does a byte fed to the machine in state `s` belong to the body?
pub open spec fn chunk_step_emits(s: ChunkState) -> bool {
    s is Data
}

/// The machine's state and emitted body bytes after a run of input.
pub ghost struct ChunkRun {
    pub state: ChunkState,
    pub out: Seq<u8>,
}

/// Runs the machine over `input` from state `s`.
pub open spec fn chunk_run(s: ChunkState, input: Seq<u8>) -> ChunkRun
    decreases input.len(),
{
    if input.len() == 0 {
        ChunkRun { state: s, out: Seq::empty() }
    } else {
        let rest = chunk_run(chunk_step(s, input[0]), input.skip(1));
        ChunkRun {
            state: rest.state,
            out: if chunk_step_emits(s) {
                seq![input[0]] + rest.out
            } else {
                rest.out
            },
        }
    }
}

/// Runs compose: feeding `a + b` is feeding `a`, then `b` from where `a` left
/// off, and the emissions concatenate.
pub proof fn lemma_chunk_run_app(s: ChunkState, a: Seq<u8>, b: Seq<u8>)
    ensures
        chunk_run(s, a + b).state == chunk_run(chunk_run(s, a).state, b).state,
        chunk_run(s, a + b).out == chunk_run(s, a).out + chunk_run(chunk_run(s, a).state, b).out,
    decreases a.len(),
{
    if a.len() == 0 {
        assert(a + b =~= b);
        assert(chunk_run(s, a).state == s);
        assert(Seq::<u8>::empty() + chunk_run(s, b).out =~= chunk_run(s, b).out);
    } else {
        let s2 = chunk_step(s, a[0]);
        lemma_chunk_run_app(s2, a.skip(1), b);
        assert((a + b).skip(1) =~= a.skip(1) + b);
        assert((a + b)[0] == a[0]);
        if chunk_step_emits(s) {
            assert(seq![a[0]] + (chunk_run(s2, a.skip(1)).out + chunk_run(
                chunk_run(s2, a.skip(1)).state,
                b,
            ).out) =~= (seq![a[0]] + chunk_run(s2, a.skip(1)).out) + chunk_run(
                chunk_run(s2, a.skip(1)).state,
                b,
            ).out);
        }
    }
}

/// One byte of run is one step.
pub proof fn lemma_chunk_run_one(s: ChunkState, b: u8)
    ensures
        chunk_run(s, seq![b]).state == chunk_step(s, b),
        chunk_run(s, seq![b]).out == if chunk_step_emits(s) {
            seq![b]
        } else {
            Seq::<u8>::empty()
        },
{
    assert(seq![b].skip(1) =~= Seq::<u8>::empty());
    assert(chunk_run(chunk_step(s, b), seq![b].skip(1)).out =~= Seq::<u8>::empty());
    if chunk_step_emits(s) {
        assert(seq![b] + Seq::<u8>::empty() =~= seq![b]);
    }
}

/// Appending one byte to a run advances it one step.
pub proof fn lemma_chunk_run_snoc(s: ChunkState, a: Seq<u8>, b: u8)
    ensures
        chunk_run(s, a.push(b)).state == chunk_step(chunk_run(s, a).state, b),
        chunk_run(s, a.push(b)).out == chunk_run(s, a).out + (if chunk_step_emits(
            chunk_run(s, a).state,
        ) {
            seq![b]
        } else {
            Seq::<u8>::empty()
        }),
{
    assert(a.push(b) =~= a + seq![b]);
    lemma_chunk_run_app(s, a, seq![b]);
    lemma_chunk_run_one(chunk_run(s, a).state, b);
    if !chunk_step_emits(chunk_run(s, a).state) {
        assert(chunk_run(s, a).out + Seq::<u8>::empty() =~= chunk_run(s, a).out);
    }
}

/// Running data bytes through `Data { rem }` emits them unchanged and counts
/// `rem` down, landing on `DataCr` exactly when the chunk is exhausted.
pub proof fn lemma_chunk_run_data(rem: usize, d: Seq<u8>)
    requires
        1 <= rem,
        d.len() <= rem,
    ensures
        chunk_run(ChunkState::Data { rem }, d).out == d,
        chunk_run(ChunkState::Data { rem }, d).state == if d.len() < rem {
            ChunkState::Data { rem: (rem - d.len()) as usize }
        } else {
            ChunkState::DataCr
        },
    decreases d.len(),
{
    if d.len() == 0 {
    } else if rem > 1 {
        lemma_chunk_run_data((rem - 1) as usize, d.skip(1));
        assert(seq![d[0]] + d.skip(1) =~= d);
    } else {
        assert(d.len() == 1);
        lemma_chunk_run_one(ChunkState::Data { rem }, d[0]);
        assert(d =~= seq![d[0]]);
    }
}

/// Running a whole hexadecimal digit string from the start of a size line
/// accumulates exactly its value.
pub proof fn lemma_chunk_run_hex_digits(s: Seq<u8>)
    requires
        s.len() >= 1,
        forall|i: int| 0 <= i < s.len() ==> is_hex_digit(#[trigger] s[i]),
        hex_value(s) <= usize::MAX,
    ensures
        chunk_run(size_start(), s).state == (ChunkState::Size {
            value: hex_value(s) as usize,
            seen_digit: true,
            digits_over: false,
            in_ext: false,
        }),
        chunk_run(size_start(), s).out == Seq::<u8>::empty(),
    decreases s.len(),
{
    if s.len() == 1 {
        assert(s =~= seq![s[0]]);
        lemma_chunk_run_one(size_start(), s[0]);
        assert(s.drop_last() =~= Seq::<u8>::empty());
        assert(hex_value(Seq::<u8>::empty()) == 0);
        assert(hex_value(s) == hex_digit_value(s[0]));
        assert(s[0] != CR && s[0] != SEMICOLON && s[0] != SP && s[0] != HTAB);
        assert(0 <= (usize::MAX - hex_digit_value(s[0])) / 16);
        assert(chunk_step(size_start(), s[0]) == (ChunkState::Size {
            value: hex_digit_value(s[0]) as usize,
            seen_digit: true,
            digits_over: false,
            in_ext: false,
        }));
    } else {
        let head = s.drop_last();
        let b = s.last();
        assert(hex_value(s) == hex_value(head) * 16 + hex_digit_value(b));
        assert(hex_value(head) * 16 >= hex_value(head)) by (nonlinear_arith);
        lemma_chunk_run_hex_digits(head);
        assert(s =~= head.push(b));
        lemma_chunk_run_snoc(size_start(), head, b);
        let v = hex_value(head) as usize;
        assert(v <= (usize::MAX - hex_digit_value(b)) / 16) by (nonlinear_arith)
            requires
                v * 16 + hex_digit_value(b) <= usize::MAX,
                hex_digit_value(b) <= 15,
                v >= 0,
        ;
        assert(b != CR && b != SEMICOLON && b != SP && b != HTAB);
    }
}

/// The line-and-data framing of one chunk of payload `p`: its length in
/// uppercase hex, CRLF, the payload, CRLF.
pub open spec fn chunk_frame(p: Seq<u8>) -> Seq<u8> {
    hex_digits(p.len()) + seq![CR, LF] + p + seq![CR, LF]
}

/// The terminal framing of a chunked body: a zero-size line and the final
/// CRLF.
pub open spec fn chunked_terminal() -> Seq<u8> {
    seq![DIGIT_0, CR, LF, CR, LF]
}

/// One encoded chunk of a nonempty payload drives the machine from the start
/// of a size line all the way around to the start of the next, emitting
/// exactly the payload.
pub proof fn lemma_chunk_frame_run(p: Seq<u8>)
    requires
        1 <= p.len() <= usize::MAX,
    ensures
        chunk_run(size_start(), chunk_frame(p)).state == size_start(),
        chunk_run(size_start(), chunk_frame(p)).out == p,
{
    let n = p.len();
    let hd = hex_digits(n);
    lemma_hex_digits_are_digits(n);
    lemma_hex_value_of_digits(n);
    lemma_chunk_run_hex_digits(hd);
    let s1 = ChunkState::Size { value: n as usize, seen_digit: true, digits_over: false, in_ext: false };
    lemma_chunk_run_snoc(size_start(), hd, CR);
    assert(chunk_step(s1, CR) == (ChunkState::SizeLf { value: n as usize }));
    lemma_chunk_run_snoc(size_start(), hd.push(CR), LF);
    let line = hd.push(CR).push(LF);
    assert(chunk_run(size_start(), line).state == (ChunkState::Data { rem: n as usize }));
    assert(chunk_run(size_start(), line).out =~= Seq::<u8>::empty());
    lemma_chunk_run_data(n as usize, p);
    lemma_chunk_run_app(size_start(), line, p);
    assert(chunk_run(size_start(), line + p).state == ChunkState::DataCr);
    assert(chunk_run(size_start(), line + p).out =~= p);
    lemma_chunk_run_snoc(size_start(), line + p, CR);
    lemma_chunk_run_snoc(size_start(), (line + p).push(CR), LF);
    assert((line + p).push(CR).push(LF) =~= chunk_frame(p));
    assert(chunk_run(size_start(), chunk_frame(p)).out =~= p);
}

/// The terminal framing drives the machine from the start of a size line to
/// `Done`, emitting nothing.
pub proof fn lemma_chunked_terminal_run()
    ensures
        chunk_run(size_start(), chunked_terminal()).state == ChunkState::Done,
        chunk_run(size_start(), chunked_terminal()).out == Seq::<u8>::empty(),
{
    let z = seq![DIGIT_0];
    assert(is_hex_digit(DIGIT_0));
    assert(hex_value(z) == 0) by {
        assert(z.drop_last() =~= Seq::<u8>::empty());
        assert(hex_value(Seq::<u8>::empty()) == 0);
        assert(z.last() == DIGIT_0 && hex_digit_value(DIGIT_0) == 0);
    }
    lemma_chunk_run_hex_digits(z);
    lemma_chunk_run_snoc(size_start(), z, CR);
    lemma_chunk_run_snoc(size_start(), z.push(CR), LF);
    assert(chunk_run(size_start(), z.push(CR).push(LF)).state == ChunkState::TrailCr);
    lemma_chunk_run_snoc(size_start(), z.push(CR).push(LF), CR);
    lemma_chunk_run_snoc(size_start(), z.push(CR).push(LF).push(CR), LF);
    assert(z.push(CR).push(LF).push(CR).push(LF) =~= chunked_terminal());
    assert(chunk_run(size_start(), chunked_terminal()).out =~= Seq::<u8>::empty());
}

/// Round trip: a payload encoded as one chunk and the terminal framing
/// decodes to exactly that payload, with the machine `Done`. For the empty
/// payload the single frame already is the terminal framing, so the encoding
/// ends the body early and the terminal framing that follows is ignored; the
/// decoded payload is still the empty payload.
pub proof fn lemma_chunked_round_trip(p: Seq<u8>)
    requires
        p.len() <= usize::MAX,
    ensures
        chunk_run(size_start(), chunk_frame(p) + chunked_terminal()).state == ChunkState::Done,
        chunk_run(size_start(), chunk_frame(p) + chunked_terminal()).out == p,
{
    if p.len() == 0 {
        assert(chunk_frame(p) =~= chunked_terminal()) by {
            assert(hex_digits(0) =~= seq![DIGIT_0]);
            assert(chunk_frame(p) =~= seq![DIGIT_0] + seq![CR, LF] + seq![CR, LF]);
        }
        lemma_chunked_terminal_run();
        lemma_chunk_run_app(size_start(), chunk_frame(p), chunked_terminal());
        lemma_chunk_run_done(chunked_terminal());
        assert(chunk_run(size_start(), chunk_frame(p) + chunked_terminal()).out
            =~= Seq::<u8>::empty());
    } else {
        lemma_chunk_frame_run(p);
        lemma_chunked_terminal_run();
        lemma_chunk_run_app(size_start(), chunk_frame(p), chunked_terminal());
        assert(chunk_run(size_start(), chunk_frame(p) + chunked_terminal()).out =~= p);
    }
}

/// The frames of several chunks in a row, as a writer that is handed one
/// payload per write emits them.
pub open spec fn chunked_frames(chunks: Seq<Seq<u8>>) -> Seq<u8>
    decreases chunks.len(),
{
    if chunks.len() == 0 {
        Seq::empty()
    } else {
        chunk_frame(chunks.first()) + chunked_frames(chunks.drop_first())
    }
}

/// A row of nonempty chunk frames drives the machine around once per
/// frame, emitting the chunks in order.
pub proof fn lemma_chunked_frames_run(chunks: Seq<Seq<u8>>)
    requires
        forall|i: int| 0 <= i < chunks.len() ==> 1 <= #[trigger] chunks[i].len() <= usize::MAX,
    ensures
        chunk_run(size_start(), chunked_frames(chunks)).state == size_start(),
        chunk_run(size_start(), chunked_frames(chunks)).out == chunks.flatten(),
    decreases chunks.len(),
{
    if chunks.len() == 0 {
        assert(chunked_frames(chunks) =~= Seq::<u8>::empty());
        assert(chunks.flatten() =~= Seq::<u8>::empty());
    } else {
        lemma_chunk_frame_run(chunks.first());
        assert(forall|i: int|
            0 <= i < chunks.drop_first().len() ==> 1 <= #[trigger] chunks.drop_first()[i].len()
                <= usize::MAX);
        lemma_chunked_frames_run(chunks.drop_first());
        lemma_chunk_run_app(size_start(), chunk_frame(chunks.first()), chunked_frames(
            chunks.drop_first(),
        ));
    }
}

/// Round trip for a whole chunked body of several nonempty payloads: the
/// frames of the payloads followed by the terminal framing decode to the
/// payloads, concatenated in order, with the machine `Done`.
pub proof fn lemma_chunked_round_trip_many(chunks: Seq<Seq<u8>>)
    requires
        forall|i: int| 0 <= i < chunks.len() ==> 1 <= #[trigger] chunks[i].len() <= usize::MAX,
    ensures
        chunk_run(size_start(), chunked_frames(chunks) + chunked_terminal()).state
            == ChunkState::Done,
        chunk_run(size_start(), chunked_frames(chunks) + chunked_terminal()).out
            == chunks.flatten(),
{
    lemma_chunked_frames_run(chunks);
    lemma_chunked_terminal_run();
    lemma_chunk_run_app(size_start(), chunked_frames(chunks), chunked_terminal());
    assert(chunks.flatten() + Seq::<u8>::empty() =~= chunks.flatten());
}

/// From `Done` the machine stays `Done` and emits nothing.
pub proof fn lemma_chunk_run_done(input: Seq<u8>)
    ensures
        chunk_run(ChunkState::Done, input).state == ChunkState::Done,
        chunk_run(ChunkState::Done, input).out == Seq::<u8>::empty(),
    decreases input.len(),
{
    if input.len() > 0 {
        lemma_chunk_run_done(input.skip(1));
    }
}

} // verus!
