//! The extractor as a step function: from its state and the bytes of the last
//! read to its next state, the payload bytes to write out and the next read.
//! The caller opens the image, performs each requested read, writes what it
//! is handed and, at the end, unzips the payload.  The order of the checks,
//! which error stops the extraction and when copying ends are decided here.

use vstd::prelude::*;
use vstd::bytes::{spec_u32_from_le_bytes, spec_u64_from_le_bytes};
use crate::container::{FOOTER_LEN, LEN32, LEN64, MAGIC_LEN};
use crate::extractor::{
    CHUNK, joined, check_password, check_section, decode_chunk, decode_chunk_spec, footer_offset,
    footer_offset_spec, meta_length, next_read_len, parse_footer, parse_footer_spec,
    check_section_spec, password_check_spec, payload_key, payload_key_spec, payload_length,
    read_len_spec, UnpackError,
};
use crate::hash::DIGEST_LEN;
use crate::metadata::{
    app_name_of, encrypted_of, json_bool_member, json_text_member, read_image_info, APP_NAME_KEY,
    ENCRYPTED_KEY,
};

verus! {

/// Where the extraction stands.
#[derive(Debug)]
pub enum Phase {
    /// Waiting for the footer.
    Footer,
    /// Waiting for the signature after the stub.
    Section,
    /// Waiting for the stored password digest.
    Digest,
    /// Waiting for the metadata length field.
    MetaLength,
    /// Waiting for the metadata record of `len` bytes.
    Meta { len: usize },
    /// Waiting for the payload length field.
    PayloadLength { app_name: String, encrypted: bool },
    /// Copying the payload; `copied` bytes of `payload_len` are done.
    Payload { app_name: String, encrypted: bool, key: u8, payload_len: u64, copied: u64 },
    /// Finished, or stopped on an error.
    Done,
}

/// What the caller is to do next.
#[derive(Debug)]
pub enum Request {
    /// Read exactly `len` bytes starting at `offset` of the image.
    ReadAt { offset: u64, len: usize },
    /// Read exactly the next `len` bytes.
    Read { len: usize },
    /// Read at most `max` of the next bytes (fewer, or none at the end, is fine).
    ReadUpTo { max: usize },
    /// The payload is complete: unzip it; the image names this application.
    Unzip { app_name: String },
    /// Stop with this error.
    Fail { error: UnpackError },
}

/// The outcome of one step: payload bytes to append to the output, and what
/// to do next.
#[derive(Debug)]
pub struct Step {
    pub write: Vec<u8>,
    pub next: Request,
}

/// An extraction in progress.
#[derive(Debug)]
pub struct Extraction {
    pub phase: Phase,
    pub password: Option<String>,
}

/// The characters of the password, if any.
pub open spec fn password_view(password: Option<String>) -> Option<Seq<char>> {
    match password {
        Some(p) => Some(p@),
        None => None,
    }
}

impl Extraction {
    /// Whether a read of `n` bytes is what the extraction waits for.
    pub open spec fn accepts(self, n: nat) -> bool {
        match self.phase {
            Phase::Footer => n == FOOTER_LEN,
            Phase::Section => n == MAGIC_LEN,
            Phase::Digest => n == DIGEST_LEN,
            Phase::MetaLength => n == LEN32,
            Phase::Meta { len } => n == len,
            Phase::PayloadLength { .. } => n == LEN64,
            Phase::Payload { payload_len, copied, .. } => copied <= payload_len && n <= read_len_spec(
                payload_len,
                copied,
            ),
            Phase::Done => false,
        }
    }
}

/// The request fits the state: a read asks for what the state accepts, and
/// the state is finished after `Unzip` or `Fail`.
pub open spec fn asks_for(next: Request, state: Extraction) -> bool {
    match next {
        Request::ReadAt { len, .. } => state.accepts(len as nat),
        Request::Read { len } => state.accepts(len as nat),
        Request::ReadUpTo { max } => max > 0 && (forall|n: nat| #[trigger] state.accepts(n) <==> n <= max),
        Request::Unzip { .. } => state.phase is Done,
        Request::Fail { .. } => state.phase is Done,
    }
}

/// What follows the payload length field, or `copied` more bytes of payload:
/// another read while bytes remain, else the unzip.
pub open spec fn payload_continues(
    post: Extraction,
    next: Request,
    app_name: String,
    encrypted: bool,
    key: u8,
    payload_len: u64,
    copied: u64,
) -> bool {
    if read_len_spec(payload_len, copied) == 0 {
        &&& post.phase is Done
        &&& next == Request::Unzip { app_name }
    } else {
        &&& post.phase == Phase::Payload { app_name, encrypted, key, payload_len, copied }
        &&& next == Request::ReadUpTo { max: read_len_spec(payload_len, copied) }
    }
}

/// A check that either stops the extraction with its error, or moves on.
pub open spec fn checked(
    result: Result<(), UnpackError>,
    post: Extraction,
    next: Request,
    on_ok_phase: Phase,
    on_ok_next: Request,
) -> bool {
    match result {
        Err(e) => post.phase is Done && next == Request::Fail { error: e },
        Ok(_) => post.phase == on_ok_phase && next == on_ok_next,
    }
}

/// One step of the extraction, given the bytes of the requested read.
pub open spec fn step_post(pre: Extraction, input: Seq<u8>, post: Extraction, out: Step) -> bool {
    let password = password_view(pre.password);
    &&& post.password == pre.password
    &&& match pre.phase {
        Phase::Footer => out.write@.len() == 0 && match parse_footer_spec(input) {
            Err(e) => post.phase is Done && out.next == Request::Fail { error: e },
            Ok(s) => post.phase is Section && out.next == Request::ReadAt { offset: s, len: MAGIC_LEN },
        },
        Phase::Section => out.write@.len() == 0 && checked(
            check_section_spec(input),
            post,
            out.next,
            Phase::Digest,
            Request::Read { len: DIGEST_LEN },
        ),
        Phase::Digest => out.write@.len() == 0 && checked(
            password_check_spec(input, password),
            post,
            out.next,
            Phase::MetaLength,
            Request::Read { len: LEN32 },
        ),
        Phase::MetaLength => {
            let len = spec_u32_from_le_bytes(input) as usize;
            &&& out.write@.len() == 0
            &&& post.phase == Phase::Meta { len }
            &&& out.next == Request::Read { len }
        },
        Phase::Meta { .. } => {
            &&& out.write@.len() == 0
            &&& post.phase matches Phase::PayloadLength { app_name, encrypted }
            &&& app_name@ == app_name_of(json_text_member(input, APP_NAME_KEY@))
            &&& encrypted == encrypted_of(json_bool_member(input, ENCRYPTED_KEY@))
            &&& out.next == Request::Read { len: LEN64 }
        },
        Phase::PayloadLength { app_name, encrypted } => {
            &&& out.write@.len() == 0
            &&& payload_continues(
                post,
                out.next,
                app_name,
                encrypted,
                payload_key_spec(encrypted, password),
                spec_u64_from_le_bytes(input),
                0,
            )
        },
        Phase::Payload { app_name, encrypted, key, payload_len, copied } => if input.len() == 0 {
            &&& out.write@.len() == 0
            &&& post.phase is Done
            &&& out.next == Request::Unzip { app_name }
        } else {
            &&& out.write@ == decode_chunk_spec(input, encrypted, key, copied as int)
            &&& payload_continues(
                post,
                out.next,
                app_name,
                encrypted,
                key,
                payload_len,
                (copied + input.len()) as u64,
            )
        },
        Phase::Done => false,
    }
}

impl Extraction {
    /// Starts the extraction of an image of `image_len` bytes: an image
    /// shorter than the footer is refused, otherwise the footer is read.
    pub fn begin(image_len: u64, password: Option<String>) -> (r: (Extraction, Request))
        ensures
            r.0.password == password,
            match footer_offset_spec(image_len) {
                Err(e) => r.0.phase is Done && r.1 == Request::Fail { error: e },
                Ok(start) => r.0.phase is Footer && r.1 == Request::ReadAt {
                    offset: start,
                    len: FOOTER_LEN,
                },
            },
            asks_for(r.1, r.0),
    {
        match footer_offset(image_len) {
            Err(error) => (Extraction { phase: Phase::Done, password }, Request::Fail { error }),
            Ok(offset) => (
                Extraction { phase: Phase::Footer, password },
                Request::ReadAt { offset, len: FOOTER_LEN },
            ),
        }
    }

    fn continue_payload(
        &mut self,
        app_name: String,
        encrypted: bool,
        key: u8,
        payload_len: u64,
        copied: u64,
    ) -> (next: Request)
        requires
            copied <= payload_len,
        ensures
            final(self).password == old(self).password,
            payload_continues(*final(self), next, app_name, encrypted, key, payload_len, copied),
            asks_for(next, *final(self)),
    {
        let max = next_read_len(payload_len, copied);
        if max == 0 {
            self.phase = Phase::Done;
            Request::Unzip { app_name }
        } else {
            self.phase = Phase::Payload { app_name, encrypted, key, payload_len, copied };
            Request::ReadUpTo { max }
        }
    }

    /// Takes the bytes of the requested read and decides what follows.
    pub fn step(&mut self, input: &[u8]) -> (out: Step)
        requires
            old(self).accepts(input@.len()),
        ensures
            step_post(*old(self), input@, *final(self), out),
            asks_for(out.next, *final(self)),
    {
        let mut phase = Phase::Done;
        std::mem::swap(&mut phase, &mut self.phase);
        let password: Option<&str> = match &self.password {
            Some(p) => Some(p.as_str()),
            None => None,
        };
        match phase {
            Phase::Footer => match parse_footer(input) {
                Err(error) => Step { write: Vec::new(), next: Request::Fail { error } },
                Ok(offset) => {
                    self.phase = Phase::Section;
                    Step { write: Vec::new(), next: Request::ReadAt { offset, len: MAGIC_LEN } }
                },
            },
            Phase::Section => match check_section(input) {
                Err(error) => Step { write: Vec::new(), next: Request::Fail { error } },
                Ok(()) => {
                    self.phase = Phase::Digest;
                    Step { write: Vec::new(), next: Request::Read { len: DIGEST_LEN } }
                },
            },
            Phase::Digest => match check_password(input, password) {
                Err(error) => Step { write: Vec::new(), next: Request::Fail { error } },
                Ok(()) => {
                    self.phase = Phase::MetaLength;
                    Step { write: Vec::new(), next: Request::Read { len: LEN32 } }
                },
            },
            Phase::MetaLength => {
                let len = meta_length(input);
                self.phase = Phase::Meta { len };
                Step { write: Vec::new(), next: Request::Read { len } }
            },
            Phase::Meta { .. } => {
                let info = read_image_info(input);
                self.phase = Phase::PayloadLength { app_name: info.app_name, encrypted: info.encrypted };
                Step { write: Vec::new(), next: Request::Read { len: LEN64 } }
            },
            Phase::PayloadLength { app_name, encrypted } => {
                let payload_len = payload_length(input);
                let key = payload_key(encrypted, password);
                let next = self.continue_payload(app_name, encrypted, key, payload_len, 0);
                Step { write: Vec::new(), next }
            },
            Phase::Payload { app_name, encrypted, key, payload_len, copied } => {
                if input.len() == 0 {
                    Step { write: Vec::new(), next: Request::Unzip { app_name } }
                } else {
                    let write = decode_chunk(input, encrypted, key, copied);
                    let copied = copied + input.len() as u64;
                    let next = self.continue_payload(app_name, encrypted, key, payload_len, copied);
                    Step { write, next }
                }
            },
            Phase::Done => Step { write: Vec::new(), next: Request::Fail { error: UnpackError::InvalidStructure } },
        }
    }
}

// ---------------------------------------------------------------------------
// Laws of the copy

/// After the payload length field, copying runs to the 64-bit length as read:
/// a zero length goes straight to the unzip, any other length starts the copy
/// at position 0 with a first read of at most one chunk.
pub proof fn lemma_payload_length_as_read(pre: Extraction, input: Seq<u8>, post: Extraction, out: Step)
    requires
        pre.phase is PayloadLength,
        input.len() == LEN64,
        step_post(pre, input, post, out),
        spec_u64_from_le_bytes(input) <= usize::MAX,
    ensures
        out.write@.len() == 0,
        spec_u64_from_le_bytes(input) == 0 ==> (post.phase is Done && out.next is Unzip),
        spec_u64_from_le_bytes(input) > 0 ==> {
            &&& post.phase matches Phase::Payload { payload_len, copied, .. }
            &&& payload_len == spec_u64_from_le_bytes(input)
            &&& copied == 0
        },
        spec_u64_from_le_bytes(input) > 0 ==> {
            &&& out.next matches Request::ReadUpTo { max }
            &&& 0 < max <= CHUNK
            &&& max <= spec_u64_from_le_bytes(input)
        },
{
}

/// While copying, a non-empty read never passes the payload length, is
/// written out deciphered byte by byte at its position in the payload
/// (`key + position` modulo 256) or unchanged, advances the count by its
/// length, and copying stops exactly when the count reaches the payload
/// length.
pub proof fn lemma_copy_advances(
    app_name: String,
    encrypted: bool,
    key: u8,
    payload_len: u64,
    copied: u64,
    password: Option<String>,
    input: Seq<u8>,
    post: Extraction,
    out: Step,
)
    requires
        (Extraction {
            phase: Phase::Payload { app_name, encrypted, key, payload_len, copied },
            password,
        }).accepts(input.len()),
        step_post(
            Extraction { phase: Phase::Payload { app_name, encrypted, key, payload_len, copied }, password },
            input,
            post,
            out,
        ),
        input.len() > 0,
        payload_len <= usize::MAX,
    ensures
        copied + input.len() <= payload_len,
        out.write@.len() == input.len(),
        forall|j: int|
            0 <= j < input.len() ==> #[trigger] out.write@[j] == (if encrypted {
                input[j] ^ (((key + copied + j) % 256) as u8)
            } else {
                input[j]
            }),
        copied + input.len() == payload_len ==> (post.phase is Done),
        copied + input.len() == payload_len ==> (out.next == (Request::Unzip { app_name })),
        copied + input.len() < payload_len ==> (post.phase == (Phase::Payload {
            app_name,
            encrypted,
            key,
            payload_len,
            copied: (copied + input.len()) as u64,
        })),
        copied + input.len() < payload_len ==> (out.next matches Request::ReadUpTo { max } && max > 0),
{
}

/// An empty read while copying ends the copy and hands the payload to the
/// unzip.
pub proof fn lemma_empty_read_ends_copy(pre: Extraction, post: Extraction, out: Step)
    requires
        pre.phase is Payload,
        step_post(pre, Seq::empty(), post, out),
    ensures
        (post.phase is Done),
        (out.next is Unzip),
        out.write@.len() == 0,
{
}

/// The payload bytes handed out by a run of steps, in order.
pub open spec fn writes_of(outs: Seq<Step>) -> Seq<u8>
    decreases outs.len(),
{
    if outs.len() == 0 {
        Seq::empty()
    } else {
        writes_of(outs.drop_last()) + outs.last().write@
    }
}

/// A whole copy, however the reads cut the payload: starting the copy of a
/// payload of `payload_len` bytes, any run of non-empty reads that the steps
/// accept covers at most the payload; what is written is the bytes read,
/// byte `j` XORed with `key + j` modulo 256 when encrypted; the copy is still
/// going while fewer than `payload_len` bytes were read, and it has handed
/// the payload to the unzip once all of them were.
pub proof fn lemma_copy_run(
    app_name: String,
    encrypted: bool,
    key: u8,
    payload_len: u64,
    password: Option<String>,
    pieces: Seq<Seq<u8>>,
    states: Seq<Extraction>,
    outs: Seq<Step>,
)
    requires
        payload_len <= usize::MAX,
        states.len() == pieces.len() + 1,
        outs.len() == pieces.len(),
        states[0] == (Extraction {
            phase: Phase::Payload { app_name, encrypted, key, payload_len, copied: 0 },
            password,
        }),
        forall|i: int|
            0 <= i < pieces.len() ==> #[trigger] pieces[i].len() > 0 && states[i].accepts(
                pieces[i].len(),
            ) && step_post(states[i], pieces[i], states[i + 1], outs[i]),
    ensures
        joined(pieces).len() <= payload_len,
        writes_of(outs).len() == joined(pieces).len(),
        forall|j: int|
            0 <= j < joined(pieces).len() ==> #[trigger] writes_of(outs)[j] == (if encrypted {
                joined(pieces)[j] ^ (((key + j) % 256) as u8)
            } else {
                joined(pieces)[j]
            }),
        joined(pieces).len() < payload_len ==> (states.last() == (Extraction {
            phase: Phase::Payload {
                app_name,
                encrypted,
                key,
                payload_len,
                copied: joined(pieces).len() as u64,
            },
            password,
        })),
        pieces.len() > 0 && joined(pieces).len() == payload_len ==> (states.last().phase is Done),
        pieces.len() > 0 && joined(pieces).len() == payload_len ==> (outs.last().next == (
        Request::Unzip { app_name })),
    decreases pieces.len(),
{
    if pieces.len() > 0 {
        let n = pieces.len() - 1;
        let front = pieces.drop_last();
        let fstates = states.drop_last();
        let fouts = outs.drop_last();
        assert forall|i: int| 0 <= i < front.len() implies #[trigger] front[i].len() > 0
            && fstates[i].accepts(front[i].len()) && step_post(
            fstates[i],
            front[i],
            fstates[i + 1],
            fouts[i],
        ) by {
            assert(front[i] == pieces[i]);
            assert(fstates[i] == states[i]);
            assert(fstates[i + 1] == states[i + 1]);
            assert(fouts[i] == outs[i]);
        }
        lemma_copy_run(app_name, encrypted, key, payload_len, password, front, fstates, fouts);
        assert(pieces[n].len() > 0 && states[n].accepts(pieces[n].len()) && step_post(
            states[n],
            pieces[n],
            states[n + 1],
            outs[n],
        ));
        let done = joined(front).len();
        // the state before the last read still copies, at position `done`
        assert(done < payload_len);
        assert(states[n] == fstates.last());
        let last = pieces[n];
        assert(pieces.last() == last);
        lemma_copy_advances(
            app_name,
            encrypted,
            key,
            payload_len,
            done as u64,
            password,
            last,
            states[n + 1],
            outs[n],
        );
        assert(joined(pieces) == joined(front) + last);
        assert(writes_of(outs) == writes_of(fouts) + outs[n].write@);
        let w = writes_of(outs);
        let all = joined(pieces);
        assert forall|j: int| 0 <= j < all.len() implies #[trigger] w[j] == (if encrypted {
            all[j] ^ (((key + j) % 256) as u8)
        } else {
            all[j]
        }) by {
            if j >= done {
                assert(w[j] == outs[n].write@[j - done]);
                assert(all[j] == last[j - done]);
                assert(key + done + (j - done) == key + j);
            } else {
                assert(w[j] == writes_of(fouts)[j]);
                assert(all[j] == joined(front)[j]);
            }
        }
    }
}

} // verus!
