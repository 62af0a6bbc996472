//! Transcripts: the ordered record of labelled messages that a challenge is
//! derived from.
use crate::point::CompressedPoint;
use crate::scalar::{group_order, le_value, Scalar};
use vstd::bytes::{spec_u64_to_le_bytes, u64_to_le_bytes};
use vstd::prelude::*;
use vstd::slice::slice_to_vec;
use vstd::string::StringSliceAdditionalSpecFns;

verus! {

/// The bytes that a Merlin transcript yields as a challenge of `len` bytes
/// under `label`, after it was opened under `domain` and given `messages`, each
/// with its label, in order.
pub uninterp spec fn merlin_challenge(
    domain: Seq<char>,
    messages: Seq<(Seq<char>, Seq<u8>)>,
    label: Seq<char>,
    len: nat,
) -> Seq<u8>;

/// What a transcript holds: its domain separator and the labelled messages
/// appended so far.
pub struct TranscriptView {
    pub domain: Seq<char>,
    pub messages: Seq<(Seq<char>, Seq<u8>)>,
}

impl TranscriptView {
    /// A transcript with nothing appended.
    pub open spec fn new(domain: Seq<char>) -> TranscriptView {
        TranscriptView { domain, messages: Seq::empty() }
    }

    /// The transcript after one more message.
    pub open spec fn append(self, label: Seq<char>, message: Seq<u8>) -> TranscriptView {
        TranscriptView { domain: self.domain, messages: self.messages.push((label, message)) }
    }

    /// The challenge of `len` bytes under `label`.
    pub open spec fn challenge_bytes(self, label: Seq<char>, len: nat) -> Seq<u8> {
        merlin_challenge(self.domain, self.messages, label, len)
    }

    /// The challenge scalar under `label`: 64 challenge bytes, read as a
    /// little-endian integer and reduced modulo the group order.
    pub open spec fn challenge_scalar(self, label: Seq<char>) -> nat {
        le_value(self.challenge_bytes(label, 64)) % group_order()
    }
}

/// One appended message with its label.
pub struct Message {
    label: &'static str,
    bytes: Vec<u8>,
}

impl Message {
    /// The label of the message.
    pub closed spec fn spec_label(&self) -> Seq<char> {
        self.label@
    }

    /// The bytes of the message.
    pub closed spec fn spec_bytes(&self) -> Seq<u8> {
        self.bytes@
    }
}

/// The labelled messages of a list, as pairs.
pub open spec fn messages_view(messages: Seq<Message>) -> Seq<(Seq<char>, Seq<u8>)> {
    Seq::new(messages.len(), |i: int| (messages[i].spec_label(), messages[i].spec_bytes()))
}

/// Whether each message of a list is short enough for its length to be
/// framed in 32 bits.
pub open spec fn messages_fit(messages: Seq<Message>) -> bool {
    forall|i: int|
        0 <= i < messages.len() ==> (#[trigger] messages[i]).spec_bytes().len() <= u32::MAX
}

/// A transcript: a domain separator and the messages appended under it.
/// Challenges are derived from the record and leave it as it is.
pub struct Transcript {
    domain: &'static str,
    messages: Vec<Message>,
}

impl View for Transcript {
    type V = TranscriptView;

    closed spec fn view(&self) -> TranscriptView {
        TranscriptView { domain: self.domain@, messages: messages_view(self.messages@) }
    }
}

impl Clone for Transcript {
    fn clone(&self) -> (r: Transcript)
        ensures
            r@ == self@,
    {
        proof {
            use_type_invariant(self);
        }
        let mut messages: Vec<Message> = Vec::new();
        let mut i: usize = 0;
        while i < self.messages.len()
            invariant
                i <= self.messages.len(),
                messages@.len() == i,
                forall|j: int|
                    0 <= j < i ==> (#[trigger] messages@[j]).spec_label()
                        == self.messages@[j].spec_label() && messages@[j].spec_bytes()
                        == self.messages@[j].spec_bytes(),
            decreases self.messages.len() - i,
        {
            let m = &self.messages[i];
            messages.push(Message { label: m.label, bytes: m.bytes.clone() });
            i += 1;
        }
        assert(messages_view(messages@) =~= messages_view(self.messages@));
        assert forall|j: int| 0 <= j < messages@.len() implies (#[trigger] messages@[j])
            .spec_bytes().len() <= u32::MAX by {
            assert(self.messages@[j].spec_bytes().len() <= u32::MAX);
        }
        Transcript { domain: self.domain, messages }
    }
}

impl Transcript {
    #[verifier::type_invariant]
    spec fn well_formed(&self) -> bool {
        &&& self.domain.spec_bytes().len() <= u32::MAX
        &&& messages_fit(self.messages@)
    }

    /// A transcript under the given domain separator, with nothing appended.
    pub fn new(domain: &'static str) -> (r: Transcript)
        requires
            domain.spec_bytes().len() <= u32::MAX,
        ensures
            r@ == TranscriptView::new(domain@),
    {
        let r = Transcript { domain, messages: Vec::new() };
        assert(r@.messages =~= Seq::empty());
        r
    }

    /// Appends a message under a label.
    pub fn commit_bytes(&mut self, label: &'static str, message: &[u8])
        requires
            message@.len() <= u32::MAX,
        ensures
            final(self)@ == old(self)@.append(label@, message@),
    {
        proof {
            use_type_invariant(&*self);
        }
        let mut taken = Transcript { domain: self.domain, messages: Vec::new() };
        core::mem::swap(self, &mut taken);
        let Transcript { domain, mut messages } = taken;
        let ghost before = messages@;
        messages.push(Message { label, bytes: slice_to_vec(message) });
        assert(messages_view(messages@) =~= messages_view(before).push((label@, message@)));
        *self = Transcript { domain, messages };
    }

    /// Appends the 8-byte little-endian encoding of an integer under a label.
    pub fn commit_u64(&mut self, label: &'static str, x: u64)
        ensures
            final(self)@ == old(self)@.append(label@, spec_u64_to_le_bytes(x)),
    {
        let bytes = u64_to_le_bytes(x);
        self.commit_bytes(label, bytes.as_slice());
    }

    /// Appends the encoding of a point under a label.
    pub fn commit_point(&mut self, label: &'static str, point: &CompressedPoint)
        ensures
            final(self)@ == old(self)@.append(label@, point@),
    {
        self.commit_bytes(label, point.0.as_slice());
    }

    /// The challenge of `N` bytes under a label.
    pub fn challenge_bytes<const N: usize>(&self, label: &'static str) -> (r: [u8; N])
        requires
            N <= u32::MAX,
        ensures
            r@ == self@.challenge_bytes(label@, N as nat),
    {
        proof {
            use_type_invariant(self);
        }
        merlin_challenge_bytes::<N>(self.domain, &self.messages, label)
    }

    /// The challenge scalar under a label.
    pub fn challenge_scalar(&self, label: &'static str) -> (r: Scalar)
        ensures
            r.value() == self@.challenge_scalar(label@),
    {
        let wide: [u8; 64] = self.challenge_bytes::<64>(label);
        Scalar::from_bytes_mod_order_wide(&wide)
    }
}

/// `merlin::Transcript`: `new` under the domain separator, `append_message`
/// for each message in order, then `challenge_bytes` into `N` bytes. Merlin
/// derives the challenge from these operations alone. It refuses a message or
/// a challenge whose length does not fit in 32 bits.
#[verifier::external_body]
fn merlin_challenge_bytes<const N: usize>(
    domain: &'static str,
    messages: &Vec<Message>,
    label: &'static str,
) -> (out: [u8; N])
    requires
        N <= u32::MAX,
        domain.spec_bytes().len() <= u32::MAX,
        messages_fit(messages@),
    ensures
        out@ == merlin_challenge(domain@, messages_view(messages@), label@, N as nat),
{
    let mut transcript = merlin::Transcript::new(domain.as_bytes());
    for m in messages.iter() {
        transcript.append_message(m.label.as_bytes(), &m.bytes);
    }
    let mut out = [0u8; N];
    transcript.challenge_bytes(label.as_bytes(), &mut out);
    out
}

} // verus!
