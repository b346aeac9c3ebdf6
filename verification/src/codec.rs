//! The codec contract: every codable type has a specification-level encoder
//! `enc`, a specification-level decoder `dec`, and a well-formedness
//! predicate `wf`, and its executable `encode`, `decode` and `num_bytes` are
//! proved to agree with them. Each type also carries the round-trip law:
//! decoding the canonical encoding of a well-formed value yields that value
//! back and consumes exactly its encoding.

use vstd::prelude::*;

verus! {

/// Why a decode or an encode was rejected.
#[derive(Debug, Clone, Copy, PartialEq, Eq)]
pub enum Error {
    /// The input ended before the value was complete.
    UnexpectedEnd,
    /// A variable-length integer carried a continuation bit into a sixth byte.
    VarIntTooLong,
    /// A boolean byte was neither 0x00 nor 0x01.
    InvalidBool,
    /// A length prefix was negative.
    NegativeLength,
    /// A string was longer than its declared maximum.
    StringTooLong,
    /// A byte sequence that had to be UTF-8 was not.
    InvalidUtf8,
    /// A tagged-union discriminant matched no variant.
    UnknownDiscriminant,
    /// A value too large for its length prefix or for the packet frame.
    LengthOverflow,
    /// A value whose dependent fields disagree with the fields that gate them.
    InconsistentValue,
    /// A wire construct this client does not implement (item components).
    Unsupported,
    /// A packet that is legal on the wire but not in the current phase.
    UnexpectedPacket,
}

/// Whether a byte sequence is valid UTF-8 in the sense of `core::str::from_utf8`.
pub uninterp spec fn utf8_ok(s: Seq<u8>) -> bool;

/// Relies on `core::str::from_utf8`: it succeeds exactly on the valid UTF-8
/// byte sequences, as a pure function of the bytes.
#[verifier::external_body]
pub fn check_utf8(v: &Vec<u8>) -> (r: bool)
    ensures
        r == utf8_ok(v@),
{
    core::str::from_utf8(v.as_slice()).is_ok()
}

/// Appends a copy of `src` to `out`.
pub fn append_bytes(out: &mut Vec<u8>, src: &Vec<u8>)
    ensures
        final(out)@ == old(out)@ + src@,
{
    let n = src.len();
    let mut i: usize = 0;
    while i < n
        invariant
            i <= n,
            n == src@.len(),
            out@ == old(out)@ + src@.take(i as int),
        decreases n - i,
    {
        out.push(src[i]);
        i = i + 1;
        proof {
            assert(out@ =~= old(out)@ + src@.take(i as int));
        }
    }
    proof {
        assert(src@.take(n as int) =~= src@);
    }
}

/// Copies the `n` bytes of `bytes` that start at `start` into a new vector.
pub fn copy_range(bytes: &Vec<u8>, start: usize, n: usize) -> (r: Vec<u8>)
    requires
        start + n <= bytes@.len(),
    ensures
        r@ == bytes@.subrange(start as int, start + n),
{
    let total = bytes.len();
    let mut r: Vec<u8> = Vec::new();
    let mut i: usize = 0;
    while i < n
        invariant
            i <= n,
            start + n <= total,
            total == bytes@.len(),
            r@ == bytes@.subrange(start as int, start + i),
        decreases n - i,
    {
        r.push(bytes[start + i]);
        i = i + 1;
        proof {
            assert(r@ =~= bytes@.subrange(start as int, start + i));
        }
    }
    r
}

/// A type that can travel on the wire. Its mathematical model is its deep
/// view (`Seq` in place of `Vec`); the specification-level codec `enc` /
/// `dec` works on models, and the executable `encode` / `decode` /
/// `num_bytes` are proved to agree with it. `decode` consumes exactly the
/// bytes that `encode` writes; `num_bytes` is the exact encoding length.
pub trait MinecraftData: Sized + DeepView {
    /// The models the encoder accepts (and the decoder produces).
    spec fn wf(m: Self::V) -> bool;

    /// The canonical wire encoding of a model.
    spec fn enc(m: Self::V) -> Seq<u8>;

    /// The specification-level decoder: the model read from a prefix of `s`
    /// and how many bytes of `s` it occupies, or `None` if `s` does not begin
    /// with a valid encoding.
    spec fn dec(s: Seq<u8>) -> Option<(Self::V, int)>;

    /// Round trip: the decoder maps the canonical encoding of any
    /// well-formed model, followed by anything, back to that model, and
    /// consumes exactly the encoding.
    proof fn lemma_round_trip(m: Self::V, rest: Seq<u8>)
        requires
            Self::wf(m),
        ensures
            Self::dec(Self::enc(m) + rest) == Some((m, Self::enc(m).len() as int)),
    ;

    /// Whatever the decoder accepts is well formed and lies within the input.
    proof fn lemma_dec_props(s: Seq<u8>)
        ensures
            Self::dec(s) matches Some((m, n)) ==> 0 <= n <= s.len() && Self::wf(m),
    ;

    /// Reads one value starting at `pos`. On success the result is exactly
    /// what the specification decoder reads there; on failure the
    /// specification decoder rejects the bytes at `pos` too.
    fn decode(bytes: &Vec<u8>, pos: usize) -> (r: Result<(Self, usize), Error>)
        requires
            pos <= bytes@.len(),
        ensures
            match r {
                Ok((v, end)) => {
                    &&& pos <= end <= bytes@.len()
                    &&& Self::dec(bytes@.skip(pos as int)) == Some((v.deep_view(), end - pos))
                },
                Err(_) => Self::dec(bytes@.skip(pos as int)) is None,
            },
    ;

    /// Appends the canonical encoding to `out`. Succeeds exactly on
    /// well-formed values; on failure `out` may hold a partial encoding.
    fn encode(&self, out: &mut Vec<u8>) -> (r: Result<(), Error>)
        ensures
            r is Ok <==> Self::wf(self.deep_view()),
            r is Ok ==> final(out)@ == old(out)@ + Self::enc(self.deep_view()),
    ;

    /// The exact number of bytes `encode` would write.
    fn num_bytes(&self) -> (r: usize)
        requires
            Self::wf(self.deep_view()),
            Self::enc(self.deep_view()).len() <= usize::MAX,
        ensures
            r == Self::enc(self.deep_view()).len(),
    ;
}

/// One sequencing step for record proofs: on `enc(x) + rest`, the decoder
/// of `T` reads exactly `x`, and skipping what it consumed leaves `rest`.
pub proof fn lemma_field_step<T: MinecraftData>(x: T::V, rest: Seq<u8>)
    requires
        T::wf(x),
    ensures
        T::dec(T::enc(x) + rest) == Some((x, T::enc(x).len() as int)),
        (T::enc(x) + rest).skip(T::enc(x).len() as int) == rest,
{
    T::lemma_round_trip(x, rest);
    crate::seqs::lemma_concat_skip(T::enc(x), rest);
}

} // verus!
