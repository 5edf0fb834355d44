//! The generic contract that every codec of this crate implements: an
//! incremental `parse` that reports exactly how many further bytes it needs,
//! and a bounded `form` that writes a value's encoding into a caller-supplied
//! buffer.  Byte-copy helpers shared by the codecs live here as well.

use vstd::prelude::*;

verus! {

broadcast use {vstd::slice::group_slice_axioms, vstd::std_specs::vec::axiom_spec_len};

/// Outcome of one attempt to parse a value out of a byte buffer.
///
/// `Parsed` carries the decoded value together with the number of input
/// bytes consumed; `Incomplete` carries a lower bound (at least one) on the
/// additional bytes required before another attempt can make progress;
/// `Error` reports that the bytes already present cannot be parsed.
#[derive(Debug)]
pub enum BufferParseResult<T, E> {
    Parsed { value: T, size: usize },
    Incomplete { needed: usize },
    Error(E),
}

/// Ghost-level mirror of `BufferParseResult`, used to state what a parser
/// returns: the parsed value is replaced by its view and the sizes are
/// mathematical integers.
#[verifier::ext_equal]
pub ghost enum SpecParseResult<V, E> {
    Parsed { value: V, size: int },
    Incomplete { needed: int },
    Error(E),
}

impl<T: View, E> BufferParseResult<T, E> {
    /// The ghost value this outcome stands for.
    pub open spec fn model(self) -> SpecParseResult<T::V, E> {
        match self {
            BufferParseResult::Parsed { value, size } => SpecParseResult::Parsed {
                value: value@,
                size: size as int,
            },
            BufferParseResult::Incomplete { needed } => SpecParseResult::Incomplete {
                needed: needed as int,
            },
            BufferParseResult::Error(e) => SpecParseResult::Error(e),
        }
    }
}

/// A type that can be decoded incrementally from a byte buffer.
///
/// Each implementation fixes `spec_parse`, the mathematical description of
/// the decode, and `parse_with_options` is proved to return exactly that
/// outcome.  A parser inspects only the bytes it is given, never blocks,
/// and never mutates caller state.
pub trait BufferParser: View + Sized {
    type Error;

    type ParseOptions;

    /// What parsing `buffer` with `options` yields.
    spec fn spec_parse(buffer: Seq<u8>, options: Self::ParseOptions) -> SpecParseResult<
        Self::V,
        Self::Error,
    >;

    /// Parse a buffer with the given options.
    fn parse_with_options(buffer: &[u8], options: Self::ParseOptions) -> (r: BufferParseResult<
        Self,
        Self::Error,
    >)
        ensures
            r.model() == Self::spec_parse(buffer@, options),
    ;
}

/// A type that can be encoded into a caller-supplied byte buffer.
///
/// Each implementation fixes the exact encoding `spec_bytes` and its length
/// `spec_size`; `form_with_option` writes that encoding into the first
/// `spec_size` bytes of the buffer, leaves the remainder untouched, and
/// fails without touching anything when the buffer is too small.
pub trait BufferFormer: View + Sized {
    type Error;

    type FormingOptions;

    /// Values whose encoding is defined; forming demands it.
    spec fn spec_wf(v: Self::V) -> bool;

    /// Extra demand that forming places on the buffer, beyond what the
    /// outcome below already distinguishes.
    spec fn spec_form_pre(v: Self::V, buffer: Seq<u8>, options: Self::FormingOptions) -> bool;

    /// The exact byte length of the encoding.
    spec fn spec_size(v: Self::V, options: Self::FormingOptions) -> int;

    /// The encoding itself.
    spec fn spec_bytes(v: Self::V, options: Self::FormingOptions) -> Seq<u8>;

    /// The encoding is as long as `spec_size` says.
    proof fn lemma_bytes_len(v: Self::V, options: Self::FormingOptions)
        requires
            Self::spec_wf(v),
        ensures
            Self::spec_bytes(v, options).len() == Self::spec_size(v, options),
    ;

    /// Get the size of the data that will be formed.
    fn size_with_option(&self, options: &Self::FormingOptions) -> (n: usize)
        requires
            Self::spec_wf(self@),
        ensures
            n as int == Self::spec_size(self@, *options),
    ;

    /// Form the data into the given buffer.
    fn form_with_option(&self, buffer: &mut Vec<u8>, options: &Self::FormingOptions) -> (r: Result<
        usize,
        Self::Error,
    >)
        requires
            Self::spec_wf(self@),
            Self::spec_form_pre(self@, old(buffer)@, *options),
        ensures
            ({
                let sz = Self::spec_size(self@, *options);
                &&& old(buffer)@.len() >= sz ==> {
                    &&& r matches Ok(n) && n as int == sz
                    &&& final(buffer)@ == Self::spec_bytes(self@, *options) + old(buffer)@.skip(sz)
                }
                &&& old(buffer)@.len() < sz ==> r is Err && final(buffer)@ == old(buffer)@
            }),
    ;
}

/// Copy `count` bytes of `buffer`, starting at `start`, into a fresh vector.
pub fn read_bytes(buffer: &[u8], start: usize, count: usize) -> (out: Vec<u8>)
    requires
        start + count <= buffer@.len(),
    ensures
        out@ == buffer@.subrange(start as int, start as int + count as int),
{
    let n: usize = buffer.len();
    let mut out: Vec<u8> = Vec::new();
    let mut i: usize = 0;
    while i < count
        invariant
            i <= count,
            start + count <= n,
            n as int == buffer@.len(),
            out@.len() == i as int,
            forall|j: int| 0 <= j < i as int ==> out@[j] == buffer@[start as int + j],
        decreases count - i,
    {
        out.push(buffer[start + i]);
        i = i + 1;
    }
    proof {
        assert(out@ =~= buffer@.subrange(start as int, start as int + count as int));
    }
    out
}

/// Overwrite `dst[at .. at + src.len()]` with `src`, leaving the rest alone.
pub fn copy_into(dst: &mut Vec<u8>, at: usize, src: &[u8])
    requires
        at + src@.len() <= old(dst)@.len(),
    ensures
        final(dst)@.len() == old(dst)@.len(),
        forall|j: int| 0 <= j < at as int ==> final(dst)@[j] == old(dst)@[j],
        forall|j: int| 0 <= j < src@.len() ==> final(dst)@[at as int + j] == src@[j],
        forall|j: int|
            at as int + src@.len() <= j < final(dst)@.len() ==> final(dst)@[j] == old(dst)@[j],
{
    let dlen: usize = dst.len();
    let slen: usize = src.len();
    let mut i: usize = 0;
    while i < slen
        invariant
            i <= slen,
            slen as int == src@.len(),
            at + slen <= dlen,
            dlen as int == old(dst)@.len(),
            dst@.len() == old(dst)@.len(),
            forall|j: int| 0 <= j < at as int ==> dst@[j] == old(dst)@[j],
            forall|j: int| 0 <= j < i as int ==> dst@[at as int + j] == src@[j],
            forall|j: int| at as int + src@.len() <= j < dst@.len() ==> dst@[j] == old(dst)@[j],
        decreases src@.len() - i,
    {
        let b: u8 = src[i];
        dst[at + i] = b;
        i = i + 1;
    }
}

} // verus!
