//! The VLESS response header codec: two bytes, both zero — the server's
//! protocol version and its (empty) addon length.

use vstd::prelude::*;

use crate::buffer_parser::BufferFormer;
use crate::buffer_parser::BufferParseResult;
use crate::buffer_parser::BufferParser;
use crate::buffer_parser::SpecParseResult;
use crate::vless::VlessHeaderParseError;

verus! {

broadcast use {vstd::slice::group_slice_axioms, vstd::std_specs::vec::axiom_spec_len};

/// The VLESS server response header.  It carries no data of its own: its
/// encoding is always the two zero bytes.
#[derive(Debug, PartialEq, Eq, Structural)]
pub struct VlessResponseHeader {}

/// The error type of the response former.  No function of this crate ever
/// constructs a value of it — forming a response header always succeeds
/// once the two output bytes exist, and the contracts promise an `Ok`.
#[derive(Debug)]
pub enum Never {
    Impossible,
}

impl View for VlessResponseHeader {
    type V = ();

    open spec fn view(&self) -> () {
        ()
    }
}

/// The encoding of the response header.
pub open spec fn spec_response_bytes() -> Seq<u8> {
    seq![0x00u8, 0x00u8]
}

/// What parsing a buffer as a response header yields: two bytes are
/// demanded, then each must be zero.
pub open spec fn spec_parse_response(buf: Seq<u8>) -> SpecParseResult<(), VlessHeaderParseError> {
    if buf.len() < 2 {
        SpecParseResult::Incomplete { needed: 2 - buf.len() }
    } else if buf[0] != 0x00 {
        SpecParseResult::Error(VlessHeaderParseError::InvalidVersion)
    } else if buf[1] != 0x00 {
        SpecParseResult::Error(VlessHeaderParseError::AddonIsNotSupported)
    } else {
        SpecParseResult::Parsed { value: (), size: 2 }
    }
}

impl BufferParser for VlessResponseHeader {
    type Error = VlessHeaderParseError;

    type ParseOptions = ();

    open spec fn spec_parse(buffer: Seq<u8>, options: ()) -> SpecParseResult<
        (),
        VlessHeaderParseError,
    > {
        spec_parse_response(buffer)
    }

    fn parse_with_options(buffer: &[u8], options: ()) -> (r: BufferParseResult<
        VlessResponseHeader,
        VlessHeaderParseError,
    >) {
        let n: usize = buffer.len();
        if n < 2 {
            return BufferParseResult::Incomplete { needed: 2 - n };
        }
        if buffer[0] != 0x00 {
            return BufferParseResult::Error(VlessHeaderParseError::InvalidVersion);
        }
        if buffer[1] != 0x00 {
            return BufferParseResult::Error(VlessHeaderParseError::AddonIsNotSupported);
        }
        BufferParseResult::Parsed { value: VlessResponseHeader {}, size: 2 }
    }
}

impl BufferFormer for VlessResponseHeader {
    type Error = Never;

    type FormingOptions = ();

    open spec fn spec_wf(v: ()) -> bool {
        true
    }

    open spec fn spec_form_pre(v: (), buffer: Seq<u8>, options: ()) -> bool {
        buffer.len() >= 2
    }

    open spec fn spec_size(v: (), options: ()) -> int {
        2
    }

    open spec fn spec_bytes(v: (), options: ()) -> Seq<u8> {
        spec_response_bytes()
    }

    proof fn lemma_bytes_len(v: (), options: ()) {
    }

    fn size_with_option(&self, options: &()) -> (n: usize) {
        2
    }

    fn form_with_option(&self, buffer: &mut Vec<u8>, options: &()) -> (r: Result<usize, Never>) {
        buffer[0] = 0x00;
        buffer[1] = 0x00;
        proof {
            assert(buffer@ =~= spec_response_bytes() + old(buffer)@.skip(2));
        }
        Ok(2)
    }
}

impl VlessResponseHeader {
    /// Parse with the default options.
    pub fn parse(buffer: &[u8]) -> (r: BufferParseResult<
        VlessResponseHeader,
        VlessHeaderParseError,
    >)
        ensures
            r.model() == spec_parse_response(buffer@),
    {
        Self::parse_with_options(buffer, ())
    }

    /// The byte length of the response header's encoding.
    pub fn size(&self) -> (n: usize)
        ensures
            n == 2,
    {
        2
    }

    /// Form with the default options: the buffer must hold the two bytes.
    pub fn form(&self, buffer: &mut Vec<u8>) -> (r: Result<usize, Never>)
        requires
            old(buffer)@.len() >= 2,
        ensures
            r matches Ok(n) && n == 2,
            final(buffer)@ == spec_response_bytes() + old(buffer)@.skip(2),
    {
        self.form_with_option(buffer, &())
    }

    /// The two response bytes as a fresh vector.
    pub fn to_bytes(&self) -> (out: Vec<u8>)
        ensures
            out@ == spec_response_bytes(),
    {
        let mut out: Vec<u8> = Vec::new();
        out.push(0x00);
        out.push(0x00);
        proof {
            assert(out@ =~= spec_response_bytes());
        }
        out
    }
}

/// Forming a response header emits exactly the two zero bytes, and parsing
/// any buffer of at least two bytes that starts with them consumes exactly
/// those two, whatever follows.
pub proof fn lemma_response_round_trip(buf: Seq<u8>)
    requires
        buf.len() >= 2,
        buf[0] == 0x00,
        buf[1] == 0x00,
    ensures
        spec_response_bytes() == seq![0x00u8, 0x00u8],
        spec_parse_response(buf) == (SpecParseResult::<(), VlessHeaderParseError>::Parsed {
            value: (),
            size: 2,
        }),
{
}

/// Every proper prefix of the response encoding parses as `Incomplete`.
pub proof fn lemma_response_prefix_incomplete(cut: int)
    requires
        0 <= cut < 2,
    ensures
        (spec_parse_response(spec_response_bytes().take(cut)) is Incomplete),
{
}

} // verus!
