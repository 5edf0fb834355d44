//! The VLESS protocol proper: the errors its header parsers report, and the
//! per-connection protocol value that drives the header phase of a
//! connection over accumulated transport bytes.

use vstd::prelude::*;
use vstd::string::StringSliceAdditionalSpecFns;

use crate::buffer_parser::read_bytes;
use crate::buffer_parser::BufferParseResult;
use crate::buffer_parser::BufferParser;
use crate::buffer_parser::SpecParseResult;
use crate::request::lemma_parse_request_invariants;
use crate::request::spec_parse_request;
use crate::request::SpecVlessRequestHeader;
use crate::request::VlessRequestHeader;
use crate::request::VlessrParseOptions;

verus! {

broadcast use {vstd::slice::group_slice_axioms, vstd::std_specs::vec::axiom_spec_len};

/// Everything that can be wrong with a VLESS header that has arrived in
/// full enough to be judged.
#[derive(Debug, PartialEq, Eq, Structural)]
pub enum VlessHeaderParseError {
    InvalidCommand,
    InvalidVersion,
    AddonIsNotSupported,
    InvalidAddress,
}

/// The VLESS protocol with its configured user: the first sixteen bytes of
/// the user string, zero-padded.  The header parser reads a client's user
/// id but no identity check is made against this value.
#[derive(Debug, Clone)]
pub struct VlessProtocol {
    user_id: Vec<u8>,
}

impl VlessProtocol {
    /// The configured sixteen-byte user id.
    pub closed spec fn spec_user_id(&self) -> Seq<u8> {
        self.user_id@
    }

    /// Build the protocol value for a user: the user string's bytes,
    /// truncated to sixteen and padded with zeros up to sixteen.
    pub fn new(user: &str) -> (proto: Self)
        ensures
            proto.spec_user_id().len() == 16,
            forall|i: int|
                0 <= i < 16 ==> proto.spec_user_id()[i] == (if i < user.spec_bytes().len() {
                    user.spec_bytes()[i]
                } else {
                    0u8
                }),
    {
        let bs: &[u8] = user.as_bytes();
        let l: usize = if bs.len() > 16 {
            16
        } else {
            bs.len()
        };
        let mut user_id: Vec<u8> = Vec::new();
        let mut i: usize = 0;
        while i < l
            invariant
                i <= l,
                l <= bs@.len(),
                l <= 16,
                bs@ == user.spec_bytes(),
                user_id@.len() == i as int,
                forall|j: int| 0 <= j < i as int ==> user_id@[j] == bs@[j],
            decreases l - i,
        {
            user_id.push(bs[i]);
            i = i + 1;
        }
        while user_id.len() < 16
            invariant
                l <= 16,
                bs@ == user.spec_bytes(),
                l as int <= user_id@.len() <= 16,
                l == 16 || l as int == bs@.len(),
                forall|j: int| 0 <= j < l as int ==> user_id@[j] == bs@[j],
                forall|j: int| l as int <= j < user_id@.len() ==> user_id@[j] == 0u8,
            decreases 16 - user_id@.len(),
        {
            user_id.push(0u8);
        }
        VlessProtocol { user_id }
    }

    /// A copy of the configured sixteen-byte user id.
    pub fn user_id(&self) -> (v: Vec<u8>)
        ensures
            v@ == self.spec_user_id(),
    {
        let out = read_bytes(self.user_id.as_slice(), 0, self.user_id.len());
        proof {
            assert(out@ =~= self.user_id@);
        }
        out
    }
}

/// Where the header phase of a connection stands after the bytes read so
/// far: more transport bytes are needed, the header is invalid and the
/// connection must close, or the header is complete — with the number of
/// buffer bytes it consumed and the leftover payload that follows it.
#[derive(Debug)]
pub enum HeaderProgress {
    NeedMore { needed: usize },
    Reject(VlessHeaderParseError),
    Established { header: VlessRequestHeader, consumed: usize, leftover: Vec<u8> },
}

/// The per-connection read buffer of the header phase: transport bytes
/// accumulate here until the request header is complete.
#[derive(Debug)]
pub struct ConnectionState {
    buffer: Vec<u8>,
}

impl ConnectionState {
    /// The bytes accumulated so far.
    pub closed spec fn spec_buffer(&self) -> Seq<u8> {
        self.buffer@
    }

    /// A fresh connection with nothing read yet.
    pub fn new() -> (s: Self)
        ensures
            s.spec_buffer() == Seq::<u8>::empty(),
    {
        ConnectionState { buffer: Vec::new() }
    }

    /// Append one transport read to the buffer.
    pub fn feed(&mut self, chunk: &[u8])
        ensures
            final(self).spec_buffer() == old(self).spec_buffer() + chunk@,
    {
        let clen: usize = chunk.len();
        let mut i: usize = 0;
        while i < clen
            invariant
                i <= clen,
                clen as int == chunk@.len(),
                self.buffer@ == old(self).buffer@ + chunk@.take(i as int),
            decreases clen - i,
        {
            let b: u8 = chunk[i];
            self.buffer.push(b);
            proof {
                assert(old(self).buffer@ + chunk@.take(i as int + 1) =~= (old(self).buffer@
                    + chunk@.take(i as int)).push(b));
            }
            i = i + 1;
        }
        proof {
            assert(chunk@.take(clen as int) =~= chunk@);
        }
    }

    /// Judge the bytes accumulated so far as a request header, with the
    /// default options.  On success the leftover payload — everything
    /// after the header — is handed back for delivery to the target.
    pub fn poll_header(&self) -> (r: HeaderProgress)
        ensures
            ({
                let outcome = spec_parse_request(
                    self.spec_buffer(),
                    VlessrParseOptions { is_fb: false },
                );
                match r {
                    HeaderProgress::NeedMore { needed } => outcome == (SpecParseResult::<
                        SpecVlessRequestHeader,
                        VlessHeaderParseError,
                    >::Incomplete { needed: needed as int }),
                    HeaderProgress::Reject(e) => outcome == (SpecParseResult::<
                        SpecVlessRequestHeader,
                        VlessHeaderParseError,
                    >::Error(e)),
                    HeaderProgress::Established { header, consumed, leftover } => {
                        &&& outcome == (SpecParseResult::<
                            SpecVlessRequestHeader,
                            VlessHeaderParseError,
                        >::Parsed { value: header@, size: consumed as int })
                        &&& leftover@ == self.spec_buffer().skip(consumed as int)
                    },
                }
            }),
    {
        proof {
            lemma_parse_request_invariants(self.buffer@, VlessrParseOptions { is_fb: false });
        }
        match VlessRequestHeader::parse_with_options(
            self.buffer.as_slice(),
            VlessrParseOptions { is_fb: false },
        ) {
            BufferParseResult::Incomplete { needed } => HeaderProgress::NeedMore { needed },
            BufferParseResult::Error(e) => HeaderProgress::Reject(e),
            BufferParseResult::Parsed { value, size } => {
                let leftover = read_bytes(self.buffer.as_slice(), size, self.buffer.len() - size);
                proof {
                    assert(leftover@ =~= self.buffer@.skip(size as int));
                }
                HeaderProgress::Established { header: value, consumed: size, leftover }
            },
        }
    }
}

} // verus!
