//! The VLESS request header codec.  On the wire: a zero version byte, a
//! sixteen-byte user id, a zero addon-length byte, a command byte, and —
//! for the TCP and UDP commands — an address-with-port.  The Mux command
//! carries no address; parsing it substitutes a fixed sentinel
//! destination.

use vstd::prelude::*;
use vstd::slice::slice_subrange;

use crate::address::lemma_address_with_port_parse_bytes;
use crate::address::lemma_address_with_port_prefix_incomplete;
use crate::address::lemma_parse_address_with_port_invariants;
use crate::address::spec_address_with_port_bytes;
use crate::address::spec_address_with_port_size;
use crate::address::spec_address_with_port_wf;
use crate::address::spec_parse_address_with_port;
use crate::address::write_address_with_port_at;
use crate::address::InsufficientBuffer;
use crate::address::ProxyAddress;
use crate::address::ProxyAddressWithPort;
use crate::address::SpecProxyAddress;
use crate::address::SpecProxyAddressWithPort;
use crate::buffer_parser::copy_into;
use crate::buffer_parser::read_bytes;
use crate::buffer_parser::BufferFormer;
use crate::buffer_parser::BufferParseResult;
use crate::buffer_parser::BufferParser;
use crate::buffer_parser::SpecParseResult;
use crate::vless::VlessHeaderParseError;

verus! {

broadcast use {vstd::slice::group_slice_axioms, vstd::std_specs::vec::axiom_spec_len};

/// A parsed VLESS client request header.  The user id is held as its
/// sixteen raw bytes; no identity check is made against it.
#[derive(Debug, Clone, PartialEq, Eq)]
pub struct VlessRequestHeader {
    pub address: ProxyAddressWithPort,
    pub user: Vec<u8>,
    pub command: VlessCommand,
}

/// The command a VLESS client requests.
#[derive(Debug, Clone, Copy, PartialEq, Eq, Structural)]
pub enum VlessCommand {
    Mux,
    Tcp,
    Udp,
}

/// Options of the request-header parser: the fallback-fronting flag
/// doubles the pre-command prefix from seventeen to thirty-four bytes.
#[derive(Copy, Clone, Default)]
pub struct VlessrParseOptions {
    pub is_fb: bool,
}

/// Ghost model of a request header.
#[verifier::ext_equal]
pub ghost struct SpecVlessRequestHeader {
    pub address: SpecProxyAddressWithPort,
    pub user: Seq<u8>,
    pub command: VlessCommand,
}

impl View for VlessRequestHeader {
    type V = SpecVlessRequestHeader;

    open spec fn view(&self) -> SpecVlessRequestHeader {
        SpecVlessRequestHeader {
            address: self.address@,
            user: self.user@,
            command: self.command,
        }
    }
}

/// The bytes of the sentinel domain substituted for a Mux request,
/// `v1.mux.cool`.
pub open spec fn spec_mux_domain() -> Seq<u8> {
    seq![0x76u8, 0x31, 0x2e, 0x6d, 0x75, 0x78, 0x2e, 0x63, 0x6f, 0x6f, 0x6c]
}

/// The sentinel destination substituted for a Mux request: the sentinel
/// domain with port zero.
pub open spec fn spec_mux_destination() -> SpecProxyAddressWithPort {
    SpecProxyAddressWithPort { address: SpecProxyAddress::Domain(spec_mux_domain()), port: 0 }
}

/// Build the sentinel Mux destination.
pub fn mux_destination() -> (d: ProxyAddressWithPort)
    ensures
        d@ == spec_mux_destination(),
{
    let mut name: Vec<u8> = Vec::new();
    name.push(0x76);
    name.push(0x31);
    name.push(0x2e);
    name.push(0x6d);
    name.push(0x75);
    name.push(0x78);
    name.push(0x2e);
    name.push(0x63);
    name.push(0x6f);
    name.push(0x6f);
    name.push(0x6c);
    proof {
        assert(name@ =~= spec_mux_domain());
    }
    ProxyAddressWithPort { address: ProxyAddress::Domain(name), port: 0 }
}

/// Length of everything before the command byte: version, user id, and —
/// under the fallback flag — a second such span.
pub open spec fn spec_request_prefix(opts: VlessrParseOptions) -> int {
    if opts.is_fb {
        34
    } else {
        17
    }
}

/// The byte value of a command.
pub open spec fn spec_command_byte(c: VlessCommand) -> u8 {
    match c {
        VlessCommand::Tcp => 0x01,
        VlessCommand::Udp => 0x02,
        VlessCommand::Mux => 0x03,
    }
}

/// What parsing a buffer as a request header yields.  Enough bytes to
/// reach past the command byte are demanded first; then the version byte,
/// the addon byte and the command byte are judged in that order, and for
/// TCP and UDP the remainder is parsed as an address-with-port, whose
/// error is folded into `InvalidAddress`.
pub open spec fn spec_parse_request(buf: Seq<u8>, opts: VlessrParseOptions) -> SpecParseResult<
    SpecVlessRequestHeader,
    VlessHeaderParseError,
> {
    let cmd_at = spec_request_prefix(opts) + 1;
    if buf.len() < cmd_at + 1 {
        SpecParseResult::Incomplete { needed: cmd_at + 1 - buf.len() }
    } else if buf[0] != 0x00 {
        SpecParseResult::Error(VlessHeaderParseError::InvalidVersion)
    } else if buf[17] != 0x00 {
        SpecParseResult::Error(VlessHeaderParseError::AddonIsNotSupported)
    } else if buf[cmd_at] == 0x01 || buf[cmd_at] == 0x02 {
        let command = if buf[cmd_at] == 0x01 {
            VlessCommand::Tcp
        } else {
            VlessCommand::Udp
        };
        match spec_parse_address_with_port(buf.skip(cmd_at + 1)) {
            SpecParseResult::Parsed { value, size } => SpecParseResult::Parsed {
                value: SpecVlessRequestHeader {
                    address: value,
                    user: buf.subrange(1, 17),
                    command,
                },
                size: cmd_at + 1 + size,
            },
            SpecParseResult::Incomplete { needed } => SpecParseResult::Incomplete { needed },
            SpecParseResult::Error(_) => SpecParseResult::Error(
                VlessHeaderParseError::InvalidAddress,
            ),
        }
    } else if buf[cmd_at] == 0x03 {
        SpecParseResult::Parsed {
            value: SpecVlessRequestHeader {
                address: spec_mux_destination(),
                user: buf.subrange(1, 17),
                command: VlessCommand::Mux,
            },
            size: cmd_at + 1,
        }
    } else {
        SpecParseResult::Error(VlessHeaderParseError::InvalidCommand)
    }
}

/// Basic guarantees of the request parser: a parsed size never exceeds the
/// input, the parsed header is well formed, and an incompleteness report
/// asks for at least one byte.
pub proof fn lemma_parse_request_invariants(buf: Seq<u8>, opts: VlessrParseOptions)
    ensures
        spec_parse_request(buf, opts) matches SpecParseResult::Parsed { value, size } ==> 0 <= size
            <= buf.len() && spec_request_wf(value),
        spec_parse_request(buf, opts) matches SpecParseResult::Incomplete { needed } ==> needed
            >= 1,
{
    let cmd_at = spec_request_prefix(opts) + 1;
    if buf.len() >= cmd_at + 1 {
        lemma_parse_address_with_port_invariants(buf.skip(cmd_at + 1));
    }
}

/// A well-formed request header: a sixteen-byte user id and a well-formed
/// destination.
pub open spec fn spec_request_wf(h: SpecVlessRequestHeader) -> bool {
    &&& h.user.len() == 16
    &&& spec_address_with_port_wf(h.address)
}

/// Length in bytes of a request header encoding: nineteen fixed bytes,
/// plus the destination except under Mux, which carries none.
pub open spec fn spec_request_size(h: SpecVlessRequestHeader) -> int {
    if h.command is Mux {
        19
    } else {
        19 + spec_address_with_port_size(h.address)
    }
}

/// The encoding of a request header.
pub open spec fn spec_request_bytes(h: SpecVlessRequestHeader) -> Seq<u8> {
    seq![0x00u8] + h.user + seq![0x00u8, spec_command_byte(h.command)] + (if h.command is Mux {
        Seq::<u8>::empty()
    } else {
        spec_address_with_port_bytes(h.address)
    })
}

impl BufferParser for VlessRequestHeader {
    type Error = VlessHeaderParseError;

    type ParseOptions = VlessrParseOptions;

    open spec fn spec_parse(buffer: Seq<u8>, options: VlessrParseOptions) -> SpecParseResult<
        SpecVlessRequestHeader,
        VlessHeaderParseError,
    > {
        spec_parse_request(buffer, options)
    }

    fn parse_with_options(buffer: &[u8], options: VlessrParseOptions) -> (r: BufferParseResult<
        VlessRequestHeader,
        VlessHeaderParseError,
    >) {
        let n: usize = buffer.len();
        let cmd_at: usize = if options.is_fb {
            35
        } else {
            18
        };
        if n < cmd_at + 1 {
            return BufferParseResult::Incomplete { needed: cmd_at + 1 - n };
        }
        if buffer[0] != 0x00 {
            return BufferParseResult::Error(VlessHeaderParseError::InvalidVersion);
        }
        let user = read_bytes(buffer, 1, 16);
        if buffer[17] != 0x00 {
            return BufferParseResult::Error(VlessHeaderParseError::AddonIsNotSupported);
        }
        let cmd: u8 = buffer[cmd_at];
        if cmd == 0x01 || cmd == 0x02 {
            let command = if cmd == 0x01 {
                VlessCommand::Tcp
            } else {
                VlessCommand::Udp
            };
            let sub: &[u8] = slice_subrange(buffer, cmd_at + 1, n);
            proof {
                assert(sub@ =~= buffer@.skip(cmd_at as int + 1));
                lemma_parse_address_with_port_invariants(sub@);
            }
            match ProxyAddressWithPort::parse_with_options(sub, ()) {
                BufferParseResult::Parsed { value, size } => BufferParseResult::Parsed {
                    value: VlessRequestHeader { address: value, user, command },
                    size: cmd_at + 1 + size,
                },
                BufferParseResult::Incomplete { needed } => BufferParseResult::Incomplete {
                    needed,
                },
                BufferParseResult::Error(_) => BufferParseResult::Error(
                    VlessHeaderParseError::InvalidAddress,
                ),
            }
        } else if cmd == 0x03 {
            BufferParseResult::Parsed {
                value: VlessRequestHeader {
                    address: mux_destination(),
                    user,
                    command: VlessCommand::Mux,
                },
                size: cmd_at + 1,
            }
        } else {
            BufferParseResult::Error(VlessHeaderParseError::InvalidCommand)
        }
    }
}

impl BufferFormer for VlessRequestHeader {
    type Error = InsufficientBuffer;

    type FormingOptions = ();

    open spec fn spec_wf(v: SpecVlessRequestHeader) -> bool {
        spec_request_wf(v)
    }

    open spec fn spec_form_pre(v: SpecVlessRequestHeader, buffer: Seq<u8>, options: ()) -> bool {
        true
    }

    open spec fn spec_size(v: SpecVlessRequestHeader, options: ()) -> int {
        spec_request_size(v)
    }

    open spec fn spec_bytes(v: SpecVlessRequestHeader, options: ()) -> Seq<u8> {
        spec_request_bytes(v)
    }

    proof fn lemma_bytes_len(v: SpecVlessRequestHeader, options: ()) {
    }

    fn size_with_option(&self, options: &()) -> (n: usize) {
        match self.command {
            VlessCommand::Mux => 19,
            _ => 19 + self.address.size(),
        }
    }

    fn form_with_option(&self, buffer: &mut Vec<u8>, options: &()) -> (r: Result<
        usize,
        InsufficientBuffer,
    >) {
        let sz: usize = self.size_with_option(&());
        if buffer.len() < sz {
            return Err(InsufficientBuffer);
        }
        buffer[0] = 0x00;
        copy_into(buffer, 1, self.user.as_slice());
        buffer[17] = 0x00;
        buffer[18] = match self.command {
            VlessCommand::Tcp => 0x01,
            VlessCommand::Udp => 0x02,
            VlessCommand::Mux => 0x03,
        };
        match self.command {
            VlessCommand::Mux => {},
            _ => {
                write_address_with_port_at(&self.address, buffer, 19);
            },
        }
        proof {
            assert(buffer@ =~= spec_request_bytes(self@) + old(buffer)@.skip(sz as int));
        }
        Ok(sz)
    }
}

impl VlessRequestHeader {
    /// Parse with the default options.
    pub fn parse(buffer: &[u8]) -> (r: BufferParseResult<
        VlessRequestHeader,
        VlessHeaderParseError,
    >)
        ensures
            r.model() == spec_parse_request(buffer@, VlessrParseOptions { is_fb: false }),
    {
        Self::parse_with_options(buffer, VlessrParseOptions { is_fb: false })
    }

    /// The byte length of this header's encoding.
    pub fn size(&self) -> (n: usize)
        requires
            spec_request_wf(self@),
        ensures
            n as int == spec_request_size(self@),
    {
        self.size_with_option(&())
    }

    /// Form with the default options.
    pub fn form(&self, buffer: &mut Vec<u8>) -> (r: Result<usize, InsufficientBuffer>)
        requires
            spec_request_wf(self@),
        ensures
            old(buffer)@.len() >= spec_request_size(self@) ==> {
                &&& r matches Ok(n) && n as int == spec_request_size(self@)
                &&& final(buffer)@ == spec_request_bytes(self@) + old(buffer)@.skip(
                    spec_request_size(self@),
                )
            },
            old(buffer)@.len() < spec_request_size(self@) ==> r is Err && final(buffer)@ == old(
                buffer,
            )@,
    {
        self.form_with_option(buffer, &())
    }
}

/// Parsing the encoding of a well-formed TCP or UDP request header, with
/// anything appended, gives back exactly that header and its exact size.
pub proof fn lemma_request_parse_bytes(h: SpecVlessRequestHeader, rest: Seq<u8>)
    requires
        spec_request_wf(h),
        h.command is Tcp || h.command is Udp,
        h.address.address matches SpecProxyAddress::Domain(name) ==> name.len() >= 1,
    ensures
        spec_parse_request(spec_request_bytes(h) + rest, VlessrParseOptions { is_fb: false })
            == (SpecParseResult::<SpecVlessRequestHeader, VlessHeaderParseError>::Parsed {
            value: h,
            size: spec_request_size(h),
        }),
{
    let e = spec_request_bytes(h) + rest;
    assert(e[0] == 0x00);
    assert(e[17] == 0x00);
    assert(e[18] == spec_command_byte(h.command));
    assert(e.skip(19) =~= spec_address_with_port_bytes(h.address) + rest);
    lemma_address_with_port_parse_bytes(h.address, rest);
    assert(e.subrange(1, 17) =~= h.user);
}

/// The round-trip law for TCP and UDP request headers.
pub proof fn lemma_request_round_trip(h: SpecVlessRequestHeader)
    requires
        spec_request_wf(h),
        h.command is Tcp || h.command is Udp,
        h.address.address matches SpecProxyAddress::Domain(name) ==> name.len() >= 1,
    ensures
        spec_parse_request(spec_request_bytes(h), VlessrParseOptions { is_fb: false })
            == (SpecParseResult::<SpecVlessRequestHeader, VlessHeaderParseError>::Parsed {
            value: h,
            size: spec_request_size(h),
        }),
{
    assert(spec_request_bytes(h) + Seq::<u8>::empty() =~= spec_request_bytes(h));
    lemma_request_parse_bytes(h, Seq::<u8>::empty());
}

/// A Mux request header forms exactly nineteen bytes, and parsing them,
/// with anything appended, yields a Mux header whose destination is the
/// sentinel, whatever destination the formed header carried.
pub proof fn lemma_request_mux_round_trip(h: SpecVlessRequestHeader, rest: Seq<u8>)
    requires
        spec_request_wf(h),
        h.command is Mux,
    ensures
        spec_request_bytes(h).len() == 19,
        spec_parse_request(spec_request_bytes(h) + rest, VlessrParseOptions { is_fb: false })
            == (SpecParseResult::<SpecVlessRequestHeader, VlessHeaderParseError>::Parsed {
            value: SpecVlessRequestHeader {
                address: spec_mux_destination(),
                user: h.user,
                command: VlessCommand::Mux,
            },
            size: 19,
        }),
{
    let e = spec_request_bytes(h) + rest;
    assert(e[0] == 0x00);
    assert(e[17] == 0x00);
    assert(e[18] == 0x03);
    assert(e.subrange(1, 17) =~= h.user);
}

/// Every proper prefix of a well-formed request header encoding parses as
/// `Incomplete`.
pub proof fn lemma_request_prefix_incomplete(h: SpecVlessRequestHeader, cut: int)
    requires
        spec_request_wf(h),
        0 <= cut < spec_request_bytes(h).len(),
    ensures
        (spec_parse_request(
            spec_request_bytes(h).take(cut),
            VlessrParseOptions { is_fb: false },
        ) is Incomplete),
{
    let e = spec_request_bytes(h);
    let p = e.take(cut);
    if cut >= 19 {
        assert(p[0] == e[0] && e[0] == 0x00);
        assert(p[17] == e[17] && e[17] == 0x00);
        assert(p[18] == e[18] && e[18] == spec_command_byte(h.command));
        assert(!(h.command is Mux));
        assert(p.skip(19) =~= spec_address_with_port_bytes(h.address).take(cut - 19));
        lemma_address_with_port_prefix_incomplete(h.address, cut - 19);
    }
}

} // verus!
