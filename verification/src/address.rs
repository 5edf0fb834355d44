//! The address codec: a proxy destination in one of three families (IPv4,
//! domain name, IPv6), and the same address paired with a big-endian port.
//!
//! Wire format of a bare address: tag byte `0x01` plus 4 octets, tag `0x02`
//! plus a length byte and that many domain bytes, or tag `0x03` plus 16
//! octets.  Any other tag is an error.  The address-with-port framing puts
//! the two port bytes first, then the bare address.

use vstd::prelude::*;
use vstd::slice::slice_subrange;

use crate::buffer_parser::copy_into;
use crate::buffer_parser::read_bytes;
use crate::buffer_parser::BufferFormer;
use crate::buffer_parser::BufferParseResult;
use crate::buffer_parser::BufferParser;
use crate::buffer_parser::SpecParseResult;

verus! {

broadcast use {vstd::slice::group_slice_axioms, vstd::std_specs::vec::axiom_spec_len};

/// A proxy destination address.  Octets are held as plain bytes: 4 for
/// IPv4, 16 for IPv6, and up to 255 for a domain name.
#[derive(Debug, Clone, PartialEq, Eq)]
pub enum ProxyAddress {
    IPv4(Vec<u8>),
    Domain(Vec<u8>),
    IPv6(Vec<u8>),
}

/// Marker for the address codec.
pub struct ProxyAddressParser;

/// The first byte of an address was none of the three known tags.
#[derive(Debug, PartialEq, Eq, Structural)]
pub struct InvalidAddressType;

/// The output buffer handed to a former is shorter than the encoding.
#[derive(Debug, PartialEq, Eq, Structural)]
pub struct InsufficientBuffer;

/// Ghost model of a `ProxyAddress`: the octets as a byte sequence.
#[verifier::ext_equal]
pub ghost enum SpecProxyAddress {
    IPv4(Seq<u8>),
    Domain(Seq<u8>),
    IPv6(Seq<u8>),
}

impl View for ProxyAddress {
    type V = SpecProxyAddress;

    open spec fn view(&self) -> SpecProxyAddress {
        match self {
            ProxyAddress::IPv4(octets) => SpecProxyAddress::IPv4(octets@),
            ProxyAddress::Domain(name) => SpecProxyAddress::Domain(name@),
            ProxyAddress::IPv6(octets) => SpecProxyAddress::IPv6(octets@),
        }
    }
}

/// A well-formed address: the octet counts of its family, and a domain
/// short enough for its one-byte length field.
pub open spec fn spec_address_wf(a: SpecProxyAddress) -> bool {
    match a {
        SpecProxyAddress::IPv4(octets) => octets.len() == 4,
        SpecProxyAddress::Domain(name) => name.len() <= 255,
        SpecProxyAddress::IPv6(octets) => octets.len() == 16,
    }
}

/// Length in bytes of an address encoding.
pub open spec fn spec_address_size(a: SpecProxyAddress) -> int {
    match a {
        SpecProxyAddress::IPv4(_) => 5,
        SpecProxyAddress::Domain(name) => 2 + name.len() as int,
        SpecProxyAddress::IPv6(_) => 17,
    }
}

/// The encoding of an address: tag byte, then (for a domain) the length
/// byte, then the octets.
pub open spec fn spec_address_bytes(a: SpecProxyAddress) -> Seq<u8> {
    match a {
        SpecProxyAddress::IPv4(octets) => seq![0x01u8] + octets,
        SpecProxyAddress::Domain(name) => seq![0x02u8, name.len() as u8] + name,
        SpecProxyAddress::IPv6(octets) => seq![0x03u8] + octets,
    }
}

/// What parsing a buffer as a bare address yields.  At least three bytes
/// are demanded before the tag is inspected; each arm then reports the
/// exact gap to its own minimum size.
pub open spec fn spec_parse_address(buf: Seq<u8>) -> SpecParseResult<
    SpecProxyAddress,
    InvalidAddressType,
> {
    if buf.len() < 3 {
        SpecParseResult::Incomplete { needed: 3 - buf.len() }
    } else if buf[0] == 0x01 {
        if buf.len() < 5 {
            SpecParseResult::Incomplete { needed: 5 - buf.len() }
        } else {
            SpecParseResult::Parsed { value: SpecProxyAddress::IPv4(buf.subrange(1, 5)), size: 5 }
        }
    } else if buf[0] == 0x02 {
        let dlen = buf[1] as int;
        if buf.len() < 2 + dlen {
            SpecParseResult::Incomplete { needed: 2 + dlen - buf.len() }
        } else {
            SpecParseResult::Parsed {
                value: SpecProxyAddress::Domain(buf.subrange(2, 2 + dlen)),
                size: 2 + dlen,
            }
        }
    } else if buf[0] == 0x03 {
        if buf.len() < 17 {
            SpecParseResult::Incomplete { needed: 17 - buf.len() }
        } else {
            SpecParseResult::Parsed { value: SpecProxyAddress::IPv6(buf.subrange(1, 17)), size: 17 }
        }
    } else {
        SpecParseResult::Error(InvalidAddressType)
    }
}

/// Basic guarantees of the address parser: a parsed size never exceeds the
/// input, a parsed value is well formed, and an incompleteness report asks
/// for at least one byte.
pub proof fn lemma_parse_address_invariants(buf: Seq<u8>)
    ensures
        spec_parse_address(buf) matches SpecParseResult::Parsed { value, size } ==> 0 <= size
            <= buf.len() && spec_address_wf(value),
        spec_parse_address(buf) matches SpecParseResult::Incomplete { needed } ==> needed >= 1,
{
}

impl BufferParser for ProxyAddress {
    type Error = InvalidAddressType;

    type ParseOptions = ();

    open spec fn spec_parse(buffer: Seq<u8>, options: ()) -> SpecParseResult<
        SpecProxyAddress,
        InvalidAddressType,
    > {
        spec_parse_address(buffer)
    }

    fn parse_with_options(buffer: &[u8], options: ()) -> (r: BufferParseResult<
        ProxyAddress,
        InvalidAddressType,
    >) {
        let n: usize = buffer.len();
        if n < 3 {
            return BufferParseResult::Incomplete { needed: 3 - n };
        }
        let tag: u8 = buffer[0];
        if tag == 0x01 {
            if n < 5 {
                BufferParseResult::Incomplete { needed: 5 - n }
            } else {
                let octets = read_bytes(buffer, 1, 4);
                BufferParseResult::Parsed { value: ProxyAddress::IPv4(octets), size: 5 }
            }
        } else if tag == 0x02 {
            let dlen: usize = buffer[1] as usize;
            if n < 2 + dlen {
                BufferParseResult::Incomplete { needed: 2 + dlen - n }
            } else {
                let name = read_bytes(buffer, 2, dlen);
                BufferParseResult::Parsed { value: ProxyAddress::Domain(name), size: 2 + dlen }
            }
        } else if tag == 0x03 {
            if n < 17 {
                BufferParseResult::Incomplete { needed: 17 - n }
            } else {
                let octets = read_bytes(buffer, 1, 16);
                BufferParseResult::Parsed { value: ProxyAddress::IPv6(octets), size: 17 }
            }
        } else {
            BufferParseResult::Error(InvalidAddressType)
        }
    }
}

impl BufferFormer for ProxyAddress {
    type Error = InsufficientBuffer;

    type FormingOptions = ();

    open spec fn spec_wf(v: SpecProxyAddress) -> bool {
        spec_address_wf(v)
    }

    open spec fn spec_form_pre(v: SpecProxyAddress, buffer: Seq<u8>, options: ()) -> bool {
        true
    }

    open spec fn spec_size(v: SpecProxyAddress, options: ()) -> int {
        spec_address_size(v)
    }

    open spec fn spec_bytes(v: SpecProxyAddress, options: ()) -> Seq<u8> {
        spec_address_bytes(v)
    }

    proof fn lemma_bytes_len(v: SpecProxyAddress, options: ()) {
    }

    fn size_with_option(&self, options: &()) -> (n: usize) {
        match self {
            ProxyAddress::IPv4(_) => 5,
            ProxyAddress::Domain(name) => 2 + name.len(),
            ProxyAddress::IPv6(_) => 17,
        }
    }

    fn form_with_option(&self, buffer: &mut Vec<u8>, options: &()) -> (r: Result<
        usize,
        InsufficientBuffer,
    >) {
        let sz: usize = self.size_with_option(&());
        if buffer.len() < sz {
            return Err(InsufficientBuffer);
        }
        write_address_at(self, buffer, 0);
        proof {
            assert(buffer@ =~= spec_address_bytes(self@) + old(buffer)@.skip(sz as int));
        }
        Ok(sz)
    }
}

/// Write the encoding of `address` into `buffer` starting at `at`, leaving
/// every byte outside that window unchanged.
pub fn write_address_at(address: &ProxyAddress, buffer: &mut Vec<u8>, at: usize)
    requires
        spec_address_wf(address@),
        at as int + spec_address_size(address@) <= old(buffer)@.len(),
    ensures
        final(buffer)@.len() == old(buffer)@.len(),
        forall|j: int| 0 <= j < at as int ==> final(buffer)@[j] == old(buffer)@[j],
        forall|j: int|
            0 <= j < spec_address_size(address@) ==> final(buffer)@[at as int + j]
                == spec_address_bytes(address@)[j],
        forall|j: int|
            at as int + spec_address_size(address@) <= j < final(buffer)@.len()
                ==> final(buffer)@[j] == old(buffer)@[j],
{
    let total: usize = buffer.len();
    match address {
        ProxyAddress::IPv4(octets) => {
            buffer[at] = 0x01;
            copy_into(buffer, at + 1, octets.as_slice());
        },
        ProxyAddress::Domain(name) => {
            let dlen: usize = name.len();
            buffer[at] = 0x02;
            buffer[at + 1] = dlen as u8;
            copy_into(buffer, at + 2, name.as_slice());
        },
        ProxyAddress::IPv6(octets) => {
            buffer[at] = 0x03;
            copy_into(buffer, at + 1, octets.as_slice());
        },
    }
}

impl ProxyAddress {
    /// Parse with the default options.
    pub fn parse(buffer: &[u8]) -> (r: BufferParseResult<ProxyAddress, InvalidAddressType>)
        ensures
            r.model() == spec_parse_address(buffer@),
    {
        Self::parse_with_options(buffer, ())
    }

    /// The byte length of this address's encoding.
    pub fn size(&self) -> (n: usize)
        requires
            spec_address_wf(self@),
        ensures
            n as int == spec_address_size(self@),
    {
        self.size_with_option(&())
    }

    /// Form with the default options.
    pub fn form(&self, buffer: &mut Vec<u8>) -> (r: Result<usize, InsufficientBuffer>)
        requires
            spec_address_wf(self@),
        ensures
            old(buffer)@.len() >= spec_address_size(self@) ==> {
                &&& r matches Ok(n) && n as int == spec_address_size(self@)
                &&& final(buffer)@ == spec_address_bytes(self@) + old(buffer)@.skip(
                    spec_address_size(self@),
                )
            },
            old(buffer)@.len() < spec_address_size(self@) ==> r is Err && final(buffer)@ == old(
                buffer,
            )@,
    {
        self.form_with_option(buffer, &())
    }
}

/// Parsing the encoding of a well-formed address, with anything at all
/// appended, gives back exactly that address and consumes exactly its
/// encoding.  A domain must carry at least one byte: a shorter encoding
/// never reaches the three-byte floor of the parser.
pub proof fn lemma_address_parse_bytes(a: SpecProxyAddress, rest: Seq<u8>)
    requires
        spec_address_wf(a),
        a matches SpecProxyAddress::Domain(name) ==> name.len() >= 1,
    ensures
        spec_parse_address(spec_address_bytes(a) + rest) == (SpecParseResult::<
            SpecProxyAddress,
            InvalidAddressType,
        >::Parsed { value: a, size: spec_address_size(a) }),
{
    let e = spec_address_bytes(a) + rest;
    match a {
        SpecProxyAddress::IPv4(octets) => {
            assert(e.subrange(1, 5) =~= octets);
            assert(spec_parse_address(e) =~= SpecParseResult::<
                SpecProxyAddress,
                InvalidAddressType,
            >::Parsed { value: a, size: 5 });
        },
        SpecProxyAddress::Domain(name) => {
            let dlen = name.len() as int;
            assert(e[1] == name.len() as u8);
            assert(e[1] as int == dlen);
            assert(e.subrange(2, 2 + dlen) =~= name);
            assert(spec_parse_address(e) =~= SpecParseResult::<
                SpecProxyAddress,
                InvalidAddressType,
            >::Parsed { value: a, size: 2 + dlen });
        },
        SpecProxyAddress::IPv6(octets) => {
            assert(e.subrange(1, 17) =~= octets);
            assert(spec_parse_address(e) =~= SpecParseResult::<
                SpecProxyAddress,
                InvalidAddressType,
            >::Parsed { value: a, size: 17 });
        },
    }
}

/// The round-trip law for bare addresses: parsing the encoding of a
/// well-formed address (with a non-empty domain) yields the address itself
/// and its exact size.
pub proof fn lemma_address_round_trip(a: SpecProxyAddress)
    requires
        spec_address_wf(a),
        a matches SpecProxyAddress::Domain(name) ==> name.len() >= 1,
    ensures
        spec_parse_address(spec_address_bytes(a)) == (SpecParseResult::<
            SpecProxyAddress,
            InvalidAddressType,
        >::Parsed { value: a, size: spec_address_size(a) }),
{
    assert(spec_address_bytes(a) + Seq::<u8>::empty() =~= spec_address_bytes(a));
    lemma_address_parse_bytes(a, Seq::<u8>::empty());
}

/// An address together with its big-endian port.
#[derive(Debug, Clone, PartialEq, Eq)]
pub struct ProxyAddressWithPort {
    pub address: ProxyAddress,
    pub port: u16,
}

/// Ghost model of a `ProxyAddressWithPort`.
#[verifier::ext_equal]
pub ghost struct SpecProxyAddressWithPort {
    pub address: SpecProxyAddress,
    pub port: u16,
}

impl View for ProxyAddressWithPort {
    type V = SpecProxyAddressWithPort;

    open spec fn view(&self) -> SpecProxyAddressWithPort {
        SpecProxyAddressWithPort { address: self.address@, port: self.port }
    }
}

/// A well-formed address-with-port: its address is well formed.
pub open spec fn spec_address_with_port_wf(v: SpecProxyAddressWithPort) -> bool {
    spec_address_wf(v.address)
}

/// Length in bytes of an address-with-port encoding.
pub open spec fn spec_address_with_port_size(v: SpecProxyAddressWithPort) -> int {
    2 + spec_address_size(v.address)
}

/// The encoding: two big-endian port bytes, then the bare address.
pub open spec fn spec_address_with_port_bytes(v: SpecProxyAddressWithPort) -> Seq<u8> {
    seq![(v.port as int / 256) as u8, (v.port as int % 256) as u8] + spec_address_bytes(v.address)
}

/// What parsing a buffer as an address-with-port yields.  The port is read
/// before the three-byte floor is re-checked for the address itself; the
/// floor demanded here already covers both port bytes and the first
/// address byte.
pub open spec fn spec_parse_address_with_port(buf: Seq<u8>) -> SpecParseResult<
    SpecProxyAddressWithPort,
    InvalidAddressType,
> {
    if buf.len() < 3 {
        SpecParseResult::Incomplete { needed: 3 - buf.len() }
    } else {
        let port = ((buf[0] as int) * 256 + (buf[1] as int)) as u16;
        match spec_parse_address(buf.skip(2)) {
            SpecParseResult::Parsed { value, size } => SpecParseResult::Parsed {
                value: SpecProxyAddressWithPort { address: value, port },
                size: size + 2,
            },
            SpecParseResult::Incomplete { needed } => SpecParseResult::Incomplete { needed },
            SpecParseResult::Error(e) => SpecParseResult::Error(e),
        }
    }
}

/// Basic guarantees of the address-with-port parser, as for the bare
/// address parser.
pub proof fn lemma_parse_address_with_port_invariants(buf: Seq<u8>)
    ensures
        spec_parse_address_with_port(buf) matches SpecParseResult::Parsed { value, size } ==> 0
            <= size <= buf.len() && spec_address_with_port_wf(value),
        spec_parse_address_with_port(buf) matches SpecParseResult::Incomplete { needed } ==> needed
            >= 1,
{
    if buf.len() >= 3 {
        lemma_parse_address_invariants(buf.skip(2));
    }
}

impl BufferParser for ProxyAddressWithPort {
    type Error = InvalidAddressType;

    type ParseOptions = ();

    open spec fn spec_parse(buffer: Seq<u8>, options: ()) -> SpecParseResult<
        SpecProxyAddressWithPort,
        InvalidAddressType,
    > {
        spec_parse_address_with_port(buffer)
    }

    fn parse_with_options(buffer: &[u8], options: ()) -> (r: BufferParseResult<
        ProxyAddressWithPort,
        InvalidAddressType,
    >) {
        let n: usize = buffer.len();
        if n < 3 {
            return BufferParseResult::Incomplete { needed: 3 - n };
        }
        let port: u16 = (buffer[0] as u16) * 256 + (buffer[1] as u16);
        let sub: &[u8] = slice_subrange(buffer, 2, n);
        proof {
            assert(sub@ =~= buffer@.skip(2));
            lemma_parse_address_invariants(sub@);
        }
        match ProxyAddress::parse_with_options(sub, ()) {
            BufferParseResult::Parsed { value, size } => BufferParseResult::Parsed {
                value: ProxyAddressWithPort { address: value, port },
                size: size + 2,
            },
            BufferParseResult::Incomplete { needed } => BufferParseResult::Incomplete { needed },
            BufferParseResult::Error(e) => BufferParseResult::Error(e),
        }
    }
}

impl BufferFormer for ProxyAddressWithPort {
    type Error = InsufficientBuffer;

    type FormingOptions = ();

    open spec fn spec_wf(v: SpecProxyAddressWithPort) -> bool {
        spec_address_with_port_wf(v)
    }

    open spec fn spec_form_pre(v: SpecProxyAddressWithPort, buffer: Seq<u8>, options: ()) -> bool {
        true
    }

    open spec fn spec_size(v: SpecProxyAddressWithPort, options: ()) -> int {
        spec_address_with_port_size(v)
    }

    open spec fn spec_bytes(v: SpecProxyAddressWithPort, options: ()) -> Seq<u8> {
        spec_address_with_port_bytes(v)
    }

    proof fn lemma_bytes_len(v: SpecProxyAddressWithPort, options: ()) {
    }

    fn size_with_option(&self, options: &()) -> (n: usize) {
        2 + self.address.size_with_option(&())
    }

    fn form_with_option(&self, buffer: &mut Vec<u8>, options: &()) -> (r: Result<
        usize,
        InsufficientBuffer,
    >) {
        let sz: usize = 2 + self.address.size_with_option(&());
        if buffer.len() < sz {
            return Err(InsufficientBuffer);
        }
        write_address_with_port_at(self, buffer, 0);
        proof {
            assert(buffer@ =~= spec_address_with_port_bytes(self@) + old(buffer)@.skip(sz as int));
        }
        Ok(sz)
    }
}

/// Write the encoding of `v` into `buffer` starting at `at`, leaving every
/// byte outside that window unchanged.
pub fn write_address_with_port_at(v: &ProxyAddressWithPort, buffer: &mut Vec<u8>, at: usize)
    requires
        spec_address_with_port_wf(v@),
        at as int + spec_address_with_port_size(v@) <= old(buffer)@.len(),
    ensures
        final(buffer)@.len() == old(buffer)@.len(),
        forall|j: int| 0 <= j < at as int ==> final(buffer)@[j] == old(buffer)@[j],
        forall|j: int|
            0 <= j < spec_address_with_port_size(v@) ==> final(buffer)@[at as int + j]
                == spec_address_with_port_bytes(v@)[j],
        forall|j: int|
            at as int + spec_address_with_port_size(v@) <= j < final(buffer)@.len()
                ==> final(buffer)@[j] == old(buffer)@[j],
{
    let total: usize = buffer.len();
    buffer[at] = (v.port / 256) as u8;
    buffer[at + 1] = (v.port % 256) as u8;
    write_address_at(&v.address, buffer, at + 2);
}

impl ProxyAddressWithPort {
    /// Parse with the default options.
    pub fn parse(buffer: &[u8]) -> (r: BufferParseResult<
        ProxyAddressWithPort,
        InvalidAddressType,
    >)
        ensures
            r.model() == spec_parse_address_with_port(buffer@),
    {
        Self::parse_with_options(buffer, ())
    }

    /// The byte length of this value's encoding.
    pub fn size(&self) -> (n: usize)
        requires
            spec_address_with_port_wf(self@),
        ensures
            n as int == spec_address_with_port_size(self@),
    {
        self.size_with_option(&())
    }

    /// Form with the default options.
    pub fn form(&self, buffer: &mut Vec<u8>) -> (r: Result<usize, InsufficientBuffer>)
        requires
            spec_address_with_port_wf(self@),
        ensures
            old(buffer)@.len() >= spec_address_with_port_size(self@) ==> {
                &&& r matches Ok(n) && n as int == spec_address_with_port_size(self@)
                &&& final(buffer)@ == spec_address_with_port_bytes(self@) + old(buffer)@.skip(
                    spec_address_with_port_size(self@),
                )
            },
            old(buffer)@.len() < spec_address_with_port_size(self@) ==> r is Err && final(buffer)@
                == old(buffer)@,
    {
        self.form_with_option(buffer, &())
    }
}

/// Parsing the encoding of a well-formed address-with-port, with anything
/// appended, gives back exactly that value and its exact size.
pub proof fn lemma_address_with_port_parse_bytes(v: SpecProxyAddressWithPort, rest: Seq<u8>)
    requires
        spec_address_with_port_wf(v),
        v.address matches SpecProxyAddress::Domain(name) ==> name.len() >= 1,
    ensures
        spec_parse_address_with_port(spec_address_with_port_bytes(v) + rest) == (SpecParseResult::<
            SpecProxyAddressWithPort,
            InvalidAddressType,
        >::Parsed { value: v, size: spec_address_with_port_size(v) }),
{
    let e = spec_address_with_port_bytes(v) + rest;
    assert(e.skip(2) =~= spec_address_bytes(v.address) + rest);
    lemma_address_parse_bytes(v.address, rest);
    assert(((e[0] as int) * 256 + (e[1] as int)) as u16 == v.port);
}

/// The round-trip law for addresses with ports.
pub proof fn lemma_address_with_port_round_trip(v: SpecProxyAddressWithPort)
    requires
        spec_address_with_port_wf(v),
        v.address matches SpecProxyAddress::Domain(name) ==> name.len() >= 1,
    ensures
        spec_parse_address_with_port(spec_address_with_port_bytes(v)) == (SpecParseResult::<
            SpecProxyAddressWithPort,
            InvalidAddressType,
        >::Parsed { value: v, size: spec_address_with_port_size(v) }),
{
    assert(spec_address_with_port_bytes(v) + Seq::<u8>::empty() =~= spec_address_with_port_bytes(
        v,
    ));
    lemma_address_with_port_parse_bytes(v, Seq::<u8>::empty());
}

/// Every proper prefix of a well-formed address-with-port encoding parses
/// as `Incomplete`.
pub proof fn lemma_address_with_port_prefix_incomplete(v: SpecProxyAddressWithPort, cut: int)
    requires
        spec_address_with_port_wf(v),
        0 <= cut < spec_address_with_port_bytes(v).len(),
    ensures
        (spec_parse_address_with_port(spec_address_with_port_bytes(v).take(cut)) is Incomplete),
{
    let e = spec_address_with_port_bytes(v);
    let p = e.take(cut);
    if cut >= 3 {
        assert(p.skip(2) =~= spec_address_bytes(v.address).take(cut - 2));
        lemma_address_prefix_incomplete(v.address, cut - 2);
    }
}

/// Every proper prefix of a well-formed address encoding parses as
/// `Incomplete`, never as an error or a bogus value.
pub proof fn lemma_address_prefix_incomplete(a: SpecProxyAddress, cut: int)
    requires
        spec_address_wf(a),
        0 <= cut < spec_address_bytes(a).len(),
    ensures
        (spec_parse_address(spec_address_bytes(a).take(cut)) is Incomplete),
{
    let e = spec_address_bytes(a);
    let p = e.take(cut);
    if cut >= 1 {
        assert(p[0] == e[0]);
    }
    if cut >= 2 {
        assert(p[1] == e[1]);
    }
}

} // verus!
