//! The SOCKS5 wire types and codec, and the negotiation state machine:
//! greeting and method selection, the username/password sub-protocol, the
//! request frame, and response encoding, all per the protocol's framing
//! rules.

use vstd::prelude::*;

use crate::auth::{spec_outcome_granted, AuthError};
use crate::config::Config;

verus! {

/// The protocol version byte.
pub const SOCKS_VERSION: u8 = 0x05;

/// The username/password sub-negotiation version byte.
pub const SUBAUTH_VERSION: u8 = 0x01;

/// Reply code: request granted.
pub const REPLY_SUCCESS: u8 = 0x00;

/// Reply code: general failure.
pub const REPLY_GENERAL_FAILURE: u8 = 0x01;

/// Reply code: host unreachable (resolution failed).
pub const REPLY_HOST_UNREACHABLE: u8 = 0x04;

/// Reply code: connection refused by the target.
pub const REPLY_CONNECTION_REFUSED: u8 = 0x05;

/// Reply code: command not supported.
pub const REPLY_COMMAND_NOT_SUPPORTED: u8 = 0x07;

/// An authentication method offered in the greeting.
#[derive(Debug, Clone, Copy, PartialEq, Eq, Structural)]
pub enum AuthMethod {
    NoAuth,
    UserPass,
    NoAcceptable,
}

pub open spec fn spec_auth_method_from(value: u8) -> AuthMethod {
    if value == 0x00 {
        AuthMethod::NoAuth
    } else if value == 0x02 {
        AuthMethod::UserPass
    } else {
        AuthMethod::NoAcceptable
    }
}

impl From<u8> for AuthMethod {
    fn from(value: u8) -> Self {
        if value == 0x00 {
            AuthMethod::NoAuth
        } else if value == 0x02 {
            AuthMethod::UserPass
        } else {
            AuthMethod::NoAcceptable
        }
    }
}

impl vstd::std_specs::convert::FromSpecImpl<u8> for AuthMethod {
    open spec fn obeys_from_spec() -> bool {
        true
    }

    open spec fn from_spec(value: u8) -> Self {
        spec_auth_method_from(value)
    }
}

impl AuthMethod {
    /// The byte that names this method on the wire.
    pub open spec fn spec_byte(self) -> u8 {
        match self {
            AuthMethod::NoAuth => 0x00,
            AuthMethod::UserPass => 0x02,
            AuthMethod::NoAcceptable => 0xff,
        }
    }

    pub fn byte(&self) -> (r: u8)
        ensures
            r == self.spec_byte(),
    {
        match self {
            AuthMethod::NoAuth => 0x00,
            AuthMethod::UserPass => 0x02,
            AuthMethod::NoAcceptable => 0xff,
        }
    }
}

/// A request command.
#[derive(Debug, Clone, Copy, PartialEq, Eq, Structural)]
pub enum Command {
    Connect,
    Bind,
    UdpAssociate,
}

/// The bytes that name a command on the wire.
pub open spec fn spec_is_command_byte(value: u8) -> bool {
    value == 0x01 || value == 0x02 || value == 0x03
}

/// The catch-all conversion maps bytes outside the command table to
/// `Connect`; the request parser refuses such bytes before converting.
pub open spec fn spec_command_from(value: u8) -> Command {
    if value == 0x02 {
        Command::Bind
    } else if value == 0x03 {
        Command::UdpAssociate
    } else {
        Command::Connect
    }
}

impl From<u8> for Command {
    fn from(value: u8) -> Self {
        if value == 0x02 {
            Command::Bind
        } else if value == 0x03 {
            Command::UdpAssociate
        } else {
            Command::Connect
        }
    }
}

impl vstd::std_specs::convert::FromSpecImpl<u8> for Command {
    open spec fn obeys_from_spec() -> bool {
        true
    }

    open spec fn from_spec(value: u8) -> Self {
        spec_command_from(value)
    }
}

/// An address framing tag.
#[derive(Debug, Clone, Copy, PartialEq, Eq, Structural)]
pub enum AddressType {
    IPv4,
    DomainName,
    IPv6,
}

/// The bytes that name an address type on the wire.
pub open spec fn spec_is_address_type_byte(value: u8) -> bool {
    value == 0x01 || value == 0x03 || value == 0x04
}

/// The catch-all conversion maps bytes outside the address-type table to
/// `DomainName`; the request parser refuses such bytes before converting.
pub open spec fn spec_address_type_from(value: u8) -> AddressType {
    if value == 0x01 {
        AddressType::IPv4
    } else if value == 0x04 {
        AddressType::IPv6
    } else {
        AddressType::DomainName
    }
}

impl From<u8> for AddressType {
    fn from(value: u8) -> Self {
        if value == 0x01 {
            AddressType::IPv4
        } else if value == 0x04 {
            AddressType::IPv6
        } else {
            AddressType::DomainName
        }
    }
}

impl vstd::std_specs::convert::FromSpecImpl<u8> for AddressType {
    open spec fn obeys_from_spec() -> bool {
        true
    }

    open spec fn from_spec(value: u8) -> Self {
        spec_address_type_from(value)
    }
}

/// A target address: four IPv4 octets, sixteen IPv6 octets, or a domain
/// name's bytes.
#[derive(Debug, Clone, PartialEq)]
pub enum Address {
    IPv4(Vec<u8>),
    IPv6(Vec<u8>),
    DomainName(Vec<u8>),
}

/// The mathematical shape of an address.
pub enum AddressModel {
    V4(Seq<u8>),
    V6(Seq<u8>),
    Domain(Seq<u8>),
}

impl View for Address {
    type V = AddressModel;

    open spec fn view(&self) -> AddressModel {
        match self {
            Address::IPv4(o) => AddressModel::V4(o@),
            Address::IPv6(o) => AddressModel::V6(o@),
            Address::DomainName(d) => AddressModel::Domain(d@),
        }
    }
}

/// Octet counts as the wire demands them: four for IPv4, sixteen for IPv6,
/// and a domain name short enough for its one-byte length.
pub open spec fn spec_wf_addr(a: AddressModel) -> bool {
    match a {
        AddressModel::V4(o) => o.len() == 4,
        AddressModel::V6(o) => o.len() == 16,
        AddressModel::Domain(d) => d.len() <= 255,
    }
}

impl Address {
    pub open spec fn wf(self) -> bool {
        spec_wf_addr(self@)
    }
}

/// The address-type byte an address is framed under.
pub open spec fn spec_addr_type_byte(a: AddressModel) -> u8 {
    match a {
        AddressModel::V4(_) => 0x01,
        AddressModel::V6(_) => 0x04,
        AddressModel::Domain(_) => 0x03,
    }
}

/// The payload bytes of an address: raw octets, or a length byte followed by
/// the domain bytes.
pub open spec fn spec_addr_payload(a: AddressModel) -> Seq<u8> {
    match a {
        AddressModel::V4(o) => o,
        AddressModel::V6(o) => o,
        AddressModel::Domain(d) => seq![d.len() as u8] + d,
    }
}

/// A port in network byte order.
pub open spec fn spec_port_bytes(port: u16) -> Seq<u8> {
    seq![(port / 256) as u8, (port % 256) as u8]
}

/// A parsed request.
#[derive(Debug, Clone, PartialEq)]
pub struct Socks5Request {
    pub command: Command,
    pub address: Address,
    pub port: u16,
}

impl Socks5Request {
    pub open spec fn wf(self) -> bool {
        self.address.wf()
    }
}

/// A reply to the client: the reply code, the bound address and its port.
#[derive(Debug, Clone, PartialEq)]
pub struct Socks5Response {
    pub reply: u8,
    pub address: Address,
    pub port: u16,
}

/// The bytes a response is sent as:
/// `ver | rep | rsv | atyp | addr | port_be`.
pub open spec fn spec_encode_response(reply: u8, addr: AddressModel, port: u16) -> Seq<u8> {
    seq![5u8, reply, 0u8, spec_addr_type_byte(addr)] + spec_addr_payload(addr) + spec_port_bytes(
        port,
    )
}

/// What response bytes decode to, if anything: the exact inverse of
/// [`spec_encode_response`] on well-formed responses.
pub open spec fn spec_decode_response(b: Seq<u8>) -> Option<(u8, AddressModel, u16)> {
    if b.len() < 4 || b[0] != 5 || b[2] != 0 {
        None
    } else if b[3] == 1 {
        if b.len() == 10 {
            Some(
                (
                    b[1],
                    AddressModel::V4(b.subrange(4, 8)),
                    (b[8] as u16 * 256 + b[9] as u16) as u16,
                ),
            )
        } else {
            None
        }
    } else if b[3] == 4 {
        if b.len() == 22 {
            Some(
                (
                    b[1],
                    AddressModel::V6(b.subrange(4, 20)),
                    (b[20] as u16 * 256 + b[21] as u16) as u16,
                ),
            )
        } else {
            None
        }
    } else if b[3] == 3 {
        if b.len() >= 5 && b.len() == 7 + b[4] as int {
            Some(
                (
                    b[1],
                    AddressModel::Domain(b.subrange(5, 5 + b[4] as int)),
                    (b[b.len() - 2] as u16 * 256 + b[b.len() - 1] as u16) as u16,
                ),
            )
        } else {
            None
        }
    } else {
        None
    }
}

impl Socks5Response {
    pub open spec fn wf(self) -> bool {
        self.address.wf()
    }

    /// A success reply carrying the locally bound address of the outbound
    /// connection.
    pub fn new_success(address: Address, port: u16) -> (r: Self)
        ensures
            r.reply == REPLY_SUCCESS,
            r.address == address,
            r.port == port,
    {
        Socks5Response { reply: REPLY_SUCCESS, address, port }
    }

    /// An error reply; the address is `0.0.0.0:0`.
    pub fn new_error(reply_code: u8) -> (r: Self)
        ensures
            r.reply == reply_code,
            r.address@ == AddressModel::V4(seq![0u8, 0u8, 0u8, 0u8]),
            r.port == 0,
            r.wf(),
    {
        let mut octets: Vec<u8> = Vec::new();
        octets.push(0);
        octets.push(0);
        octets.push(0);
        octets.push(0);
        proof {
            assert(octets@ =~= seq![0u8, 0u8, 0u8, 0u8]);
        }
        Socks5Response { reply: reply_code, address: Address::IPv4(octets), port: 0 }
    }
}

/// Appends every byte of `src` to `out`.
fn push_all(out: &mut Vec<u8>, src: &Vec<u8>)
    ensures
        final(out)@ == old(out)@ + src@,
{
    let n = src.len();
    for i in 0..n
        invariant
            n == src@.len(),
            out@ == old(out)@ + src@.take(i as int),
    {
        out.push(src[i]);
        proof {
            assert(old(out)@ + src@.take(i + 1) =~= (old(out)@ + src@.take(i as int)).push(
                src@[i as int],
            ));
        }
    }
    proof {
        assert(old(out)@ + src@.take(n as int) =~= old(out)@ + src@);
    }
}

/// Encodes a response for the wire.
pub fn encode_response(resp: &Socks5Response) -> (out: Vec<u8>)
    requires
        resp.wf(),
    ensures
        out@ == spec_encode_response(resp.reply, resp.address@, resp.port),
{
    let mut out: Vec<u8> = Vec::new();
    out.push(SOCKS_VERSION);
    out.push(resp.reply);
    out.push(0x00);
    match &resp.address {
        Address::IPv4(o) => {
            out.push(0x01);
            push_all(&mut out, o);
        },
        Address::IPv6(o) => {
            out.push(0x04);
            push_all(&mut out, o);
        },
        Address::DomainName(d) => {
            out.push(0x03);
            out.push(d.len() as u8);
            push_all(&mut out, d);
        },
    }
    out.push((resp.port / 256) as u8);
    out.push((resp.port % 256) as u8);
    proof {
        assert(out@ =~= spec_encode_response(resp.reply, resp.address@, resp.port));
    }
    out
}

/// Copies `len` bytes of `src` starting at `from`.
fn copy_range(src: &Vec<u8>, from: usize, len: usize) -> (out: Vec<u8>)
    requires
        from + len <= src@.len(),
    ensures
        out@ == src@.subrange(from as int, from as int + len as int),
{
    let total = src.len();
    let mut out: Vec<u8> = Vec::new();
    for i in 0..len
        invariant
            total == src@.len(),
            from + len <= total,
            out@ == src@.subrange(from as int, from as int + i as int),
    {
        out.push(src[from + i]);
        proof {
            assert(src@.subrange(from as int, from as int + i + 1) =~= src@.subrange(
                from as int,
                from as int + i,
            ).push(src@[from as int + i]));
        }
    }
    out
}

/// Decodes response bytes; accepts exactly the encodings that
/// [`encode_response`] produces.
pub fn decode_response(bytes: &Vec<u8>) -> (r: Option<Socks5Response>)
    ensures
        match r {
            Some(resp) => resp.wf() && spec_decode_response(bytes@) == Some(
                (resp.reply, resp.address@, resp.port),
            ),
            None => spec_decode_response(bytes@) is None,
        },
{
    let n = bytes.len();
    if n < 4 || bytes[0] != 5 || bytes[2] != 0 {
        return None;
    }
    let reply = bytes[1];
    let atyp = bytes[3];
    if atyp == 1 {
        if n != 10 {
            return None;
        }
        let octets = copy_range(bytes, 4, 4);
        let port = bytes[8] as u16 * 256 + bytes[9] as u16;
        Some(Socks5Response { reply, address: Address::IPv4(octets), port })
    } else if atyp == 4 {
        if n != 22 {
            return None;
        }
        let octets = copy_range(bytes, 4, 16);
        let port = bytes[20] as u16 * 256 + bytes[21] as u16;
        Some(Socks5Response { reply, address: Address::IPv6(octets), port })
    } else if atyp == 3 {
        if n < 5 {
            return None;
        }
        let dl = bytes[4] as usize;
        if n != 7 + dl {
            return None;
        }
        let domain = copy_range(bytes, 5, dl);
        let port = bytes[n - 2] as u16 * 256 + bytes[n - 1] as u16;
        Some(Socks5Response { reply, address: Address::DomainName(domain), port })
    } else {
        None
    }
}

/// Parses the fixed request header `ver | cmd | rsv | atyp`; a wrong version
/// byte, a command byte outside the command table, or an address-type byte
/// outside its table aborts the connection as a protocol violation.
pub fn parse_request_header(version: u8, cmd: u8, atyp: u8) -> (r: Option<(Command, AddressType)>)
    ensures
        (version == 5 && spec_is_command_byte(cmd) && spec_is_address_type_byte(atyp)) ==> r
            == Some((spec_command_from(cmd), spec_address_type_from(atyp))),
        (version != 5 || !spec_is_command_byte(cmd) || !spec_is_address_type_byte(atyp)) ==> r
            is None,
{
    if version != SOCKS_VERSION {
        return None;
    }
    if !(cmd == 0x01 || cmd == 0x02 || cmd == 0x03) {
        return None;
    }
    if !(atyp == 0x01 || atyp == 0x03 || atyp == 0x04) {
        return None;
    }
    Some((Command::from(cmd), AddressType::from(atyp)))
}

/// Relies on std's `str::from_utf8`: returns `Ok` exactly on valid UTF-8.
#[verifier::external_body]
fn utf8_ok(bytes: &Vec<u8>) -> (r: bool)
    ensures
        r == vstd::utf8::valid_utf8(bytes@),
{
    core::str::from_utf8(bytes.as_slice()).is_ok()
}

/// Turns an address payload into an address: four octets, sixteen octets, or
/// domain bytes that must be valid UTF-8 and short enough for the length
/// byte.
pub fn decode_address(atype: AddressType, payload: Vec<u8>) -> (r: Option<Address>)
    ensures
        match atype {
            AddressType::IPv4 => if payload@.len() == 4 {
                r matches Some(a) && a@ == AddressModel::V4(payload@)
            } else {
                r is None
            },
            AddressType::IPv6 => if payload@.len() == 16 {
                r matches Some(a) && a@ == AddressModel::V6(payload@)
            } else {
                r is None
            },
            AddressType::DomainName => if payload@.len() <= 255 && vstd::utf8::valid_utf8(
                payload@,
            ) {
                r matches Some(a) && a@ == AddressModel::Domain(payload@)
            } else {
                r is None
            },
        },
        r matches Some(a) ==> a.wf(),
{
    match atype {
        AddressType::IPv4 => {
            if payload.len() == 4 {
                Some(Address::IPv4(payload))
            } else {
                None
            }
        },
        AddressType::IPv6 => {
            if payload.len() == 16 {
                Some(Address::IPv6(payload))
            } else {
                None
            }
        },
        AddressType::DomainName => {
            if payload.len() <= 255 && utf8_ok(&payload) {
                Some(Address::DomainName(payload))
            } else {
                None
            }
        },
    }
}

/// A big-endian port from its two wire bytes.
pub fn port_from_be(hi: u8, lo: u8) -> (r: u16)
    ensures
        r == hi as u16 * 256 + lo as u16,
{
    hi as u16 * 256 + lo as u16
}

/// The resolver's answer policy: the first address returned is the target;
/// an empty answer is a resolution failure.
pub fn first_resolved(ips: Vec<Address>, port: u16) -> (r: Option<(Address, u16)>)
    ensures
        ips@.len() == 0 ==> r is None,
        ips@.len() > 0 ==> (r matches Some(p) && p.0 == ips@[0] && p.1 == port),
{
    let mut ips = ips;
    if ips.len() == 0 {
        None
    } else {
        let first = ips.remove(0);
        Some((first, port))
    }
}

/// The method-selection rule: with authentication enabled, user/password if
/// offered; with it disabled, no-auth if offered; otherwise no acceptable
/// method.
pub open spec fn spec_select_method(methods: Seq<u8>, auth_enabled: bool) -> AuthMethod {
    if auth_enabled {
        if methods.contains(0x02u8) {
            AuthMethod::UserPass
        } else {
            AuthMethod::NoAcceptable
        }
    } else if methods.contains(0x00u8) {
        AuthMethod::NoAuth
    } else {
        AuthMethod::NoAcceptable
    }
}

fn contains_byte(v: &Vec<u8>, b: u8) -> (r: bool)
    ensures
        r == v@.contains(b),
{
    let n = v.len();
    for i in 0..n
        invariant
            n == v@.len(),
            forall|k: int| 0 <= k < i ==> v@[k] != b,
    {
        if v[i] == b {
            assert(v@.contains(b));
            return true;
        }
    }
    false
}

/// Selects the authentication method per the configured policy.
pub fn select_auth_method(methods: &Vec<u8>, auth_enabled: bool) -> (r: AuthMethod)
    ensures
        r == spec_select_method(methods@, auth_enabled),
{
    if auth_enabled {
        if contains_byte(methods, 0x02) {
            AuthMethod::UserPass
        } else {
            AuthMethod::NoAcceptable
        }
    } else if contains_byte(methods, 0x00) {
        AuthMethod::NoAuth
    } else {
        AuthMethod::NoAcceptable
    }
}

/// Where a connection stands in the negotiation.
#[derive(Debug, Clone, Copy, PartialEq, Eq, Structural)]
pub enum Socks5State {
    AwaitGreeting,
    AwaitSubAuth,
    AwaitRequest,
    AwaitResolve,
    AwaitConnect,
    Relay,
    Closed,
}

/// What the caller must do next: write bytes, close, consult the
/// authenticator, resolve a name, or open the outbound connection.
#[derive(Debug, PartialEq)]
pub enum Socks5Action {
    Send(Vec<u8>),
    SendAndClose(Vec<u8>),
    Close,
    Authenticate(Vec<u8>, Vec<u8>),
    Resolve(Address, u16),
    Connect(Address, u16),
}

/// The state after a greeting frame.
pub open spec fn spec_greeting_next_state(
    auth_enabled: bool,
    version: u8,
    nmethods: u8,
    methods: Seq<u8>,
) -> Socks5State {
    if version != 5 || nmethods == 0 {
        Socks5State::Closed
    } else {
        match spec_select_method(methods, auth_enabled) {
            AuthMethod::UserPass => Socks5State::AwaitSubAuth,
            AuthMethod::NoAuth => Socks5State::AwaitRequest,
            AuthMethod::NoAcceptable => Socks5State::Closed,
        }
    }
}

/// The state after the authenticator has answered a sub-auth attempt.
pub open spec fn spec_auth_result_next_state(granted: bool) -> Socks5State {
    if granted {
        Socks5State::AwaitRequest
    } else {
        Socks5State::Closed
    }
}

/// The sub-auth status reply: a version byte and zero for success, one for
/// failure.
pub open spec fn spec_auth_reply_bytes(granted: bool) -> Seq<u8> {
    if granted {
        seq![1u8, 0u8]
    } else {
        seq![1u8, 1u8]
    }
}

/// The per-connection protocol driver: holds the configuration and the
/// negotiation state, and decides every transition.
pub struct Socks5Handler {
    pub config: Config,
    pub state: Socks5State,
}

impl Socks5Handler {
    pub fn new(config: Config) -> (r: Self)
        ensures
            r.config == config,
            r.state == Socks5State::AwaitGreeting,
    {
        Socks5Handler { config, state: Socks5State::AwaitGreeting }
    }

    /// Consumes the greeting: enforces the version byte and a non-empty
    /// method list, selects the method, and answers with the two-byte
    /// selection reply; an unacceptable offer is answered with `0xFF` and the
    /// connection closes.
    pub fn handle_greeting(&mut self, version: u8, nmethods: u8, methods: &Vec<u8>) -> (action:
        Socks5Action)
        requires
            old(self).state == Socks5State::AwaitGreeting,
            methods@.len() == nmethods as int,
        ensures
            final(self).config == old(self).config,
            final(self).state == spec_greeting_next_state(
                old(self).config.auth.enabled,
                version,
                nmethods,
                methods@,
            ),
            (version != 5 || nmethods == 0) ==> action == Socks5Action::Close,
            (version == 5 && nmethods > 0) ==> match spec_select_method(
                methods@,
                old(self).config.auth.enabled,
            ) {
                AuthMethod::UserPass => action matches Socks5Action::Send(b) && b@ == seq![
                    5u8,
                    2u8,
                ],
                AuthMethod::NoAuth => action matches Socks5Action::Send(b) && b@ == seq![5u8, 0u8],
                AuthMethod::NoAcceptable => action matches Socks5Action::SendAndClose(b) && b@
                    == seq![5u8, 255u8],
            },
    {
        if version != SOCKS_VERSION || nmethods == 0 {
            self.state = Socks5State::Closed;
            return Socks5Action::Close;
        }
        let selected = select_auth_method(methods, self.config.auth.enabled);
        let mut reply: Vec<u8> = Vec::new();
        reply.push(SOCKS_VERSION);
        reply.push(selected.byte());
        match selected {
            AuthMethod::UserPass => {
                self.state = Socks5State::AwaitSubAuth;
                proof {
                    assert(reply@ =~= seq![5u8, 2u8]);
                }
                Socks5Action::Send(reply)
            },
            AuthMethod::NoAuth => {
                self.state = Socks5State::AwaitRequest;
                proof {
                    assert(reply@ =~= seq![5u8, 0u8]);
                }
                Socks5Action::Send(reply)
            },
            AuthMethod::NoAcceptable => {
                self.state = Socks5State::Closed;
                proof {
                    assert(reply@ =~= seq![5u8, 255u8]);
                }
                Socks5Action::SendAndClose(reply)
            },
        }
    }

    /// Consumes a username/password frame: a wrong sub-protocol version
    /// closes the connection; otherwise the credentials go to the
    /// authenticator.
    pub fn handle_userpass(&mut self, version: u8, username: Vec<u8>, password: Vec<u8>) -> (action:
        Socks5Action)
        requires
            old(self).state == Socks5State::AwaitSubAuth,
        ensures
            final(self).config == old(self).config,
            version != 1 ==> action == Socks5Action::Close && final(self).state
                == Socks5State::Closed,
            version == 1 ==> (action matches Socks5Action::Authenticate(u, p) && u@ == username@
                && p@ == password@ && final(self).state == Socks5State::AwaitSubAuth),
    {
        if version != SUBAUTH_VERSION {
            self.state = Socks5State::Closed;
            return Socks5Action::Close;
        }
        Socks5Action::Authenticate(username, password)
    }

    /// Answers the authenticator's decision: a zero status and on to the
    /// request on success; a one status and close on failure.
    pub fn handle_auth_result(&mut self, granted: bool) -> (action: Socks5Action)
        requires
            old(self).state == Socks5State::AwaitSubAuth,
        ensures
            final(self).config == old(self).config,
            final(self).state == spec_auth_result_next_state(granted),
            granted ==> (action matches Socks5Action::Send(b) && b@ == spec_auth_reply_bytes(
                granted,
            )),
            !granted ==> (action matches Socks5Action::SendAndClose(b) && b@
                == spec_auth_reply_bytes(granted)),
    {
        let mut reply: Vec<u8> = Vec::new();
        reply.push(SUBAUTH_VERSION);
        if granted {
            reply.push(0x00);
            self.state = Socks5State::AwaitRequest;
            proof {
                assert(reply@ =~= spec_auth_reply_bytes(granted));
            }
            Socks5Action::Send(reply)
        } else {
            reply.push(0x01);
            self.state = Socks5State::Closed;
            proof {
                assert(reply@ =~= spec_auth_reply_bytes(granted));
            }
            Socks5Action::SendAndClose(reply)
        }
    }

    /// Checks a credential pair against the configured user list.
    pub fn validate_credentials(&self, username: &str, password: &str) -> (r: bool)
        ensures
            r == self.config.spec_validate_user(username@, password@),
    {
        self.config.validate_user(username, password)
    }

    /// Dispatches a parsed request: connect requests go to resolution; bind
    /// and UDP-associate are answered with reply `0x07` and the connection
    /// closes.
    pub fn handle_request_frame(&mut self, request: Socks5Request) -> (action: Socks5Action)
        requires
            old(self).state == Socks5State::AwaitRequest,
            request.wf(),
        ensures
            final(self).config == old(self).config,
            request.command == Command::Connect ==> (action matches Socks5Action::Resolve(a, p)
                && a@ == request.address@ && p == request.port && final(self).state
                == Socks5State::AwaitResolve),
            request.command != Command::Connect ==> (action matches Socks5Action::SendAndClose(
                b,
            ) && b@ == spec_encode_response(
                REPLY_COMMAND_NOT_SUPPORTED,
                AddressModel::V4(seq![0u8, 0u8, 0u8, 0u8]),
                0,
            ) && final(self).state == Socks5State::Closed),
    {
        match request.command {
            Command::Connect => {
                self.state = Socks5State::AwaitResolve;
                Socks5Action::Resolve(request.address, request.port)
            },
            _ => {
                self.state = Socks5State::Closed;
                let resp = Socks5Response::new_error(REPLY_COMMAND_NOT_SUPPORTED);
                let bytes = encode_response(&resp);
                Socks5Action::SendAndClose(bytes)
            },
        }
    }

    /// Accepts the resolver's answer: no address means reply `0x04` and
    /// close; otherwise the outbound connection is attempted.
    pub fn handle_resolved(&mut self, resolved: Option<(Address, u16)>) -> (action: Socks5Action)
        requires
            old(self).state == Socks5State::AwaitResolve,
            resolved matches Some(a) ==> a.0.wf(),
        ensures
            final(self).config == old(self).config,
            resolved is None ==> (action matches Socks5Action::SendAndClose(b) && b@
                == spec_encode_response(
                REPLY_HOST_UNREACHABLE,
                AddressModel::V4(seq![0u8, 0u8, 0u8, 0u8]),
                0,
            ) && final(self).state == Socks5State::Closed),
            resolved matches Some(a) ==> (action matches Socks5Action::Connect(t, p) && t@
                == a.0@ && p == a.1 && final(self).state == Socks5State::AwaitConnect),
    {
        match resolved {
            Some((addr, port)) => {
                self.state = Socks5State::AwaitConnect;
                Socks5Action::Connect(addr, port)
            },
            None => {
                self.state = Socks5State::Closed;
                let resp = Socks5Response::new_error(REPLY_HOST_UNREACHABLE);
                let bytes = encode_response(&resp);
                Socks5Action::SendAndClose(bytes)
            },
        }
    }

    /// Accepts the outcome of the outbound connect: failure means reply
    /// `0x05` and close; success is announced with reply `0x00` carrying the
    /// locally bound address, and the relay begins.
    pub fn handle_connected(&mut self, local: Option<(Address, u16)>) -> (action: Socks5Action)
        requires
            old(self).state == Socks5State::AwaitConnect,
            local matches Some(a) ==> a.0.wf(),
        ensures
            final(self).config == old(self).config,
            local is None ==> (action matches Socks5Action::SendAndClose(b) && b@
                == spec_encode_response(
                REPLY_CONNECTION_REFUSED,
                AddressModel::V4(seq![0u8, 0u8, 0u8, 0u8]),
                0,
            ) && final(self).state == Socks5State::Closed),
            local matches Some(a) ==> (action matches Socks5Action::Send(b) && b@
                == spec_encode_response(REPLY_SUCCESS, a.0@, a.1) && final(self).state
                == Socks5State::Relay),
    {
        match local {
            Some((addr, port)) => {
                self.state = Socks5State::Relay;
                let resp = Socks5Response::new_success(addr, port);
                let bytes = encode_response(&resp);
                Socks5Action::Send(bytes)
            },
            None => {
                self.state = Socks5State::Closed;
                let resp = Socks5Response::new_error(REPLY_CONNECTION_REFUSED);
                let bytes = encode_response(&resp);
                Socks5Action::SendAndClose(bytes)
            },
        }
    }
}

/// Every greeting that offers user/password auth while authentication is
/// enabled moves the handler to the sub-auth state, and an accepting answer
/// from the authenticator then moves it to the request state.
pub proof fn lemma_userpass_auth_reaches_request(
    version: u8,
    nmethods: u8,
    methods: Seq<u8>,
    outcome: Result<bool, AuthError>,
)
    requires
        version == 5,
        nmethods > 0,
        methods.len() == nmethods as int,
        methods.contains(0x02u8),
        spec_outcome_granted(outcome),
    ensures
        spec_greeting_next_state(true, version, nmethods, methods) == Socks5State::AwaitSubAuth,
        spec_auth_result_next_state(spec_outcome_granted(outcome)) == Socks5State::AwaitRequest,
{
}

/// On the wire a credential denial and a backend infrastructure failure are
/// identical: both collapse to the same failure status bytes.
pub proof fn lemma_denied_and_infra_reply_identical(
    denied: Result<bool, AuthError>,
    infra: Result<bool, AuthError>,
)
    requires
        denied == Ok::<bool, AuthError>(false),
        infra is Err,
    ensures
        spec_auth_reply_bytes(spec_outcome_granted(denied)) == spec_auth_reply_bytes(
            spec_outcome_granted(infra),
        ),
        spec_auth_result_next_state(spec_outcome_granted(denied)) == spec_auth_result_next_state(
            spec_outcome_granted(infra),
        ),
{
}

/// Round trip: encoding a well-formed response and decoding the bytes gives
/// back exactly the reply code, the address and the port, for each of the
/// three address forms.
pub proof fn lemma_response_round_trip(reply: u8, addr: AddressModel, port: u16)
    requires
        spec_wf_addr(addr),
    ensures
        spec_decode_response(spec_encode_response(reply, addr, port)) == Some((reply, addr, port)),
{
    let b = spec_encode_response(reply, addr, port);
    assert(b[0] == 5 && b[1] == reply && b[2] == 0);
    assert(port / 256 <= 255) by (nonlinear_arith);
    assert((port / 256) * 256 + (port % 256) == port) by (nonlinear_arith);
    match addr {
        AddressModel::V4(o) => {
            assert(b.len() == 10);
            assert(b.subrange(4, 8) =~= o);
            assert(b[8] == (port / 256) as u8 && b[9] == (port % 256) as u8);
        },
        AddressModel::V6(o) => {
            assert(b.len() == 22);
            assert(b.subrange(4, 20) =~= o);
            assert(b[20] == (port / 256) as u8 && b[21] == (port % 256) as u8);
        },
        AddressModel::Domain(d) => {
            assert(b.len() == 7 + d.len());
            assert(b[3] == 3);
            assert(b[4] == d.len() as u8);
            assert(b.len() == 7 + b[4] as int);
            assert(b.subrange(5, 5 + b[4] as int) =~= d);
            assert(b[b.len() - 2] == (port / 256) as u8 && b[b.len() - 1] == (port % 256) as u8);
        },
    }
}

} // verus!
