//! Identity masks: the `nick!ident@host` triple, its position-exact parser,
//! and the wildcard search pattern each component produces.

use crate::ipv4;
use crate::ipv6;
use crate::text;
use vstd::prelude::*;
use vstd::std_specs::cmp::PartialEqSpec;
use vstd::std_specs::cmp::PartialEqSpecImpl;

verus! {

/// Why a raw mask failed to parse: no `!` to end the nick, or no `@` after
/// it to end the ident.  Checked in that order.
#[derive(Debug, Clone, Copy, PartialEq, Eq, Structural)]
pub enum HostMaskError {
    MissingIdent,
    MissingHost,
}

/// A component value that yields a wildcard search pattern, with `%`
/// standing for any run of characters.
pub trait Query {
    /// The pattern this value produces.
    spec fn query_spec(&self) -> Seq<char>;

    /// Builds the pattern.
    fn query(&self) -> (r: String)
        ensures
            r@ == self.query_spec(),
    ;
}

/// A nickname.  Its pattern is a prefix match, tolerating numeric or
/// away-status suffixes.
#[derive(Debug)]
pub struct Nick(String);

/// An identd-reported token.  Its pattern is a substring match, tolerating
/// leading and trailing decoration.
#[derive(Debug)]
pub struct Ident(String);

/// An address found embedded in host text: the four octets of an IPv4
/// address, or the text of an IPv6 literal.
#[derive(Debug)]
pub enum HostAddr {
    V4 { a: u8, b: u8, c: u8, d: u8 },
    V6 { text: String },
}

/// A hostname: its raw text, the address detected inside it, if any, and
/// whether its pattern generalizes an IPv4 address to the /24 block.
///
/// Equality is on the raw text alone: the raw string is the identity, the
/// detected address only a derived hint for pattern generation.
#[derive(Debug)]
pub struct Host {
    raw: String,
    addr: Option<HostAddr>,
    subnet: bool,
}

#[verifier::ext_equal]
pub enum AddrView {
    V4 { a: int, b: int, c: int, d: int },
    V6 { text: Seq<char> },
}

#[verifier::ext_equal]
pub struct HostView {
    pub raw: Seq<char>,
    pub addr: Option<AddrView>,
    pub subnet: bool,
}

impl View for Nick {
    type V = Seq<char>;

    closed spec fn view(&self) -> Seq<char> {
        self.0@
    }
}

impl View for Ident {
    type V = Seq<char>;

    closed spec fn view(&self) -> Seq<char> {
        self.0@
    }
}

impl View for HostAddr {
    type V = AddrView;

    closed spec fn view(&self) -> AddrView {
        match self {
            HostAddr::V4 { a, b, c, d } => AddrView::V4 {
                a: *a as int,
                b: *b as int,
                c: *c as int,
                d: *d as int,
            },
            HostAddr::V6 { text } => AddrView::V6 { text: text@ },
        }
    }
}

impl View for Host {
    type V = HostView;

    closed spec fn view(&self) -> HostView {
        HostView {
            raw: self.raw@,
            addr: match self.addr {
                Some(ref a) => Some(a@),
                None => None,
            },
            subnet: self.subnet,
        }
    }
}

/// The address recorded for raw host text: the leftmost embedded IPv4
/// address when there is one, else the leftmost embedded IPv6 literal, else
/// nothing.
pub open spec fn addr_of_text(s: Seq<char>) -> Option<AddrView> {
    if ipv4::has_ipv4(s) {
        let o = ipv4::ipv4_octets(s, ipv4::ipv4_first_from(s, 0));
        Some(AddrView::V4 { a: o.0, b: o.1, c: o.2, d: o.3 })
    } else if ipv6::has_ipv6(s) {
        Some(AddrView::V6 { text: ipv6::ipv6_literal_of(s) })
    } else {
        None
    }
}

pub open spec fn host_of_text(s: Seq<char>) -> HostView {
    HostView { raw: s, addr: addr_of_text(s), subnet: false }
}

/// Prefix match: `<nick>%`.
pub open spec fn nick_pattern(n: Seq<char>) -> Seq<char> {
    n.push('%')
}

/// Substring match: `%<ident>%`.
pub open spec fn ident_pattern(i: Seq<char>) -> Seq<char> {
    seq!['%'] + i + seq!['%']
}

/// Hosts with a detected IPv4 address match on the underscore-joined octets,
/// all four, or only the first three when subnet generalization is on.  Any
/// other host matches on its raw text as a suffix.
pub open spec fn host_pattern(h: HostView) -> Seq<char> {
    match h.addr {
        Some(AddrView::V4 { a, b, c, d }) => {
            if h.subnet {
                seq!['%'] + text::dec_of(a) + seq!['_'] + text::dec_of(b) + seq!['_']
                    + text::dec_of(c) + seq!['%']
            } else {
                seq!['%'] + text::dec_of(a) + seq!['_'] + text::dec_of(b) + seq!['_']
                    + text::dec_of(c) + seq!['_'] + text::dec_of(d) + seq!['%']
            }
        },
        _ => seq!['%'] + h.raw,
    }
}

impl Nick {
    pub fn from_text(s: &str) -> (r: Nick)
        ensures
            r@ == s@,
    {
        Nick(s.to_owned())
    }

    /// The raw text.
    pub fn text(&self) -> (r: String)
        ensures
            r@ == self@,
    {
        self.0.clone()
    }
}

impl Clone for Nick {
    fn clone(&self) -> (r: Nick)
        ensures
            r@ == self@,
    {
        Nick(self.0.clone())
    }
}

impl PartialEq for Nick {
    fn eq(&self, other: &Nick) -> (r: bool) {
        self.0 == other.0
    }
}

impl PartialEqSpecImpl for Nick {
    open spec fn obeys_eq_spec() -> bool {
        true
    }

    open spec fn eq_spec(&self, other: &Nick) -> bool {
        self@ == other@
    }
}

impl Query for Nick {
    open spec fn query_spec(&self) -> Seq<char> {
        nick_pattern(self@)
    }

    fn query(&self) -> (r: String) {
        let mut r = self.0.clone();
        r.append("%");
        proof {
            reveal_strlit("%");
            assert(r@ =~= nick_pattern(self@));
        }
        r
    }
}

impl Ident {
    pub fn from_text(s: &str) -> (r: Ident)
        ensures
            r@ == s@,
    {
        Ident(s.to_owned())
    }

    /// The raw text.
    pub fn text(&self) -> (r: String)
        ensures
            r@ == self@,
    {
        self.0.clone()
    }
}

impl Clone for Ident {
    fn clone(&self) -> (r: Ident)
        ensures
            r@ == self@,
    {
        Ident(self.0.clone())
    }
}

impl PartialEq for Ident {
    fn eq(&self, other: &Ident) -> (r: bool) {
        self.0 == other.0
    }
}

impl PartialEqSpecImpl for Ident {
    open spec fn obeys_eq_spec() -> bool {
        true
    }

    open spec fn eq_spec(&self, other: &Ident) -> bool {
        self@ == other@
    }
}

impl Query for Ident {
    open spec fn query_spec(&self) -> Seq<char> {
        ident_pattern(self@)
    }

    fn query(&self) -> (r: String) {
        let mut r = String::from_str("%");
        r.append(self.0.as_str());
        r.append("%");
        proof {
            reveal_strlit("%");
            assert(r@ =~= ident_pattern(self@));
        }
        r
    }
}

impl Clone for HostAddr {
    fn clone(&self) -> (r: HostAddr)
        ensures
            r@ == self@,
    {
        match self {
            HostAddr::V4 { a, b, c, d } => HostAddr::V4 { a: *a, b: *b, c: *c, d: *d },
            HostAddr::V6 { text } => HostAddr::V6 { text: text.clone() },
        }
    }
}

impl Host {
    /// Classifies raw host text, detecting an embedded address.  This never
    /// fails: text with no address degenerates to a text-only host.
    pub fn from_text(s: &str) -> (h: Host)
        ensures
            h@ == host_of_text(s@),
    {
        let raw = s.to_owned();
        let addr = match ipv4::scan_ipv4(s) {
            Some((a, b, c, d)) => Some(HostAddr::V4 { a, b, c, d }),
            None => match ipv6::scan_ipv6(s) {
                Some(text) => Some(HostAddr::V6 { text }),
                None => None,
            },
        };
        let h = Host { raw, addr, subnet: false };
        proof {
            assert(h@ =~= host_of_text(s@));
        }
        h
    }

    /// The raw text.
    pub fn text(&self) -> (r: String)
        ensures
            r@ == self@.raw,
    {
        self.raw.clone()
    }

    /// The detected embedded address.
    pub fn addr(&self) -> (r: &Option<HostAddr>)
        ensures
            match r {
                Some(a) => (self@.addr == Some(a@)),
                None => (self@.addr is None),
            },
    {
        &self.addr
    }

    /// Turns subnet generalization on or off for this host's pattern.
    pub fn set_subnet(&mut self, subnet: bool)
        ensures
            final(self)@ == (HostView { subnet, ..old(self)@ }),
    {
        self.subnet = subnet;
    }
}

impl Clone for Host {
    fn clone(&self) -> (r: Host)
        ensures
            r@ == self@,
    {
        let h = Host { raw: self.raw.clone(), addr: self.addr.clone(), subnet: self.subnet };
        proof {
            assert(h@ =~= self@);
        }
        h
    }
}

impl PartialEq for Host {
    fn eq(&self, other: &Host) -> (r: bool) {
        self.raw == other.raw
    }
}

impl PartialEqSpecImpl for Host {
    open spec fn obeys_eq_spec() -> bool {
        true
    }

    open spec fn eq_spec(&self, other: &Host) -> bool {
        self@.raw == other@.raw
    }
}

/// Host equality ignores what address detection produced: hosts with the
/// same raw text are equal however their detected addresses or subnet flags
/// diverge.
pub proof fn lemma_host_eq_raw_only(a: &Host, b: &Host)
    requires
        a@.raw == b@.raw,
    ensures
        vstd::std_specs::cmp::PartialEqSpec::eq_spec(a, b),
{
}

impl Query for Host {
    open spec fn query_spec(&self) -> Seq<char> {
        host_pattern(self@)
    }

    fn query(&self) -> (r: String) {
        match &self.addr {
            Some(HostAddr::V4 { a, b, c, d }) => {
                let mut r = String::from_str("%");
                r.append(text::u8_string(*a).as_str());
                r.append("_");
                r.append(text::u8_string(*b).as_str());
                r.append("_");
                r.append(text::u8_string(*c).as_str());
                if !self.subnet {
                    r.append("_");
                    r.append(text::u8_string(*d).as_str());
                }
                r.append("%");
                proof {
                    reveal_strlit("%");
                    reveal_strlit("_");
                    assert(r@ =~= host_pattern(self@));
                }
                r
            },
            _ => {
                let mut r = String::from_str("%");
                r.append(self.raw.as_str());
                proof {
                    reveal_strlit("%");
                    assert(r@ =~= host_pattern(self@));
                }
                r
            },
        }
    }
}

/// A parsed identity mask.  Immutable once parsed, except for the subnet
/// flag, which the caller sets afterwards to control query generalization.
#[derive(Debug)]
pub struct HostMask {
    nick: Nick,
    ident: Ident,
    host: Host,
    subnet: bool,
}

#[verifier::ext_equal]
pub struct MaskView {
    pub nick: Seq<char>,
    pub ident: Seq<char>,
    pub host: HostView,
    pub subnet: bool,
}

impl View for HostMask {
    type V = MaskView;

    closed spec fn view(&self) -> MaskView {
        MaskView { nick: self.nick@, ident: self.ident@, host: self.host@, subnet: self.subnet }
    }
}

/// Position-exact split of raw mask text: the nick is everything before the
/// first `!`, the ident everything strictly between that `!` and the first
/// `@` after it, the host everything after that `@`.  A missing `!` is
/// reported before a missing `@`.
pub open spec fn parse_mask(s: Seq<char>) -> Result<MaskView, HostMaskError> {
    let p = text::find_from(s, '!', 0);
    if p == s.len() {
        Err(HostMaskError::MissingIdent)
    } else {
        let q = text::find_from(s, '@', p + 1);
        if q == s.len() {
            Err(HostMaskError::MissingHost)
        } else {
            Ok(
                MaskView {
                    nick: s.subrange(0, p),
                    ident: s.subrange(p + 1, q),
                    host: host_of_text(s.subrange(q + 1, s.len() as int)),
                    subnet: false,
                },
            )
        }
    }
}

impl HostMask {
    /// Parses raw `nick!ident@host` text.  The subnet flag starts off.
    pub fn from_str(s: &str) -> (r: Result<HostMask, HostMaskError>)
        ensures
            match r {
                Ok(m) => parse_mask(s@) == Ok::<MaskView, HostMaskError>(m@),
                Err(e) => parse_mask(s@) == Err::<MaskView, HostMaskError>(e),
            },
    {
        let n = s.unicode_len();
        proof {
            text::lemma_find_from(s@, '!', 0);
        }
        let p = text::find_char_from(s, '!', 0);
        if p == n {
            return Err(HostMaskError::MissingIdent);
        }
        proof {
            text::lemma_find_from(s@, '@', p as int + 1);
        }
        let q = text::find_char_from(s, '@', p + 1);
        if q == n {
            return Err(HostMaskError::MissingHost);
        }
        let nick = Nick::from_text(s.substring_char(0, p));
        let ident = Ident::from_text(s.substring_char(p + 1, q));
        let host = Host::from_text(s.substring_char(q + 1, n));
        let m = HostMask { nick, ident, host, subnet: false };
        proof {
            assert(parse_mask(s@) =~= Ok::<MaskView, HostMaskError>(m@));
        }
        Ok(m)
    }

    /// Assembles a mask from already-built components.  The subnet flag
    /// controls query generalization for the whole mask, so it is carried
    /// into the host as well.
    pub fn new(nick: Nick, ident: Ident, host: Host, subnet: bool) -> (m: HostMask)
        ensures
            m@ == (MaskView {
                nick: nick@,
                ident: ident@,
                host: (HostView { subnet, ..host@ }),
                subnet,
            }),
    {
        let mut h = host;
        h.set_subnet(subnet);
        HostMask { nick, ident, host: h, subnet }
    }

    pub fn nick(&self) -> (r: &Nick)
        ensures
            r@ == self@.nick,
    {
        &self.nick
    }

    pub fn ident(&self) -> (r: &Ident)
        ensures
            r@ == self@.ident,
    {
        &self.ident
    }

    pub fn host(&self) -> (r: &Host)
        ensures
            r@ == self@.host,
    {
        &self.host
    }

    /// Whether subnet generalization is on.
    pub fn subnet(&self) -> (r: bool)
        ensures
            r == self@.subnet,
    {
        self.subnet
    }

    /// Sets the subnet flag, propagating it to the host so that all patterns
    /// from this mask onward generalize consistently.
    pub fn set_subnet(&mut self, subnet: bool)
        ensures
            final(self)@ == (MaskView {
                subnet,
                host: HostView { subnet, ..old(self)@.host },
                ..old(self)@
            }),
    {
        self.subnet = subnet;
        self.host.set_subnet(subnet);
    }

    pub fn nick_query(&self) -> (r: String)
        ensures
            r@ == nick_pattern(self@.nick),
    {
        self.nick.query()
    }

    pub fn ident_query(&self) -> (r: String)
        ensures
            r@ == ident_pattern(self@.ident),
    {
        self.ident.query()
    }

    pub fn host_query(&self) -> (r: String)
        ensures
            r@ == host_pattern(self@.host),
    {
        self.host.query()
    }
}

impl Clone for HostMask {
    fn clone(&self) -> (r: HostMask)
        ensures
            r@ == self@,
    {
        let m = HostMask {
            nick: self.nick.clone(),
            ident: self.ident.clone(),
            host: self.host.clone(),
            subnet: self.subnet,
        };
        proof {
            assert(m@ =~= self@);
        }
        m
    }
}

impl PartialEq for HostMask {
    fn eq(&self, other: &HostMask) -> (r: bool) {
        self.nick == other.nick && self.ident == other.ident && self.host == other.host
            && self.subnet == other.subnet
    }
}

impl PartialEqSpecImpl for HostMask {
    open spec fn obeys_eq_spec() -> bool {
        true
    }

    open spec fn eq_spec(&self, other: &HostMask) -> bool {
        mask_eq(self@, other@)
    }
}

/// Mask equality: nick, ident and subnet flag by value, the host by raw text
/// alone.
pub open spec fn mask_eq(a: MaskView, b: MaskView) -> bool {
    a.nick == b.nick && a.ident == b.ident && a.host.raw == b.host.raw && a.subnet == b.subnet
}

/// Splitting is position-exact: when the nick holds no `!` and the ident no
/// `@`, parsing `nick + "!" + ident + "@" + host` returns exactly those
/// parts, nothing dropped and nothing shifted.
pub proof fn lemma_parse_exact(nick: Seq<char>, ident: Seq<char>, host: Seq<char>)
    requires
        forall|k: int| 0 <= k < nick.len() ==> nick[k] != '!',
        forall|k: int| 0 <= k < ident.len() ==> ident[k] != '@',
    ensures
        ({
            let s = nick + seq!['!'] + ident + seq!['@'] + host;
            parse_mask(s) == Ok::<MaskView, HostMaskError>(
                MaskView { nick, ident, host: host_of_text(host), subnet: false },
            )
        }),
{
    let s = nick + seq!['!'] + ident + seq!['@'] + host;
    let p = nick.len() as int;
    let q = p + 1 + ident.len();
    assert(s[p] == '!');
    assert(forall|k: int| 0 <= k < p ==> s[k] == nick[k] && s[k] != '!');
    text::lemma_find_from_is(s, '!', 0, p);
    assert(s[q] == '@');
    assert(forall|k: int| p + 1 <= k < q ==> s[k] == ident[k - (p + 1)] && s[k] != '@');
    text::lemma_find_from_is(s, '@', p + 1, q);
    assert(s.subrange(0, p) =~= nick);
    assert(s.subrange(p + 1, q) =~= ident);
    assert(s.subrange(q + 1, s.len() as int) =~= host);
    assert(parse_mask(s) =~= Ok::<MaskView, HostMaskError>(
        MaskView { nick, ident, host: host_of_text(host), subnet: false },
    ));
}

} // verus!
