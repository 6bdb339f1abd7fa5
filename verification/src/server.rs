use crate::text::{
    append_decimal, decimal, is_digit, lemma_colon_is_no_digit, lemma_decimal_digits,
    lemma_decimal_injective,
};
use vstd::prelude::*;

verus! {

/// One server of the subscription, with what the user chose for it.
#[derive(Debug)]
pub struct VpnServer {
    pub protocol: String,
    pub address: String,
    pub port: u16,
    pub name: String,
    pub enabled: bool,
    /// The local port its listener binds; 0 while none is assigned.
    pub local_port: u16,
    /// `"HTTP"` or `"SOCKS"`.
    pub proxy_type: String,
}

/// A server as plain values.
pub struct ServerView {
    pub protocol: Seq<char>,
    pub address: Seq<char>,
    pub port: u16,
    pub name: Seq<char>,
    pub enabled: bool,
    pub local_port: u16,
    pub proxy_type: Seq<char>,
}

impl View for VpnServer {
    type V = ServerView;

    open spec fn view(&self) -> ServerView {
        ServerView {
            protocol: self.protocol@,
            address: self.address@,
            port: self.port,
            name: self.name@,
            enabled: self.enabled,
            local_port: self.local_port,
            proxy_type: self.proxy_type@,
        }
    }
}

impl Clone for VpnServer {
    fn clone(&self) -> (r: Self)
        ensures
            r == *self,
    {
        VpnServer {
            protocol: self.protocol.clone(),
            address: self.address.clone(),
            port: self.port,
            name: self.name.clone(),
            enabled: self.enabled,
            local_port: self.local_port,
            proxy_type: self.proxy_type.clone(),
        }
    }
}

/// What separates the protocol from the address in a key.
pub open spec fn scheme_mark() -> Seq<char> {
    seq![':', '/', '/']
}

/// The key of the server at `address`:`port` reached over `protocol`: the
/// protocol, `://`, the address, a colon, and the port in decimal.
pub open spec fn server_key(protocol: Seq<char>, address: Seq<char>, port: u16) -> Seq<char> {
    protocol + scheme_mark() + address + seq![':'] + decimal(port as nat)
}

impl ServerView {
    /// The key by which the server is known.
    pub open spec fn key(self) -> Seq<char> {
        server_key(self.protocol, self.address, self.port)
    }
}

impl VpnServer {
    /// The key by which the server is known.
    pub open spec fn key(&self) -> Seq<char> {
        self@.key()
    }

    /// The server's key: it depends on the protocol, the address and the
    /// port alone, so it stays the same from one fetch to the next.
    pub fn get_server_key(&self) -> (r: String)
        ensures
            r@ == self.key(),
            r@ == server_key(self.protocol@, self.address@, self.port),
    {
        let mut key = self.protocol.clone();
        key.append("://");
        key.append(self.address.as_str());
        key.append(":");
        append_decimal(&mut key, self.port);
        proof {
            reveal_strlit("://");
            reveal_strlit(":");
            assert("://"@ =~= scheme_mark());
            assert(":"@ =~= seq![':']);
        }
        key
    }
}

/// Whether `mark` stands in `s` at place `i`.
pub open spec fn occurs_at(s: Seq<char>, mark: Seq<char>, i: int) -> bool {
    0 <= i && i + mark.len() <= s.len() && s.subrange(i, i + mark.len()) == mark
}

/// Whether `://` stands anywhere in `s`.
pub open spec fn holds_scheme_mark(s: Seq<char>) -> bool {
    exists|i: int| occurs_at(s, scheme_mark(), i)
}

/// Two texts that end in a colon and a numeral are equal only if the
/// numerals are, and what stands before the colons.
pub proof fn lemma_numbered_suffix(x: Seq<char>, a: nat, y: Seq<char>, b: nat)
    requires
        x + seq![':'] + decimal(a) == y + seq![':'] + decimal(b),
    ensures
        x == y,
        a == b,
{
    let left = x + seq![':'] + decimal(a);
    let right = y + seq![':'] + decimal(b);
    let da = decimal(a);
    let db = decimal(b);
    lemma_decimal_digits(a);
    lemma_decimal_digits(b);
    lemma_colon_is_no_digit();
    assert(left.len() == x.len() + 1 + da.len());
    assert(right.len() == y.len() + 1 + db.len());
    if da.len() < db.len() {
        // The colon of the left text would stand among the digits of the right one.
        let at = x.len() as int;
        assert(left[at] == ':');
        assert(right[at] == db[at - y.len() - 1]);
        assert(is_digit(db[at - y.len() - 1]));
        assert(false);
    }
    if db.len() < da.len() {
        let at = y.len() as int;
        assert(right[at] == ':');
        assert(left[at] == da[at - x.len() - 1]);
        assert(is_digit(da[at - x.len() - 1]));
        assert(false);
    }
    assert(x.len() == y.len());
    assert(x =~= y) by {
        assert forall|i: int| 0 <= i < x.len() implies x[i] == y[i] by {
            assert(left[i] == x[i]);
            assert(right[i] == y[i]);
        }
    }
    assert(da =~= db) by {
        assert forall|i: int| 0 <= i < da.len() implies da[i] == db[i] by {
            assert(left[x.len() + 1 + i] == da[i]);
            assert(right[y.len() + 1 + i] == db[i]);
        }
    }
    lemma_decimal_injective(a, b);
}

/// Two texts made of a protocol without `://`, then `://` and an address,
/// are equal only if the protocols are, and the addresses.
pub proof fn lemma_scheme_split(p: Seq<char>, a: Seq<char>, q: Seq<char>, b: Seq<char>)
    requires
        !holds_scheme_mark(p),
        !holds_scheme_mark(q),
        p + scheme_mark() + a == q + scheme_mark() + b,
    ensures
        p == q,
        a == b,
{
    let left = p + scheme_mark() + a;
    let right = q + scheme_mark() + b;
    let m = scheme_mark();
    assert(left.len() == p.len() + 3 + a.len());
    assert(right.len() == q.len() + 3 + b.len());
    lemma_protocol_not_shorter(p, a, q, b);
    lemma_protocol_not_shorter(q, b, p, a);
    assert(p =~= q) by {
        assert forall|i: int| 0 <= i < p.len() implies p[i] == q[i] by {
            assert(left[i] == p[i]);
            assert(right[i] == q[i]);
        }
    }
    assert(a =~= b) by {
        assert forall|i: int| 0 <= i < a.len() implies a[i] == b[i] by {
            assert(left[p.len() + 3 + i] == a[i]);
            assert(right[q.len() + 3 + i] == b[i]);
        }
    }
}

/// Of two equal texts of that form neither protocol is the shorter one: the
/// `://` behind it would stand inside the longer protocol or run into the
/// `://` behind that.
proof fn lemma_protocol_not_shorter(p: Seq<char>, a: Seq<char>, q: Seq<char>, b: Seq<char>)
    requires
        !holds_scheme_mark(q),
        p + scheme_mark() + a == q + scheme_mark() + b,
    ensures
        p.len() >= q.len(),
{
    let left = p + scheme_mark() + a;
    let right = q + scheme_mark() + b;
    let m = scheme_mark();
    let at = p.len() as int;
    if p.len() < q.len() {
        assert(left[at] == ':' && left[at + 1] == '/' && left[at + 2] == '/');
        assert(right.len() == q.len() + 3 + b.len());
        if at + 3 <= q.len() {
            assert(q.subrange(at, at + 3) =~= m) by {
                assert(right[at] == q[at]);
                assert(right[at + 1] == q[at + 1]);
                assert(right[at + 2] == q[at + 2]);
            }
            assert(occurs_at(q, m, at));
        } else if at + 2 == q.len() {
            // The third character of the left mark meets the colon of the right one.
            assert(right[at + 2] == m[0]);
        } else {
            // The second character of the left mark meets the colon of the right one.
            assert(at + 1 == q.len());
            assert(right[at + 1] == m[0]);
        }
    }
}

/// The key tells servers apart: two servers whose protocols hold no `://`
/// have the same key only if they agree in protocol, address and port.
pub proof fn lemma_server_key_injective(
    protocol1: Seq<char>,
    address1: Seq<char>,
    port1: u16,
    protocol2: Seq<char>,
    address2: Seq<char>,
    port2: u16,
)
    requires
        !holds_scheme_mark(protocol1),
        !holds_scheme_mark(protocol2),
        server_key(protocol1, address1, port1) == server_key(protocol2, address2, port2),
    ensures
        protocol1 == protocol2,
        address1 == address2,
        port1 == port2,
{
    lemma_numbered_suffix(
        protocol1 + scheme_mark() + address1,
        port1 as nat,
        protocol2 + scheme_mark() + address2,
        port2 as nat,
    );
    lemma_scheme_split(protocol1, address1, protocol2, address2);
}

} // verus!
