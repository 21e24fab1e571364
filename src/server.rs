//! The plain-value side of the HTTP server: its configuration, and the status
//! line and headers of a response as the native server takes them.
use vstd::prelude::*;
use vstd::string::StringSliceAdditionalSpecFns;

use crate::bytes_order::{
    bytes_lt, compare_bytes, lemma_bytes_lt_irreflexive, lemma_bytes_lt_transitive,
};
use crate::cstr::{c_bytes, c_string, has_nul};

verus! {

/// The ports the server listens on; an HTTPS port of 0 means no TLS.
#[derive(Copy, Clone, Debug)]
pub struct Configuration {
    pub http_port: u16,
    pub https_port: u16,
}

impl Default for Configuration {
    fn default() -> (r: Self)
        ensures
            r.http_port == 80,
            r.https_port == 443,
    {
        Configuration { http_port: 80, https_port: 443 }
    }
}

/// The settings handed to the native HTTP daemon when it starts.
#[derive(Copy, Clone, Debug, PartialEq, Eq)]
pub struct HttpdConfig {
    pub task_priority: u32,
    pub stack_size: usize,
    pub core_id: i32,
    pub server_port: u16,
    pub ctrl_port: u16,
    pub max_open_sockets: u16,
    pub max_uri_handlers: u16,
    pub max_resp_headers: u16,
    pub backlog_conn: u16,
    pub lru_purge_enable: bool,
    pub recv_wait_timeout: u16,
    pub send_wait_timeout: u16,
}

/// Whether the configuration asks for TLS, which needs a larger stack and
/// leaves room for fewer sockets.
pub open spec fn uses_tls(conf: Configuration) -> bool {
    conf.https_port != 0
}

impl HttpdConfig {
    /// The daemon settings for `conf`.
    pub fn from(conf: &Configuration) -> (r: Self)
        ensures
            r.task_priority == 5,
            r.stack_size == (if uses_tls(*conf) { 10240usize } else { 4096usize }),
            r.core_id == i32::MAX,
            r.server_port == conf.http_port,
            r.ctrl_port == 32768,
            r.max_open_sockets == (if uses_tls(*conf) { 4u16 } else { 7u16 }),
            r.max_uri_handlers == 8,
            r.max_resp_headers == 8,
            r.backlog_conn == 5,
            r.lru_purge_enable == uses_tls(*conf),
            r.recv_wait_timeout == 5,
            r.send_wait_timeout == 5,
    {
        let tls = conf.https_port != 0;
        HttpdConfig {
            task_priority: 5,
            stack_size: if tls { 10240 } else { 4096 },
            core_id: i32::MAX,
            server_port: conf.http_port,
            ctrl_port: 32768,
            max_open_sockets: if tls { 4 } else { 7 },
            max_uri_handlers: 8,
            max_resp_headers: 8,
            backlog_conn: 5,
            lru_purge_enable: tls,
            recv_wait_timeout: 5,
            send_wait_timeout: 5,
        }
    }
}

/// The decimal digits of `n` as ASCII bytes, without leading zeros.
pub open spec fn decimal(n: nat) -> Seq<u8>
    decreases n,
{
    if n < 10 {
        seq![(48 + n) as u8]
    } else {
        decimal(n / 10).push((48 + n % 10) as u8)
    }
}

/// The status line a response announces: the code, then a space and the
/// message where there is one.
pub open spec fn status_text(status: u16, message: Option<Seq<u8>>) -> Seq<u8> {
    match message {
        Some(m) => decimal(status as nat) + seq![32u8] + m,
        None => decimal(status as nat),
    }
}

/// The bytes of an optional byte span.
pub open spec fn bytes_of(m: Option<&[u8]>) -> Option<Seq<u8>> {
    match m {
        Some(b) => Some(b@),
        None => None,
    }
}

/// Appends the decimal digits of `n` to `out`.
fn push_decimal(out: &mut Vec<u8>, n: u16)
    ensures
        final(out)@ == old(out)@ + decimal(n as nat),
    decreases n,
{
    let ghost start = out@;
    if n >= 10 {
        push_decimal(out, n / 10);
    }
    out.push(48u8 + (n % 10) as u8);
    assert(out@ =~= start + decimal(n as nat));
}

/// Appends `bytes` to `out`.
fn push_bytes(out: &mut Vec<u8>, bytes: &[u8])
    ensures
        final(out)@ == old(out)@ + bytes@,
{
    let ghost start = out@;
    let mut i: usize = 0;
    while i < bytes.len()
        invariant
            i <= bytes@.len(),
            out@ == start + bytes@.subrange(0, i as int),
        decreases bytes@.len() - i,
    {
        out.push(bytes[i]);
        i = i + 1;
        assert(out@ =~= start + bytes@.subrange(0, i as int));
    }
    assert(bytes@.subrange(0, bytes@.len() as int) =~= bytes@);
}

/// The status line for `status` and an optional message, as bytes.
pub fn status_line(status: u16, message: Option<&[u8]>) -> (r: Vec<u8>)
    ensures
        r@ == status_text(status, bytes_of(message)),
{
    let mut out: Vec<u8> = Vec::new();
    push_decimal(&mut out, status);
    assert(out@ =~= decimal(status as nat));
    match message {
        Some(m) => {
            out.push(32u8);
            push_bytes(&mut out, m);
        },
        None => {},
    }
    out
}

/// Header entries whose names are strictly increasing, hence all different.
pub open spec fn keys_sorted(e: Seq<(Seq<u8>, Seq<u8>)>) -> bool {
    forall|i: int, j: int| 0 <= i < j < e.len() ==> bytes_lt(#[trigger] e[i].0, #[trigger] e[j].0)
}

/// Some entry of `e` has the name `k`.
pub open spec fn has_key(e: Seq<(Seq<u8>, Seq<u8>)>, k: Seq<u8>) -> bool {
    exists|i: int| 0 <= i < e.len() && #[trigger] e[i].0 == k
}

/// Some name or value among the entries holds a NUL byte.
pub open spec fn any_nul(e: Seq<(Seq<u8>, Seq<u8>)>) -> bool {
    exists|i: int| #![trigger e[i]] 0 <= i < e.len() && (has_nul(e[i].0) || has_nul(e[i].1))
}

/// The status and headers of a response, collected before they are sent.
/// Headers are kept sorted by name, one value for each name. They sit in a
/// sorted `Vec` rather than a `BTreeMap`: vstd specifies `BTreeMap` only for
/// keys whose `Ord` it models, and it gives byte vectors no such model, so
/// nothing could be proved of the map's contents or order.
pub struct ResponseHead {
    status: u16,
    status_message: Option<Vec<u8>>,
    headers: Vec<(Vec<u8>, Vec<u8>)>,
}

/// Copies `bytes` into a new vector.
fn to_vec(bytes: &[u8]) -> (r: Vec<u8>)
    ensures
        r@ == bytes@,
{
    let mut v: Vec<u8> = Vec::new();
    push_bytes(&mut v, bytes);
    assert(v@ =~= bytes@);
    v
}

impl ResponseHead {
    /// The status code.
    pub closed spec fn spec_status(&self) -> u16 {
        self.status
    }

    /// The status message, where one was set.
    pub closed spec fn spec_message(&self) -> Option<Seq<u8>> {
        match self.status_message {
            Some(m) => Some(m@),
            None => None,
        }
    }

    /// The headers as (name, value) pairs, in the order they are sent.
    pub closed spec fn entries(&self) -> Seq<(Seq<u8>, Seq<u8>)> {
        self.headers@.map_values(|p: (Vec<u8>, Vec<u8>)| (p.0@, p.1@))
    }

    pub open spec fn wf(&self) -> bool {
        keys_sorted(self.entries())
    }

    /// A response with status 200, no message and no headers.
    pub fn new() -> (r: Self)
        ensures
            r.wf(),
            r.spec_status() == 200,
            r.spec_message().is_none(),
            r.entries().len() == 0,
    {
        let r = ResponseHead { status: 200, status_message: None, headers: Vec::new() };
        assert(r.entries().len() == 0);
        r
    }

    /// The status code.
    pub fn status(&self) -> (r: u16)
        ensures
            r == self.spec_status(),
    {
        self.status
    }

    pub fn set_status(&mut self, status: u16)
        ensures
            final(self).spec_status() == status,
            final(self).spec_message() == old(self).spec_message(),
            final(self).entries() == old(self).entries(),
    {
        self.status = status;
    }

    pub fn set_status_message(&mut self, message: &str)
        ensures
            final(self).spec_status() == old(self).spec_status(),
            final(self).spec_message() == Some(message.spec_bytes()),
            final(self).entries() == old(self).entries(),
    {
        self.status_message = Some(to_vec(message.as_bytes()));
    }

    /// Sets header `name` to `value`, replacing the value it had; a new name
    /// takes its place in the order of names.
    pub fn set_header(&mut self, name: &str, value: &str)
        requires
            old(self).wf(),
        ensures
            final(self).wf(),
            final(self).spec_status() == old(self).spec_status(),
            final(self).spec_message() == old(self).spec_message(),
            has_key(old(self).entries(), name.spec_bytes()) ==> exists|i: int|
                0 <= i < old(self).entries().len() && old(self).entries()[i].0 == name.spec_bytes()
                    && final(self).entries() == old(self).entries().update(
                    i,
                    (name.spec_bytes(), value.spec_bytes()),
                ),
            !has_key(old(self).entries(), name.spec_bytes()) ==> exists|i: int|
                0 <= i <= old(self).entries().len() && final(self).entries() == old(
                    self,
                ).entries().insert(i, (name.spec_bytes(), value.spec_bytes())),
    {
        let nb = name.as_bytes();
        let vb = value.as_bytes();
        let ghost n = nb@;
        let ghost v = vb@;
        let ghost e0 = self.entries();
        let ghost h0 = self.headers@;
        let ghost s0 = self.status;
        let ghost m0 = self.status_message;
        let len = self.headers.len();
        let mut p: usize = 0;
        let mut past: bool = false;
        while p < len && !past
            invariant
                len == self.headers@.len(),
                self.headers@ == h0,
                self.status == s0,
                self.status_message == m0,
                h0 == old(self).headers@,
                s0 == old(self).status,
                m0 == old(self).status_message,
                e0 == old(self).entries(),
                nb@ == n,
                vb@ == v,
                e0 == h0.map_values(|q: (Vec<u8>, Vec<u8>)| (q.0@, q.1@)),
                past ==> p < len && bytes_lt(n, e0[p as int].0),
                self.entries() == e0,
                keys_sorted(e0),
                e0.len() == len,
                n == name.spec_bytes(),
                v == value.spec_bytes(),
                p <= len,
                forall|j: int| 0 <= j < p ==> bytes_lt(#[trigger] e0[j].0, n),
            decreases len - p + (if past { 0int } else { 1int }),
        {
            let key = self.headers[p].0.as_slice();
            assert(key@ == h0[p as int].0@);
            assert(e0[p as int] == (h0[p as int].0@, h0[p as int].1@));
            let c = compare_bytes(key, nb);
            if c == 0 {
                let _old = self.headers.remove(p);
                let entry = (to_vec(nb), to_vec(vb));
                self.headers.insert(p, entry);
                proof {
                    assert(self.headers@ =~= h0.update(p as int, entry));
                    assert(e0[p as int].0 == n);
                    assert(self.entries() =~= e0.update(p as int, (n, v)));
                    assert(keys_sorted(self.entries())) by {
                        assert forall|i: int, j: int|
                            0 <= i < j < self.entries().len() implies bytes_lt(
                            #[trigger] self.entries()[i].0,
                            #[trigger] self.entries()[j].0,
                        ) by {
                            assert(bytes_lt(e0[i].0, e0[j].0));
                        }
                    }
                }
                return;
            }
            if c > 0 {
                past = true;
            } else {
                p = p + 1;
            }
        }
        proof {
            lemma_bytes_lt_irreflexive(n);
            if past {
                assert forall|j: int| p <= j < len implies bytes_lt(n, #[trigger] e0[j].0) by {
                    if j > p {
                        assert(bytes_lt(e0[p as int].0, e0[j].0));
                        lemma_bytes_lt_transitive(n, e0[p as int].0, e0[j].0);
                    }
                }
            }
            assert(!has_key(e0, n)) by {
                if has_key(e0, n) {
                    let k = choose|k: int| 0 <= k < e0.len() && #[trigger] e0[k].0 == n;
                    if k < p {
                        assert(bytes_lt(e0[k].0, n));
                    } else {
                        assert(bytes_lt(n, e0[k].0));
                    }
                }
            }
        }
        let entry = (to_vec(nb), to_vec(vb));
        self.headers.insert(p, entry);
        proof {
            assert(self.headers@ =~= h0.insert(p as int, entry));
            let e1 = self.entries();
            assert(e1 =~= e0.insert(p as int, (n, v)));
            assert(keys_sorted(e1)) by {
                assert forall|i: int, j: int| 0 <= i < j < e1.len() implies bytes_lt(
                    #[trigger] e1[i].0,
                    #[trigger] e1[j].0,
                ) by {
                    if j < p {
                        assert(bytes_lt(e0[i].0, e0[j].0));
                    } else if j == p {
                        assert(bytes_lt(e0[i].0, n));
                    } else if i < p {
                        assert(bytes_lt(e0[i].0, n));
                        assert(bytes_lt(n, e0[j - 1].0));
                        lemma_bytes_lt_transitive(e0[i].0, n, e0[j - 1].0);
                    } else if i == p {
                        assert(bytes_lt(n, e0[j - 1].0));
                    } else {
                        assert(bytes_lt(e0[i - 1].0, e0[j - 1].0));
                    }
                }
            }
        }
    }

    /// The status line as a C string; `None` where the message holds a NUL
    /// byte, which the native server cannot take.
    pub fn c_status(&self) -> (r: Option<Vec<u8>>)
        ensures
            r.is_none() <==> has_nul(status_text(self.spec_status(), self.spec_message())),
            r matches Some(v) ==> v@ == c_bytes(status_text(self.spec_status(), self.spec_message())),
    {
        let line = match &self.status_message {
            Some(m) => status_line(self.status, Some(m.as_slice())),
            None => status_line(self.status, None),
        };
        c_string(line.as_slice())
    }

    /// Every header as a pair of C strings, in the order of names; `None`
    /// where a name or a value holds a NUL byte.
    pub fn c_headers(&self) -> (r: Option<Vec<(Vec<u8>, Vec<u8>)>>)
        ensures
            r.is_none() <==> any_nul(self.entries()),
            r matches Some(v) ==> {
                &&& v@.len() == self.entries().len()
                &&& forall|i: int|
                    0 <= i < v@.len() ==> (#[trigger] v@[i]).0@ == c_bytes(self.entries()[i].0)
                        && v@[i].1@ == c_bytes(self.entries()[i].1)
            },
    {
        let ghost e = self.entries();
        let mut out: Vec<(Vec<u8>, Vec<u8>)> = Vec::new();
        let mut i: usize = 0;
        while i < self.headers.len()
            invariant
                e == self.entries(),
                e.len() == self.headers@.len(),
                i <= e.len(),
                out@.len() == i,
                forall|j: int| #![trigger e[j]] 0 <= j < i ==> !has_nul(e[j].0) && !has_nul(e[j].1),
                forall|j: int|
                    0 <= j < i ==> (#[trigger] out@[j]).0@ == c_bytes(e[j].0) && out@[j].1@
                        == c_bytes(e[j].1),
            decreases e.len() - i,
        {
            let entry = &self.headers[i];
            assert(e[i as int] == (entry.0@, entry.1@));
            let name = c_string(entry.0.as_slice());
            let value = c_string(entry.1.as_slice());
            match name {
                Some(n) => match value {
                    Some(v) => {
                        assert(!has_nul(e[i as int].0) && !has_nul(e[i as int].1));
                        out.push((n, v));
                    },
                    None => {
                        assert(has_nul(e[i as int].0) || has_nul(e[i as int].1));
                        return None;
                    },
                },
                None => {
                    assert(has_nul(e[i as int].0) || has_nul(e[i as int].1));
                    return None;
                },
            }
            i = i + 1;
        }
        assert(!any_nul(e));
        Some(out)
    }
}

} // verus!
