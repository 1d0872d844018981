use vstd::prelude::*;
use vstd::utf8::{decode_utf8, valid_utf8};
use crate::text::{
    chars_of, extend_chars, lower, skip_non_spaces, skip_space, skip_spaces, skip_word,
    slice_chars, string_of, to_lower, trim, trimmed, utf8_text,
};

verus! {

/// The request methods that the sniffer recognises.
#[derive(Clone, Copy, Debug, PartialEq, Eq, Structural)]
pub enum Method {
    Get,
    Post,
    Connect,
}

/// What a sniffed request holds: its method, its target and its headers in order of
/// appearance, each name lower-cased and each value trimmed.
pub type RequestView = (Method, Seq<char>, Seq<(Seq<char>, Seq<char>)>);

pub open spec fn connect_word() -> Seq<char> {
    seq!['C', 'O', 'N', 'N', 'E', 'C', 'T']
}

pub open spec fn get_word() -> Seq<char> {
    seq!['G', 'E', 'T']
}

pub open spec fn post_word() -> Seq<char> {
    seq!['P', 'O', 'S', 'T']
}

pub open spec fn host_word() -> Seq<char> {
    seq!['h', 'o', 's', 't']
}

pub open spec fn unknown_host() -> Seq<char> {
    seq!['u', 'n', 'k', 'n', 'o', 'w', 'n']
}

pub open spec fn http_prefix() -> Seq<char> {
    seq!['h', 't', 't', 'p', ':', '/', '/']
}

pub open spec fn https_prefix() -> Seq<char> {
    seq!['h', 't', 't', 'p', 's', ':', '/', '/']
}

/// The index of the first line feed at or after `i`, or the end of `t`.
pub open spec fn line_end(t: Seq<char>, i: int) -> int
    decreases t.len() - i,
{
    if i < 0 || i >= t.len() || t[i] == '\n' {
        i
    } else {
        line_end(t, i + 1)
    }
}

proof fn lemma_line_end_bounds(t: Seq<char>, i: int)
    requires
        0 <= i <= t.len(),
    ensures
        i <= line_end(t, i) <= t.len(),
        line_end(t, i) < t.len() ==> t[line_end(t, i)] == '\n',
    decreases t.len() - i,
{
    if i < t.len() && t[i] != '\n' {
        lemma_line_end_bounds(t, i + 1);
    }
}

/// A line without the carriage return that may end it.
pub open spec fn strip_cr(l: Seq<char>) -> Seq<char> {
    if l.len() > 0 && l.last() == '\r' {
        l.drop_last()
    } else {
        l
    }
}

/// The line that starts at `i`.
pub open spec fn line_at(t: Seq<char>, i: int) -> Seq<char> {
    strip_cr(t.subrange(i, line_end(t, i)))
}

/// The index of the first colon of `l` at or after `j`, or the end of `l`.
pub open spec fn colon_at(l: Seq<char>, j: int) -> int
    decreases l.len() - j,
{
    if j < 0 || j >= l.len() || l[j] == ':' {
        j
    } else {
        colon_at(l, j + 1)
    }
}

/// A header line split on its first colon: the lower-cased name and the trimmed value.
pub open spec fn split_header(l: Seq<char>) -> Option<(Seq<char>, Seq<char>)> {
    let c = colon_at(l, 0);
    if c < l.len() {
        Some((lower(l.subrange(0, c)), trim(l.subrange(c + 1, l.len() as int))))
    } else {
        None
    }
}

/// The headers of the lines from `i` up to the first blank line; lines without a colon
/// are passed over.
pub open spec fn headers_from(t: Seq<char>, i: int) -> Seq<(Seq<char>, Seq<char>)>
    decreases t.len() - i,
{
    let e = line_end(t, i);
    if i < 0 || i >= t.len() || e < i {
        seq![]
    } else {
        let l = line_at(t, i);
        if l.len() == 0 {
            seq![]
        } else {
            let rest = if e + 1 < t.len() {
                headers_from(t, e + 1)
            } else {
                seq![]
            };
            match split_header(l) {
                Some(h) => seq![h] + rest,
                None => rest,
            }
        }
    }
}

/// The value of the last header named `name`.
pub open spec fn lookup(h: Seq<(Seq<char>, Seq<char>)>, name: Seq<char>) -> Option<Seq<char>>
    decreases h.len(),
{
    if h.len() == 0 {
        None
    } else if h.last().0 == name {
        Some(h.last().1)
    } else {
        lookup(h.drop_last(), name)
    }
}

/// The request that a header block written as text announces, if its first line has a
/// recognised method and a target.
pub open spec fn request_of_text(t: Seq<char>) -> Option<RequestView> {
    let first = line_at(t, 0);
    let a0 = skip_space(first, 0);
    let b0 = skip_word(first, a0);
    let a1 = skip_space(first, b0);
    let b1 = skip_word(first, a1);
    let verb = first.subrange(a0, b0);
    let arg = first.subrange(a1, b1);
    let headers = headers_from(t, line_end(t, 0) + 1);
    if a1 >= first.len() {
        None
    } else if verb == connect_word() {
        Some((Method::Connect, arg, headers))
    } else if verb == get_word() || verb == post_word() {
        let host = match lookup(headers, host_word()) {
            Some(v) => v,
            None => unknown_host(),
        };
        Some((if verb == get_word() { Method::Get } else { Method::Post }, http_prefix() + host + arg, headers))
    } else {
        None
    }
}

/// The request that a header block announces: none where the bytes are not UTF-8.
pub open spec fn request_of_bytes(b: Seq<u8>) -> Option<RequestView> {
    if valid_utf8(b) {
        request_of_text(decode_utf8(b))
    } else {
        None
    }
}

pub open spec fn pairs_view(v: Seq<(Vec<char>, Vec<char>)>) -> Seq<(Seq<char>, Seq<char>)> {
    v.map_values(|p: (Vec<char>, Vec<char>)| (p.0@, p.1@))
}

/// The first request of a connection, as far as it was sniffed.
pub struct ParsedRequest {
    method: Method,
    target: Vec<char>,
    headers: Vec<(Vec<char>, Vec<char>)>,
}

impl ParsedRequest {
    pub closed spec fn view(&self) -> RequestView {
        (self.method, self.target@, pairs_view(self.headers@))
    }

    pub fn method(&self) -> (r: Method)
        ensures
            r == self.view().0,
    {
        self.method
    }

    /// For `CONNECT` the `host:port` pair; otherwise the absolute URL.
    pub fn target(&self) -> (r: String)
        ensures
            r@ == self.view().1,
    {
        string_of(self.target.as_slice())
    }

    /// The value of the last header whose lower-cased name is `name`.
    pub fn header(&self, name: &str) -> (r: Option<String>)
        ensures
            match r {
                Some(v) => lookup(self.view().2, name@) == Some(v@),
                None => lookup(self.view().2, name@).is_none(),
            },
    {
        let n = chars_of(name);
        match find_header(&self.headers, n.as_slice()) {
            Some(v) => Some(string_of(v.as_slice())),
            None => None,
        }
    }

    /// The URL to record: `https://` before the pair of a `CONNECT`, else the target.
    pub fn url(&self) -> (r: String)
        ensures
            r@ == url_of(self.view()),
    {
        if self.method == Method::Connect {
            let mut v: Vec<char> = Vec::new();
            let pre: [char; 8] = ['h', 't', 't', 'p', 's', ':', '/', '/'];
            extend_chars(&mut v, pre.as_slice());
            extend_chars(&mut v, self.target.as_slice());
            assert(v@ =~= https_prefix() + self.target@);
            string_of(v.as_slice())
        } else {
            string_of(self.target.as_slice())
        }
    }
}

pub open spec fn url_of(r: RequestView) -> Seq<char> {
    if r.0 == Method::Connect {
        https_prefix() + r.1
    } else {
        r.1
    }
}

fn same_chars(a: &[char], b: &[char]) -> (r: bool)
    ensures
        r == (a@ == b@),
{
    if a.len() != b.len() {
        return false;
    }
    let mut i: usize = 0;
    while i < a.len()
        invariant
            a@.len() == b@.len(),
            i <= a@.len(),
            forall|k: int| 0 <= k < i ==> a@[k] == b@[k],
        decreases a@.len() - i,
    {
        if a[i] != b[i] {
            return false;
        }
        i = i + 1;
    }
    assert(a@ =~= b@);
    true
}

fn find_header(h: &Vec<(Vec<char>, Vec<char>)>, name: &[char]) -> (r: Option<Vec<char>>)
    ensures
        match r {
            Some(v) => lookup(pairs_view(h@), name@) == Some(v@),
            None => lookup(pairs_view(h@), name@).is_none(),
        },
{
    let mut i = h.len();
    assert(h@.subrange(0, h@.len() as int) =~= h@);
    while i > 0
        invariant
            i <= h@.len(),
            lookup(pairs_view(h@), name@) == lookup(pairs_view(h@.subrange(0, i as int)), name@),
        decreases i,
    {
        let ghost p = pairs_view(h@.subrange(0, i as int));
        assert(pairs_view(h@.subrange(0, i - 1)) =~= p.drop_last());
        if same_chars(h[i - 1].0.as_slice(), name) {
            return Some(h[i - 1].1.clone());
        }
        i = i - 1;
    }
    None
}

fn find_line_end(t: &[char], i: usize) -> (r: usize)
    requires
        i <= t@.len(),
    ensures
        r == line_end(t@, i as int),
        i <= r <= t@.len(),
{
    let mut j = i;
    while j < t.len() && t[j] != '\n'
        invariant
            i <= j <= t@.len(),
            line_end(t@, j as int) == line_end(t@, i as int),
        decreases t@.len() - j,
    {
        j = j + 1;
    }
    j
}

/// The line that starts at `i`, and where it ends.
fn line_from(t: &[char], i: usize) -> (r: (Vec<char>, usize))
    requires
        i <= t@.len(),
    ensures
        r.0@ == line_at(t@, i as int),
        r.1 == line_end(t@, i as int),
        i <= r.1 <= t@.len(),
{
    let e = find_line_end(t, i);
    let ghost whole = t@.subrange(i as int, e as int);
    let f = if e > i && t[e - 1] == '\r' {
        e - 1
    } else {
        e
    };
    let l = slice_chars(t, i, f);
    assert(l@ =~= strip_cr(whole));
    (l, e)
}

fn find_colon(l: &[char]) -> (r: usize)
    ensures
        r == colon_at(l@, 0),
        r <= l@.len(),
{
    let mut j: usize = 0;
    while j < l.len() && l[j] != ':'
        invariant
            j <= l@.len(),
            colon_at(l@, j as int) == colon_at(l@, 0),
        decreases l@.len() - j,
    {
        j = j + 1;
    }
    j
}

fn collect_headers(t: &[char], start: usize) -> (r: Vec<(Vec<char>, Vec<char>)>)
    requires
        start <= t@.len(),
    ensures
        pairs_view(r@) == headers_from(t@, start as int),
{
    let mut out: Vec<(Vec<char>, Vec<char>)> = Vec::new();
    let mut i = start;
    while i < t.len()
        invariant
            i <= t@.len(),
            headers_from(t@, start as int) == pairs_view(out@) + headers_from(t@, i as int),
        decreases t@.len() - i,
    {
        let (l, e) = line_from(t, i);
        if l.len() == 0 {
            assert(pairs_view(out@) + headers_from(t@, i as int) =~= pairs_view(out@));
            return out;
        }
        let ghost before = out@;
        let ghost i0 = i;
        proof {
            lemma_line_end_bounds(t@, i as int);
        }
        let c = find_colon(l.as_slice());
        if c < l.len() {
            let name_raw = slice_chars(l.as_slice(), 0, c);
            let name = to_lower(name_raw.as_slice());
            let value_raw = slice_chars(l.as_slice(), c + 1, l.len());
            let value = trimmed(value_raw.as_slice());
            assert(split_header(l@) == Some((name@, value@)));
            out.push((name, value));
            assert(pairs_view(out@) =~= pairs_view(before) + seq![(name@, value@)]);
        }
        assert(line_at(t@, i0 as int) == l@);
        assert(headers_from(t@, i0 as int) == match split_header(l@) {
            Some(h) => seq![h] + headers_from(t@, e + 1),
            None => headers_from(t@, e + 1),
        });
        if e < t.len() {
            i = e + 1;
        } else {
            i = t.len();
        }
        assert(pairs_view(out@) + headers_from(t@, i as int) =~= pairs_view(before) + headers_from(
            t@,
            i0 as int,
        ));
    }
    assert(pairs_view(out@) + headers_from(t@, i as int) =~= pairs_view(out@));
    out
}

/// Reads the request that a header block written as text announces.
pub fn parse_text(t: &[char]) -> (r: Option<ParsedRequest>)
    ensures
        match r {
            Some(p) => request_of_text(t@) == Some(p.view()),
            None => request_of_text(t@).is_none(),
        },
{
    let (first, e) = line_from(t, 0);
    let a0 = skip_spaces(first.as_slice(), 0);
    let b0 = skip_non_spaces(first.as_slice(), a0);
    let a1 = skip_spaces(first.as_slice(), b0);
    let b1 = skip_non_spaces(first.as_slice(), a1);
    let headers = if e < t.len() {
        collect_headers(t, e + 1)
    } else {
        let h: Vec<(Vec<char>, Vec<char>)> = Vec::new();
        assert(pairs_view(h@) =~= headers_from(t@, e + 1));
        h
    };
    if a1 >= first.len() {
        return None;
    }
    let verb = slice_chars(first.as_slice(), a0, b0);
    let arg = slice_chars(first.as_slice(), a1, b1);
    let w_connect: [char; 7] = ['C', 'O', 'N', 'N', 'E', 'C', 'T'];
    let w_get: [char; 3] = ['G', 'E', 'T'];
    let w_post: [char; 4] = ['P', 'O', 'S', 'T'];
    assert(w_connect@ =~= connect_word());
    assert(w_get@ =~= get_word());
    assert(w_post@ =~= post_word());
    if same_chars(verb.as_slice(), w_connect.as_slice()) {
        let p = ParsedRequest { method: Method::Connect, target: arg, headers };
        return Some(p);
    }
    let is_get = same_chars(verb.as_slice(), w_get.as_slice());
    if !is_get && !same_chars(verb.as_slice(), w_post.as_slice()) {
        return None;
    }
    let w_host: [char; 4] = ['h', 'o', 's', 't'];
    assert(w_host@ =~= host_word());
    let host = match find_header(&headers, w_host.as_slice()) {
        Some(v) => v,
        None => {
            let u: [char; 7] = ['u', 'n', 'k', 'n', 'o', 'w', 'n'];
            let v = slice_chars(u.as_slice(), 0, 7);
            assert(v@ =~= unknown_host());
            v
        },
    };
    let mut target: Vec<char> = Vec::new();
    let pre: [char; 7] = ['h', 't', 't', 'p', ':', '/', '/'];
    extend_chars(&mut target, pre.as_slice());
    extend_chars(&mut target, host.as_slice());
    extend_chars(&mut target, arg.as_slice());
    assert(target@ =~= http_prefix() + host@ + arg@);
    let method = if is_get {
        Method::Get
    } else {
        Method::Post
    };
    Some(ParsedRequest { method, target, headers })
}

/// Reads the request that a header block announces; bytes that are not UTF-8 announce none.
pub fn parse_head(b: &[u8]) -> (r: Option<ParsedRequest>)
    ensures
        match r {
            Some(p) => request_of_bytes(b@) == Some(p.view()),
            None => request_of_bytes(b@).is_none(),
        },
{
    match utf8_text(b) {
        Some(s) => {
            let t = chars_of(s.as_str());
            parse_text(t.as_slice())
        },
        None => None,
    }
}

/// The most bytes of a connection's start that are held while looking for the end of its
/// header block.
pub const HEAD_CAP: usize = 8192;

/// A line feed at `i` that ends a blank line.
pub open spec fn blank_at(s: Seq<u8>, i: int) -> bool {
    &&& 0 <= i < s.len()
    &&& s[i] == 10u8
    &&& (i == 0 || s[i - 1] == 10u8 || (s[i - 1] == 13u8 && (i == 1 || s[i - 2] == 10u8)))
}

/// The index of the first line feed at or after `i` that ends a blank line, or the end.
pub open spec fn first_blank(s: Seq<u8>, i: int) -> int
    decreases s.len() - i,
{
    if i < 0 || i >= s.len() || blank_at(s, i) {
        i
    } else {
        first_blank(s, i + 1)
    }
}

/// The part of a stream that the sniffer looks at.
pub open spec fn capped(s: Seq<u8>) -> Seq<u8> {
    if s.len() <= HEAD_CAP {
        s
    } else {
        s.take(HEAD_CAP as int)
    }
}

/// Whether the start `s` of a stream settles what the sniffer yields: its header block has
/// ended within the cap, or the cap is reached.
pub open spec fn sniff_settled(s: Seq<u8>) -> bool {
    first_blank(capped(s), 0) < capped(s).len() || s.len() >= HEAD_CAP
}

/// What a stream that starts with `s` yields once settled: the request of its header block,
/// blank line included, if that block ends within the cap.
pub open spec fn sniff_result(s: Seq<u8>) -> Option<RequestView> {
    let c = capped(s);
    let k = first_blank(c, 0);
    if k < c.len() {
        request_of_bytes(c.take(k + 1))
    } else {
        None
    }
}

proof fn lemma_first_blank_bounds(s: Seq<u8>, i: int)
    requires
        0 <= i <= s.len(),
    ensures
        i <= first_blank(s, i) <= s.len(),
        first_blank(s, i) < s.len() ==> blank_at(s, first_blank(s, i)),
    decreases s.len() - i,
{
    if i < s.len() && !blank_at(s, i) {
        lemma_first_blank_bounds(s, i + 1);
    }
}

proof fn lemma_first_blank_prefix(p: Seq<u8>, q: Seq<u8>, i: int)
    requires
        0 <= i <= p.len() <= q.len(),
        p == q.take(p.len() as int),
        first_blank(p, i) < p.len(),
    ensures
        first_blank(q, i) == first_blank(p, i),
    decreases p.len() - i,
{
    if !blank_at(p, i) {
        assert(!blank_at(q, i));
        lemma_first_blank_prefix(p, q, i + 1);
    } else {
        assert(blank_at(q, i));
    }
}

/// Once the start of a stream settles what the sniffer yields, bytes that follow change
/// nothing: a connection yields at most one request, the same however its bytes are split.
pub proof fn lemma_sniff_settles(s: Seq<u8>, t: Seq<u8>)
    requires
        sniff_settled(s),
    ensures
        sniff_settled(s + t),
        sniff_result(s + t) == sniff_result(s),
{
    let st = s + t;
    if s.len() >= HEAD_CAP {
        assert(capped(st) =~= capped(s));
    } else {
        let c = capped(s);
        let d = capped(st);
        assert(c == d.take(c.len() as int));
        lemma_first_blank_prefix(c, d, 0);
        lemma_first_blank_bounds(c, 0);
        let k = first_blank(c, 0);
        assert(c.take(k + 1) =~= d.take(k + 1));
    }
}

/// Watches the start of a client stream for its first request; it never holds back or
/// changes a byte, it only looks.
pub struct Sniffer {
    head: Vec<u8>,
    done: bool,
    seen: Ghost<Seq<u8>>,
}

impl Sniffer {
    /// The bytes fed so far.
    pub closed spec fn seen(&self) -> Seq<u8> {
        self.seen@
    }

    pub closed spec fn wf(&self) -> bool {
        &&& self.done == sniff_settled(self.seen@)
        &&& !self.done ==> self.head@ == self.seen@ && self.seen@.len() < HEAD_CAP
    }

    pub fn new() -> (r: Sniffer)
        ensures
            r.wf(),
            r.seen() == Seq::<u8>::empty(),
    {
        let r = Sniffer { head: Vec::new(), done: false, seen: Ghost(Seq::empty()) };
        assert(first_blank(Seq::<u8>::empty(), 0) == 0);
        r
    }

    /// Whether the bytes fed so far settle what the sniffer yields.
    pub fn finished(&self) -> (r: bool)
        requires
            self.wf(),
        ensures
            r == sniff_settled(self.seen()),
    {
        self.done
    }

    /// Takes the next bytes of the client stream; yields the request at the moment the
    /// stream's start settles it, and nothing before or after.
    pub fn feed(&mut self, chunk: &[u8]) -> (r: Option<ParsedRequest>)
        requires
            old(self).wf(),
        ensures
            final(self).wf(),
            final(self).seen() == old(self).seen() + chunk@,
            match r {
                Some(p) => !sniff_settled(old(self).seen()) && sniff_result(final(self).seen())
                    == Some(p.view()),
                None => sniff_settled(old(self).seen()) || !sniff_settled(final(self).seen())
                    || sniff_result(final(self).seen()).is_none(),
            },
    {
        let ghost s0 = self.seen@;
        let ghost s1 = s0 + chunk@;
        self.seen = Ghost(s1);
        if self.done {
            proof {
                lemma_sniff_settles(s0, chunk@);
            }
            return None;
        }
        let room = HEAD_CAP - self.head.len();
        let m = if chunk.len() < room {
            chunk.len()
        } else {
            room
        };
        let mut i: usize = 0;
        while i < m
            invariant
                m <= chunk@.len(),
                i <= m,
                self.head@ == s0 + chunk@.take(i as int),
                self.seen@ == s1,
                !self.done,
            decreases m - i,
        {
            self.head.push(chunk[i]);
            i = i + 1;
            assert(self.head@ =~= s0 + chunk@.take(i as int));
        }
        assert(self.head@ =~= capped(s1));
        let k = find_blank(self.head.as_slice());
        if k < self.head.len() {
            self.done = true;
            let h = take_bytes(self.head.as_slice(), k + 1);
            parse_head(h.as_slice())
        } else {
            self.done = self.head.len() >= HEAD_CAP;
            None
        }
    }
}

fn find_blank(h: &[u8]) -> (r: usize)
    ensures
        r == first_blank(h@, 0),
        r <= h@.len(),
{
    let mut k: usize = 0;
    while k < h.len() && !blank_end(h, k)
        invariant
            k <= h@.len(),
            first_blank(h@, k as int) == first_blank(h@, 0),
        decreases h@.len() - k,
    {
        k = k + 1;
    }
    k
}

fn take_bytes(v: &[u8], n: usize) -> (r: Vec<u8>)
    requires
        n <= v@.len(),
    ensures
        r@ == v@.take(n as int),
{
    let mut h: Vec<u8> = Vec::new();
    let mut j: usize = 0;
    while j < n
        invariant
            n <= v@.len(),
            j <= n,
            h@ == v@.take(j as int),
        decreases n - j,
    {
        h.push(v[j]);
        j = j + 1;
        assert(h@ =~= v@.take(j as int));
    }
    h
}

fn blank_end(h: &[u8], i: usize) -> (r: bool)
    requires
        i < h@.len(),
    ensures
        r == blank_at(h@, i as int),
{
    h[i] == 10u8 && (i == 0 || h[i - 1] == 10u8 || (h[i - 1] == 13u8 && (i == 1 || h[i - 2] == 10u8)))
}

} // verus!
