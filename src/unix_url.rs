//! Addresses of the form `unix://<hex(socket path)><path>[?query][#fragment]`.
use vstd::prelude::*;
use vstd::string::*;
use vstd::utf8::encode_utf8;

verus! {

/// The lowercase hex digits, indexed by their value.
pub open spec fn hex_alphabet() -> Seq<char> {
    seq!['0', '1', '2', '3', '4', '5', '6', '7', '8', '9', 'a', 'b', 'c', 'd', 'e', 'f']
}

/// Two lowercase hex digits for each byte, most significant digit first.
pub open spec fn hex_lower(b: Seq<u8>) -> Seq<char>
    decreases b.len(),
{
    if b.len() == 0 {
        Seq::empty()
    } else {
        let x = b.last();
        hex_lower(b.drop_last()) + seq![hex_alphabet()[(x / 16) as int], hex_alphabet()[(x % 16) as int]]
    }
}

/// The value of a hex digit of either case.
pub open spec fn hex_value(c: char) -> Option<u8> {
    if '0' <= c <= '9' {
        Some((c as u8 - '0' as u8) as u8)
    } else if 'a' <= c <= 'f' {
        Some((c as u8 - 'a' as u8 + 10) as u8)
    } else if 'A' <= c <= 'F' {
        Some((c as u8 - 'A' as u8 + 10) as u8)
    } else {
        None
    }
}

/// The bytes that a hex text stands for: `None` when its length is odd or a
/// character is not a hex digit.
pub open spec fn hex_decode(s: Seq<char>) -> Option<Seq<u8>>
    decreases s.len(),
{
    if s.len() == 0 {
        Some(Seq::empty())
    } else if s.len() < 2 {
        None
    } else {
        match (hex_decode(s.subrange(0, s.len() - 2)), hex_value(s[s.len() - 2]), hex_value(s[s.len() - 1])) {
            (Some(init), Some(hi), Some(lo)) => Some(init.push((hi * 16 + lo) as u8)),
            _ => None,
        }
    }
}

/// A character of the alphabet `[0-9a-f]`.
pub open spec fn is_lower_hex_digit(c: char) -> bool {
    ('0' <= c <= '9') || ('a' <= c <= 'f')
}

/// Relies on `hex::encode`: two lowercase digits per byte, in order.
#[verifier::external_body]
fn hex_encode(b: &[u8]) -> (r: String)
    ensures
        r@ == hex_lower(b@),
{
    hex::encode(b)
}

/// Relies on `hex::decode`: pairs of hex digits of either case, each pair
/// one byte; an odd length or another character is an error.
#[verifier::external_body]
fn hex_decode_text(s: &str) -> (r: Option<Vec<u8>>)
    ensures
        match r {
            Some(v) => hex_decode(s@) == Some(v@),
            None => hex_decode(s@) is None,
        },
{
    hex::decode(s).ok()
}

/// The socket path that the hex text of an authority stands for: `None`
/// when the text is not hex.
pub fn decode_authority(authority: &str) -> (r: Option<Vec<u8>>)
    ensures
        match r {
            Some(v) => hex_decode(authority@) == Some(v@),
            None => hex_decode(authority@) is None,
        },
{
    hex_decode_text(authority)
}

/// The hex text of a socket path stands for exactly its bytes, is made of
/// lowercase hex digits, and holds two of them per byte.
pub proof fn lemma_address_round_trip(p: Seq<u8>)
    ensures
        hex_decode(hex_lower(p)) == Some(p),
        hex_lower(p).len() == 2 * p.len(),
        forall|i: int| 0 <= i < hex_lower(p).len() ==> is_lower_hex_digit(#[trigger] hex_lower(p)[i]),
    decreases p.len(),
{
    if p.len() > 0 {
        let q = p.drop_last();
        let x = p.last();
        lemma_address_round_trip(q);
        lemma_hex_digit(x / 16);
        lemma_hex_digit(x % 16);
        let h = hex_lower(p);
        assert(h.subrange(0, h.len() - 2) =~= hex_lower(q));
        assert(q.push(x) =~= p);
        assert((x / 16) * 16 + x % 16 == x) by (nonlinear_arith);
    }
}

proof fn lemma_hex_digit(n: u8)
    requires
        n < 16,
    ensures
        hex_value(hex_alphabet()[n as int]) == Some(n),
        is_lower_hex_digit(hex_alphabet()[n as int]),
{
    let a = hex_alphabet();
    assert(a[0] == '0' && a[1] == '1' && a[2] == '2' && a[3] == '3' && a[4] == '4' && a[5] == '5');
    assert(a[6] == '6' && a[7] == '7' && a[8] == '8' && a[9] == '9' && a[10] == 'a' && a[11] == 'b');
    assert(a[12] == 'c' && a[13] == 'd' && a[14] == 'e' && a[15] == 'f');
}

/// Optional text seen as its characters.
pub open spec fn opt_chars(o: Option<String>) -> Option<Seq<char>> {
    match o {
        Some(s) => Some(s@),
        None => None,
    }
}

/// Optional borrowed text seen as its characters.
pub open spec fn opt_str_chars(o: Option<&str>) -> Option<Seq<char>> {
    match o {
        Some(s) => Some(s@),
        None => None,
    }
}

/// The parts of a parsed URL: its serialization, path, query and fragment.
pub type UrlParts = (Seq<char>, Seq<char>, Option<Seq<char>>, Option<Seq<char>>);

/// Optional text after a one-character mark; nothing when absent.
pub open spec fn marked(mark: char, o: Option<Seq<char>>) -> Seq<char> {
    match o {
        Some(t) => seq![mark] + t,
        None => Seq::empty(),
    }
}

/// How a serialization ends: `?query` when there is a query, then
/// `#fragment` when there is a fragment.
pub open spec fn tail_of(query: Option<Seq<char>>, fragment: Option<Seq<char>>) -> Seq<char> {
    marked('?', query) + marked('#', fragment)
}

/// Parts whose serialization ends with its query and fragment.
pub open spec fn well_formed(p: UrlParts) -> bool {
    let t = tail_of(p.2, p.3);
    t.len() <= p.0.len() && p.0.subrange(p.0.len() - t.len(), p.0.len() as int) == t
}

/// The serialization up to its query, or its fragment when it has no query.
pub open spec fn head_of(p: UrlParts) -> Seq<char> {
    p.0.subrange(0, p.0.len() - tail_of(p.2, p.3).len())
}

/// What `url::Url::parse` makes of a text: `None` when it fails, else the
/// serialization, path, query and fragment of the parsed URL.
pub uninterp spec fn url_parse(s: Seq<char>) -> Option<UrlParts>;

/// A URL over a Unix domain socket, held as the parts of its serialization.
///
/// Two addresses are equal when their serializations are.
#[derive(Debug)]
pub struct UnixUrl {
    serialization: String,
    path: String,
    query: Option<String>,
    fragment: Option<String>,
}

impl UnixUrl {
    /// Every address ends with its query and fragment.
    #[verifier::type_invariant]
    pub open spec fn inv(&self) -> bool {
        well_formed(self@)
    }
}

impl View for UnixUrl {
    type V = UrlParts;

    closed spec fn view(&self) -> UrlParts {
        (self.serialization@, self.path@, opt_chars(self.query), opt_chars(self.fragment))
    }
}

/// Relies on `url::Url::parse` and the accessors `as_str`, `path`, `query`
/// and `fragment`: what they return depends on the text alone, and the
/// serialization ends with `?` and the query, if any, then `#` and the
/// fragment, if any.
#[verifier::external_body]
fn parse_url(s: &str) -> (r: Result<UnixUrl, url::ParseError>)
    ensures
        match r {
            Ok(u) => url_parse(s@) == Some(u@) && well_formed(u@),
            Err(_) => url_parse(s@) is None,
        },
{
    let url = url::Url::parse(s)?;
    Ok(UnixUrl {
        serialization: url.as_str().to_string(),
        path: url.path().to_string(),
        query: url.query().map(|q| q.to_string()),
        fragment: url.fragment().map(|f| f.to_string()),
    })
}

/// The uppercase hex digits, indexed by their value.
pub open spec fn hex_upper() -> Seq<char> {
    seq!['0', '1', '2', '3', '4', '5', '6', '7', '8', '9', 'A', 'B', 'C', 'D', 'E', 'F']
}

/// A byte that form encoding leaves as it is: `*`, `-`, `.`, `_`, digits and
/// ASCII letters.
pub open spec fn form_unchanged(b: u8) -> bool {
    b == 42 || b == 45 || b == 46 || (48 <= b <= 57) || (65 <= b <= 90) || b == 95 || (97 <= b <= 122)
}

/// The form encoding of one byte: itself, `+` for a space, else `%` and two
/// uppercase hex digits.
pub open spec fn form_byte(b: u8) -> Seq<char> {
    if form_unchanged(b) {
        seq![b as char]
    } else if b == 32 {
        seq!['+']
    } else {
        seq!['%', hex_upper()[(b / 16) as int], hex_upper()[(b % 16) as int]]
    }
}

/// The form encoding (`application/x-www-form-urlencoded`) of bytes.
pub open spec fn form_text(b: Seq<u8>) -> Seq<char>
    decreases b.len(),
{
    if b.len() == 0 {
        Seq::empty()
    } else {
        form_text(b.drop_last()) + form_byte(b.last())
    }
}

/// One encoded `name=value` pair.
pub open spec fn form_pair(name: Seq<char>, value: Seq<char>) -> Seq<char> {
    form_text(encode_utf8(name)) + seq!['='] + form_text(encode_utf8(value))
}

/// Pairs of borrowed text seen as characters.
pub open spec fn pairs_view(p: Seq<(&str, &str)>) -> Seq<(Seq<char>, Seq<char>)> {
    p.map_values(|x: (&str, &str)| (x.0@, x.1@))
}

/// A query with encoded pairs added at its end, each after a `&` unless the
/// text before it is empty.
pub open spec fn appended_query(q: Seq<char>, pairs: Seq<(Seq<char>, Seq<char>)>) -> Seq<char>
    decreases pairs.len(),
{
    if pairs.len() == 0 {
        q
    } else {
        let before = appended_query(q, pairs.drop_last());
        let sep = if before.len() > 0 {
            seq!['&']
        } else {
            Seq::empty()
        };
        before + sep + form_pair(pairs.last().0, pairs.last().1)
    }
}

/// Adding pairs in two steps gives the query that one step adds them all in.
pub proof fn lemma_query_accumulates(
    q: Seq<char>,
    first: Seq<(Seq<char>, Seq<char>)>,
    second: Seq<(Seq<char>, Seq<char>)>,
)
    ensures
        appended_query(appended_query(q, first), second) == appended_query(q, first + second),
    decreases second.len(),
{
    if second.len() > 0 {
        lemma_query_accumulates(q, first, second.drop_last());
        assert((first + second).drop_last() =~= first + second.drop_last());
    } else {
        assert(first + second =~= first);
    }
}

/// Relies on `url::form_urlencoded::Serializer` (`for_suffix` at position
/// zero, `extend_pairs`, `finish`): each pair is added as
/// `form_pair` says, after a `&` unless the text before it is empty.
#[verifier::external_body]
pub(crate) fn append_pairs(start: String, pairs: &[(&str, &str)]) -> (r: String)
    ensures
        r@ == appended_query(start@, pairs_view(pairs@)),
{
    let mut serializer = url::form_urlencoded::Serializer::for_suffix(start, 0);
    serializer.extend_pairs(pairs.iter());
    serializer.finish()
}

/// Replacing the query keeps what comes before it, so a second replacement
/// undoes the first.
pub proof fn lemma_with_query_twice(p: UrlParts, q1: Option<Seq<char>>, q2: Option<Seq<char>>)
    ensures
        with_query(with_query(p, q1), q2) == with_query(p, q2),
{
    let w = with_query(p, q1);
    assert(head_of(w) =~= head_of(p));
}

/// Putting back the query that well-formed parts already have changes
/// nothing.
pub proof fn lemma_with_same_query(p: UrlParts)
    requires
        well_formed(p),
    ensures
        with_query(p, p.2) == p,
{
    let t = tail_of(p.2, p.3);
    assert(head_of(p) + t =~= p.0);
}

/// The query of parts, or the empty text when there is none.
pub open spec fn query_or_empty(p: UrlParts) -> Seq<char> {
    match p.2 {
        Some(q) => q,
        None => Seq::empty(),
    }
}

/// Parts with their query replaced and the serialization changed to match.
pub open spec fn with_query(p: UrlParts, q: Option<Seq<char>>) -> UrlParts {
    (head_of(p) + tail_of(q, p.3), p.1, q, p.3)
}

/// What `url::Url::set_query` makes of a serialization: `None` when the
/// text does not parse.
pub uninterp spec fn url_set_query(s: Seq<char>, q: Option<Seq<char>>) -> Option<UrlParts>;

/// What `url::Url::set_path` makes of a serialization: `None` when the text
/// does not parse.
pub uninterp spec fn url_set_path(s: Seq<char>, path: Seq<char>) -> Option<UrlParts>;

/// Relies on `url::Url::parse` and `url::Url::set_query`, which percent-encode
/// the query; the result depends on the arguments alone, and its
/// serialization ends with its query and fragment.
#[verifier::external_body]
fn reparse_with_query(s: &str, q: Option<&str>) -> (r: Option<UnixUrl>)
    ensures
        match r {
            Some(u) => url_set_query(s@, opt_str_chars(q)) == Some(u@) && well_formed(u@),
            None => url_set_query(s@, opt_str_chars(q)) is None,
        },
{
    let mut url = url::Url::parse(s).ok()?;
    url.set_query(q);
    Some(UnixUrl {
        serialization: url.as_str().to_string(),
        path: url.path().to_string(),
        query: url.query().map(|x| x.to_string()),
        fragment: url.fragment().map(|x| x.to_string()),
    })
}

/// Relies on `url::Url::parse` and `url::Url::set_path`, which percent-encode
/// the path; the result depends on the arguments alone, and its
/// serialization ends with its query and fragment.
#[verifier::external_body]
fn reparse_with_path(s: &str, path: &str) -> (r: Option<UnixUrl>)
    ensures
        match r {
            Some(u) => url_set_path(s@, path@) == Some(u@) && well_formed(u@),
            None => url_set_path(s@, path@) is None,
        },
{
    let mut url = url::Url::parse(s).ok()?;
    url.set_path(path);
    Some(UnixUrl {
        serialization: url.as_str().to_string(),
        path: url.path().to_string(),
        query: url.query().map(|x| x.to_string()),
        fragment: url.fragment().map(|x| x.to_string()),
    })
}

/// Text cut at each `/`, in order; text without a `/` is one segment.
pub open spec fn split_slash(s: Seq<char>) -> Seq<Seq<char>>
    decreases s.len(),
{
    if s.len() == 0 {
        seq![Seq::empty()]
    } else {
        let prev = split_slash(s.drop_last());
        if s.last() == '/' {
            prev.push(Seq::empty())
        } else {
            prev.update(prev.len() - 1, prev.last().push(s.last()))
        }
    }
}

/// Strings seen as their characters.
pub open spec fn strings_view(v: Seq<String>) -> Seq<Seq<char>> {
    v.map_values(|s: String| s@)
}

/// A relative path with a leading `/`, added when it is missing.
pub open spec fn normalized_path(path: Seq<char>) -> Seq<char> {
    if path.len() > 0 && path[0] == '/' {
        path
    } else {
        seq!['/'] + path
    }
}

/// The text that is parsed for a socket path and a relative path.
pub open spec fn unix_url_text(socket: Seq<u8>, path: Seq<char>) -> Seq<char> {
    "unix://"@ + hex_lower(socket) + normalized_path(path)
}

impl PartialEq for UnixUrl {
    fn eq(&self, other: &UnixUrl) -> (r: bool) {
        self.serialization == other.serialization
    }
}

impl vstd::std_specs::cmp::PartialEqSpecImpl for UnixUrl {
    open spec fn obeys_eq_spec() -> bool {
        true
    }

    open spec fn eq_spec(&self, other: &UnixUrl) -> bool {
        self@.0 == other@.0
    }
}

impl Clone for UnixUrl {
    fn clone(&self) -> (r: Self)
        ensures
            r@ == self@,
    {
        proof {
            use_type_invariant(self);
        }
        UnixUrl {
            serialization: self.serialization.clone(),
            path: self.path.clone(),
            query: clone_opt(&self.query),
            fragment: clone_opt(&self.fragment),
        }
    }
}

/// A copy of optional text.
fn clone_opt(o: &Option<String>) -> (r: Option<String>)
    ensures
        opt_chars(r) == opt_chars(*o),
{
    match o {
        Some(s) => Some(s.clone()),
        None => None,
    }
}

impl UnixUrl {
    /// Builds the address of `path` on the server that listens at `socket`.
    ///
    /// The socket path's bytes are hex-encoded into the authority; the path
    /// gets a leading `/` when it has none, and may carry a query and a
    /// fragment. Fails when `url` cannot parse the composed text.
    pub fn new(socket: &str, path: &str) -> (r: Result<UnixUrl, url::ParseError>)
        ensures
            match r {
                Ok(u) => url_parse(unix_url_text(socket.spec_bytes(), path@)) == Some(u@),
                Err(_) => url_parse(unix_url_text(socket.spec_bytes(), path@)) is None,
            },
    {
        let encoded = hex_encode(socket.as_bytes());
        let mut text = String::from_str("unix://");
        text.append(encoded.as_str());
        let has_slash = path.unicode_len() > 0 && path.get_char(0) == '/';
        if !has_slash {
            text.append("/");
        }
        text.append(path);
        proof {
            reveal_strlit("/");
        }
        assert(text@ =~= unix_url_text(socket.spec_bytes(), path@));
        parse_url(text.as_str())
    }

    /// The whole address as text.
    pub fn as_str(&self) -> (r: &str)
        ensures
            r@ == self@.0,
            well_formed(self@),
    {
        proof {
            use_type_invariant(self);
        }
        self.serialization.as_str()
    }

    /// The path, which starts with `/`.
    pub fn path(&self) -> (r: &str)
        ensures
            r@ == self@.1,
    {
        self.path.as_str()
    }

    /// The query, without its `?`, if there is one.
    pub fn query(&self) -> (r: Option<&str>)
        ensures
            opt_str_chars(r) == self@.2,
    {
        match &self.query {
            Some(q) => Some(q.as_str()),
            None => None,
        }
    }

    /// Replaces the query by text that needs no encoding, or removes it.
    pub(crate) fn replace_query(&mut self, q: Option<String>)
        ensures
            final(self)@ == with_query(old(self)@, opt_chars(q)),
    {
        proof {
            use_type_invariant(&*self);
        }
        let n = self.serialization.unicode_len();
        let mut tail: usize = 0;
        match &self.query {
            Some(t) => {
                tail = t.unicode_len() + 1;
            },
            None => {},
        }
        match &self.fragment {
            Some(f) => {
                tail = tail + f.unicode_len() + 1;
            },
            None => {},
        }
        assert(tail == tail_of(self@.2, self@.3).len());
        let head = self.serialization.as_str().substring_char(0, n - tail);
        let mut text = String::from_str(head);
        match &q {
            Some(t) => {
                text.append("?");
                text.append(t.as_str());
            },
            None => {},
        }
        match &self.fragment {
            Some(f) => {
                text.append("#");
                text.append(f.as_str());
            },
            None => {},
        }
        proof {
            reveal_strlit("?");
            reveal_strlit("#");
        }
        let ghost want = with_query(self@, opt_chars(q));
        assert(text@ =~= want.0);
        assert(want.0.subrange(want.0.len() - tail_of(want.2, want.3).len(), want.0.len() as int)
            =~= tail_of(want.2, want.3));
        *self = UnixUrl {
            serialization: text,
            path: self.path.clone(),
            query: q,
            fragment: clone_opt(&self.fragment),
        };
    }

    /// Adds `name=value` pairs, form-encoded, at the end of the query, each
    /// after a `&` unless the query is still empty; a URL without a query
    /// gets one.
    pub fn query_pairs_mut(&mut self, pairs: &[(&str, &str)])
        ensures
            final(self)@ == with_query(old(self)@, Some(appended_query(query_or_empty(old(self)@), pairs_view(pairs@)))),
    {
        let acc = match &self.query {
            Some(q) => q.clone(),
            None => String::new(),
        };
        let acc = append_pairs(acc, pairs);
        self.replace_query(Some(acc));
    }

    /// Sets the query, percent-encoding what needs it, or removes it.
    pub fn set_query(&mut self, query: Option<&str>)
        ensures
            final(self)@ == match url_set_query(old(self)@.0, opt_str_chars(query)) {
                Some(p) => p,
                None => old(self)@,
            },
    {
        match reparse_with_query(self.serialization.as_str(), query) {
            Some(u) => {
                *self = u;
            },
            None => {},
        }
    }

    /// Sets the path, percent-encoding what needs it.
    pub fn set_path(&mut self, path: &str)
        ensures
            final(self)@ == match url_set_path(old(self)@.0, path@) {
                Some(p) => p,
                None => old(self)@,
            },
    {
        match reparse_with_path(self.serialization.as_str(), path) {
            Some(u) => {
                *self = u;
            },
            None => {},
        }
    }

    /// The segments of the path between its `/`s, when it starts with `/`.
    pub fn path_segments(&self) -> (r: Option<Vec<String>>)
        ensures
            match r {
                Some(v) => self@.1.len() > 0 && self@.1[0] == '/' && strings_view(v@) == split_slash(
                    self@.1.drop_first(),
                ),
                None => !(self@.1.len() > 0 && self@.1[0] == '/'),
            },
    {
        let p = self.path.as_str();
        let n = p.unicode_len();
        if n == 0 || p.get_char(0) != '/' {
            return None;
        }
        let mut segs: Vec<String> = Vec::new();
        let mut cur = String::new();
        let mut i: usize = 1;
        assert(p@.subrange(1, 1) =~= Seq::<char>::empty());
        assert(strings_view(segs@).push(cur@) =~= split_slash(p@.subrange(1, 1)));
        while i < n
            invariant
                1 <= i <= n,
                n == p@.len(),
                strings_view(segs@).push(cur@) == split_slash(p@.subrange(1, i as int)),
            decreases n - i,
        {
            let c = p.get_char(i);
            let ghost before = strings_view(segs@).push(cur@);
            assert(p@.subrange(1, i + 1).drop_last() =~= p@.subrange(1, i as int));
            if c == '/' {
                segs.push(cur);
                cur = String::new();
                assert(strings_view(segs@).push(cur@) =~= before.push(Seq::empty()));
            } else {
                let ghost old_cur = cur@;
                cur.append(p.substring_char(i, i + 1));
                assert(cur@ =~= old_cur.push(c));
                assert(strings_view(segs@).push(cur@) =~= before.update(before.len() - 1, before.last().push(c)));
            }
            i += 1;
        }
        let ghost done = strings_view(segs@).push(cur@);
        segs.push(cur);
        assert(strings_view(segs@) =~= done);
        assert(p@.subrange(1, n as int) =~= p@.drop_first());
        Some(segs)
    }

    /// The fragment, without its `#`, if there is one.
    pub fn fragment(&self) -> (r: Option<&str>)
        ensures
            opt_str_chars(r) == self@.3,
    {
        match &self.fragment {
            Some(f) => Some(f.as_str()),
            None => None,
        }
    }
}

} // verus!
