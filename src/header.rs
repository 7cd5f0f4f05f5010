//! An ordered header multimap with case-insensitive names and a per-value
//! "sensitive" mark.
use vstd::prelude::*;
use vstd::string::*;
use vstd::utf8::encode_utf8;

verus! {

/// A byte that a header value may hold: visible ASCII, obs-text or a tab.
pub open spec fn is_value_byte(b: u8) -> bool {
    (b >= 32 && b != 127) || b == 9
}

/// Bytes that make a valid header value.
pub open spec fn is_header_value(b: Seq<u8>) -> bool {
    forall|i: int| 0 <= i < b.len() ==> is_value_byte(#[trigger] b[i])
}

/// A token character, the alphabet of header names.
pub open spec fn is_tchar(c: char) -> bool {
    ('a' <= c <= 'z') || ('A' <= c <= 'Z') || ('0' <= c <= '9') || c == '!' || c == '#' || c == '$'
        || c == '%' || c == '&' || c == '\'' || c == '*' || c == '+' || c == '-' || c == '.' || c == '^'
        || c == '_' || c == '`' || c == '|' || c == '~'
}

/// Text that makes a valid header name.
pub open spec fn is_header_name(s: Seq<char>) -> bool {
    1 <= s.len() <= 65535 && forall|i: int| 0 <= i < s.len() ==> is_tchar(#[trigger] s[i])
}

/// The lowercase letters, indexed by their place in the alphabet.
pub open spec fn lower_alphabet() -> Seq<char> {
    seq![
        'a', 'b', 'c', 'd', 'e', 'f', 'g', 'h', 'i', 'j', 'k', 'l', 'm', 'n', 'o', 'p', 'q', 'r',
        's', 't', 'u', 'v', 'w', 'x', 'y', 'z',
    ]
}

/// An ASCII uppercase letter made lowercase; any other character unchanged.
pub open spec fn lower_char(c: char) -> char {
    if 'A' <= c <= 'Z' {
        lower_alphabet()[(c as u32 - 'A' as u32) as int]
    } else {
        c
    }
}

/// Text with its ASCII letters made lowercase.
pub open spec fn ascii_lower(s: Seq<char>) -> Seq<char> {
    s.map_values(|c: char| lower_char(c))
}

/// Relies on `http::HeaderName::from_bytes`: it accepts one to 65535 token
/// characters and yields them in lowercase.
#[verifier::external_body]
fn parse_header_name(s: &str) -> (r: Result<String, http::Error>)
    ensures
        r is Ok <==> is_header_name(s@),
        r is Ok ==> r->Ok_0@ == ascii_lower(s@),
{
    match http::HeaderName::from_bytes(s.as_bytes()) {
        Ok(n) => Ok(n.as_str().to_string()),
        Err(e) => Err(e.into()),
    }
}

/// Relies on `http::HeaderValue::from_bytes`: it accepts exactly the bytes of
/// `is_value_byte` and keeps them as they are.
#[verifier::external_body]
fn parse_header_value(b: &[u8]) -> (r: Result<Vec<u8>, http::Error>)
    ensures
        r is Ok <==> is_header_value(b@),
        r is Ok ==> r->Ok_0@ == b@,
{
    match http::HeaderValue::from_bytes(b) {
        Ok(v) => Ok(v.as_bytes().to_vec()),
        Err(e) => Err(e.into()),
    }
}

/// The lowercase form of a valid name is valid and stays as it is when made
/// lowercase again.
proof fn lemma_lower_is_held(s: Seq<char>)
    requires
        is_header_name(s),
    ensures
        is_held_name(ascii_lower(s)),
{
    let l = ascii_lower(s);
    assert forall|i: int| 0 <= i < l.len() implies is_tchar(#[trigger] l[i]) && lower_char(l[i]) == l[i] by {
        assert(is_tchar(s[i]));
        if 'A' <= s[i] <= 'Z' {
            lemma_lower_letter(s[i]);
        }
    }
    assert(ascii_lower(l) =~= l);
}

/// Text of lowercase letters and `-`, one to 65535 characters long, is a
/// name as it is held.
pub proof fn lemma_held_literal(s: Seq<char>)
    requires
        1 <= s.len() <= 65535,
        forall|i: int| 0 <= i < s.len() ==> ('a' <= #[trigger] s[i] <= 'z') || s[i] == '-',
    ensures
        is_held_name(s),
{
    assert(ascii_lower(s) =~= s);
}

/// Text of visible ASCII characters encodes to a valid header value.
pub proof fn lemma_visible_text_is_value(s: Seq<char>)
    requires
        forall|i: int| 0 <= i < s.len() ==> ' ' <= #[trigger] s[i] <= '~',
    ensures
        is_header_value(encode_utf8(s)),
{
    assert(vstd::utf8::is_ascii_chars(s));
    vstd::utf8::is_ascii_chars_encode_utf8(s);
    let b = encode_utf8(s);
    assert forall|i: int| 0 <= i < b.len() implies is_value_byte(#[trigger] b[i]) by {
        assert(s[i] as u8 == b[i]);
        assert(32 <= s[i] as u32 <= 126);
    }
}

/// An uppercase letter made lowercase is a lowercase letter.
proof fn lemma_lower_letter(c: char)
    requires
        'A' <= c <= 'Z',
    ensures
        'a' <= lower_char(c) <= 'z',
{
    let a = lower_alphabet();
    assert(a[0] == 'a' && a[1] == 'b' && a[2] == 'c' && a[3] == 'd' && a[4] == 'e' && a[5] == 'f');
    assert(a[6] == 'g' && a[7] == 'h' && a[8] == 'i' && a[9] == 'j' && a[10] == 'k' && a[11] == 'l');
    assert(a[12] == 'm' && a[13] == 'n' && a[14] == 'o' && a[15] == 'p' && a[16] == 'q' && a[17] == 'r');
    assert(a[18] == 's' && a[19] == 't' && a[20] == 'u' && a[21] == 'v' && a[22] == 'w' && a[23] == 'x');
    assert(a[24] == 'y' && a[25] == 'z');
}

/// A validated header name, held in lowercase.
#[derive(Debug)]
pub struct HeaderName {
    name: String,
}

/// A header name as it is held: valid, with no uppercase letter.
pub open spec fn is_held_name(s: Seq<char>) -> bool {
    is_header_name(s) && ascii_lower(s) == s
}

impl HeaderName {
    #[verifier::type_invariant]
    spec fn inv(&self) -> bool {
        is_held_name(self.name@)
    }
}

impl View for HeaderName {
    type V = Seq<char>;

    closed spec fn view(&self) -> Seq<char> {
        self.name@
    }
}

impl HeaderName {
    /// Parses a header name; uppercase ASCII letters are made lowercase.
    pub fn from_str(s: &str) -> (r: Result<HeaderName, http::Error>)
        ensures
            r is Ok <==> is_header_name(s@),
            r is Ok ==> r->Ok_0@ == ascii_lower(s@),
    {
        match parse_header_name(s) {
            Ok(name) => {
                proof {
                    lemma_lower_is_held(s@);
                }
                Ok(HeaderName { name })
            },
            Err(e) => Err(e),
        }
    }

    /// A name that is known to be valid and lowercase.
    fn known(s: &str) -> (r: HeaderName)
        requires
            is_held_name(s@),
        ensures
            r@ == s@,
    {
        HeaderName { name: String::from_str(s) }
    }

    /// The name `content-type`.
    pub fn content_type() -> (r: HeaderName)
        ensures
            r@ == "content-type"@,
    {
        proof {
            reveal_strlit("content-type");
            lemma_held_literal("content-type"@);
        }
        HeaderName::known("content-type")
    }

    /// The name `set-cookie`.
    pub fn set_cookie() -> (r: HeaderName)
        ensures
            r@ == "set-cookie"@,
    {
        proof {
            reveal_strlit("set-cookie");
            lemma_held_literal("set-cookie"@);
        }
        HeaderName::known("set-cookie")
    }

    /// The name, in lowercase.
    pub fn as_str(&self) -> (r: &str)
        ensures
            r@ == self@,
    {
        self.name.as_str()
    }
}

/// A header value: its bytes, and whether it is kept out of debug output.
#[derive(Debug)]
pub struct HeaderValue {
    bytes: Vec<u8>,
    sensitive: bool,
}

impl View for HeaderValue {
    type V = (Seq<u8>, bool);

    closed spec fn view(&self) -> (Seq<u8>, bool) {
        (self.bytes@, self.sensitive)
    }
}

impl Clone for HeaderValue {
    fn clone(&self) -> (r: Self)
        ensures
            r@ == self@,
    {
        HeaderValue { bytes: self.bytes.clone(), sensitive: self.sensitive }
    }
}

impl HeaderValue {
    /// A value made of the given bytes, not sensitive; fails on a byte that a
    /// header value may not hold.
    pub fn from_bytes(b: &[u8]) -> (r: Result<HeaderValue, http::Error>)
        ensures
            r is Ok <==> is_header_value(b@),
            r is Ok ==> r->Ok_0@ == (b@, false),
    {
        match parse_header_value(b) {
            Ok(bytes) => Ok(HeaderValue { bytes, sensitive: false }),
            Err(e) => Err(e),
        }
    }

    /// A value made of the bytes of `s`, not sensitive.
    pub fn from_str(s: &str) -> (r: Result<HeaderValue, http::Error>)
        ensures
            r is Ok <==> is_header_value(s.spec_bytes()),
            r is Ok ==> r->Ok_0@ == (s.spec_bytes(), false),
    {
        HeaderValue::from_bytes(s.as_bytes())
    }

    /// A value that is known to be valid, not sensitive.
    pub(crate) fn known(s: &str) -> (r: HeaderValue)
        ensures
            r@ == (encode_utf8(s@), false),
    {
        HeaderValue { bytes: s.as_bytes_vec(), sensitive: false }
    }

    /// The bytes of the value.
    pub fn as_bytes(&self) -> (r: &[u8])
        ensures
            r@ == self@.0,
    {
        self.bytes.as_slice()
    }

    /// Whether the value is kept out of debug output.
    pub fn is_sensitive(&self) -> (r: bool)
        ensures
            r == self@.1,
    {
        self.sensitive
    }

    /// Marks the value as sensitive or not.
    pub fn set_sensitive(&mut self, sensitive: bool)
        ensures
            final(self)@ == (old(self)@.0, sensitive),
    {
        self.sensitive = sensitive;
    }
}

/// An entry of a header map: a lowercase name and a value.
pub type HeaderEntry = (Seq<char>, (Seq<u8>, bool));

/// The values held under `name`, in the order they were added.
pub open spec fn values_for(s: Seq<HeaderEntry>, name: Seq<char>) -> Seq<(Seq<u8>, bool)>
    decreases s.len(),
{
    if s.len() == 0 {
        Seq::empty()
    } else if s.last().0 == name {
        values_for(s.drop_last(), name).push(s.last().1)
    } else {
        values_for(s.drop_last(), name)
    }
}

/// The entries whose name is not `name`, in order.
pub open spec fn without(s: Seq<HeaderEntry>, name: Seq<char>) -> Seq<HeaderEntry>
    decreases s.len(),
{
    if s.len() == 0 {
        Seq::empty()
    } else if s.last().0 == name {
        without(s.drop_last(), name)
    } else {
        without(s.drop_last(), name).push(s.last())
    }
}

/// The entries with every value under `name` replaced by one value.
pub open spec fn replaced(s: Seq<HeaderEntry>, name: Seq<char>, v: (Seq<u8>, bool)) -> Seq<HeaderEntry> {
    without(s, name).push((name, v))
}

/// Removing a name leaves no value under it and every other name's values.
pub proof fn lemma_without(s: Seq<HeaderEntry>, name: Seq<char>, other: Seq<char>)
    ensures
        values_for(without(s, name), other) == if other == name {
            Seq::<(Seq<u8>, bool)>::empty()
        } else {
            values_for(s, other)
        },
    decreases s.len(),
{
    if s.len() > 0 {
        lemma_without(s.drop_last(), name, other);
        if s.last().0 != name {
            assert(without(s, name).drop_last() =~= without(s.drop_last(), name));
        }
    }
}

/// Replacing a name's values leaves one value under it and every other
/// name's values.
pub proof fn lemma_replaced(s: Seq<HeaderEntry>, name: Seq<char>, v: (Seq<u8>, bool), other: Seq<char>)
    ensures
        values_for(replaced(s, name, v), other) == if other == name {
            seq![v]
        } else {
            values_for(s, other)
        },
{
    lemma_without(s, name, other);
    assert(replaced(s, name, v).drop_last() =~= without(s, name));
    if other == name {
        assert(Seq::<(Seq<u8>, bool)>::empty().push(v) =~= seq![v]);
    }
}

/// Adding an entry puts its value last under its name and leaves the rest.
pub proof fn lemma_pushed(s: Seq<HeaderEntry>, e: HeaderEntry, other: Seq<char>)
    ensures
        values_for(s.push(e), other) == if other == e.0 {
            values_for(s, other).push(e.1)
        } else {
            values_for(s, other)
        },
{
    assert(s.push(e).drop_last() =~= s);
}

/// The first value under a name stays first when entries are added after
/// the first `i + 1`.
pub proof fn lemma_first_stays(s: Seq<HeaderEntry>, i: int, name: Seq<char>)
    requires
        0 <= i < s.len(),
        s[i].0 == name,
        values_for(s.take(i), name).len() == 0,
    ensures
        first_of(values_for(s, name)) == Some(s[i].1),
    decreases s.len(),
{
    if s.len() == i + 1 {
        assert(s.drop_last() =~= s.take(i));
    } else {
        assert(s.drop_last().take(i) =~= s.take(i));
        lemma_first_stays(s.drop_last(), i, name);
    }
}

/// An ordered multimap from lowercase header names to values.
#[derive(Debug)]
pub struct HeaderMap {
    entries: Vec<(String, HeaderValue)>,
}

/// The entries of a header map seen as names and values.
pub open spec fn entries_view(v: Seq<(String, HeaderValue)>) -> Seq<HeaderEntry> {
    v.map_values(|e: (String, HeaderValue)| (e.0@, e.1@))
}

impl HeaderMap {
    #[verifier::type_invariant]
    spec fn inv(&self) -> bool {
        forall|i: int| 0 <= i < self.entries@.len() ==> is_held_name(#[trigger] self.entries@[i].0@)
    }
}

impl View for HeaderMap {
    type V = Seq<HeaderEntry>;

    closed spec fn view(&self) -> Seq<HeaderEntry> {
        entries_view(self.entries@)
    }
}

/// Values seen as their bytes and marks.
pub open spec fn values_view(v: Seq<HeaderValue>) -> Seq<(Seq<u8>, bool)> {
    v.map_values(|h: HeaderValue| h@)
}

/// The first value of a sequence, if any.
pub open spec fn first_of(s: Seq<(Seq<u8>, bool)>) -> Option<(Seq<u8>, bool)> {
    if s.len() > 0 {
        Some(s[0])
    } else {
        None
    }
}

/// What a merge of `other` into `base` holds under `name`: the values of
/// `other` where it has any, else those of `base`.
pub open spec fn merged_values(base: Seq<HeaderEntry>, other: Seq<HeaderEntry>, name: Seq<char>) -> Seq<
    (Seq<u8>, bool),
> {
    if values_for(other, name).len() > 0 {
        values_for(other, name)
    } else {
        values_for(base, name)
    }
}

impl HeaderMap {
    /// An empty map.
    pub fn new() -> (r: HeaderMap)
        ensures
            r@ == Seq::<HeaderEntry>::empty(),
    {
        let r = HeaderMap { entries: Vec::new() };
        assert(r@ =~= Seq::<HeaderEntry>::empty());
        r
    }

    /// The number of values in the map, over all names.
    pub fn len(&self) -> (r: usize)
        ensures
            r == self@.len(),
    {
        self.entries.len()
    }

    /// The name and value of the entry at `i`, in the order of insertion.
    pub fn entry(&self, i: usize) -> (r: (&str, &HeaderValue))
        requires
            i < self@.len(),
        ensures
            (r.0@, r.1@) == self@[i as int],
            is_held_name(r.0@),
    {
        proof {
            use_type_invariant(self);
        }
        let e = &self.entries[i];
        (e.0.as_str(), &e.1)
    }

    /// Adds a value under `name`, after those already there.
    pub fn append(&mut self, name: HeaderName, value: HeaderValue)
        ensures
            final(self)@ == old(self)@.push((name@, value@)),
    {
        proof {
            use_type_invariant(&*self);
            use_type_invariant(&name);
        }
        let mut entries = self.copied_entries();
        entries.push((name.name, value));
        assert(entries_view(entries@) =~= entries_view(old(self).entries@).push((name@, value@)));
        *self = HeaderMap { entries };
    }

    /// Puts `value` under `name` in place of every value there.
    pub fn insert(&mut self, name: HeaderName, value: HeaderValue)
        ensures
            final(self)@ == replaced(old(self)@, name@, value@),
    {
        proof {
            use_type_invariant(&*self);
            use_type_invariant(&name);
        }
        let mut kept: Vec<(String, HeaderValue)> = Vec::new();
        let n = self.entries.len();
        let mut i: usize = 0;
        while i < n
            invariant
                0 <= i <= n,
                n == self.entries.len(),
                self.entries@ == old(self).entries@,
                forall|j: int| 0 <= j < self.entries@.len() ==> is_held_name(#[trigger] self.entries@[j].0@),
                forall|j: int| 0 <= j < kept@.len() ==> is_held_name(#[trigger] kept@[j].0@),
                entries_view(kept@) == without(entries_view(self.entries@.take(i as int)), name@),
            decreases n - i,
        {
            let e = &self.entries[i];
            let ghost before = kept@;
            if !(e.0 == name.name) {
                kept.push((e.0.clone(), e.1.clone()));
                assert(entries_view(kept@) =~= entries_view(before).push((e.0@, e.1@)));
            }
            assert(entries_view(self.entries@.take(i + 1)).drop_last() =~= entries_view(
                self.entries@.take(i as int),
            ));
            i += 1;
        }
        assert(self.entries@.take(n as int) =~= self.entries@);
        let ghost before = kept@;
        kept.push((name.name, value));
        assert(entries_view(kept@) =~= entries_view(before).push((name@, value@)));
        *self = HeaderMap { entries: kept };
    }

    /// A copy of the entries.
    fn copied_entries(&self) -> (r: Vec<(String, HeaderValue)>)
        ensures
            entries_view(r@) == self@,
            forall|j: int| 0 <= j < r@.len() ==> is_held_name(#[trigger] r@[j].0@),
    {
        proof {
            use_type_invariant(self);
        }
        let mut out: Vec<(String, HeaderValue)> = Vec::new();
        let n = self.entries.len();
        let mut i: usize = 0;
        while i < n
            invariant
                0 <= i <= n,
                n == self.entries.len(),
                forall|j: int| 0 <= j < self.entries@.len() ==> is_held_name(#[trigger] self.entries@[j].0@),
                forall|j: int| 0 <= j < out@.len() ==> is_held_name(#[trigger] out@[j].0@),
                entries_view(out@) == entries_view(self.entries@.take(i as int)),
            decreases n - i,
        {
            let e = &self.entries[i];
            let ghost before = out@;
            let name = e.0.clone();
            let value = e.1.clone();
            out.push((name, value));
            assert(entries_view(out@) =~= entries_view(before).push((e.0@, e.1@)));
            assert(self.entries@.take(i + 1) =~= self.entries@.take(i as int).push(self.entries@[i as int]));
            assert(entries_view(out@) =~= entries_view(self.entries@.take(i + 1)));
            i += 1;
        }
        assert(self.entries@.take(n as int) =~= self.entries@);
        out
    }

    /// Every value under the name `name` (matched without regard to ASCII
    /// case), in order; none when `name` is not a valid header name.
    pub fn get_all(&self, name: &str) -> (r: Vec<HeaderValue>)
        ensures
            values_view(r@) == if is_header_name(name@) {
                values_for(self@, ascii_lower(name@))
            } else {
                Seq::empty()
            },
    {
        match HeaderName::from_str(name) {
            Ok(key) => self.get_all_by_name(&key),
            Err(_) => {
                let out: Vec<HeaderValue> = Vec::new();
                assert(values_view(out@) =~= Seq::<(Seq<u8>, bool)>::empty());
                out
            },
        }
    }

    /// Every value under a validated name, in order.
    pub fn get_all_by_name(&self, key: &HeaderName) -> (r: Vec<HeaderValue>)
        ensures
            values_view(r@) == values_for(self@, key@),
    {
        let mut out: Vec<HeaderValue> = Vec::new();
        let n = self.entries.len();
        let mut i: usize = 0;
        while i < n
            invariant
                0 <= i <= n,
                n == self.entries.len(),
                values_view(out@) == values_for(entries_view(self.entries@.take(i as int)), key@),
            decreases n - i,
        {
            let e = &self.entries[i];
            let ghost before = out@;
            if e.0 == key.name {
                out.push(e.1.clone());
                assert(values_view(out@) =~= values_view(before).push(e.1@));
            }
            assert(entries_view(self.entries@.take(i + 1)).drop_last() =~= entries_view(
                self.entries@.take(i as int),
            ));
            i += 1;
        }
        assert(self.entries@.take(n as int) =~= self.entries@);
        out
    }

    /// The first value under a validated name.
    pub fn get_by_name(&self, key: &HeaderName) -> (r: Option<HeaderValue>)
        ensures
            match r {
                Some(v) => first_of(values_for(self@, key@)) == Some(v@),
                None => values_for(self@, key@).len() == 0,
            },
    {
        let n = self.entries.len();
        let mut i: usize = 0;
        while i < n
            invariant
                0 <= i <= n,
                n == self.entries.len(),
                values_for(entries_view(self.entries@.take(i as int)), key@).len() == 0,
            decreases n - i,
        {
            let e = &self.entries[i];
            assert(entries_view(self.entries@.take(i + 1)).drop_last() =~= entries_view(
                self.entries@.take(i as int),
            ));
            if e.0 == key.name {
                let v = e.1.clone();
                proof {
                    assert(entries_view(self.entries@).take(i as int) =~= entries_view(self.entries@.take(i as int)));
                    lemma_first_stays(entries_view(self.entries@), i as int, key@);
                }
                return Some(v);
            }
            i += 1;
        }
        assert(self.entries@.take(n as int) =~= self.entries@);
        None
    }

    /// The first value under `name`, matched without regard to ASCII case.
    pub fn get(&self, name: &str) -> (r: Option<HeaderValue>)
        ensures
            match r {
                Some(v) => first_of(values_for(self@, ascii_lower(name@))) == Some(v@) && is_header_name(name@),
                None => !is_header_name(name@) || values_for(self@, ascii_lower(name@)).len() == 0,
            },
    {
        let mut all = self.get_all(name);
        if all.len() == 0 {
            None
        } else {
            let ghost seen = values_view(all@);
            assert(seen[0] == all@[0]@);
            let v = all.remove(0);
            assert(first_of(seen) == Some(v@));
            Some(v)
        }
    }

    /// Whether `name` is the name of one of the first `j` entries.
    fn has_name_before(&self, j: usize, name: &String) -> (r: bool)
        requires
            j <= self@.len(),
        ensures
            r == (values_for(self@.take(j as int), name@).len() > 0),
    {
        let mut found = false;
        let mut i: usize = 0;
        while i < j
            invariant
                0 <= i <= j,
                j <= self.entries.len(),
                found == (values_for(self@.take(i as int), name@).len() > 0),
            decreases j - i,
        {
            assert(self@.take(i + 1).drop_last() =~= self@.take(i as int));
            let same = self.entries[i].0 == *name;
            found = found || same;
            i += 1;
        }
        found
    }

    /// Merges `other` into this map: the first value of each name of `other`
    /// replaces what the map held under it, and its later values are added
    /// after it.
    pub fn merge(&mut self, other: &HeaderMap)
        ensures
            forall|name: Seq<char>| #[trigger]
                values_for(final(self)@, name) == merged_values(old(self)@, other@, name),
    {
        proof {
            use_type_invariant(other);
        }
        let n = other.entries.len();
        let mut j: usize = 0;
        assert(forall|name: Seq<char>| #[trigger]
            values_for(other@.take(0), name) == Seq::<(Seq<u8>, bool)>::empty()) by {
            assert forall|name: Seq<char>| #[trigger]
                values_for(other@.take(0), name) == Seq::<(Seq<u8>, bool)>::empty() by {
                assert(other@.take(0).len() == 0);
            }
        }
        while j < n
            invariant
                0 <= j <= n,
                n == other@.len(),
                n == other.entries@.len(),
                forall|k: int| 0 <= k < other.entries@.len() ==> is_held_name(#[trigger] other.entries@[k].0@),
                forall|name: Seq<char>| #[trigger]
                    values_for(self@, name) == merged_values(old(self)@, other@.take(j as int), name),
            decreases n - j,
        {
            let e = &other.entries[j];
            let seen = other.has_name_before(j, &e.0);
            let ghost cur = self@;
            let ghost k0 = e.0@;
            let ghost v0 = e.1@;
            assert(other@.take(j + 1) =~= other@.take(j as int).push((k0, v0)));
            let key = HeaderName { name: e.0.clone() };
            if seen {
                self.append(key, e.1.clone());
                assert forall|name: Seq<char>| #[trigger]
                    values_for(self@, name) == merged_values(old(self)@, other@.take(j + 1), name) by {
                    lemma_pushed(cur, (k0, v0), name);
                    lemma_pushed(other@.take(j as int), (k0, v0), name);
                }
            } else {
                self.insert(key, e.1.clone());
                assert forall|name: Seq<char>| #[trigger]
                    values_for(self@, name) == merged_values(old(self)@, other@.take(j + 1), name) by {
                    lemma_replaced(cur, k0, v0, name);
                    lemma_pushed(other@.take(j as int), (k0, v0), name);
                    if name == k0 {
                        assert(Seq::<(Seq<u8>, bool)>::empty().push(v0) =~= seq![v0]);
                    }
                }
            }
            j += 1;
        }
        assert(other@.take(n as int) =~= other@);
    }
}

impl Clone for HeaderMap {
    fn clone(&self) -> (r: Self)
        ensures
            r@ == self@,
    {
        HeaderMap { entries: self.copied_entries() }
    }
}

} // verus!
