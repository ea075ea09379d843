//! The live quote stream: which streamed updates are kept, under which key,
//! and how the latest one for a symbol is found again.

use vstd::prelude::*;

use crate::text::{
    lemma_decimal_digits,
    ascii_lower, ascii_upper, is_ascii_small, is_ascii_text, is_white_space, lemma_ascii_case_char,
    lemma_trimmed_map, lemma_trimmed_shape, lemma_trimmed_unchanged, lemma_without_leading_tail,
    after_prefix, decimal, equal_ignoring_ascii_case, eq_ignore_ascii_case, same_text,
    strip_prefix, text_view, to_uppercase, trim, trim_start_char, trimmed, u64_to_decimal, uppercased,
    without_leading, without_leading_starts_otherwise,
};

verus! {

/// The cache key of an already trimmed and upper-cased symbol: `DX-Y.NYB`
/// becomes `DXY`, and leading `^` are removed otherwise.
pub open spec fn stream_key(upper: Seq<char>) -> Seq<char> {
    if upper == "DX-Y.NYB"@ {
        "DXY"@
    } else {
        without_leading(upper, '^')
    }
}

/// The cache key of a symbol: trimmed and upper-cased, with `DX-Y.NYB`
/// mapped to `DXY` and leading `^` removed otherwise.
pub open spec fn normalized_symbol(s: Seq<char>) -> Seq<char> {
    stream_key(uppercased(trimmed(s)))
}

/// An ASCII symbol trimmed, with its ASCII small letters made capitals.
pub open spec fn ascii_canonical(s: Seq<char>) -> Seq<char> {
    trimmed(s).map_values(|c: char| ascii_upper(c))
}

/// On ASCII text, upper-casing the trimmed text is ASCII upper-casing.
proof fn lemma_uppercased_ascii(s: Seq<char>, t: Seq<char>, upper: Seq<char>)
    requires
        is_ascii_text(s),
        t == trimmed(s),
        is_ascii_text(t) ==> upper == t.map_values(|c: char| ascii_upper(c)),
    ensures
        upper == ascii_canonical(s),
{
    lemma_trimmed_shape(s);
}

/// The canonical form of an ASCII symbol is ASCII, starts and ends with
/// non-whitespace, and has no small letters left.
pub(crate) proof fn lemma_canonical_shape(s: Seq<char>)
    requires
        is_ascii_text(s),
    ensures
        is_ascii_text(ascii_canonical(s)),
        ascii_canonical(s).len() > 0 ==> !is_white_space(ascii_canonical(s)[0])
            && !is_white_space(ascii_canonical(s).last()),
        forall|i: int|
            0 <= i < ascii_canonical(s).len() ==> ascii_upper(#[trigger] ascii_canonical(s)[i])
                == ascii_canonical(s)[i],
{
    lemma_trimmed_shape(s);
    let t = trimmed(s);
    let u = ascii_canonical(s);
    assert forall|i: int| 0 <= i < u.len() implies (#[trigger] u[i] as u32) < 128 && ascii_upper(u[i]) == u[i] by {
        lemma_ascii_case_char(t[i]);
    }
    if u.len() > 0 {
        lemma_ascii_case_char(t[0]);
        lemma_ascii_case_char(t.last());
    }
}

/// A text in canonical form is its own canonical form.
pub(crate) proof fn lemma_canonical_fixed(u: Seq<char>)
    requires
        is_ascii_text(u),
        u.len() > 0 ==> !is_white_space(u[0]) && !is_white_space(u.last()),
        forall|i: int| 0 <= i < u.len() ==> ascii_upper(#[trigger] u[i]) == u[i],
    ensures
        ascii_canonical(u) == u,
{
    lemma_trimmed_unchanged(u);
    assert(u.map_values(|c: char| ascii_upper(c)) =~= u);
}

/// The cache key under which updates for `symbol` are stored and looked up.
/// For an ASCII symbol it is computed from the trimmed symbol with ASCII
/// letters upper-cased.
pub fn normalize_symbol(symbol: &str) -> (r: String)
    ensures
        r@ == normalized_symbol(symbol@),
        is_ascii_text(symbol@) ==> r@ == stream_key(ascii_canonical(symbol@)),
        r@.len() > 0 ==> r@[0] != '^',
        forall|i: int| 0 <= i < r@.len() ==> !is_ascii_small(#[trigger] r@[i]),
        r@ == normalized_symbol(symbol@.map_values(|c: char| ascii_lower(c))),
        r@ == normalized_symbol(symbol@.map_values(|c: char| ascii_upper(c))),
{
    let t = trim(symbol);
    let upper = to_uppercase(t);
    proof {
        if is_ascii_text(symbol@) {
            lemma_trimmed_shape(symbol@);
            lemma_uppercased_ascii(symbol@, t@, upper@);
        }
        let lower_fn = |c: char| ascii_lower(c);
        let upper_fn = |c: char| ascii_upper(c);
        assert forall|c: char| #[trigger] is_white_space(lower_fn(c)) == is_white_space(c) by {
            lemma_ascii_case_char(c);
        }
        assert forall|c: char| #[trigger] is_white_space(upper_fn(c)) == is_white_space(c) by {
            lemma_ascii_case_char(c);
        }
        lemma_trimmed_map(symbol@, lower_fn);
        lemma_trimmed_map(symbol@, upper_fn);
        stream_keys_drop_index_marker(symbol@);
        let key = stream_key(upper@);
        assert forall|i: int| 0 <= i < key.len() implies !is_ascii_small(#[trigger] key[i]) by {
            if upper@ == "DX-Y.NYB"@ {
                reveal_strlit("DXY");
            } else {
                lemma_without_leading_tail(upper@, '^');
                assert(key[i] == upper@[i + upper@.len() - key.len()]);
            }
        }
    }
    if same_text(upper.as_str(), "DX-Y.NYB") {
        String::from_str("DXY")
    } else {
        String::from_str(trim_start_char(upper.as_str(), '^'))
    }
}

/// A quote counts as live unless it carries a status other than `live`
/// (compared without regard to ASCII case).
pub open spec fn liveish(status: Option<Seq<char>>) -> bool {
    match status {
        Some(s) => equal_ignoring_ascii_case(s, "live"@),
        None => true,
    }
}

/// Whether a streamed quote with this status counts as live.
pub fn is_liveish(status: Option<&str>) -> (r: bool)
    ensures
        r == liveish(text_view(status)),
{
    match status {
        Some(s) => eq_ignore_ascii_case(s, "live"),
        None => true,
    }
}

/// The decimal text of a volume, or the empty text when there is none.
pub open spec fn volume_text(v: Option<u64>) -> Seq<char> {
    match v {
        Some(n) => decimal(n as nat),
        None => Seq::<char>::empty(),
    }
}

/// The first of two optional values that is present.
pub open spec fn first_present(a: Option<u64>, b: Option<u64>) -> Option<u64> {
    match a {
        Some(x) => Some(x),
        None => b,
    }
}

/// The decimal text of an optional volume; empty when absent.
pub fn volume_string(v: Option<u64>) -> (r: String)
    ensures
        r@ == volume_text(v),
{
    match v {
        Some(n) => u64_to_decimal(n),
        None => String::new(),
    }
}

/// The volume shown for a streamed quote: its cumulative volume, else its
/// last trade size, else nothing.
pub fn quote_volume_string(volume: Option<u64>, size: Option<u64>) -> (r: String)
    ensures
        r@ == volume_text(first_present(volume, size)),
{
    let v = match volume {
        Some(x) => Some(x),
        None => size,
    };
    volume_string(v)
}

/// `Some(text)` when `text` is not empty.
pub fn non_empty(text: String) -> (r: Option<String>)
    ensures
        match r {
            Some(t) => t@ == text@ && text@.len() > 0,
            None => text@.len() == 0,
        },
{
    if text.as_str().unicode_len() == 0 {
        None
    } else {
        Some(text)
    }
}

/// Where the quote stream is read from.
#[derive(Debug, PartialEq, Eq)]
pub enum StreamEndpoint {
    /// A Unix domain socket path.
    Unix(String),
    /// A TCP `host:port` address.
    Tcp(String),
}

/// The endpoint that a stream specification names: `unix://PATH` is a Unix
/// socket, `tcp://ADDR` and anything else a TCP address.
pub open spec fn endpoint_of(spec: Seq<char>) -> (bool, Seq<char>) {
    match after_prefix(spec, "unix://"@) {
        Some(path) => (true, path),
        None => match after_prefix(spec, "tcp://"@) {
            Some(addr) => (false, addr),
            None => (false, spec),
        },
    }
}

/// Whether an endpoint is a Unix socket, and the path or address it names.
pub open spec fn endpoint_view(e: StreamEndpoint) -> (bool, Seq<char>) {
    match e {
        StreamEndpoint::Unix(p) => (true, p@),
        StreamEndpoint::Tcp(a) => (false, a@),
    }
}

/// Reads a stream specification such as `unix:///run/quotes.sock` or
/// `tcp://127.0.0.1:7000`.
pub fn parse_endpoint(spec: &str) -> (r: StreamEndpoint)
    ensures
        endpoint_view(r) == endpoint_of(spec@),
{
    match strip_prefix(spec, "unix://") {
        Some(path) => StreamEndpoint::Unix(String::from_str(path)),
        None => match strip_prefix(spec, "tcp://") {
            Some(addr) => StreamEndpoint::Tcp(String::from_str(addr)),
            None => StreamEndpoint::Tcp(String::from_str(spec)),
        },
    }
}

/// The stream specification to use, given the configured value: present
/// and not blank.
pub fn stream_spec(configured: Option<String>) -> (r: Option<String>)
    ensures
        match r {
            Some(s) => configured is Some && s@ == configured->Some_0@ && trimmed(s@).len() > 0,
            None => configured is None || trimmed(configured->Some_0@).len() == 0,
        },
{
    match configured {
        Some(value) => {
            if trim(value.as_str()).unicode_len() == 0 {
                None
            } else {
                Some(value)
            }
        },
        None => None,
    }
}

/// `entries` holds each key once, and exactly the keys and values of `m`.
spec fn entries_match<V>(entries: Seq<(String, V)>, m: Map<Seq<char>, V>) -> bool {
    &&& forall|i: int, j: int| 0 <= i < j < entries.len() ==> entries[i].0@ != entries[j].0@
    &&& forall|i: int|
        0 <= i < entries.len() ==> {
            &&& m.contains_key(#[trigger] entries[i].0@)
            &&& m[entries[i].0@] == entries[i].1
        }
    &&& forall|k: Seq<char>|
        #[trigger] m.contains_key(k) ==> exists|i: int| 0 <= i < entries.len() && entries[i].0@ == k
}

/// `origins` records, for each key of `m`, an offer that is stored under
/// that key.
spec fn origins_match<V>(origins: Map<Seq<char>, (Option<Seq<char>>, Seq<char>, bool)>, m: Map<Seq<char>, V>) -> bool {
    &&& origins.dom() == m.dom()
    &&& forall|k: Seq<char>|
        #[trigger] origins.contains_key(k) ==> update_key(origins[k].0, origins[k].1, origins[k].2) == Some(k)
}

/// The latest streamed update of each symbol, keyed by normalized symbol.
pub struct QuoteCache<V> {
    entries: Vec<(String, V)>,
    contents: Ghost<Map<Seq<char>, V>>,
    origins: Ghost<Map<Seq<char>, (Option<Seq<char>>, Seq<char>, bool)>>,
}

impl<V> View for QuoteCache<V> {
    type V = Map<Seq<char>, V>;

    closed spec fn view(&self) -> Map<Seq<char>, V> {
        self.contents@
    }
}

impl<V> QuoteCache<V> {
    /// The entries hold each key once, and exactly the keys and values of
    /// the view.
    #[verifier::type_invariant]
    spec fn wf(&self) -> bool {
        &&& entries_match(self.entries@, self.contents@)
        &&& origins_match(self.origins@, self.contents@)
    }

    /// The offer that the entry under `key` came from: the update's kind, its
    /// symbol, and whether it had a live price.
    pub closed spec fn origin(&self, key: Seq<char>) -> (Option<Seq<char>>, Seq<char>, bool) {
        self.origins@[key]
    }

    /// Every key held is the key that the offer it came from was stored under.
    pub open spec fn keys_accepted(&self) -> bool {
        forall|k: Seq<char>|
            #[trigger] self@.contains_key(k) ==> update_key(self.origin(k).0, self.origin(k).1, self.origin(k).2)
                == Some(k)
    }

    /// An empty cache.
    pub fn new() -> (r: Self)
        ensures
            r@ == Map::<Seq<char>, V>::empty(),
            r.keys_accepted(),
    {
        let r = QuoteCache { entries: Vec::new(), contents: Ghost(Map::empty()), origins: Ghost(Map::empty()) };
        assert(r.origins@.dom() =~= r.contents@.dom());
        r
    }

    /// The number of symbols held.
    pub fn len(&self) -> (r: usize)
        ensures
            r == self@.len(),
            self.keys_accepted(),
    {
        proof {
            use_type_invariant(self);
            self.lemma_len();
        }
        self.entries.len()
    }

    proof fn lemma_len(&self)
        requires
            self.wf(),
        ensures
            self@.dom().finite(),
            self@.len() == self.entries@.len(),
    {
        let keys = self.entries@.map_values(|e: (String, V)| e.0@);
        assert forall|i: int, j: int| 0 <= i < keys.len() && 0 <= j < keys.len() && i != j implies keys[i] != keys[j] by {
            if i < j {
                assert(self.entries@[i].0@ != self.entries@[j].0@);
            } else {
                assert(self.entries@[j].0@ != self.entries@[i].0@);
            }
        }
        assert(keys.no_duplicates());
        assert(self@.dom() =~= keys.to_set()) by {
            assert forall|k: Seq<char>| self@.dom().contains(k) implies keys.to_set().contains(k) by {
                let i = choose|i: int| 0 <= i < self.entries@.len() && self.entries@[i].0@ == k;
                assert(keys[i] == k);
            }
            assert forall|k: Seq<char>| keys.to_set().contains(k) implies self@.dom().contains(k) by {
                let i = choose|i: int| 0 <= i < keys.len() && keys[i] == k;
                assert(self.entries@[i].0@ == k);
            }
        }
        keys.unique_seq_to_set();
    }

    fn find(&self, key: &str) -> (r: Option<usize>)
        requires
            self.wf(),
        ensures
            match r {
                Some(i) => i < self.entries@.len() && self.entries@[i as int].0@ == key@,
                None => !self@.contains_key(key@),
            },
    {
        let n = self.entries.len();
        let mut i: usize = 0;
        while i < n
            invariant
                n == self.entries@.len(),
                i <= n,
                forall|k: int| 0 <= k < i ==> self.entries@[k].0@ != key@,
            decreases n - i,
        {
            if same_text(self.entries[i].0.as_str(), key) {
                return Some(i);
            }
            i = i + 1;
        }
        proof {
            if self@.contains_key(key@) {
                let j = choose|j: int| 0 <= j < self.entries@.len() && self.entries@[j].0@ == key@;
                assert(self.entries@[j].0@ != key@);
            }
        }
        None
    }

    /// The value stored under `key`, if any.
    pub fn get(&self, key: &str) -> (r: Option<&V>)
        ensures
            match r {
                Some(v) => self@.contains_key(key@) && *v == self@[key@],
                None => !self@.contains_key(key@),
            },
            self.keys_accepted(),
    {
        proof {
            use_type_invariant(self);
        }
        match self.find(key) {
            Some(i) => Some(&self.entries[i].1),
            None => None,
        }
    }

    /// Stores `value`, offered as `origin`, under `key`, replacing what was
    /// stored there.
    fn insert(&mut self, key: String, value: V, Ghost(origin): Ghost<(Option<Seq<char>>, Seq<char>, bool)>)
        requires
            update_key(origin.0, origin.1, origin.2) == Some(key@),
        ensures
            final(self)@ == old(self)@.insert(key@, value),
            final(self).origin(key@) == origin,
            forall|k: Seq<char>| k != key@ ==> #[trigger] final(self).origin(k) == old(self).origin(k),
    {
        proof {
            use_type_invariant(&*self);
        }
        let ghost k = key@;
        let found = self.find(key.as_str());
        let mut taken = QuoteCache::new();
        core::mem::swap(self, &mut taken);
        proof {
            use_type_invariant(&taken);
        }
        let QuoteCache { mut entries, contents, origins } = taken;
        let ghost o = origins@.insert(k, origin);
        let ghost before = entries@;
        let ghost m = contents@.insert(k, value);
        match found {
            Some(i) => {
                assert(before[i as int].0@ == k);
                entries.set(i, (key, value));
                assert forall|a: int, b: int|
                    0 <= a < b < entries@.len() implies entries@[a].0@ != entries@[b].0@ by {
                    assert(before[a].0@ != before[b].0@);
                }
                assert forall|j: int|
                    0 <= j < entries@.len() implies {
                    &&& m.contains_key(#[trigger] entries@[j].0@)
                    &&& m[entries@[j].0@] == entries@[j].1
                } by {
                    if j != i {
                        if j < i {
                            assert(before[j].0@ != before[i as int].0@);
                        } else {
                            assert(before[i as int].0@ != before[j].0@);
                        }
                    }
                }
                assert forall|kk: Seq<char>| #[trigger] m.contains_key(kk) implies exists|j: int|
                    0 <= j < entries@.len() && entries@[j].0@ == kk by {
                    if kk == k {
                        assert(entries@[i as int].0@ == kk);
                    } else {
                        let j = choose|j: int| 0 <= j < before.len() && before[j].0@ == kk;
                        assert(entries@[j].0@ == kk);
                    }
                }
            },
            None => {
                assert(!contents@.contains_key(k));
                entries.push((key, value));
                assert forall|j: int|
                    0 <= j < entries@.len() implies {
                    &&& m.contains_key(#[trigger] entries@[j].0@)
                    &&& m[entries@[j].0@] == entries@[j].1
                } by {
                    if j < before.len() {
                        assert(entries@[j] == before[j]);
                        assert(contents@.contains_key(before[j].0@));
                    }
                }
                assert forall|kk: Seq<char>| #[trigger] m.contains_key(kk) implies exists|j: int|
                    0 <= j < entries@.len() && entries@[j].0@ == kk by {
                    if kk == k {
                        assert(entries@[before.len() as int].0@ == kk);
                    } else {
                        let j = choose|j: int| 0 <= j < before.len() && before[j].0@ == kk;
                        assert(entries@[j].0@ == kk);
                    }
                }
                assert forall|a: int, b: int|
                    0 <= a < b < entries@.len() implies entries@[a].0@ != entries@[b].0@ by {
                    if b == before.len() {
                        assert(contents@.contains_key(before[a].0@));
                    }
                }
            },
        }
        assert(entries_match(entries@, m));
        assert(o.dom() =~= m.dom());
        assert(origins_match(o, m));
        *self = QuoteCache { entries, contents: Ghost(m), origins: Ghost(o) };
    }

    /// The latest update stored for `symbol`, looked up under its normalized
    /// key.
    pub fn latest(&self, symbol: &str) -> (r: Option<&V>)
        ensures
            match r {
                Some(v) => self@.contains_key(normalized_symbol(symbol@)) && *v == self@[normalized_symbol(
                    symbol@,
                )],
                None => !self@.contains_key(normalized_symbol(symbol@)),
            },
            self.keys_accepted(),
    {
        proof {
            use_type_invariant(self);
        }
        let key = normalize_symbol(symbol);
        self.get(key.as_str())
    }
}

/// The key under which a streamed update is stored, or `None` when it is
/// dropped: heartbeats, updates with a blank symbol, updates without a live
/// price, and updates whose symbol normalizes to nothing are dropped.
pub open spec fn update_key(kind: Option<Seq<char>>, symbol: Seq<char>, has_live_price: bool) -> Option<Seq<char>> {
    if kind == Some("heartbeat"@) || trimmed(symbol).len() == 0 || !has_live_price {
        None
    } else if normalized_symbol(symbol).len() == 0 {
        None
    } else {
        Some(normalized_symbol(symbol))
    }
}

/// The cache contents after a streamed update has been offered.
pub open spec fn after_update<V>(
    before: Map<Seq<char>, V>,
    kind: Option<Seq<char>>,
    symbol: Seq<char>,
    has_live_price: bool,
    update: V,
) -> Map<Seq<char>, V> {
    match update_key(kind, symbol, has_live_price) {
        Some(key) => before.insert(key, update),
        None => before,
    }
}

/// Offers one decoded update of the stream to the cache. `kind` and `symbol`
/// are the update's fields and `has_live_price` tells whether it yields a live
/// price. Returns whether it was stored (and so whether readers should be
/// told that new data arrived).
pub fn offer_update<V>(
    cache: &mut QuoteCache<V>,
    kind: Option<&str>,
    symbol: &str,
    has_live_price: bool,
    update: V,
) -> (stored: bool)
    ensures
        stored == update_key(text_view(kind), symbol@, has_live_price) is Some,
        final(cache)@ == after_update(old(cache)@, text_view(kind), symbol@, has_live_price, update),
        final(cache).keys_accepted(),
        match update_key(text_view(kind), symbol@, has_live_price) {
            Some(key) => final(cache).origin(key) == (text_view(kind), symbol@, has_live_price)
                && forall|k: Seq<char>| k != key ==> #[trigger] final(cache).origin(k) == old(cache).origin(k),
            None => forall|k: Seq<char>| #[trigger] final(cache).origin(k) == old(cache).origin(k),
        },
{
    proof {
        use_type_invariant(&*cache);
    }
    let heartbeat = match kind {
        Some(k) => same_text(k, "heartbeat"),
        None => false,
    };
    proof {
        reveal_strlit("heartbeat");
    }
    if heartbeat || trim(symbol).unicode_len() == 0 {
        return false;
    }
    if !has_live_price {
        return false;
    }
    let key = normalize_symbol(symbol);
    if key.as_str().unicode_len() == 0 {
        return false;
    }
    cache.insert(key, update, Ghost((text_view(kind), symbol@, has_live_price)));
    proof {
        use_type_invariant(&*cache);
    }
    true
}

/// A stream key never starts with the index marker `^`: `^VIX` and `VIX`
/// are one key.
pub proof fn stream_keys_drop_index_marker(symbol: Seq<char>)
    ensures
        normalized_symbol(symbol).len() > 0 ==> normalized_symbol(symbol)[0] != '^',
{
    reveal_strlit("DXY");
    without_leading_starts_otherwise(uppercased(trimmed(symbol)), '^');
}

/// For ASCII symbols the stream key holds no small ASCII letters, and does
/// not change when the symbol's ASCII letters are made small or capital.
pub proof fn stream_key_ignores_ascii_case(s: Seq<char>)
    requires
        is_ascii_text(s),
    ensures
        forall|i: int|
            0 <= i < stream_key(ascii_canonical(s)).len() ==> !is_ascii_small(
                #[trigger] stream_key(ascii_canonical(s))[i],
            ),
        is_ascii_text(s.map_values(|c: char| ascii_lower(c))),
        stream_key(ascii_canonical(s.map_values(|c: char| ascii_lower(c)))) == stream_key(
            ascii_canonical(s),
        ),
        is_ascii_text(s.map_values(|c: char| ascii_upper(c))),
        stream_key(ascii_canonical(s.map_values(|c: char| ascii_upper(c)))) == stream_key(
            ascii_canonical(s),
        ),
{
    let lower = |c: char| ascii_lower(c);
    let upper = |c: char| ascii_upper(c);
    assert forall|c: char| #[trigger] is_white_space(lower(c)) == is_white_space(c) by {
        lemma_ascii_case_char(c);
    }
    assert forall|c: char| #[trigger] is_white_space(upper(c)) == is_white_space(c) by {
        lemma_ascii_case_char(c);
    }
    lemma_trimmed_map(s, lower);
    lemma_trimmed_map(s, upper);
    let t = trimmed(s);
    assert forall|i: int| 0 <= i < s.len() implies (#[trigger] s.map_values(lower)[i] as u32) < 128 by {
        lemma_ascii_case_char(s[i]);
    }
    assert forall|i: int| 0 <= i < s.len() implies (#[trigger] s.map_values(upper)[i] as u32) < 128 by {
        lemma_ascii_case_char(s[i]);
    }
    assert(ascii_canonical(s.map_values(lower)) =~= ascii_canonical(s)) by {
        assert forall|i: int| 0 <= i < t.len() implies ascii_upper(#[trigger] t.map_values(lower)[i])
            == t.map_values(upper)[i] by {
            lemma_ascii_case_char(t[i]);
        }
    }
    assert(ascii_canonical(s.map_values(upper)) =~= ascii_canonical(s)) by {
        assert forall|i: int| 0 <= i < t.len() implies ascii_upper(#[trigger] t.map_values(upper)[i])
            == t.map_values(upper)[i] by {
            lemma_ascii_case_char(t[i]);
        }
    }
    let u = ascii_canonical(s);
    let key = stream_key(u);
    assert forall|i: int| 0 <= i < key.len() implies !is_ascii_small(#[trigger] key[i]) by {
        if u == "DX-Y.NYB"@ {
            reveal_strlit("DXY");
        } else {
            lemma_without_leading_tail(u, '^');
            let j = i + u.len() - key.len();
            assert(key[i] == u[j]);
            lemma_ascii_case_char(t[j]);
        }
    }
}

/// Every key a cache holds (see `QuoteCache::keys_accepted`) is the
/// non-empty stream key of the symbol of an update that was not a heartbeat,
/// had a non-blank symbol and had a live price.
pub proof fn accepted_keys_are_stream_keys(
    kind: Option<Seq<char>>,
    symbol: Seq<char>,
    has_live_price: bool,
    key: Seq<char>,
)
    requires
        update_key(kind, symbol, has_live_price) == Some(key),
    ensures
        key.len() > 0,
        key == normalized_symbol(symbol),
        kind != Some("heartbeat"@),
        trimmed(symbol).len() > 0,
        has_live_price,
{
}

/// Every update that is not a heartbeat, has a non-blank symbol whose stream
/// key is not empty, and has a live price is stored, under that stream key,
/// whatever else it holds: offering it inserts it under the key and leaves
/// the rest of the cache alone.
pub proof fn live_updates_are_stored<V>(
    before: Map<Seq<char>, V>,
    kind: Option<Seq<char>>,
    symbol: Seq<char>,
    update: V,
)
    requires
        kind != Some("heartbeat"@),
        trimmed(symbol).len() > 0,
        normalized_symbol(symbol).len() > 0,
    ensures
        update_key(kind, symbol, true) == Some(normalized_symbol(symbol)),
        after_update(before, kind, symbol, true, update) == before.insert(normalized_symbol(symbol), update),
        after_update(before, kind, symbol, true, update).contains_key(normalized_symbol(symbol)),
        after_update(before, kind, symbol, true, update)[normalized_symbol(symbol)] == update,
{
}

/// The stream key maps `DX-Y.NYB` to `DXY`, drops every leading `^`, and
/// keeps any other upper-cased symbol as it is.
pub proof fn stream_key_renames_only_aliases(upper: Seq<char>)
    ensures
        stream_key("DX-Y.NYB"@) == "DXY"@,
        (upper.len() == 0 || upper[0] != '^') && upper != "DX-Y.NYB"@ ==> stream_key(upper) == upper,
        (upper.len() == 0 || upper[0] != '^') ==> stream_key(seq!['^'] + upper) == stream_key(
            upper,
        ) || upper == "DX-Y.NYB"@,
        (upper.len() == 0 || upper[0] != '^') && upper != "DX-Y.NYB"@ ==> stream_key(
            seq!['^', '^'] + upper,
        ) == upper,
{
    reveal_strlit("DX-Y.NYB");
    if upper.len() == 0 || upper[0] != '^' {
        let m = seq!['^'] + upper;
        let mm = seq!['^', '^'] + upper;
        assert(m != "DX-Y.NYB"@) by {
            assert(m[0] != ("DX-Y.NYB"@)[0]);
        }
        assert(mm != "DX-Y.NYB"@) by {
            assert(mm[0] != ("DX-Y.NYB"@)[0]);
        }
        assert(m.drop_first() =~= upper);
        assert(mm.drop_first() =~= m);
        assert(without_leading(m, '^') == without_leading(upper, '^'));
        assert(without_leading(mm, '^') == without_leading(m, '^'));
    }
}

/// `unix://PATH` names the Unix socket `PATH`, `tcp://ADDR` the TCP address
/// `ADDR`, and any other text is itself a TCP address.
pub proof fn endpoints_follow_their_scheme(rest: Seq<char>, other: Seq<char>)
    ensures
        endpoint_of("unix://"@ + rest) == (true, rest),
        endpoint_of("tcp://"@ + rest) == (false, rest),
        after_prefix(other, "unix://"@) is None && after_prefix(other, "tcp://"@) is None
            ==> endpoint_of(other) == (false, other),
{
    reveal_strlit("unix://");
    reveal_strlit("tcp://");
    let u = "unix://"@ + rest;
    let t = "tcp://"@ + rest;
    assert(u.subrange(0, 7) =~= "unix://"@);
    assert(u.subrange(7, u.len() as int) =~= rest);
    assert(t.subrange(0, 7) != "unix://"@ || t.len() < 7) by {
        if t.len() >= 7 {
            assert(t.subrange(0, 7)[0] != ("unix://"@)[0]);
        }
    }
    assert(t.subrange(0, 6) =~= "tcp://"@);
    assert(t.subrange(6, t.len() as int) =~= rest);
}

/// A status is live when absent or when it spells `live` in any ASCII case;
/// a live status always has four characters.
pub proof fn liveish_status_spellings(status: Seq<char>)
    ensures
        liveish(None),
        liveish(Some("live"@)),
        liveish(Some(status)) ==> status.len() == 4,
        liveish(Some(status)) ==> liveish(Some(status.map_values(|c: char| ascii_lower(c)))),
        equal_ignoring_ascii_case(status, "live"@) ==> liveish(Some(status)),
{
    reveal_strlit("live");
}

/// A shown volume is the decimal text of the first present value; nothing
/// present shows the empty text, and a present value never shows empty.
pub proof fn volume_shows_first_present(a: Option<u64>, b: Option<u64>)
    ensures
        a is Some ==> volume_text(first_present(a, b)) == decimal(a->Some_0 as nat),
        a is None ==> volume_text(first_present(a, b)) == volume_text(b),
        volume_text(None) == Seq::<char>::empty(),
        first_present(a, b) is Some ==> volume_text(first_present(a, b)).len() > 0,
{
    if first_present(a, b) is Some {
        lemma_decimal_digits(first_present(a, b)->Some_0 as nat);
    }
}

/// A stored update is what a later lookup of its symbol finds, under any
/// spelling of the symbol that normalizes to the same key.
pub proof fn latest_reads_stored_update<V>(
    before: Map<Seq<char>, V>,
    kind: Option<Seq<char>>,
    symbol: Seq<char>,
    has_live_price: bool,
    update: V,
    query: Seq<char>,
)
    requires
        update_key(kind, symbol, has_live_price) is Some,
        normalized_symbol(query) == normalized_symbol(symbol),
    ensures
        after_update(before, kind, symbol, has_live_price, update).contains_key(normalized_symbol(query)),
        after_update(before, kind, symbol, has_live_price, update)[normalized_symbol(query)] == update,
{
}

/// Offering an update leaves the entries of all other keys as they were.
pub proof fn update_leaves_other_symbols<V>(
    before: Map<Seq<char>, V>,
    kind: Option<Seq<char>>,
    symbol: Seq<char>,
    has_live_price: bool,
    update: V,
    other: Seq<char>,
)
    requires
        normalized_symbol(other) != normalized_symbol(symbol),
    ensures
        after_update(before, kind, symbol, has_live_price, update).contains_key(normalized_symbol(other))
            == before.contains_key(normalized_symbol(other)),
        before.contains_key(normalized_symbol(other)) ==> after_update(before, kind, symbol, has_live_price, update)[normalized_symbol(other)]
            == before[normalized_symbol(other)],
{
}

/// Heartbeats and updates without a live price never change the cache.
pub proof fn dropped_updates_change_nothing<V>(
    before: Map<Seq<char>, V>,
    kind: Option<Seq<char>>,
    symbol: Seq<char>,
    has_live_price: bool,
    update: V,
)
    requires
        kind == Some("heartbeat"@) || !has_live_price,
    ensures
        after_update(before, kind, symbol, has_live_price, update) == before,
{
}

} // verus!
