//! The Yahoo! Finance and Databento request side: symbol translation, request
//! URLs, and the checks applied to what the services answer.

use vstd::prelude::*;

use crate::quote_stream::{ascii_canonical, lemma_canonical_fixed, lemma_canonical_shape, first_present, normalized_symbol, stream_key, volume_string, volume_text};
use crate::text::{
    is_ascii_text, lemma_trimmed_shape, lemma_before_first_shape,
    before_first, contains_char, eq_ignore_ascii_case, equal_ignoring_ascii_case,
    owned_text_view, same_text, i64_to_decimal, signed_decimal, split_before, text_view, to_uppercase, trim, trim_start_char,
    trimmed, uppercased, without_leading,
};

verus! {

#[verifier::external_type_specification]
#[verifier::external_body]
pub struct ExUri(http::Uri);

#[verifier::external_type_specification]
#[verifier::external_body]
pub struct ExUrlEncodeError(serde_urlencoded::ser::Error);

/// What `serde_urlencoded::to_string` gives for a sequence of key/value
/// pairs: `Some` of the `application/x-www-form-urlencoded` text, or `None`
/// when it reports an error.
pub uninterp spec fn form_urlencoded(pairs: Seq<(Seq<char>, Seq<char>)>) -> Option<Seq<char>>;

/// What `str::parse::<http::Uri>` gives for a text: `Ok` of the parsed URI,
/// or `Err` of the message of its `InvalidUri` error.
pub uninterp spec fn parsed_uri(text: Seq<char>) -> Result<http::Uri, Seq<char>>;

/// Calls `serde_urlencoded::to_string` on the pairs, in their order. The
/// contract only ties the outcome to the pairs through `form_urlencoded`;
/// the percent-encoding itself is left unsaid.
#[verifier::external_body]
fn encode_pairs(pairs: &Vec<(String, String)>) -> (r: Result<String, serde_urlencoded::ser::Error>)
    ensures
        match r {
            Ok(s) => form_urlencoded(pairs.deep_view()) == Some(s@),
            Err(_) => form_urlencoded(pairs.deep_view()) is None,
        },
{
    serde_urlencoded::to_string(pairs)
}

/// Calls `str::parse::<http::Uri>`, and on failure renders the
/// `InvalidUri` error as its message. The contract ties the outcome to the
/// text through `parsed_uri`; which texts `http` accepts, and the wording of
/// its messages, are left unsaid.
#[verifier::external_body]
fn parse_uri(text: &str) -> (r: Result<http::Uri, String>)
    ensures
        match r {
            Ok(u) => parsed_uri(text@) == Ok::<http::Uri, Seq<char>>(u),
            Err(m) => parsed_uri(text@) == Err::<http::Uri, Seq<char>>(m@),
        },
{
    match text.parse::<http::Uri>() {
        Ok(u) => Ok(u),
        Err(e) => Err(e.to_string()),
    }
}

/// The services' data sets, as named in error messages.
#[derive(Clone, Copy, Debug, PartialEq, Eq, Structural)]
pub enum DataKind {
    Chart,
    Company,
    Options,
}

/// The name of a data set in error messages.
pub open spec fn kind_text(kind: DataKind) -> Seq<char> {
    match kind {
        DataKind::Chart => "chart"@,
        DataKind::Company => "company"@,
        DataKind::Options => "options"@,
    }
}

/// Why a request could not be made or its answer could not be used.
#[derive(Debug)]
pub enum ApiError {
    /// The Databento live overlay is switched off.
    DatabentoDisabled,
    /// The Databento live URL is blank.
    EmptyLiveUrl,
    /// The query parameters could not be encoded.
    QueryEncoding,
    /// The request URL is not a valid URI; `http`'s message says why.
    InvalidUri { message: String },
    /// The Databento answer holds no row for the symbol.
    NoLiveRow { symbol: String },
    /// The service answered with an error description.
    Service { kind: DataKind, symbol: String, description: String },
    /// The service answered without exactly one result.
    MissingResult { kind: DataKind, symbol: String },
    /// The cookie header is missing or has no `;`.
    MissingCookie,
}

/// The message that an error is reported with.
pub open spec fn error_message(e: ApiError) -> Seq<char> {
    match e {
        ApiError::DatabentoDisabled => "Databento live overlay is disabled"@,
        ApiError::EmptyLiveUrl => "Databento live URL is empty"@,
        ApiError::QueryEncoding => "could not encode query parameters"@,
        ApiError::InvalidUri { message } => message@,
        ApiError::NoLiveRow { symbol } => "No Databento live row for "@ + symbol@,
        ApiError::Service { kind, symbol, description } => "Error getting "@ + kind_text(kind)
            + " data for "@ + symbol@ + ": "@ + description@,
        ApiError::MissingResult { kind, symbol } => "Failed to get "@ + kind_text(kind)
            + " data for "@ + symbol@,
        ApiError::MissingCookie => "Couldn't fetch cookie"@,
    }
}

impl DataKind {
    /// The name of this data set in error messages.
    pub fn as_str(&self) -> (r: &'static str)
        ensures
            r@ == kind_text(*self),
    {
        match self {
            DataKind::Chart => "chart",
            DataKind::Company => "company",
            DataKind::Options => "options",
        }
    }
}

impl ApiError {
    /// The message this error is reported with.
    pub fn message(&self) -> (r: String)
        ensures
            r@ == error_message(*self),
    {
        match self {
            ApiError::DatabentoDisabled => String::from_str("Databento live overlay is disabled"),
            ApiError::EmptyLiveUrl => String::from_str("Databento live URL is empty"),
            ApiError::QueryEncoding => String::from_str("could not encode query parameters"),
            ApiError::InvalidUri { message } => message.clone(),
            ApiError::NoLiveRow { symbol } => {
                let mut m = String::from_str("No Databento live row for ");
                m.append(symbol.as_str());
                m
            },
            ApiError::Service { kind, symbol, description } => {
                let mut m = String::from_str("Error getting ");
                m.append(kind.as_str());
                m.append(" data for ");
                m.append(symbol.as_str());
                m.append(": ");
                m.append(description.as_str());
                m
            },
            ApiError::MissingResult { kind, symbol } => {
                let mut m = String::from_str("Failed to get ");
                m.append(kind.as_str());
                m.append(" data for ");
                m.append(symbol.as_str());
                m
            },
            ApiError::MissingCookie => String::from_str("Couldn't fetch cookie"),
        }
    }
}

/// The API versions of the Yahoo! Finance endpoints.
#[derive(Debug, Clone, Copy)]
pub enum Version {
    V1,
    V7,
    V8,
    V10,
}

/// The path segment of an API version.
pub open spec fn version_text(v: Version) -> Seq<char> {
    match v {
        Version::V1 => "v1"@,
        Version::V7 => "v7"@,
        Version::V8 => "v8"@,
        Version::V10 => "v10"@,
    }
}

impl Version {
    /// The path segment of this version.
    pub fn as_str(&self) -> (r: &'static str)
        ensures
            r@ == version_text(*self),
    {
        match self {
            Version::V1 => "v1",
            Version::V7 => "v7",
            Version::V8 => "v8",
            Version::V10 => "v10",
        }
    }
}

/// The Yahoo! Finance request symbol: trimmed and upper-cased, with the
/// registered symbols `VIX` and `DXY` mapped to `^VIX` and `DX-Y.NYB`.
pub open spec fn yahoo_request_symbol(s: Seq<char>) -> Seq<char> {
    yahoo_alias(uppercased(trimmed(s)))
}

/// The Yahoo! symbol of an already trimmed and upper-cased symbol.
pub open spec fn yahoo_alias(upper: Seq<char>) -> Seq<char> {
    if upper == "VIX"@ {
        "^VIX"@
    } else if upper == "DXY"@ {
        "DX-Y.NYB"@
    } else {
        upper
    }
}

/// The Databento request symbol: trimmed and upper-cased, with `^VIX` mapped
/// to `VIX`, `DX-Y.NYB` to `DXY`, and leading `^` removed otherwise.
pub open spec fn databento_request_symbol(s: Seq<char>) -> Seq<char> {
    databento_alias(uppercased(trimmed(s)))
}

/// The Databento symbol of an already trimmed and upper-cased symbol.
pub open spec fn databento_alias(upper: Seq<char>) -> Seq<char> {
    if upper == "^VIX"@ {
        "VIX"@
    } else if upper == "DX-Y.NYB"@ {
        "DXY"@
    } else {
        without_leading(upper, '^')
    }
}

/// A request URL: `BASE/VERSION/PATH`, followed by `?QUERY` when there is a
/// query.
pub open spec fn request_url(base: Seq<char>, version: Version, path: Seq<char>, query: Option<Seq<char>>) -> Seq<char> {
    let head = base + "/"@ + version_text(version) + "/"@ + path;
    match query {
        Some(q) => head + "?"@ + q,
        None => head,
    }
}

/// The query text of a parameter list; empty when it cannot be encoded.
pub open spec fn query_text(pairs: Seq<(Seq<char>, Seq<char>)>) -> Seq<char> {
    match form_urlencoded(pairs) {
        Some(q) => q,
        None => Seq::<char>::empty(),
    }
}

/// The query text of optional parameters.
pub open spec fn optional_query(params: Option<Seq<(Seq<char>, Seq<char>)>>) -> Option<Seq<char>> {
    match params {
        Some(p) => Some(query_text(p)),
        None => None,
    }
}

/// The outcome of parsing a request URL.
pub open spec fn uri_outcome(text: Seq<char>, r: Result<http::Uri, ApiError>) -> bool {
    match r {
        Ok(u) => parsed_uri(text) == Ok::<http::Uri, Seq<char>>(u),
        Err(e) => e matches ApiError::InvalidUri { message } && parsed_uri(text) == Err::<
            http::Uri,
            Seq<char>,
        >(message@),
    }
}

fn pair(key: &str, value: &str) -> (r: (String, String))
    ensures
        r.deep_view() == (key@, value@),
{
    (String::from_str(key), String::from_str(value))
}

/// The Yahoo! Finance API root.
pub open spec fn yahoo_base() -> Seq<char> {
    "https://query1.finance.yahoo.com"@
}

/// The parameters of a chart request, in the order they are sent.
pub open spec fn chart_params(interval: Seq<char>, range: Seq<char>, include_pre_post: bool) -> Seq<(Seq<char>, Seq<char>)> {
    let base = seq![("interval"@, interval), ("range"@, range)];
    if include_pre_post {
        base.push(("includePrePost"@, "true"@))
    } else {
        base
    }
}

/// The parameters of a company request.
pub open spec fn company_params(crumb: Seq<char>) -> Seq<(Seq<char>, Seq<char>)> {
    seq![("modules"@, "price,assetProfile"@), ("crumb"@, crumb)]
}

/// Where a client sends its Yahoo! Finance requests.
#[derive(Debug)]
pub struct Client {
    base: String,
}

impl Client {
    /// The API root this client sends requests to.
    pub closed spec fn base_url(&self) -> Seq<char> {
        self.base@
    }

    /// A client of the public Yahoo! Finance API.
    pub fn new() -> (r: Client)
        ensures
            r.base_url() == yahoo_base(),
    {
        Client { base: String::from_str("https://query1.finance.yahoo.com") }
    }

    /// The Yahoo! Finance symbol to request for a registered symbol.
    pub fn yahoo_symbol(symbol: &str) -> (r: String)
        ensures
            r@ == yahoo_request_symbol(symbol@),
            is_ascii_text(symbol@) ==> r@ == yahoo_alias(ascii_canonical(symbol@)),
    {
        let t = trim(symbol);
        let upper = to_uppercase(t);
        proof {
            if is_ascii_text(symbol@) {
                lemma_trimmed_shape(symbol@);
            }
        }
        if same_text(upper.as_str(), "VIX") {
            String::from_str("^VIX")
        } else if same_text(upper.as_str(), "DXY") {
            String::from_str("DX-Y.NYB")
        } else {
            upper
        }
    }

    /// The Databento symbol to request for a registered or Yahoo! symbol.
    pub fn databento_symbol(symbol: &str) -> (r: String)
        ensures
            r@ == databento_request_symbol(symbol@),
            is_ascii_text(symbol@) ==> r@ == databento_alias(ascii_canonical(symbol@)),
    {
        let t = trim(symbol);
        let upper = to_uppercase(t);
        proof {
            if is_ascii_text(symbol@) {
                lemma_trimmed_shape(symbol@);
            }
        }
        if same_text(upper.as_str(), "^VIX") {
            String::from_str("VIX")
        } else if same_text(upper.as_str(), "DX-Y.NYB") {
            String::from_str("DXY")
        } else {
            String::from_str(trim_start_char(upper.as_str(), '^'))
        }
    }

    /// The text of a request URL: `BASE/VERSION/PATH`, then `?QUERY` when a
    /// query is given.
    pub fn url_text(&self, version: Version, path: &str, query: Option<&str>) -> (r: String)
        ensures
            r@ == request_url(self.base_url(), version, path@, text_view(query)),
    {
        let mut url = self.base.clone();
        url.append("/");
        url.append(version.as_str());
        url.append("/");
        url.append(path);
        match query {
            Some(q) => {
                url.append("?");
                url.append(q);
            },
            None => {},
        }
        url
    }

    /// The request URI for `path` under `version`, with the parameters (in
    /// their order) as query when there are any. Parameters that cannot be
    /// encoded leave an empty query.
    pub fn get_url(&self, version: Version, path: &str, params: Option<&Vec<(String, String)>>) -> (r: Result<http::Uri, ApiError>)
        ensures
            uri_outcome(
                request_url(
                    self.base_url(),
                    version,
                    path@,
                    optional_query(
                        match params {
                            Some(p) => Some(p.deep_view()),
                            None => None,
                        },
                    ),
                ),
                r,
            ),
    {
        let query: Option<String> = match params {
            Some(p) => match encode_pairs(p) {
                Ok(q) => Some(q),
                Err(_) => Some(String::new()),
            },
            None => None,
        };
        let url = match &query {
            Some(q) => self.url_text(version, path, Some(q.as_str())),
            None => self.url_text(version, path, None),
        };
        match parse_uri(url.as_str()) {
            Ok(u) => Ok(u),
            Err(message) => Err(ApiError::InvalidUri { message }),
        }
    }

    /// The chart request for `symbol` (translated to its Yahoo! symbol) over
    /// `range` sampled every `interval`, optionally with pre/post market data.
    pub fn chart_url(&self, symbol: &str, interval: &str, range: &str, include_pre_post: bool) -> (r: Result<http::Uri, ApiError>)
        ensures
            uri_outcome(
                request_url(
                    self.base_url(),
                    Version::V8,
                    "finance/chart/"@ + yahoo_request_symbol(symbol@),
                    Some(query_text(chart_params(interval@, range@, include_pre_post))),
                ),
                r,
            ),
    {
        let mut params: Vec<(String, String)> = Vec::new();
        params.push(pair("interval", interval));
        params.push(pair("range", range));
        if include_pre_post {
            params.push(pair("includePrePost", "true"));
        }
        assert(params.deep_view() =~= chart_params(interval@, range@, include_pre_post));
        let mut path = String::from_str("finance/chart/");
        let request_symbol = Self::yahoo_symbol(symbol);
        path.append(request_symbol.as_str());
        self.get_url(Version::V8, path.as_str(), Some(&params))
    }

    /// The company profile request for `symbol` (translated to its Yahoo!
    /// symbol), authorized by `crumb`.
    pub fn company_url(&self, symbol: &str, crumb: &str) -> (r: Result<http::Uri, ApiError>)
        ensures
            uri_outcome(
                request_url(
                    self.base_url(),
                    Version::V10,
                    "finance/quoteSummary/"@ + yahoo_request_symbol(symbol@),
                    Some(query_text(company_params(crumb@))),
                ),
                r,
            ),
    {
        let mut params: Vec<(String, String)> = Vec::new();
        params.push(pair("modules", "price,assetProfile"));
        params.push(pair("crumb", crumb));
        assert(params.deep_view() =~= company_params(crumb@));
        let mut path = String::from_str("finance/quoteSummary/");
        let request_symbol = Self::yahoo_symbol(symbol);
        path.append(request_symbol.as_str());
        self.get_url(Version::V10, path.as_str(), Some(&params))
    }

    /// The request for the option expiration dates of `symbol`, which is sent
    /// as given.
    pub fn options_dates_url(&self, symbol: &str) -> (r: Result<http::Uri, ApiError>)
        ensures
            uri_outcome(request_url(self.base_url(), Version::V7, "finance/options/"@ + symbol@, None), r),
    {
        let mut path = String::from_str("finance/options/");
        path.append(symbol);
        self.get_url(Version::V7, path.as_str(), None)
    }

    /// The request for the option chain of `symbol` (sent as given) that
    /// expires at `expiration_date`.
    pub fn options_url(&self, symbol: &str, expiration_date: i64) -> (r: Result<http::Uri, ApiError>)
        ensures
            uri_outcome(
                request_url(
                    self.base_url(),
                    Version::V7,
                    "finance/options/"@ + symbol@,
                    Some(query_text(seq![("date"@, signed_decimal(expiration_date as int))])),
                ),
                r,
            ),
    {
        let date = i64_to_decimal(expiration_date);
        let mut params: Vec<(String, String)> = Vec::new();
        params.push(pair("date", date.as_str()));
        assert(params.deep_view() =~= seq![("date"@, signed_decimal(expiration_date as int))]);
        let mut path = String::from_str("finance/options/");
        path.append(symbol);
        self.get_url(Version::V7, path.as_str(), Some(&params))
    }

    /// The request for a crumb.
    pub fn crumb_url(&self) -> (r: Result<http::Uri, ApiError>)
        ensures
            uri_outcome(request_url(self.base_url(), Version::V1, "test/getcrumb"@, None), r),
    {
        self.get_url(Version::V1, "test/getcrumb", None)
    }
}

/// The Databento request symbol of any symbol is the key under which the
/// quote stream stores that symbol's updates.
pub proof fn databento_symbol_is_stream_key(symbol: Seq<char>)
    ensures
        databento_request_symbol(symbol) == normalized_symbol(symbol),
{
    let upper = uppercased(trimmed(symbol));
    if upper == "^VIX"@ {
        reveal_strlit("^VIX");
        reveal_strlit("VIX");
        reveal_strlit("DX-Y.NYB");
        assert(upper[0] == '^');
        assert(("DX-Y.NYB"@)[0] == 'D');
        assert(upper != "DX-Y.NYB"@);
        assert(upper.drop_first() =~= "VIX"@);
        assert(without_leading(upper, '^') == without_leading(upper.drop_first(), '^'));
    }
}

/// The literal symbols the aliases produce are in canonical form.
proof fn lemma_alias_literals()
    ensures
        ascii_canonical("^VIX"@) == "^VIX"@,
        ascii_canonical("DX-Y.NYB"@) == "DX-Y.NYB"@,
        ascii_canonical("VIX"@) == "VIX"@,
        ascii_canonical("DXY"@) == "DXY"@,
        "^VIX"@ != "DX-Y.NYB"@,
        "VIX"@ != "DX-Y.NYB"@,
        "DXY"@ != "DX-Y.NYB"@,
        "DX-Y.NYB"@ != "^VIX"@,
        without_leading("^VIX"@, '^') == "VIX"@,
        without_leading("VIX"@, '^') == "VIX"@,
        without_leading("DXY"@, '^') == "DXY"@,
        is_ascii_text("^VIX"@),
        is_ascii_text("DX-Y.NYB"@),
        is_ascii_text("VIX"@),
        is_ascii_text("DXY"@),
{
    reveal_strlit("^VIX");
    reveal_strlit("DX-Y.NYB");
    reveal_strlit("VIX");
    reveal_strlit("DXY");
    assert("^VIX"@ =~= seq!['^', 'V', 'I', 'X']);
    assert("DX-Y.NYB"@ =~= seq!['D', 'X', '-', 'Y', '.', 'N', 'Y', 'B']);
    assert("VIX"@ =~= seq!['V', 'I', 'X']);
    assert("DXY"@ =~= seq!['D', 'X', 'Y']);
    lemma_canonical_fixed("^VIX"@);
    lemma_canonical_fixed("DX-Y.NYB"@);
    lemma_canonical_fixed("VIX"@);
    lemma_canonical_fixed("DXY"@);
    assert(("^VIX"@).drop_first() =~= "VIX"@);
    assert(without_leading("VIX"@, '^') == "VIX"@);
    assert(without_leading("^VIX"@, '^') == without_leading(("^VIX"@).drop_first(), '^'));
}

/// For an ASCII symbol whose canonical form `u` does not start with `^` and
/// is not `DX-Y.NYB`, the Yahoo! symbol is ASCII and translates back to `u`
/// as a Databento symbol: `VIX` -> `^VIX` -> `VIX`, `DXY` -> `DX-Y.NYB` ->
/// `DXY`, and every other symbol to itself.
pub proof fn yahoo_symbol_round_trips(s: Seq<char>)
    requires
        is_ascii_text(s),
        ascii_canonical(s).len() == 0 || ascii_canonical(s)[0] != '^',
        ascii_canonical(s) != "DX-Y.NYB"@,
    ensures
        is_ascii_text(yahoo_alias(ascii_canonical(s))),
        databento_alias(ascii_canonical(yahoo_alias(ascii_canonical(s)))) == ascii_canonical(s),
{
    let u = ascii_canonical(s);
    lemma_alias_literals();
    lemma_canonical_shape(s);
    if u != "VIX"@ && u != "DXY"@ {
        lemma_canonical_fixed(u);
        reveal_strlit("^VIX");
        assert(u != "^VIX"@) by {
            if u.len() > 0 {
                assert(("^VIX"@)[0] == '^');
            }
        }
        assert(without_leading(u, '^') == u);
    }
}

/// For an ASCII symbol, its Yahoo! symbol is ASCII and has the same stream
/// key: a registered symbol and its Yahoo! request symbol share one cache
/// entry.
pub proof fn yahoo_symbol_shares_stream_key(s: Seq<char>)
    requires
        is_ascii_text(s),
    ensures
        is_ascii_text(yahoo_alias(ascii_canonical(s))),
        stream_key(ascii_canonical(yahoo_alias(ascii_canonical(s)))) == stream_key(ascii_canonical(s)),
{
    let u = ascii_canonical(s);
    lemma_alias_literals();
    lemma_canonical_shape(s);
    if u != "VIX"@ && u != "DXY"@ {
        lemma_canonical_fixed(u);
    }
}

/// The Databento symbol renames `^VIX` to `VIX` and `DX-Y.NYB` to `DXY`,
/// drops one leading `^` from any other marked symbol, and requests every
/// other trimmed, upper-cased symbol as it is.
pub proof fn databento_renames_only_aliases(upper: Seq<char>)
    ensures
        databento_alias("^VIX"@) == "VIX"@,
        databento_alias("DX-Y.NYB"@) == "DXY"@,
        (upper.len() == 0 || upper[0] != '^') && upper != "DX-Y.NYB"@ ==> databento_alias(upper)
            == upper,
        (upper.len() == 0 || upper[0] != '^') && seq!['^'] + upper != "^VIX"@ ==> databento_alias(
            seq!['^'] + upper,
        ) == upper,
{
    lemma_alias_literals();
    reveal_strlit("^VIX");
    reveal_strlit("DX-Y.NYB");
    if upper.len() == 0 || upper[0] != '^' {
        if upper.len() > 0 {
            assert(upper != "^VIX"@);
        }
        let m = seq!['^'] + upper;
        assert(m != "DX-Y.NYB"@) by {
            assert(m[0] != ("DX-Y.NYB"@)[0]);
        }
        assert(m.drop_first() =~= upper);
        assert(without_leading(m, '^') == without_leading(upper, '^'));
    }
}

/// The live endpoint is the first configured URL, else the fallback URL,
/// else the local bridge; the dataset and schema default to `EQUS.MINI` and
/// `mbp-1`; the symbol sent is the Databento symbol.
pub proof fn live_settings_select_in_order(s: DatabentoSettings, symbol: Seq<char>)
    ensures
        s.live_url is Some ==> live_base(s) == s.live_url->Some_0@,
        s.live_url is None && s.fallback_live_url is Some ==> live_base(s) == s.fallback_live_url->Some_0@,
        s.live_url is None && s.fallback_live_url is None ==> live_base(s) == "http://127.0.0.1:6910/live/get_ws_data"@,
        live_params(s, symbol).len() == 3,
        live_params(s, symbol)[0] == ("symbol"@, databento_request_symbol(symbol)),
        live_params(s, symbol)[1].0 == "dataset"@,
        live_params(s, symbol)[1].1 == (match s.dataset { Some(d) => d@, None => "EQUS.MINI"@ }),
        live_params(s, symbol)[2].0 == "live_schema"@,
        live_params(s, symbol)[2].1 == (match s.live_schema { Some(d) => d@, None => "mbp-1"@ }),
{
}

/// When the overlay is on and the endpoint is not blank, the request is the
/// endpoint, then `&` if it already holds a `?` and `?` otherwise, then the
/// encoded parameters; a switch set to off wins over everything else.
pub proof fn live_request_layout(s: DatabentoSettings, symbol: Seq<char>)
    ensures
        !overlay_enabled(owned_text_view(s.enabled)) ==> live_request_text(s, symbol) == Err::<
            Seq<char>,
            ApiError,
        >(ApiError::DatabentoDisabled),
        overlay_enabled(owned_text_view(s.enabled)) && trimmed(live_base(s)).len() == 0
            ==> live_request_text(s, symbol) == Err::<Seq<char>, ApiError>(ApiError::EmptyLiveUrl),
        overlay_enabled(owned_text_view(s.enabled)) && trimmed(live_base(s)).len() > 0 && form_urlencoded(
            live_params(s, symbol),
        ) is Some ==> {
            let q = form_urlencoded(live_params(s, symbol))->Some_0;
            let base = live_base(s);
            &&& base.contains('?') ==> live_request_text(s, symbol) == Ok::<Seq<char>, ApiError>(
                base + seq!['&'] + q,
            )
            &&& !base.contains('?') ==> live_request_text(s, symbol) == Ok::<Seq<char>, ApiError>(
                base + seq!['?'] + q,
            )
        },
{
    reveal_strlit("&");
    reveal_strlit("?");
    assert("&"@ =~= seq!['&']);
    assert("?"@ =~= seq!['?']);
}

/// A request URL is the API root, `/`, the version, `/` and the path; a
/// query, when there is one, follows after a `?`.
pub proof fn request_url_layout(base: Seq<char>, version: Version, path: Seq<char>, query: Seq<char>)
    ensures
        request_url(base, version, path, None).len() == base.len() + version_text(version).len()
            + path.len() + 2,
        request_url(base, version, path, None).subrange(0, base.len() as int) == base,
        request_url(base, version, path, None)[base.len() as int] == '/',
        request_url(base, version, path, None).subrange(
            request_url(base, version, path, None).len() - path.len(),
            request_url(base, version, path, None).len() as int,
        ) == path,
        request_url(base, version, path, Some(query)) == request_url(base, version, path, None)
            + seq!['?'] + query,
        version_text(Version::V1) == "v1"@ && version_text(Version::V7) == "v7"@ && version_text(
            Version::V8,
        ) == "v8"@ && version_text(Version::V10) == "v10"@,
{
    reveal_strlit("/");
    reveal_strlit("?");
    assert("?"@ =~= seq!['?']);
    let u = request_url(base, version, path, None);
    assert(u.subrange(0, base.len() as int) =~= base);
    assert(u.subrange(u.len() - path.len(), u.len() as int) =~= path);
}

/// The cookie is the header text before its first `;`: it holds no `;`, and
/// the header starts with it followed by `;`. A header without `;` gives no
/// cookie.
pub proof fn cookie_is_text_before_first_semicolon(header: Seq<char>)
    ensures
        before_first(header, ';') is None <==> !header.contains(';'),
        before_first(header, ';') matches Some(c) ==> {
            &&& !c.contains(';')
            &&& c.len() < header.len()
            &&& header.subrange(0, c.len() as int) == c
            &&& header[c.len() as int] == ';'
        },
    decreases header.len(),
{
    lemma_before_first_shape(header, ';');
}

/// Only the registered symbols `VIX` and `DXY` are renamed for Yahoo!:
/// every other trimmed, upper-cased symbol is requested as it is.
pub proof fn yahoo_renames_only_registered_aliases(upper: Seq<char>)
    ensures
        upper != "VIX"@ && upper != "DXY"@ ==> yahoo_alias(upper) == upper,
        yahoo_alias("VIX"@) == "^VIX"@,
        yahoo_alias("DXY"@) == "DX-Y.NYB"@,
{
    lemma_alias_literals();
    reveal_strlit("VIX");
    reveal_strlit("DXY");
    assert("DXY"@ != "VIX"@) by {
        assert(("DXY"@)[0] != ("VIX"@)[0]);
    }
}

/// A chart request asks for the interval first and the range second, and adds
/// `includePrePost=true` exactly when pre/post market data is wanted, for
/// every interval and range.
pub proof fn chart_params_follow_the_flag(interval: Seq<char>, range: Seq<char>)
    ensures
        chart_params(interval, range, false).len() == 2,
        chart_params(interval, range, false)[0] == ("interval"@, interval),
        chart_params(interval, range, false)[1] == ("range"@, range),
        chart_params(interval, range, true) == chart_params(interval, range, false).push(
            ("includePrePost"@, "true"@),
        ),
        !chart_params(interval, range, false).contains(("includePrePost"@, "true"@)),
{
    reveal_strlit("interval");
    reveal_strlit("range");
    reveal_strlit("includePrePost");
    let p = chart_params(interval, range, false);
    if p.contains(("includePrePost"@, "true"@)) {
        let i = choose|i: int| 0 <= i < p.len() && p[i] == ("includePrePost"@, "true"@);
        if i == 0 {
            assert(("includePrePost"@).len() != ("interval"@).len());
        } else {
            assert(("includePrePost"@).len() != ("range"@).len());
        }
    }
}

/// A company request sends two parameters: the modules `price,assetProfile`
/// and then the crumb exactly as given, for every crumb.
pub proof fn company_params_carry_the_crumb(crumb: Seq<char>)
    ensures
        company_params(crumb).len() == 2,
        company_params(crumb)[0] == ("modules"@, "price,assetProfile"@),
        company_params(crumb)[1].0 == "crumb"@,
        company_params(crumb)[1].1 == crumb,
{
}

/// The overlay switch turns the overlay off for exactly seven spellings of
/// off; an unset switch, and any other value (such as `true` or `1`), leaves
/// it on.
pub proof fn overlay_off_spellings(flag: Seq<char>)
    ensures
        overlay_enabled(None),
        !overlay_enabled(Some(flag)) <==> set!["0"@, "false"@, "FALSE"@, "no"@, "NO"@, "off"@, "OFF"@].contains(flag),
{
}

/// The environment settings of the Databento live overlay; each is `None`
/// when unset.
#[derive(Debug)]
pub struct DatabentoSettings {
    /// `TICKRS_DATABENTO_ENABLED`.
    pub enabled: Option<String>,
    /// `TICKRS_DATABENTO_LIVE_URL`.
    pub live_url: Option<String>,
    /// `DATABENTO_LIVE_URL`, used when the first is unset.
    pub fallback_live_url: Option<String>,
    /// `TICKRS_DATABENTO_DATASET`.
    pub dataset: Option<String>,
    /// `TICKRS_DATABENTO_LIVE_SCHEMA`.
    pub live_schema: Option<String>,
}

/// The overlay is on unless the switch is one of the usual spellings of off.
pub open spec fn overlay_enabled(flag: Option<Seq<char>>) -> bool {
    match flag {
        Some(v) => !(v == "0"@ || v == "false"@ || v == "FALSE"@ || v == "no"@ || v == "NO"@ || v
            == "off"@ || v == "OFF"@),
        None => true,
    }
}

/// The first of two optional texts that is set, else `default`.
pub open spec fn text_or(a: Option<Seq<char>>, b: Option<Seq<char>>, default: Seq<char>) -> Seq<char> {
    match a {
        Some(x) => x,
        None => match b {
            Some(y) => y,
            None => default,
        },
    }
}

/// The Databento live endpoint used when none is configured.
pub open spec fn default_live_url() -> Seq<char> {
    "http://127.0.0.1:6910/live/get_ws_data"@
}

/// The live endpoint that the settings select.
pub open spec fn live_base(s: DatabentoSettings) -> Seq<char> {
    text_or(owned_text_view(s.live_url), owned_text_view(s.fallback_live_url), default_live_url())
}

/// The parameters of a Databento live request, in the order they are sent.
pub open spec fn live_params(s: DatabentoSettings, symbol: Seq<char>) -> Seq<(Seq<char>, Seq<char>)> {
    seq![
        ("symbol"@, databento_request_symbol(symbol)),
        ("dataset"@, text_or(owned_text_view(s.dataset), None, "EQUS.MINI"@)),
        ("live_schema"@, text_or(owned_text_view(s.live_schema), None, "mbp-1"@)),
    ]
}

/// The text of the Databento live request URL, or why there is none: the
/// overlay is off, the endpoint is blank, or the parameters cannot be encoded.
/// The query is joined with `&` when the endpoint already has one, else `?`.
pub open spec fn live_request_text(s: DatabentoSettings, symbol: Seq<char>) -> Result<Seq<char>, ApiError> {
    let base = live_base(s);
    if !overlay_enabled(owned_text_view(s.enabled)) {
        Err(ApiError::DatabentoDisabled)
    } else if trimmed(base).len() == 0 {
        Err(ApiError::EmptyLiveUrl)
    } else {
        match form_urlencoded(live_params(s, symbol)) {
            Some(q) => Ok(base + (if base.contains('?') { "&"@ } else { "?"@ }) + q),
            None => Err(ApiError::QueryEncoding),
        }
    }
}

/// Whether the overlay switch leaves the Databento overlay on.
pub fn databento_enabled(flag: Option<&str>) -> (r: bool)
    ensures
        r == overlay_enabled(text_view(flag)),
{
    match flag {
        Some(v) => !(same_text(v, "0") || same_text(v, "false") || same_text(v, "FALSE")
            || same_text(v, "no") || same_text(v, "NO") || same_text(v, "off") || same_text(
            v,
            "OFF",
        )),
        None => true,
    }
}

fn text_or_default<'a>(value: &'a Option<String>, default: &'a str) -> (r: &'a str)
    ensures
        r@ == text_or(owned_text_view(*value), None, default@),
{
    match value {
        Some(v) => v.as_str(),
        None => default,
    }
}

/// The Databento live request for `symbol` under `settings`.
pub fn databento_live_url(settings: &DatabentoSettings, symbol: &str) -> (r: Result<http::Uri, ApiError>)
    ensures
        match live_request_text(*settings, symbol@) {
            Ok(text) => uri_outcome(text, r),
            Err(e) => r matches Err(e2) && e2 == e,
        },
{
    let flag: Option<&str> = match &settings.enabled {
        Some(v) => Some(v.as_str()),
        None => None,
    };
    if !databento_enabled(flag) {
        return Err(ApiError::DatabentoDisabled);
    }
    let base: &str = match &settings.live_url {
        Some(u) => u.as_str(),
        None => match &settings.fallback_live_url {
            Some(u) => u.as_str(),
            None => "http://127.0.0.1:6910/live/get_ws_data",
        },
    };
    if trim(base).unicode_len() == 0 {
        return Err(ApiError::EmptyLiveUrl);
    }
    let request_symbol = Client::databento_symbol(symbol);
    let mut params: Vec<(String, String)> = Vec::new();
    params.push(pair("symbol", request_symbol.as_str()));
    params.push(pair("dataset", text_or_default(&settings.dataset, "EQUS.MINI")));
    params.push(pair("live_schema", text_or_default(&settings.live_schema, "mbp-1")));
    assert(params.deep_view() =~= live_params(*settings, symbol@));
    let query = match encode_pairs(&params) {
        Ok(q) => q,
        Err(_) => {
            return Err(ApiError::QueryEncoding);
        },
    };
    let mut url = String::from_str(base);
    if contains_char(base, '?') {
        url.append("&");
    } else {
        url.append("?");
    }
    url.append(query.as_str());
    match parse_uri(url.as_str()) {
        Ok(u) => Ok(u),
        Err(message) => Err(ApiError::InvalidUri { message }),
    }
}

/// The row of a Databento answer that belongs to `symbol`: the first whose
/// symbol equals the Databento request symbol up to ASCII case.
pub fn select_live_row(row_symbols: &Vec<String>, symbol: &str) -> (r: Result<usize, ApiError>)
    ensures
        match r {
            Ok(i) => {
                &&& i < row_symbols@.len()
                &&& equal_ignoring_ascii_case(row_symbols@[i as int]@, databento_request_symbol(symbol@))
                &&& forall|k: int|
                    0 <= k < i ==> !equal_ignoring_ascii_case(
                        #[trigger] row_symbols@[k]@,
                        databento_request_symbol(symbol@),
                    )
            },
            Err(e) => {
                &&& e matches ApiError::NoLiveRow { symbol: s } && s@ == symbol@
                &&& forall|k: int|
                    0 <= k < row_symbols@.len() ==> !equal_ignoring_ascii_case(
                        #[trigger] row_symbols@[k]@,
                        databento_request_symbol(symbol@),
                    )
            },
        },
{
    let request_symbol = Client::databento_symbol(symbol);
    let n = row_symbols.len();
    let mut i: usize = 0;
    while i < n
        invariant
            n == row_symbols@.len(),
            i <= n,
            request_symbol@ == databento_request_symbol(symbol@),
            forall|k: int|
                0 <= k < i ==> !equal_ignoring_ascii_case(
                    #[trigger] row_symbols@[k]@,
                    databento_request_symbol(symbol@),
                ),
        decreases n - i,
    {
        if eq_ignore_ascii_case(row_symbols[i].as_str(), request_symbol.as_str()) {
            return Ok(i);
        }
        i = i + 1;
    }
    Err(ApiError::NoLiveRow { symbol: String::from_str(symbol) })
}

/// The single result of an answer: the service's error when it reports one,
/// else its one result, else a missing-result error.
pub open spec fn answer_outcome<T>(
    kind: DataKind,
    symbol: Seq<char>,
    error: Option<Seq<char>>,
    results: Option<Seq<T>>,
    r: Result<T, ApiError>,
) -> bool {
    match error {
        Some(description) => r matches Err(ApiError::Service { kind: k, symbol: s, description: d })
            && k == kind && s@ == symbol && d@ == description,
        None => match results {
            Some(v) if v.len() == 1 => r == Ok::<T, ApiError>(v[0]),
            _ => r matches Err(ApiError::MissingResult { kind: k, symbol: s }) && k == kind && s@
                == symbol,
        },
    }
}

/// Takes the one result of a service answer for `symbol`, or reports the
/// service's error, or that there was not exactly one result.
pub fn single_result<T>(
    kind: DataKind,
    symbol: &str,
    error_description: Option<String>,
    results: Option<Vec<T>>,
) -> (r: Result<T, ApiError>)
    ensures
        answer_outcome(
            kind,
            symbol@,
            owned_text_view(error_description),
            match results {
                Some(v) => Some(v@),
                None => None,
            },
            r,
        ),
{
    match error_description {
        Some(description) => Err(ApiError::Service { kind, symbol: String::from_str(symbol), description }),
        None => match results {
            Some(mut v) => {
                if v.len() == 1 {
                    Ok(v.remove(0))
                } else {
                    Err(ApiError::MissingResult { kind, symbol: String::from_str(symbol) })
                }
            },
            None => Err(ApiError::MissingResult { kind, symbol: String::from_str(symbol) }),
        },
    }
}

/// The cookie to send with crumb requests: the `Set-Cookie` header text up to
/// its first `;`. Fails when the header is missing or has no `;`.
pub fn cookie_from_header(header: Option<&str>) -> (r: Result<String, ApiError>)
    ensures
        match r {
            Ok(c) => header is Some && before_first(header->Some_0@, ';') == Some(c@),
            Err(e) => e == ApiError::MissingCookie && (header is None || before_first(
                header->Some_0@,
                ';',
            ) is None),
        },
{
    match header {
        Some(h) => match split_before(h, ';') {
            Some(value) => Ok(String::from_str(value)),
            None => Err(ApiError::MissingCookie),
        },
        None => Err(ApiError::MissingCookie),
    }
}

/// Whether a Databento row status marks the row as live: exactly `live`.
pub fn is_live_status(status: Option<&str>) -> (r: bool)
    ensures
        r == (text_view(status) == Some("live"@)),
{
    match status {
        Some(s) => same_text(s, "live"),
        None => false,
    }
}

/// The volume shown for a Databento row: its trade size, else its bid size,
/// else its ask size, else nothing.
pub fn databento_volume_string(size: Option<u64>, bid_size: Option<u64>, ask_size: Option<u64>) -> (r: String)
    ensures
        r@ == volume_text(first_present(first_present(size, bid_size), ask_size)),
{
    let v = match size {
        Some(x) => Some(x),
        None => match bid_size {
            Some(x) => Some(x),
            None => ask_size,
        },
    };
    volume_string(v)
}

} // verus!
